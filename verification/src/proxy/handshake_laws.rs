//! What the SOCKS handshakes mean, byte by byte: a message with the given fields, and
//! whatever comes behind it, is read as those fields.

use vstd::prelude::*;
use vstd::utf8::{decode_utf8, valid_utf8};

use crate::proxy::address::{big_endian, lemma_big_endian_fits, lemma_octets_make_numbers, IpAddr};
use crate::proxy::reader::{lemma_nul_index_is, nul_index};
use crate::proxy::socks::{
    ip_of, lemma_socks4_request_decides, lemma_socks5_request_decides, port_of, reading_len,
    socks4_request, socks5_methods, socks5_request, MethodsReading, Reading, SocksHostView,
};

verus! {

/// The number of a port whose two octets are given.
pub open spec fn port_number(high: u8, low: u8) -> int {
    256 * high + low
}

/// The number of an IPv4 address whose four octets are given.
pub open spec fn v4_number(a: u8, b: u8, c: u8, d: u8) -> int {
    0x100_0000 * a + 0x1_0000 * b + 0x100 * c + d
}

/// Whether a text has no NUL byte.
pub open spec fn without_nul(text: Seq<u8>) -> bool {
    forall|i: int| 0 <= i < text.len() ==> text[i] != 0
}

/// The head of a SOCKS4 request: command, port and address.
spec fn socks4_head(command: u8, port: Seq<u8>, address: Seq<u8>) -> Seq<u8> {
    seq![command] + port + address
}

proof fn lemma_port(port: Seq<u8>)
    requires
        port.len() == 2,
    ensures
        port_of(port) == port_number(port[0], port[1]),
{
    lemma_octets_make_numbers(port);
    lemma_big_endian_fits(port);
}

proof fn lemma_v4(address: Seq<u8>)
    requires
        address.len() == 4,
    ensures
        ip_of(address) matches IpAddr::V4(ip) && ip == v4_number(
            address[0],
            address[1],
            address[2],
            address[3],
        ),
{
    lemma_octets_make_numbers(address);
    lemma_big_endian_fits(address);
}

/// An address of sixteen octets is the IPv6 address with those octets: each octet is found
/// again at its place of the number.
pub proof fn lemma_v6_octets(address: Seq<u8>)
    requires
        address.len() == 16,
    ensures
        ip_of(address) matches IpAddr::V6(ip) && ip == big_endian(address),
        forall|n: int|
            0 < n <= 16 ==> big_endian(#[trigger] address.take(n)) % 256 == address[n - 1]
                && big_endian(address.take(n)) / 256 == big_endian(address.take(n - 1)),
        big_endian(address.take(0)) == 0,
        big_endian(address.take(16)) == big_endian(address),
{
    lemma_big_endian_fits(address);
    assert(address.take(16) =~= address);
    assert forall|n: int| 0 < n <= 16 implies big_endian(#[trigger] address.take(n)) % 256
        == address[n - 1] && big_endian(address.take(n)) / 256 == big_endian(
        address.take(n - 1),
    ) by {
        lemma_octets_make_numbers(address.take(n));
        assert(address.take(n).drop_last() =~= address.take(n - 1));
    }
}

// SOCKS4

proof fn lemma_socks4_pieces(port: Seq<u8>, address: Seq<u8>, user: Seq<u8>, rest: Seq<u8>)
    requires
        port.len() == 2,
        address.len() == 4,
        without_nul(user),
    ensures
        ({
            let s = socks4_head(0x01, port, address) + user + seq![0u8] + rest;
            &&& s.len() == 8 + user.len() + rest.len()
            &&& s[0] == 0x01
            &&& s.subrange(1, 3) == port
            &&& s.subrange(3, 7) == address
            &&& s.skip(7) == user + seq![0u8] + rest
            &&& nul_index(s.skip(7)) == user.len()
            &&& s.skip(7).skip(user.len() as int + 1) == rest
        }),
{
    let s = socks4_head(0x01, port, address) + user + seq![0u8] + rest;
    assert(s.subrange(1, 3) =~= port);
    assert(s.subrange(3, 7) =~= address);
    assert(s.skip(7) =~= user + seq![0u8] + rest);
    lemma_nul_index_is(s.skip(7), user.len() as int);
    assert(s.skip(7).skip(user.len() as int + 1) =~= rest);
}

/// A SOCKS4 CONNECT request for an address other than `0.0.0.x` is granted to that address
/// and port, whatever the user id is, and ends with the user id's terminator.
pub proof fn lemma_socks4_names_an_address(
    port: Seq<u8>,
    address: Seq<u8>,
    user: Seq<u8>,
    rest: Seq<u8>,
)
    requires
        port.len() == 2,
        address.len() == 4,
        without_nul(user),
        address[0] != 0 || address[1] != 0 || address[2] != 0 || address[3] == 0,
    ensures
        socks4_request(seq![0x01u8] + port + address + user + seq![0u8] + rest) == (
        Reading::Granted {
            host: SocksHostView::Ip(
                IpAddr::V4(v4_number(address[0], address[1], address[2], address[3]) as u32),
            ),
            port: port_number(port[0], port[1]) as u16,
            len: 8 + user.len() as int,
        }),
{
    lemma_socks4_pieces(port, address, user, rest);
    lemma_port(port);
    lemma_v4(address);
}

/// A SOCKS4a CONNECT request, whose address is `0.0.0.x`, is granted to the domain behind
/// the user id where that is UTF-8, and refused where it is not. It ends with the domain's
/// terminator.
pub proof fn lemma_socks4a_names_a_domain(
    port: Seq<u8>,
    marker: u8,
    user: Seq<u8>,
    domain: Seq<u8>,
    rest: Seq<u8>,
)
    requires
        port.len() == 2,
        marker != 0,
        without_nul(user),
        without_nul(domain),
    ensures
        socks4_request(
            seq![0x01u8] + port + seq![0, 0, 0, marker] + user + seq![0u8] + (domain + seq![0u8]
                + rest),
        ) == if valid_utf8(domain) {
            Reading::Granted {
                host: SocksHostView::Name(decode_utf8(domain)),
                port: port_number(port[0], port[1]) as u16,
                len: 9 + user.len() as int + domain.len() as int,
            }
        } else {
            Reading::Refused {
                reply: seq![0x00, 0x5b, 0, 0, 0, 0, 0, 0],
                len: 9 + user.len() as int + domain.len() as int,
            }
        },
{
    let tail = domain + seq![0u8] + rest;
    lemma_socks4_pieces(port, seq![0, 0, 0, marker], user, tail);
    lemma_port(port);
    lemma_nul_index_is(tail, domain.len() as int);
    assert(tail.take(domain.len() as int) =~= domain);
}

/// A SOCKS4 request with any command but CONNECT is refused at once.
pub proof fn lemma_socks4_refuses_other_commands(command: u8, rest: Seq<u8>)
    requires
        command != 0x01,
    ensures
        socks4_request(seq![command] + rest) == (Reading::Refused {
            reply: seq![0x00, 0x5b, 0, 0, 0, 0, 0, 0],
            len: 1,
        }),
{
}

/// A SOCKS4 request is not answered before its last byte is there.
pub proof fn lemma_socks4_waits_for_its_end(request: Seq<u8>, k: int)
    requires
        !(socks4_request(request) is NeedMore),
        0 <= k < reading_len(socks4_request(request)),
    ensures
        socks4_request(request.take(k)) is NeedMore,
{
    lemma_socks4_request_decides(request, Seq::empty());
    if !(socks4_request(request.take(k)) is NeedMore) {
        lemma_socks4_request_decides(request.take(k), request.skip(k));
        assert(request.take(k) + request.skip(k) =~= request);
    }
}

// SOCKS5

/// An offer of methods is accepted where one of them, whichever, is the one without
/// authentication, and refused where none is. It ends with the last method.
pub proof fn lemma_socks5_offer(methods: Seq<u8>, rest: Seq<u8>)
    requires
        methods.len() <= 255,
    ensures
        ({
            let offer = seq![methods.len() as u8] + methods + rest;
            let len = methods.len() as int + 1;
            &&& (exists|i: int| 0 <= i < methods.len() && methods[i] == 0x00)
                ==> socks5_methods(offer) == (MethodsReading::Accepted { len })
            &&& (forall|i: int| 0 <= i < methods.len() ==> methods[i] != 0x00)
                ==> socks5_methods(offer) == (MethodsReading::Refused { len })
        }),
{
    let offer = seq![methods.len() as u8] + methods + rest;
    assert(offer.subrange(1, 1 + methods.len() as int) =~= methods);
    if exists|i: int| 0 <= i < methods.len() && methods[i] == 0x00 {
        let i = choose|i: int| 0 <= i < methods.len() && methods[i] == 0x00;
        assert(methods.contains(methods[i]));
    }
}

/// An offer of methods is not answered before its last byte is there.
pub proof fn lemma_socks5_offer_waits_for_its_end(methods: Seq<u8>, k: int)
    requires
        methods.len() <= 255,
        0 <= k <= methods.len(),
    ensures
        socks5_methods((seq![methods.len() as u8] + methods).take(k)) is NeedMore,
{
    let offer = seq![methods.len() as u8] + methods;
    if k > 0 {
        assert(offer.take(k)[0] == methods.len());
    }
}

/// A SOCKS5 CONNECT request for an IPv4 address is granted to that address and port.
pub proof fn lemma_socks5_names_a_v4_address(
    reserved: u8,
    address: Seq<u8>,
    port: Seq<u8>,
    rest: Seq<u8>,
)
    requires
        address.len() == 4,
        port.len() == 2,
    ensures
        socks5_request(seq![0x05u8, 0x01, reserved, 0x01] + address + port + rest) == (
        Reading::Granted {
            host: SocksHostView::Ip(
                IpAddr::V4(v4_number(address[0], address[1], address[2], address[3]) as u32),
            ),
            port: port_number(port[0], port[1]) as u16,
            len: 10,
        }),
{
    let s = seq![0x05u8, 0x01, reserved, 0x01] + address + port + rest;
    assert(s.subrange(4, 8) =~= address);
    assert(s.subrange(8, 10) =~= port);
    lemma_port(port);
    lemma_v4(address);
}

/// A SOCKS5 CONNECT request for an IPv6 address is granted to that address and port.
pub proof fn lemma_socks5_names_a_v6_address(
    reserved: u8,
    address: Seq<u8>,
    port: Seq<u8>,
    rest: Seq<u8>,
)
    requires
        address.len() == 16,
        port.len() == 2,
    ensures
        socks5_request(seq![0x05u8, 0x01, reserved, 0x04] + address + port + rest) == (
        Reading::Granted {
            host: SocksHostView::Ip(IpAddr::V6(big_endian(address) as u128)),
            port: port_number(port[0], port[1]) as u16,
            len: 22,
        }),
{
    let s = seq![0x05u8, 0x01, reserved, 0x04] + address + port + rest;
    assert(s.subrange(4, 20) =~= address);
    assert(s.subrange(20, 22) =~= port);
    lemma_port(port);
    lemma_v6_octets(address);
}

/// A SOCKS5 CONNECT request for a domain is granted to that domain and port where the
/// domain is UTF-8. Where it is not, the request is refused, without waiting for the port.
pub proof fn lemma_socks5_names_a_domain(
    reserved: u8,
    domain: Seq<u8>,
    port: Seq<u8>,
    rest: Seq<u8>,
)
    requires
        domain.len() <= 255,
        port.len() == 2,
    ensures
        ({
            let head = seq![0x05u8, 0x01, reserved, 0x03, domain.len() as u8] + domain;
            if valid_utf8(domain) {
                socks5_request(head + port + rest) == (Reading::Granted {
                    host: SocksHostView::Name(decode_utf8(domain)),
                    port: port_number(port[0], port[1]) as u16,
                    len: 7 + domain.len() as int,
                })
            } else {
                socks5_request(head + rest) == (Reading::Refused {
                    reply: seq![0x05, 0x01, 0x00, 0x01, 0, 0, 0, 0, 0, 0],
                    len: 5 + domain.len() as int,
                })
            }
        }),
{
    let head = seq![0x05u8, 0x01, reserved, 0x03, domain.len() as u8] + domain;
    let end = 5 + domain.len() as int;
    assert((head + port + rest).subrange(5, end) =~= domain);
    assert((head + port + rest).subrange(end, end + 2) =~= port);
    assert((head + rest).subrange(5, end) =~= domain);
    lemma_port(port);
}

/// A SOCKS5 request with another version, another command than CONNECT or an unknown
/// address type is refused after its first four bytes.
pub proof fn lemma_socks5_refuses_what_it_does_not_know(
    version: u8,
    command: u8,
    reserved: u8,
    kind: u8,
    rest: Seq<u8>,
)
    ensures
        ({
            let request = seq![version, command, reserved, kind] + rest;
            &&& version != 0x05 || command != 0x01 ==> socks5_request(request) == (
            Reading::Refused { reply: seq![0x05, 0x07, 0x00, 0x01, 0, 0, 0, 0, 0, 0], len: 4 })
            &&& version == 0x05 && command == 0x01 && kind != 0x01 && kind != 0x03 && kind != 0x04
                ==> socks5_request(request) == (Reading::Refused {
                reply: seq![0x05, 0x08, 0x00, 0x01, 0, 0, 0, 0, 0, 0],
                len: 4,
            })
        }),
{
}

/// A SOCKS5 request is not answered before its last byte is there.
pub proof fn lemma_socks5_waits_for_its_end(request: Seq<u8>, k: int)
    requires
        !(socks5_request(request) is NeedMore),
        0 <= k < reading_len(socks5_request(request)),
    ensures
        socks5_request(request.take(k)) is NeedMore,
{
    lemma_socks5_request_decides(request, Seq::empty());
    if !(socks5_request(request.take(k)) is NeedMore) {
        lemma_socks5_request_decides(request.take(k), request.skip(k));
        assert(request.take(k) + request.skip(k) =~= request);
    }
}

} // verus!
