//! The SOCKS4/4a and SOCKS5 handshakes: what a client's bytes ask for.
//!
//! Each handshake is stated twice. A specification function reads a request off
//! the whole byte stream. The executable reader takes the stream chunk by chunk,
//! keeps its place between chunks, and arrives at what the specification says,
//! with the bytes after the request untouched.

use bytes::Bytes;
use vstd::prelude::*;
use vstd::utf8::{decode_utf8, valid_utf8};

use crate::proxy::address::{
    big_endian, from_big_endian, lemma_big_endian_fits, IpAddr,
};
use crate::proxy::chunk::{chunk_of, held};
use crate::proxy::reader::{lemma_nul_index, lemma_nul_index_is, nul_index, ChannelReader};
use crate::text::from_utf8;

verus! {

/// The host that a client asks to be connected to.
pub enum SocksHost {
    /// An address given as octets.
    Ip(IpAddr),
    /// A name given as text; it may still spell an address.
    Name(String),
}

/// What a [`SocksHost`] stands for.
pub enum SocksHostView {
    /// An address given as octets.
    Ip(IpAddr),
    /// A name given as text.
    Name(Seq<char>),
}

impl View for SocksHost {
    type V = SocksHostView;

    open spec fn view(&self) -> SocksHostView {
        match *self {
            SocksHost::Ip(ip) => SocksHostView::Ip(ip),
            SocksHost::Name(name) => SocksHostView::Name(name@),
        }
    }
}

/// What a byte stream amounts to as a CONNECT request.
pub enum Reading {
    /// The request is not complete.
    NeedMore,
    /// The request, which ends after `len` bytes, is refused with `reply`.
    Refused { reply: Seq<u8>, len: int },
    /// The request, which ends after `len` bytes, is granted.
    Granted { host: SocksHostView, port: u16, len: int },
}

/// What came of reading on in a CONNECT request.
pub enum Progress<R> {
    /// The received bytes ran out; `R` keeps the place.
    NeedMore(R),
    /// The request is refused with this reply.
    Refused(Bytes),
    /// The request is granted.
    Granted {
        /// The requested host.
        host: SocksHost,
        /// The requested port.
        port: u16,
    },
}

/// The port that two big-endian octets give.
pub open spec fn port_of(octets: Seq<u8>) -> u16 {
    big_endian(octets) as u16
}

/// The address that four or sixteen octets give.
pub open spec fn ip_of(octets: Seq<u8>) -> IpAddr {
    if octets.len() == 4 {
        IpAddr::V4(big_endian(octets) as u32)
    } else {
        IpAddr::V6(big_endian(octets) as u128)
    }
}

fn read_port(octets: &[u8]) -> (port: u16)
    requires
        octets@.len() == 2,
    ensures
        port == port_of(octets@),
{
    proof {
        lemma_big_endian_fits(octets@);
    }
    from_big_endian(octets) as u16
}

fn read_ip(octets: &[u8]) -> (ip: IpAddr)
    requires
        octets@.len() == 4 || octets@.len() == 16,
    ensures
        ip == ip_of(octets@),
{
    proof {
        lemma_big_endian_fits(octets@);
    }
    let number: u128 = from_big_endian(octets);
    if octets.len() == 4 {
        IpAddr::V4(number as u32)
    } else {
        IpAddr::V6(number)
    }
}

// SOCKS4 and SOCKS4a

/// A SOCKS4 reply with the given code and an all-zero address.
pub open spec fn socks4_reply(code: u8) -> Seq<u8> {
    seq![0x00, code, 0, 0, 0, 0, 0, 0]
}

/// The code of a granted SOCKS4 request.
pub const SOCKS4_GRANTED: u8 = 0x5a;

/// The code of a refused SOCKS4 request.
pub const SOCKS4_REFUSED: u8 = 0x5b;

/// The bytes of a SOCKS4 reply.
pub(crate) fn socks4_reply_chunk(code: u8) -> (reply: Bytes)
    ensures
        held(reply) == socks4_reply(code),
{
    let reply: [u8; 8] = [0x00, code, 0, 0, 0, 0, 0, 0];
    assert(reply@ =~= socks4_reply(code));
    chunk_of(reply.as_slice())
}

/// Whether an address is the non-routable marker `0.0.0.x` of SOCKS4a, which
/// says that a domain name follows.
pub open spec fn is_socks4a_marker(octets: Seq<u8>) -> bool {
    octets[0] == 0 && octets[1] == 0 && octets[2] == 0 && octets[3] != 0
}

/// A SOCKS4 CONNECT request, from the byte after the version on: command, port,
/// address, NUL-terminated user id, and the NUL-terminated domain of SOCKS4a.
pub open spec fn socks4_request(s: Seq<u8>) -> Reading {
    if s.len() == 0 {
        Reading::NeedMore
    } else if s[0] != 0x01 {
        Reading::Refused { reply: socks4_reply(SOCKS4_REFUSED), len: 1 }
    } else if s.len() < 7 {
        Reading::NeedMore
    } else {
        let port = port_of(s.subrange(1, 3));
        let address = s.subrange(3, 7);
        let user = s.skip(7);
        let user_len = nul_index(user);
        if user_len >= user.len() {
            Reading::NeedMore
        } else if is_socks4a_marker(address) {
            let domain = user.skip(user_len + 1);
            let domain_len = nul_index(domain);
            let len = 7 + user_len + 1 + domain_len + 1;
            if domain_len >= domain.len() {
                Reading::NeedMore
            } else if valid_utf8(domain.take(domain_len)) {
                Reading::Granted {
                    host: SocksHostView::Name(decode_utf8(domain.take(domain_len))),
                    port,
                    len,
                }
            } else {
                Reading::Refused { reply: socks4_reply(SOCKS4_REFUSED), len }
            }
        } else {
            Reading::Granted {
                host: SocksHostView::Ip(ip_of(address)),
                port,
                len: 7 + user_len + 1,
            }
        }
    }
}

/// A SOCKS4 request that is being read.
pub struct Socks4Request {
    // Command, port and address.
    head: Vec<u8>,
    user: Vec<u8>,
    user_ended: bool,
    domain: Vec<u8>,
}

impl Socks4Request {
    /// The bytes of the request that were read.
    pub closed spec fn seen(self) -> Seq<u8> {
        self.head@ + self.user@ + if self.user_ended {
            seq![0u8] + self.domain@
        } else {
            Seq::<u8>::empty()
        }
    }

    /// The pieces that were read can be those of a request that is not complete.
    pub closed spec fn wf(self) -> bool {
        &&& self.head@.len() <= 7
        &&& self.head@.len() > 0 ==> self.head@[0] == 0x01
        &&& self.head@.len() < 7 ==> self.user@.len() == 0 && !self.user_ended
        &&& !self.user_ended ==> self.domain@.len() == 0
        &&& self.user_ended ==> is_socks4a_marker(self.head@.subrange(3, 7))
        &&& forall|i: int| 0 <= i < self.user@.len() ==> self.user@[i] != 0
        &&& forall|i: int| 0 <= i < self.domain@.len() ==> self.domain@[i] != 0
    }

    /// A request of which nothing was read.
    pub fn new() -> (request: Socks4Request)
        ensures
            request.wf(),
            request.seen() == Seq::<u8>::empty(),
    {
        let request = Socks4Request {
            head: Vec::new(),
            user: Vec::new(),
            user_ended: false,
            domain: Vec::new(),
        };
        assert(request.seen() =~= Seq::<u8>::empty());
        request
    }
}

/// A request whose user id has not ended is not complete.
proof fn lemma_socks4_in_user(head: Seq<u8>, user: Seq<u8>)
    requires
        head.len() == 7,
        head[0] == 0x01,
        forall|i: int| 0 <= i < user.len() ==> user[i] != 0,
    ensures
        socks4_request(head + user) == Reading::NeedMore,
{
    assert((head + user).skip(7) =~= user);
    lemma_nul_index_is(user, user.len() as int);
}

/// A request for an address is complete with the end of its user id.
proof fn lemma_socks4_after_user(head: Seq<u8>, user: Seq<u8>, rest: Seq<u8>)
    requires
        head.len() == 7,
        head[0] == 0x01,
        !is_socks4a_marker(head.subrange(3, 7)),
        forall|i: int| 0 <= i < user.len() ==> user[i] != 0,
    ensures
        socks4_request(head + user + seq![0u8] + rest) == (Reading::Granted {
            host: SocksHostView::Ip(ip_of(head.subrange(3, 7))),
            port: port_of(head.subrange(1, 3)),
            len: 8 + user.len() as int,
        }),
        (head + user + seq![0u8] + rest).skip(8 + user.len() as int) == rest,
{
    let whole = head + user + seq![0u8] + rest;
    assert(whole.subrange(1, 3) =~= head.subrange(1, 3));
    assert(whole.subrange(3, 7) =~= head.subrange(3, 7));
    lemma_nul_index_is(whole.skip(7), user.len() as int);
    assert(whole.skip(8 + user.len() as int) =~= rest);
}

/// A request for a domain that has not ended is not complete.
proof fn lemma_socks4_in_domain(head: Seq<u8>, user: Seq<u8>, domain: Seq<u8>)
    requires
        head.len() == 7,
        head[0] == 0x01,
        is_socks4a_marker(head.subrange(3, 7)),
        forall|i: int| 0 <= i < user.len() ==> user[i] != 0,
        forall|i: int| 0 <= i < domain.len() ==> domain[i] != 0,
    ensures
        socks4_request(head + user + seq![0u8] + domain) == Reading::NeedMore,
{
    let whole = head + user + seq![0u8] + domain;
    assert(whole.subrange(3, 7) =~= head.subrange(3, 7));
    lemma_nul_index_is(whole.skip(7), user.len() as int);
    assert(whole.skip(7).skip(user.len() as int + 1) =~= domain);
    lemma_nul_index_is(domain, domain.len() as int);
}

/// A request for a domain is complete with the end of the domain.
proof fn lemma_socks4_after_domain(head: Seq<u8>, user: Seq<u8>, domain: Seq<u8>, rest: Seq<u8>)
    requires
        head.len() == 7,
        head[0] == 0x01,
        is_socks4a_marker(head.subrange(3, 7)),
        forall|i: int| 0 <= i < user.len() ==> user[i] != 0,
        forall|i: int| 0 <= i < domain.len() ==> domain[i] != 0,
    ensures
        ({
            let whole = head + user + seq![0u8] + domain + seq![0u8] + rest;
            let len = 9 + user.len() + domain.len();
            &&& socks4_request(whole) == if valid_utf8(domain) {
                Reading::Granted {
                    host: SocksHostView::Name(decode_utf8(domain)),
                    port: port_of(head.subrange(1, 3)),
                    len: len as int,
                }
            } else {
                Reading::Refused { reply: socks4_reply(SOCKS4_REFUSED), len: len as int }
            }
            &&& whole.skip(len as int) == rest
        }),
{
    let whole = head + user + seq![0u8] + domain + seq![0u8] + rest;
    assert(whole.subrange(1, 3) =~= head.subrange(1, 3));
    assert(whole.subrange(3, 7) =~= head.subrange(3, 7));
    lemma_nul_index_is(whole.skip(7), user.len() as int);
    let after = whole.skip(7).skip(user.len() as int + 1);
    lemma_nul_index_is(after, domain.len() as int);
    assert(after.take(domain.len() as int) =~= domain);
    assert(whole.skip(9 + user.len() as int + domain.len() as int) =~= rest);
}

/// How far the fixed part of a SOCKS4 request was read.
enum HeadProgress {
    NeedMore,
    Refused,
    Complete,
}

/// Read the command, the port and the address of a SOCKS4 request on.
fn read_socks4_head(head: &mut Vec<u8>, reader: &mut ChannelReader) -> (progress: HeadProgress)
    requires
        old(head)@.len() <= 7,
        old(head)@.len() > 0 ==> old(head)@[0] == 0x01,
    ensures
        ({
            let whole = old(head)@ + old(reader)@;
            match progress {
                HeadProgress::NeedMore => {
                    &&& final(head)@ == whole
                    &&& whole.len() < 7
                    &&& whole.len() > 0 ==> whole[0] == 0x01
                    &&& final(reader)@.len() == 0
                },
                HeadProgress::Refused => {
                    &&& whole.len() > 0
                    &&& whole[0] != 0x01
                    &&& final(reader)@ == whole.skip(1)
                },
                HeadProgress::Complete => {
                    &&& final(head)@.len() == 7
                    &&& final(head)@[0] == 0x01
                    &&& old(head)@.len() == 7 ==> final(head)@ == old(head)@ && final(reader)@
                        == old(reader)@
                    &&& final(head)@ + final(reader)@ == whole
                },
            }
        }),
{
    let ghost whole = head@ + reader@;
    if head.len() == 0 {
        match reader.read_u8() {
            None => {
                assert(whole =~= head@);
                return HeadProgress::NeedMore;
            },
            Some(command) => {
                assert(whole =~= seq![command] + reader@);
                if command != 0x01 {
                    assert(whole.skip(1) =~= reader@);
                    return HeadProgress::Refused;
                }
                head.push(command);
            },
        }
    }
    assert(whole =~= head@ + reader@);
    let complete = reader.read_exact(head, 7);
    assert(whole =~= head@ + reader@);
    if complete {
        assert(old(head)@.len() == 7 ==> head@ =~= old(head)@ && reader@ =~= old(reader)@);
        HeadProgress::Complete
    } else {
        assert(whole =~= head@);
        HeadProgress::NeedMore
    }
}

/// Read a NUL-terminated piece of a SOCKS4 request on; `false` where the
/// received bytes ran out before its end.
fn read_piece(piece: &mut Vec<u8>, reader: &mut ChannelReader) -> (ended: bool)
    requires
        forall|i: int| 0 <= i < old(piece)@.len() ==> old(piece)@[i] != 0,
    ensures
        forall|i: int| 0 <= i < final(piece)@.len() ==> final(piece)@[i] != 0,
        old(piece)@ + old(reader)@ == final(piece)@ + if ended {
            seq![0u8] + final(reader)@
        } else {
            Seq::<u8>::empty()
        },
        !ended ==> final(reader)@.len() == 0,
{
    let ghost before = piece@;
    let ghost received = reader@;
    proof {
        lemma_nul_index(received);
    }
    let ended = reader.read_nul_string(piece);
    assert forall|i: int| 0 <= i < piece@.len() implies piece@[i] != 0 by {
        if i >= before.len() {
            assert(piece@[i] == received[i - before.len()]);
        }
    }
    if ended {
        assert(before + received =~= piece@ + (seq![0u8] + reader@));
    } else {
        assert(before + received =~= piece@ + Seq::<u8>::empty());
    }
    ended
}

/// Read a SOCKS4 CONNECT request on whose fixed part is complete.
fn read_socks4_strings(request: Socks4Request, reader: &mut ChannelReader) -> (progress: Progress<
    Socks4Request,
>)
    requires
        request.wf(),
        request.head@.len() == 7,
    ensures
        match socks4_request(request.seen() + old(reader)@) {
            Reading::NeedMore => progress matches Progress::NeedMore(next) && next.wf()
                && next.seen() == request.seen() + old(reader)@ && final(reader)@.len() == 0,
            Reading::Refused { reply, len } => progress matches Progress::Refused(chunk) && held(
                chunk,
            ) == reply && final(reader)@ == (request.seen() + old(reader)@).skip(len),
            Reading::Granted { host, port, len } => progress matches Progress::Granted {
                host: h,
                port: p,
            } && h@ == host && p == port && final(reader)@ == (request.seen() + old(reader)@).skip(
                len,
            ),
        },
{
    let ghost whole = request.seen() + reader@;
    let mut request = request;
    let ghost head = request.head@;
    let port = read_port(vstd::slice::slice_subrange(request.head.as_slice(), 1, 3));
    let address = vstd::slice::slice_subrange(request.head.as_slice(), 3, 7);

    // The user id is read and discarded.
    if !request.user_ended {
        assert(whole =~= head + (request.user@ + reader@));
        if !read_piece(&mut request.user, reader) {
            assert(whole =~= head + request.user@);
            assert(whole =~= request.seen());
            proof {
                lemma_socks4_in_user(head, request.user@);
            }
            return Progress::NeedMore(request);
        }
        assert(whole =~= head + request.user@ + seq![0u8] + reader@);
        if !(address[0] == 0 && address[1] == 0 && address[2] == 0 && address[3] != 0) {
            proof {
                lemma_socks4_after_user(head, request.user@, reader@);
            }
            return Progress::Granted { host: SocksHost::Ip(read_ip(address)), port };
        }
        request.user_ended = true;
    }
    let ghost user = request.user@;
    assert(whole =~= head + user + seq![0u8] + (request.domain@ + reader@));
    if !read_piece(&mut request.domain, reader) {
        assert(whole =~= head + user + seq![0u8] + request.domain@);
        assert(whole =~= request.seen());
        proof {
            lemma_socks4_in_domain(head, user, request.domain@);
        }
        return Progress::NeedMore(request);
    }
    assert(whole =~= head + user + seq![0u8] + request.domain@ + seq![0u8] + reader@);
    proof {
        lemma_socks4_after_domain(head, user, request.domain@, reader@);
    }
    match from_utf8(request.domain) {
        Some(name) => Progress::Granted { host: SocksHost::Name(name), port },
        None => Progress::Refused(socks4_reply_chunk(SOCKS4_REFUSED)),
    }
}

/// Read a SOCKS4 CONNECT request on.
pub fn handle_socks4(request: Socks4Request, reader: &mut ChannelReader) -> (progress: Progress<
    Socks4Request,
>)
    requires
        request.wf(),
    ensures
        match socks4_request(request.seen() + old(reader)@) {
            Reading::NeedMore => progress matches Progress::NeedMore(next) && next.wf()
                && next.seen() == request.seen() + old(reader)@ && final(reader)@.len() == 0,
            Reading::Refused { reply, len } => progress matches Progress::Refused(chunk) && held(
                chunk,
            ) == reply && final(reader)@ == (request.seen() + old(reader)@).skip(len),
            Reading::Granted { host, port, len } => progress matches Progress::Granted {
                host: h,
                port: p,
            } && h@ == host && p == port && final(reader)@ == (request.seen() + old(reader)@).skip(
                len,
            ),
        },
{
    let ghost whole = request.seen() + reader@;
    let mut request = request;
    let ghost tail = request.user@ + if request.user_ended {
        seq![0u8] + request.domain@
    } else {
        Seq::<u8>::empty()
    };
    assert(request.seen() =~= request.head@ + tail);
    assert(request.head@.len() < 7 ==> tail =~= Seq::<u8>::empty());
    match read_socks4_head(&mut request.head, reader) {
        HeadProgress::NeedMore => {
            assert(whole =~= request.head@);
            assert(request.seen() =~= whole);
            return Progress::NeedMore(request);
        },
        HeadProgress::Refused => {
            assert(whole.skip(1) =~= reader@);
            return Progress::Refused(socks4_reply_chunk(SOCKS4_REFUSED));
        },
        HeadProgress::Complete => {},
    }
    assert(request.seen() =~= request.head@ + tail);
    assert(whole =~= request.seen() + reader@);
    read_socks4_strings(request, reader)
}

// SOCKS5

/// A SOCKS5 method-selection reply.
pub open spec fn socks5_method_reply(method: u8) -> Seq<u8> {
    seq![0x05, method]
}

/// A SOCKS5 reply to a request with the given code and an all-zero address.
pub open spec fn socks5_reply(code: u8) -> Seq<u8> {
    seq![0x05, code, 0x00, 0x01, 0, 0, 0, 0, 0, 0]
}

/// The method without authentication.
pub const SOCKS5_NO_AUTH: u8 = 0x00;

/// The reply where none of the offered methods is acceptable.
pub const SOCKS5_NO_METHOD: u8 = 0xff;

/// The code of a granted SOCKS5 request.
pub const SOCKS5_GRANTED: u8 = 0x00;

/// The code of a SOCKS5 request that failed in general.
pub const SOCKS5_FAILURE: u8 = 0x01;

/// The code of a SOCKS5 request whose command is not supported.
pub const SOCKS5_BAD_COMMAND: u8 = 0x07;

/// The code of a SOCKS5 request whose address type is not supported.
pub const SOCKS5_BAD_ADDRESS_TYPE: u8 = 0x08;

/// The bytes of a SOCKS5 method-selection reply.
pub(crate) fn socks5_method_reply_chunk(method: u8) -> (reply: Bytes)
    ensures
        held(reply) == socks5_method_reply(method),
{
    let reply: [u8; 2] = [0x05, method];
    assert(reply@ =~= socks5_method_reply(method));
    chunk_of(reply.as_slice())
}

/// The bytes of a SOCKS5 reply to a request.
pub(crate) fn socks5_reply_chunk(code: u8) -> (reply: Bytes)
    ensures
        held(reply) == socks5_reply(code),
{
    let reply: [u8; 10] = [0x05, code, 0x00, 0x01, 0, 0, 0, 0, 0, 0];
    assert(reply@ =~= socks5_reply(code));
    chunk_of(reply.as_slice())
}

/// What a byte stream amounts to as an offer of authentication methods.
pub enum MethodsReading {
    /// The offer is not complete.
    NeedMore,
    /// The offer, which ends after `len` bytes, lacks the method without
    /// authentication.
    Refused { len: int },
    /// The offer, which ends after `len` bytes, has the method without
    /// authentication.
    Accepted { len: int },
}

/// What came of reading on in an offer of authentication methods.
pub enum MethodsProgress {
    /// The received bytes ran out; the offer keeps the place.
    NeedMore(Socks5Methods),
    /// The offer is refused.
    Refused,
    /// The offer is accepted.
    Accepted,
}

/// A SOCKS5 offer of authentication methods, from the byte after the version on:
/// their number, and the methods.
pub open spec fn socks5_methods(s: Seq<u8>) -> MethodsReading {
    if s.len() == 0 || s.len() < 1 + s[0] {
        MethodsReading::NeedMore
    } else if s.subrange(1, 1 + s[0] as int).contains(SOCKS5_NO_AUTH) {
        MethodsReading::Accepted { len: 1 + s[0] as int }
    } else {
        MethodsReading::Refused { len: 1 + s[0] as int }
    }
}

/// A SOCKS5 CONNECT request: version, command, a reserved byte, the address type,
/// the address, and the port. A domain is preceded by its length.
pub open spec fn socks5_request(s: Seq<u8>) -> Reading {
    if s.len() < 4 {
        Reading::NeedMore
    } else if s[0] != 0x05 || s[1] != 0x01 {
        Reading::Refused { reply: socks5_reply(SOCKS5_BAD_COMMAND), len: 4 }
    } else if s[3] == 0x01 {
        if s.len() < 10 {
            Reading::NeedMore
        } else {
            Reading::Granted {
                host: SocksHostView::Ip(ip_of(s.subrange(4, 8))),
                port: port_of(s.subrange(8, 10)),
                len: 10,
            }
        }
    } else if s[3] == 0x03 {
        if s.len() < 5 || s.len() < 5 + s[4] {
            Reading::NeedMore
        } else {
            let end = 5 + s[4] as int;
            let domain = s.subrange(5, end);
            if !valid_utf8(domain) {
                Reading::Refused { reply: socks5_reply(SOCKS5_FAILURE), len: end }
            } else if s.len() < end + 2 {
                Reading::NeedMore
            } else {
                Reading::Granted {
                    host: SocksHostView::Name(decode_utf8(domain)),
                    port: port_of(s.subrange(end, end + 2)),
                    len: end + 2,
                }
            }
        }
    } else if s[3] == 0x04 {
        if s.len() < 22 {
            Reading::NeedMore
        } else {
            Reading::Granted {
                host: SocksHostView::Ip(ip_of(s.subrange(4, 20))),
                port: port_of(s.subrange(20, 22)),
                len: 22,
            }
        }
    } else {
        Reading::Refused { reply: socks5_reply(SOCKS5_BAD_ADDRESS_TYPE), len: 4 }
    }
}

/// A SOCKS5 offer of methods that is being read.
pub struct Socks5Methods {
    read: Vec<u8>,
}

/// A SOCKS5 request that is being read.
pub struct Socks5Request {
    read: Vec<u8>,
}

impl Socks5Methods {
    /// The bytes of the offer that were read.
    pub closed spec fn seen(self) -> Seq<u8> {
        self.read@
    }

    /// An offer of which nothing was read.
    pub fn new() -> (methods: Socks5Methods)
        ensures
            methods.seen() == Seq::<u8>::empty(),
    {
        Socks5Methods { read: Vec::new() }
    }
}

impl Socks5Request {
    /// The bytes of the request that were read.
    pub closed spec fn seen(self) -> Seq<u8> {
        self.read@
    }

    /// A request of which nothing was read.
    pub fn new() -> (request: Socks5Request)
        ensures
            request.seen() == Seq::<u8>::empty(),
    {
        Socks5Request { read: Vec::new() }
    }
}

/// Read on until at least `want` bytes are there; `false` where the received
/// bytes ran out before.
fn read_up_to(read: &mut Vec<u8>, want: usize, reader: &mut ChannelReader) -> (complete: bool)
    ensures
        final(read)@ + final(reader)@ == old(read)@ + old(reader)@,
        complete == (final(read)@.len() >= want),
        complete ==> final(read)@.len() == want || final(read)@ == old(read)@,
        !complete ==> final(reader)@.len() == 0,
{
    if read.len() >= want {
        return true;
    }
    let ghost whole = read@ + reader@;
    let complete = reader.read_exact(read, want);
    assert(read@ + reader@ =~= whole);
    complete
}

fn offers_no_auth(methods: &[u8]) -> (offered: bool)
    ensures
        offered == methods@.contains(SOCKS5_NO_AUTH),
{
    for i in 0..methods.len()
        invariant
            forall|j: int| 0 <= j < i ==> methods@[j] != SOCKS5_NO_AUTH,
    {
        if methods[i] == SOCKS5_NO_AUTH {
            assert(methods@[i as int] == SOCKS5_NO_AUTH);
            return true;
        }
    }
    false
}

/// Read a SOCKS5 offer of authentication methods on.
pub fn read_socks5_methods(methods: Socks5Methods, reader: &mut ChannelReader) -> (progress:
    MethodsProgress)
    requires
        socks5_methods(methods.seen()) is NeedMore,
    ensures
        match socks5_methods(methods.seen() + old(reader)@) {
            MethodsReading::NeedMore => progress matches MethodsProgress::NeedMore(next)
                && next.seen() == methods.seen() + old(reader)@ && final(reader)@.len() == 0,
            MethodsReading::Refused { len } => progress is Refused && final(reader)@ == (
            methods.seen() + old(reader)@).skip(len),
            MethodsReading::Accepted { len } => progress is Accepted && final(reader)@ == (
            methods.seen() + old(reader)@).skip(len),
        },
{
    let ghost whole = methods.seen() + reader@;
    let mut methods = methods;
    if !read_up_to(&mut methods.read, 1, reader) {
        assert(whole =~= methods.read@);
        return MethodsProgress::NeedMore(methods);
    }
    let count: usize = methods.read[0] as usize;
    assert(whole[0] == methods.read@[0]);
    if !read_up_to(&mut methods.read, 1 + count, reader) {
        assert(whole =~= methods.read@);
        return MethodsProgress::NeedMore(methods);
    }
    let ghost read = methods.read@;
    assert(read.len() == 1 + count);
    assert(whole[0] == read[0]);
    assert(whole.subrange(1, 1 + count as int) =~= read.subrange(1, 1 + count as int));
    assert(whole.skip(1 + count as int) =~= reader@);
    if offers_no_auth(vstd::slice::slice_subrange(methods.read.as_slice(), 1, 1 + count)) {
        MethodsProgress::Accepted
    } else {
        MethodsProgress::Refused
    }
}

/// Read a SOCKS5 CONNECT request for an address of `size` octets on.
fn read_socks5_address(
    request: Socks5Request,
    size: usize,
    reader: &mut ChannelReader,
) -> (progress: Progress<Socks5Request>)
    requires
        socks5_request(request.seen()) is NeedMore,
        request.seen().len() >= 4,
        request.seen()[0] == 0x05 && request.seen()[1] == 0x01,
        size == 4 && request.seen()[3] == 0x01 || size == 16 && request.seen()[3] == 0x04,
    ensures
        match socks5_request(request.seen() + old(reader)@) {
            Reading::NeedMore => progress matches Progress::NeedMore(next) && next.seen()
                == request.seen() + old(reader)@ && final(reader)@.len() == 0,
            Reading::Refused { reply, len } => progress matches Progress::Refused(chunk) && held(
                chunk,
            ) == reply && final(reader)@ == (request.seen() + old(reader)@).skip(len),
            Reading::Granted { host, port, len } => progress matches Progress::Granted {
                host: h,
                port: p,
            } && h@ == host && p == port && final(reader)@ == (request.seen() + old(reader)@).skip(
                len,
            ),
        },
{
    let ghost whole = request.seen() + reader@;
    let mut request = request;
    let complete = read_up_to(&mut request.read, 4 + size + 2, reader);
    let ghost read = request.read@;
    assert(forall|i: int| 0 <= i < read.len() ==> whole[i] == read[i]);
    if !complete {
        assert(whole =~= read);
        return Progress::NeedMore(request);
    }
    let end: usize = 4 + size;
    assert(read.len() == end + 2);
    assert(whole.subrange(4, end as int) =~= read.subrange(4, end as int));
    assert(whole.subrange(end as int, end + 2) =~= read.subrange(end as int, end + 2));
    assert(whole.skip(end + 2) =~= reader@);
    let bytes = request.read.as_slice();
    Progress::Granted {
        host: SocksHost::Ip(read_ip(vstd::slice::slice_subrange(bytes, 4, end))),
        port: read_port(vstd::slice::slice_subrange(bytes, end, end + 2)),
    }
}

/// Read a SOCKS5 CONNECT request for a domain on.
fn read_socks5_domain(request: Socks5Request, reader: &mut ChannelReader) -> (progress: Progress<
    Socks5Request,
>)
    requires
        socks5_request(request.seen()) is NeedMore,
        request.seen().len() >= 4,
        request.seen()[0] == 0x05 && request.seen()[1] == 0x01 && request.seen()[3] == 0x03,
    ensures
        match socks5_request(request.seen() + old(reader)@) {
            Reading::NeedMore => progress matches Progress::NeedMore(next) && next.seen()
                == request.seen() + old(reader)@ && final(reader)@.len() == 0,
            Reading::Refused { reply, len } => progress matches Progress::Refused(chunk) && held(
                chunk,
            ) == reply && final(reader)@ == (request.seen() + old(reader)@).skip(len),
            Reading::Granted { host, port, len } => progress matches Progress::Granted {
                host: h,
                port: p,
            } && h@ == host && p == port && final(reader)@ == (request.seen() + old(reader)@).skip(
                len,
            ),
        },
{
    let ghost whole = request.seen() + reader@;
    let mut request = request;
    if !read_up_to(&mut request.read, 5, reader) {
        assert(whole =~= request.read@);
        return Progress::NeedMore(request);
    }
    let end: usize = 5 + request.read[4] as usize;
    assert(forall|i: int| 0 <= i < request.read@.len() ==> whole[i] == request.read@[i]);
    if !read_up_to(&mut request.read, end, reader) {
        assert(whole =~= request.read@);
        return Progress::NeedMore(request);
    }
    assert(whole.subrange(5, end as int) =~= request.read@.subrange(5, end as int));
    let domain = vstd::slice::slice_to_vec(
        vstd::slice::slice_subrange(request.read.as_slice(), 5, end),
    );
    let name = match from_utf8(domain) {
        Some(name) => name,
        None => {
            assert(request.read@.len() == end);
            assert(whole.skip(end as int) =~= reader@);
            return Progress::Refused(socks5_reply_chunk(SOCKS5_FAILURE));
        },
    };
    if !read_up_to(&mut request.read, end + 2, reader) {
        assert(whole =~= request.read@);
        return Progress::NeedMore(request);
    }
    assert(request.read@.len() == end + 2);
    assert(whole.subrange(end as int, end + 2) =~= request.read@.subrange(end as int, end + 2));
    assert(whole.skip(end + 2) =~= reader@);
    Progress::Granted {
        host: SocksHost::Name(name),
        port: read_port(vstd::slice::slice_subrange(request.read.as_slice(), end, end + 2)),
    }
}

/// Read a SOCKS5 CONNECT request on.
pub fn handle_socks5(request: Socks5Request, reader: &mut ChannelReader) -> (progress: Progress<
    Socks5Request,
>)
    requires
        socks5_request(request.seen()) is NeedMore,
    ensures
        match socks5_request(request.seen() + old(reader)@) {
            Reading::NeedMore => progress matches Progress::NeedMore(next) && next.seen()
                == request.seen() + old(reader)@ && final(reader)@.len() == 0,
            Reading::Refused { reply, len } => progress matches Progress::Refused(chunk) && held(
                chunk,
            ) == reply && final(reader)@ == (request.seen() + old(reader)@).skip(len),
            Reading::Granted { host, port, len } => progress matches Progress::Granted {
                host: h,
                port: p,
            } && h@ == host && p == port && final(reader)@ == (request.seen() + old(reader)@).skip(
                len,
            ),
        },
{
    let ghost whole = request.seen() + reader@;
    let mut request = request;
    if !read_up_to(&mut request.read, 4, reader) {
        assert(whole =~= request.read@);
        return Progress::NeedMore(request);
    }
    assert(forall|i: int| 0 <= i < request.read@.len() ==> whole[i] == request.read@[i]);
    let address_type: u8 = request.read[3];
    if request.read[0] != 0x05 || request.read[1] != 0x01 {
        assert(request.read@.len() == 4);
        assert(whole.skip(4) =~= reader@);
        return Progress::Refused(socks5_reply_chunk(SOCKS5_BAD_COMMAND));
    }
    if address_type == 0x01 {
        read_socks5_address(request, 4, reader)
    } else if address_type == 0x03 {
        read_socks5_domain(request, reader)
    } else if address_type == 0x04 {
        read_socks5_address(request, 16, reader)
    } else {
        assert(request.read@.len() == 4);
        assert(whole.skip(4) =~= reader@);
        Progress::Refused(socks5_reply_chunk(SOCKS5_BAD_ADDRESS_TYPE))
    }
}

// Laws

/// How many bytes a request takes; zero while it is not complete.
pub open spec fn reading_len(reading: Reading) -> int {
    match reading {
        Reading::NeedMore => 0,
        Reading::Refused { reply, len } => len,
        Reading::Granted { host, port, len } => len,
    }
}

proof fn lemma_nul_index_of_prefix(a: Seq<u8>, b: Seq<u8>)
    requires
        nul_index(a) < a.len(),
    ensures
        nul_index(a + b) == nul_index(a),
{
    lemma_nul_index(a);
    assert forall|i: int| 0 <= i < nul_index(a) implies (a + b)[i] != 0 by {
        assert((a + b)[i] == a[i]);
    }
    lemma_nul_index_is(a + b, nul_index(a));
}

/// What a SOCKS4 request amounts to is decided by its own bytes: once it is
/// complete, whatever the client sends behind it changes nothing, and it takes no
/// more bytes than were there.
pub proof fn lemma_socks4_request_decides(request: Seq<u8>, more: Seq<u8>)
    requires
        !(socks4_request(request) is NeedMore),
    ensures
        socks4_request(request + more) == socks4_request(request),
        0 < reading_len(socks4_request(request)) <= request.len(),
{
    let whole = request + more;
    assert(whole[0] == request[0]);
    if request[0] == 0x01 {
        assert(whole.subrange(1, 3) =~= request.subrange(1, 3));
        assert(whole.subrange(3, 7) =~= request.subrange(3, 7));
        let user = request.skip(7);
        let user_len = nul_index(user);
        lemma_nul_index(user);
        assert(whole.skip(7) =~= user + more);
        lemma_nul_index_of_prefix(user, more);
        if is_socks4a_marker(request.subrange(3, 7)) {
            let domain = user.skip(user_len + 1);
            let domain_len = nul_index(domain);
            lemma_nul_index(domain);
            assert(whole.skip(7).skip(user_len + 1) =~= domain + more);
            lemma_nul_index_of_prefix(domain, more);
            assert((domain + more).take(domain_len) =~= domain.take(domain_len));
        }
    }
}

/// What a SOCKS5 offer of methods amounts to is decided by its own bytes.
pub proof fn lemma_socks5_methods_decide(offer: Seq<u8>, more: Seq<u8>)
    requires
        !(socks5_methods(offer) is NeedMore),
    ensures
        socks5_methods(offer + more) == socks5_methods(offer),
        1 + offer[0] <= offer.len(),
{
    let whole = offer + more;
    assert(whole[0] == offer[0]);
    assert(whole.subrange(1, 1 + offer[0] as int) =~= offer.subrange(1, 1 + offer[0] as int));
}

/// What a SOCKS5 request amounts to is decided by its own bytes.
pub proof fn lemma_socks5_request_decides(request: Seq<u8>, more: Seq<u8>)
    requires
        !(socks5_request(request) is NeedMore),
    ensures
        socks5_request(request + more) == socks5_request(request),
        0 < reading_len(socks5_request(request)) <= request.len(),
{
    let whole = request + more;
    assert(forall|i: int| 0 <= i < request.len() ==> whole[i] == request[i]);
    if request[3] == 0x01 && request.len() >= 10 {
        assert(whole.subrange(4, 8) =~= request.subrange(4, 8));
        assert(whole.subrange(8, 10) =~= request.subrange(8, 10));
    } else if request[3] == 0x03 && request.len() >= 5 && request.len() >= 5 + request[4] {
        let end = 5 + request[4] as int;
        assert(whole.subrange(5, end) =~= request.subrange(5, end));
        if request.len() >= end + 2 {
            assert(whole.subrange(end, end + 2) =~= request.subrange(end, end + 2));
        }
    } else if request[3] == 0x04 && request.len() >= 22 {
        assert(whole.subrange(4, 20) =~= request.subrange(4, 20));
        assert(whole.subrange(20, 22) =~= request.subrange(20, 22));
    }
}

/// A host says what it holds: an address is that address, and a name is its text.
pub proof fn lemma_a_host_says_what_it_holds(host: SocksHost)
    ensures
        match host {
            SocksHost::Ip(ip) => host@ == SocksHostView::Ip(ip),
            SocksHost::Name(name) => host@ == SocksHostView::Name(name@),
        },
{
}

} // verus!
