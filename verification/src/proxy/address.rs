//! Addresses and the rewrite of the gateway to the host's loopback.

use vstd::prelude::*;

verus! {

/// An IP address, as the big-endian number that its octets make up.
#[derive(Debug, Clone, Copy, PartialEq, Eq, Structural)]
pub enum IpAddr {
    /// An IPv4 address.
    V4(u32),
    /// An IPv6 address.
    V6(u128),
}

/// A transport address to dial or to match rules against.
#[derive(Debug, Clone, Copy, PartialEq, Eq, Structural)]
pub struct SocketAddr {
    /// The IP address.
    pub ip: IpAddr,
    /// The port.
    pub port: u16,
    /// IPv6 flow information; zero where none was given.
    pub flow_info: u32,
    /// IPv6 scope; zero where none was given.
    pub scope_id: u32,
}

/// The gateway's addresses on the guest network.
#[derive(Debug, Clone, Copy, PartialEq, Eq, Structural)]
pub struct GatewayIps {
    /// The IPv4 address, where the network has one.
    pub ipv4: Option<u32>,
    /// The IPv6 address, where the network has one.
    pub ipv6: Option<u128>,
}

/// `127.0.0.1`.
pub const LOOPBACK_V4: u32 = 0x7f00_0001;

/// `::1`.
pub const LOOPBACK_V6: u128 = 1;

/// The number that big-endian octets make up.
pub open spec fn big_endian(octets: Seq<u8>) -> nat
    decreases octets.len(),
{
    if octets.len() == 0 {
        0
    } else {
        big_endian(octets.drop_last()) * 256 + octets.last() as nat
    }
}

impl SocketAddr {
    /// The address of `port` on `ip`, without flow information or scope.
    pub open spec fn at(ip: IpAddr, port: u16) -> SocketAddr {
        SocketAddr { ip, port, flow_info: 0, scope_id: 0 }
    }

    /// The address of `port` on `ip`, without flow information or scope.
    pub fn new(ip: IpAddr, port: u16) -> (addr: SocketAddr)
        ensures
            addr == SocketAddr::at(ip, port),
    {
        SocketAddr { ip, port, flow_info: 0, scope_id: 0 }
    }
}

impl GatewayIps {
    /// Whether `ip` is one of the gateway's addresses.
    pub open spec fn owns(self, ip: IpAddr) -> bool {
        match ip {
            IpAddr::V4(v4) => self.ipv4 == Some(v4),
            IpAddr::V6(v6) => self.ipv6 == Some(v6),
        }
    }
}

/// The loopback address of the family that `ip` belongs to.
pub open spec fn loopback_like(ip: IpAddr) -> IpAddr {
    match ip {
        IpAddr::V4(_) => IpAddr::V4(LOOPBACK_V4),
        IpAddr::V6(_) => IpAddr::V6(LOOPBACK_V6),
    }
}

/// The host-side address for a resolved one: the gateway's own address becomes
/// loopback on the same port, every other address stays as it is.
pub open spec fn gateway_rewritten(addr: SocketAddr, gateway: GatewayIps) -> SocketAddr {
    if gateway.owns(addr.ip) {
        SocketAddr::at(loopback_like(addr.ip), addr.port)
    } else {
        addr
    }
}

/// Apply the gateway-to-loopback rewrite to a resolved address.
pub fn rewrite_gateway(addr: SocketAddr, gateway: GatewayIps) -> (rewritten: SocketAddr)
    ensures
        rewritten == gateway_rewritten(addr, gateway),
        rewritten.port == addr.port,
        !(addr.ip matches IpAddr::V4(ip) && gateway.ipv4 == Some(ip)) && !(addr.ip matches IpAddr::V6(
            ip,
        ) && gateway.ipv6 == Some(ip)) ==> rewritten == addr,
{
    match addr.ip {
        IpAddr::V4(v4) => match gateway.ipv4 {
            Some(own) if own == v4 => SocketAddr::new(IpAddr::V4(LOOPBACK_V4), addr.port),
            _ => addr,
        },
        IpAddr::V6(v6) => match gateway.ipv6 {
            Some(own) if own == v6 => SocketAddr::new(IpAddr::V6(LOOPBACK_V6), addr.port),
            _ => addr,
        },
    }
}

/// The rewrite keeps the port and the family, rewrites nothing twice, and leads
/// to a gateway address only where the gateway is loopback itself.
pub proof fn lemma_rewrite_leaves_the_gateway(addr: SocketAddr, gateway: GatewayIps)
    ensures
        gateway_rewritten(addr, gateway).port == addr.port,
        loopback_like(gateway_rewritten(addr, gateway).ip) == loopback_like(addr.ip),
        gateway_rewritten(gateway_rewritten(addr, gateway), gateway) == gateway_rewritten(
            addr,
            gateway,
        ),
        gateway.owns(gateway_rewritten(addr, gateway).ip) ==> gateway_rewritten(addr, gateway).ip
            == loopback_like(addr.ip),
{
}

/// Only the gateway's own addresses are rewritten: any other address stays as it is, in
/// all its fields, and the gateway's becomes `127.0.0.1` or `::1` on the same port.
pub proof fn lemma_only_the_gateway_is_rewritten(addr: SocketAddr, gateway: GatewayIps)
    ensures
        ({
            let rewritten = gateway_rewritten(addr, gateway);
            match addr.ip {
                IpAddr::V4(ip) => if gateway.ipv4 == Some(ip) {
                    rewritten.ip == IpAddr::V4(0x7f00_0001) && rewritten.flow_info == 0
                        && rewritten.scope_id == 0
                } else {
                    rewritten.ip == addr.ip && rewritten.flow_info == addr.flow_info
                        && rewritten.scope_id == addr.scope_id
                },
                IpAddr::V6(ip) => if gateway.ipv6 == Some(ip) {
                    rewritten.ip == IpAddr::V6(1) && rewritten.flow_info == 0
                        && rewritten.scope_id == 0
                } else {
                    rewritten.ip == addr.ip && rewritten.flow_info == addr.flow_info
                        && rewritten.scope_id == addr.scope_id
                },
            }
        }),
        gateway_rewritten(addr, gateway).port == addr.port,
{
}

/// Octets are read with the most significant first.
pub proof fn lemma_octets_make_numbers(octets: Seq<u8>)
    ensures
        octets.len() == 2 ==> big_endian(octets) == 256 * octets[0] + octets[1],
        octets.len() == 4 ==> big_endian(octets) == 0x100_0000 * octets[0] + 0x1_0000 * octets[1]
            + 0x100 * octets[2] + octets[3],
        octets.len() > 0 ==> big_endian(octets) % 256 == octets.last() as nat,
        octets.len() > 0 ==> big_endian(octets) / 256 == big_endian(octets.drop_last()),
{
    reveal_with_fuel(big_endian, 5);
    if octets.len() == 2 {
        assert(octets.drop_last().drop_last().len() == 0);
        assert(octets.drop_last().last() == octets[0]);
    }
    if octets.len() == 4 {
        assert(octets.drop_last().drop_last().drop_last().drop_last().len() == 0);
        assert(octets.drop_last().last() == octets[2]);
        assert(octets.drop_last().drop_last().last() == octets[1]);
        assert(octets.drop_last().drop_last().drop_last().last() == octets[0]);
    }
}

/// The number of up to sixteen big-endian octets.
pub(crate) fn from_big_endian(octets: &[u8]) -> (number: u128)
    requires
        octets@.len() <= 16,
    ensures
        number == big_endian(octets@),
{
    let mut number: u128 = 0;
    for i in 0..octets.len()
        invariant
            octets@.len() <= 16,
            number == big_endian(octets@.take(i as int)),
    {
        let ghost next = octets@.take(i + 1);
        assert(next.drop_last() =~= octets@.take(i as int));
        proof {
            lemma_big_endian_fits(next);
        }
        number = number * 256 + octets[i] as u128;
    }
    assert(octets@.take(octets@.len() as int) =~= octets@);
    number
}

/// At most two octets fit sixteen bits, at most four fit thirty-two, and at most
/// sixteen fit a hundred and twenty-eight.
pub(crate) proof fn lemma_big_endian_fits(octets: Seq<u8>)
    ensures
        octets.len() <= 2 ==> big_endian(octets) < 0x1_0000,
        octets.len() <= 4 ==> big_endian(octets) < 0x1_0000_0000,
        octets.len() <= 16 ==> big_endian(octets) < 0x1_0000_0000_0000_0000_0000_0000_0000_0000,
    decreases octets.len(),
{
    reveal_with_fuel(big_endian, 17);
}

} // verus!
