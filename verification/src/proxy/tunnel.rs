//! Where a granted SOCKS tunnel leads: the address to dial, and whether the inner
//! stream is handed to the TLS proxy.

use vstd::prelude::*;

use crate::proxy::address::{
    gateway_rewritten, rewrite_gateway, GatewayIps, IpAddr, SocketAddr, LOOPBACK_V4,
};
use crate::proxy::socks::{SocksHost, SocksHostView};
use crate::text::{
    ascii_lower_text, decimal, decimal_text, lemma_decimal_spells_its_number, lemma_lower_case,
    same_text_ignoring_ascii_case, spelled_number,
};

verus! {

/// The name under which a guest reaches its host. Guest DNS synthesises a record
/// for it that points to the gateway; the host side rewrites that to loopback.
pub const HOST_ALIAS: &'static str = "host.microsandbox.internal";

/// Whether a name is the host alias, in whatever case.
pub open spec fn is_host_alias(name: Seq<char>) -> bool {
    ascii_lower_text(name) == ascii_lower_text(HOST_ALIAS@)
}

fn is_alias(name: &str) -> (alias: bool)
    ensures
        alias == is_host_alias(name@),
{
    same_text_ignoring_ascii_case(name, HOST_ALIAS)
}

/// The address to dial for a target that needs no parsing and no lookup: an
/// address, rewritten where it is the gateway's, and the host alias, which is
/// loopback.
pub open spec fn direct_dst(host: SocksHostView, port: u16, gateway: GatewayIps) -> Option<
    SocketAddr,
> {
    match host {
        SocksHostView::Ip(ip) => Some(gateway_rewritten(SocketAddr::at(ip, port), gateway)),
        SocksHostView::Name(name) => if is_host_alias(name) {
            Some(SocketAddr::at(IpAddr::V4(LOOPBACK_V4), port))
        } else {
            None
        },
    }
}

/// Resolve a SOCKS target as far as it needs no parsing and no lookup.
pub fn resolve_socks_dst(host: &SocksHost, port: u16, gateway: GatewayIps) -> (dst: Option<
    SocketAddr,
>)
    ensures
        dst == direct_dst(host@, port, gateway),
{
    match host {
        SocksHost::Ip(ip) => Some(rewrite_gateway(SocketAddr::new(*ip, port), gateway)),
        SocksHost::Name(name) => if is_alias(name.as_str()) {
            Some(SocketAddr::new(IpAddr::V4(LOOPBACK_V4), port))
        } else {
            None
        },
    }
}

/// The start of every message about a name that could not be resolved.
pub open spec fn resolve_message(host: Seq<char>, port: u16, detail: Seq<char>) -> Seq<char> {
    "SOCKS DNS resolve '"@ + host + ":"@ + decimal(port as nat) + "': "@ + detail
}

/// Choose the address to dial from what a lookup of a SOCKS target gave: the
/// first address, rewritten where it is the gateway's.
pub fn resolve_looked_up(
    host: &str,
    port: u16,
    looked_up: Result<Vec<SocketAddr>, String>,
    gateway: GatewayIps,
) -> (dst: Result<SocketAddr, String>)
    ensures
        match looked_up {
            Ok(addrs) => if addrs@.len() > 0 {
                dst == Ok::<SocketAddr, String>(gateway_rewritten(addrs@[0], gateway))
            } else {
                dst matches Err(message) && message@ == resolve_message(
                    host@,
                    port,
                    "no addresses"@,
                )
            },
            Err(error) => dst matches Err(message) && message@ == resolve_message(
                host@,
                port,
                error@,
            ),
        },
{
    let detail = match looked_up {
        Ok(addrs) => {
            if addrs.len() > 0 {
                return Ok(rewrite_gateway(addrs[0], gateway));
            }
            "no addresses".to_owned()
        },
        Err(error) => error,
    };
    let message = "SOCKS DNS resolve '".to_owned().concat(host).concat(":").concat(
        decimal_text(port as u64).as_str(),
    ).concat("': ").concat(detail.as_str());
    Err(message)
}

/// Whether a port's inner TLS stream is to be intercepted.
pub open spec fn intercepts(intercepted_ports: Option<Seq<u16>>, port: u16) -> bool {
    intercepted_ports matches Some(ports) && ports.contains(port)
}

/// The address that the guest is taken to have dialed: the tunnel's own, except
/// that the host alias stands for the gateway, since that is what connection
/// identity is verified against.
pub open spec fn guest_ip(host: SocksHostView, connect: IpAddr, gateway: GatewayIps) -> IpAddr {
    match host {
        SocksHostView::Name(name) if is_host_alias(name) => match (gateway.ipv4, gateway.ipv6) {
            (Some(v4), _) => IpAddr::V4(v4),
            (None, Some(v6)) => IpAddr::V6(v6),
            (None, None) => connect,
        },
        _ => connect,
    }
}

/// What becomes of a tunnel.
#[derive(Debug, Clone, Copy, PartialEq, Eq, Structural)]
pub enum TunnelPlan {
    /// The inner stream is handed to the TLS proxy.
    Intercept {
        /// The destination as the guest sees it, which rules match against.
        guest_dst: SocketAddr,
        /// The address to dial.
        connect_dst: SocketAddr,
    },
    /// The inner stream is relayed as it is.
    Relay {
        /// The address to dial.
        connect_dst: SocketAddr,
    },
}

/// What becomes of a tunnel to `host` and `port` whose address to dial is
/// `connect_dst`.
pub open spec fn tunnel_plan(
    host: SocksHostView,
    port: u16,
    connect_dst: SocketAddr,
    intercepted_ports: Option<Seq<u16>>,
    gateway: GatewayIps,
) -> TunnelPlan {
    if intercepts(intercepted_ports, port) {
        TunnelPlan::Intercept {
            guest_dst: SocketAddr::at(guest_ip(host, connect_dst.ip, gateway), port),
            connect_dst,
        }
    } else {
        TunnelPlan::Relay { connect_dst }
    }
}

/// The ports whose inner TLS stream is intercepted, as a sequence.
pub open spec fn ports_view(ports: Option<Vec<u16>>) -> Option<Seq<u16>> {
    match ports {
        Some(ports) => Some(ports@),
        None => None,
    }
}

fn is_intercepted(intercepted_ports: &Option<Vec<u16>>, port: u16) -> (intercepted: bool)
    ensures
        intercepted == intercepts(ports_view(*intercepted_ports), port),
{
    match intercepted_ports {
        None => false,
        Some(ports) => {
            for i in 0..ports.len()
                invariant
                    ports_view(*intercepted_ports) == Some(ports@),
                    forall|j: int| 0 <= j < i ==> ports@[j] != port,
            {
                if ports[i] == port {
                    assert(ports@[i as int] == port);
                    return true;
                }
            }
            false
        },
    }
}

/// Decide what becomes of a tunnel whose target was resolved.
pub fn dispatch_socks_tunnel(
    host: &SocksHost,
    port: u16,
    connect_dst: SocketAddr,
    intercepted_ports: &Option<Vec<u16>>,
    gateway: GatewayIps,
) -> (plan: TunnelPlan)
    ensures
        plan == tunnel_plan(host@, port, connect_dst, ports_view(*intercepted_ports), gateway),
        plan is Intercept <==> (*intercepted_ports matches Some(list) && exists|i: int|
            0 <= i < list@.len() && list@[i] == port),
        plan matches TunnelPlan::Intercept { connect_dst: dialed, .. } ==> dialed == connect_dst,
        plan matches TunnelPlan::Relay { connect_dst: dialed } ==> dialed == connect_dst,
{
    proof {
        lemma_the_port_decides(
            host@,
            port,
            connect_dst,
            ports_view(*intercepted_ports),
            gateway,
        );
    }
    if !is_intercepted(intercepted_ports, port) {
        return TunnelPlan::Relay { connect_dst };
    }
    let alias = match host {
        SocksHost::Ip(_) => false,
        SocksHost::Name(name) => is_alias(name.as_str()),
    };
    let ip = if alias {
        match (gateway.ipv4, gateway.ipv6) {
            (Some(v4), _) => IpAddr::V4(v4),
            (None, Some(v6)) => IpAddr::V6(v6),
            (None, None) => connect_dst.ip,
        }
    } else {
        connect_dst.ip
    };
    TunnelPlan::Intercept { guest_dst: SocketAddr::new(ip, port), connect_dst }
}

/// The host alias is dialed on loopback whatever the gateway is, and an
/// intercepted tunnel to it is presented as one to the gateway.
pub proof fn lemma_host_alias_tunnel(
    name: Seq<char>,
    port: u16,
    ports: Option<Seq<u16>>,
    gateway: GatewayIps,
)
    requires
        is_host_alias(name),
        intercepts(ports, port),
        gateway.ipv4 is Some || gateway.ipv6 is Some,
    ensures
        ({
            let host = SocksHostView::Name(name);
            let dst = SocketAddr::at(IpAddr::V4(LOOPBACK_V4), port);
            &&& direct_dst(host, port, gateway) == Some(dst)
            &&& tunnel_plan(host, port, dst, ports, gateway) matches TunnelPlan::Intercept {
                guest_dst,
                connect_dst,
            } && connect_dst == dst && guest_dst.port == port && gateway.owns(guest_dst.ip)
        }),
{
}

/// A target that is not the host alias is presented under the address that is
/// dialed for it.
pub proof fn lemma_other_tunnels_keep_their_address(
    host: SocksHostView,
    port: u16,
    connect_dst: SocketAddr,
    ports: Option<Seq<u16>>,
    gateway: GatewayIps,
)
    requires
        host matches SocksHostView::Name(name) ==> !is_host_alias(name),
    ensures
        tunnel_plan(host, port, connect_dst, ports, gateway) matches TunnelPlan::Intercept {
            guest_dst,
            ..
        } ==> guest_dst == SocketAddr::at(connect_dst.ip, port),
{
}

/// A tunnel is handed to the TLS proxy where there is one and its list has the tunnel's
/// port, at whatever place, and relayed otherwise. This holds for every target, an address
/// as well as a name. What is dialed is the given address either way.
pub proof fn lemma_the_port_decides(
    host: SocksHostView,
    port: u16,
    dst: SocketAddr,
    ports: Option<Seq<u16>>,
    gateway: GatewayIps,
)
    ensures
        ({
            let plan = tunnel_plan(host, port, dst, ports, gateway);
            let listed = ports matches Some(list) && exists|i: int|
                0 <= i < list.len() && list[i] == port;
            &&& listed ==> plan is Intercept && plan->Intercept_connect_dst == dst
            &&& !listed ==> plan == (TunnelPlan::Relay { connect_dst: dst })
        }),
{
    if let Some(list) = ports {
        if exists|i: int| 0 <= i < list.len() && list[i] == port {
            let i = choose|i: int| 0 <= i < list.len() && list[i] == port;
            assert(list.contains(list[i]));
        }
    }
}

/// An intercepted tunnel is presented under its own port, and under the address that is
/// dialed for it. Only the host alias is presented under the gateway's address, the IPv4 one
/// where there is one, the IPv6 one otherwise.
pub proof fn lemma_the_presented_address(
    host: SocksHostView,
    port: u16,
    dst: SocketAddr,
    ports: Option<Seq<u16>>,
    gateway: GatewayIps,
)
    ensures
        tunnel_plan(host, port, dst, ports, gateway) matches TunnelPlan::Intercept {
            guest_dst,
            ..
        } ==> {
            &&& guest_dst.port == port && guest_dst.flow_info == 0 && guest_dst.scope_id == 0
            &&& host is Ip ==> guest_dst.ip == dst.ip
            &&& host matches SocksHostView::Name(name) ==> {
                &&& !is_host_alias(name) ==> guest_dst.ip == dst.ip
                &&& is_host_alias(name) ==> {
                    &&& gateway.ipv4 matches Some(v4) ==> guest_dst.ip == IpAddr::V4(v4)
                    &&& gateway.ipv4 is None && gateway.ipv6 is Some ==> guest_dst.ip
                        == IpAddr::V6(gateway.ipv6->0)
                    &&& gateway.ipv4 is None && gateway.ipv6 is None ==> guest_dst.ip == dst.ip
                }
            }
        },
{
}

/// The host alias is `host.microsandbox.internal`, in whatever case: the same length, and
/// the same letter at each place.
pub proof fn lemma_the_host_alias(name: Seq<char>)
    ensures
        is_host_alias(name) <==> {
            let alias = "host.microsandbox.internal"@;
            &&& name.len() == 26
            &&& forall|i: int|
                0 <= i < 26 ==> (#[trigger] name[i]) == alias[i] || (65 <= name[i] as u32
                    && name[i] as u32 <= 90 && name[i] as u32 + 32 == alias[i] as u32)
        },
{
    reveal_strlit("host.microsandbox.internal");
    let alias = "host.microsandbox.internal"@;
    lemma_lower_case(name);
    lemma_lower_case(alias);
    assert(ascii_lower_text(alias) =~= alias);
    let matched = name.len() == 26 && forall|i: int|
        0 <= i < 26 ==> (#[trigger] name[i]) == alias[i] || (65 <= name[i] as u32 && name[i] as u32
            <= 90 && name[i] as u32 + 32 == alias[i] as u32);
    if is_host_alias(name) {
        assert(ascii_lower_text(name).len() == alias.len());
        assert forall|i: int| 0 <= i < 26 implies (#[trigger] name[i]) == alias[i] || (65
            <= name[i] as u32 && name[i] as u32 <= 90 && name[i] as u32 + 32
            == alias[i] as u32) by {
            assert(ascii_lower_text(name)[i] == alias[i]);
        }
    }
    if matched {
        assert forall|i: int| 0 <= i < 26 implies ascii_lower_text(name)[i] == alias[i] by {
            let c = name[i];
            assert(!(65 <= alias[i] as u32 && alias[i] as u32 <= 90));
        }
        assert(ascii_lower_text(name) =~= alias);
    }
}

/// A target that is an address needs no lookup, and neither does the host alias, which is
/// `127.0.0.1` on whatever network. Every other name does.
pub proof fn lemma_targets_without_a_lookup(
    ip: IpAddr,
    name: Seq<char>,
    port: u16,
    gateway: GatewayIps,
)
    ensures
        direct_dst(SocksHostView::Ip(ip), port, gateway) == Some(
            gateway_rewritten(
                SocketAddr { ip, port, flow_info: 0, scope_id: 0 },
                gateway,
            ),
        ),
        is_host_alias(name) ==> direct_dst(SocksHostView::Name(name), port, gateway) == Some(
            SocketAddr { ip: IpAddr::V4(0x7f00_0001), port, flow_info: 0, scope_id: 0 },
        ),
        !is_host_alias(name) ==> direct_dst(SocksHostView::Name(name), port, gateway) is None,
{
}

/// The message about a name that could not be resolved holds the name, the port in decimal
/// and the reason.
pub proof fn lemma_resolve_messages(host: Seq<char>, port: u16, detail: Seq<char>)
    ensures
        ({
            let message = resolve_message(host, port, detail);
            let number = decimal(port as nat);
            let after_host = 19 + host.len() as int;
            let after_number = after_host + 1 + number.len() as int;
            &&& message.take(19) == "SOCKS DNS resolve '"@
            &&& message.subrange(19, after_host) == host
            &&& message[after_host] == ':'
            &&& message.subrange(after_host + 1, after_number) == number
            &&& message.skip(after_number) == "': "@ + detail
            &&& spelled_number(number) == port
        }),
{
    reveal_strlit("SOCKS DNS resolve '");
    reveal_strlit(":");
    reveal_strlit("': ");
    let message = resolve_message(host, port, detail);
    let number = decimal(port as nat);
    let after_host = 19 + host.len() as int;
    let after_number = after_host + 1 + number.len() as int;
    lemma_decimal_spells_its_number(port as nat);
    assert(message.take(19) =~= "SOCKS DNS resolve '"@);
    assert(message.subrange(19, after_host) =~= host);
    assert(message.subrange(after_host + 1, after_number) =~= number);
    assert(message.skip(after_number) =~= "': "@ + detail);
}

} // verus!
