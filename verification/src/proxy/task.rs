//! The task of one proxied connection, as a state machine.
//!
//! The caller performs each [`ProxyAction`] and hands back what came of it as a
//! [`ProxyEvent`]. The machine first looks at the guest's first byte. A SOCKS
//! handshake is negotiated and its tunnel opened; everything else goes through the
//! egress policy, with the server name of a TLS ClientHello where there is one.
//! Then the two sides are relayed.

use bytes::Bytes;
use vstd::prelude::*;

use crate::proxy::address::{
    gateway_rewritten, rewrite_gateway, GatewayIps, IpAddr, SocketAddr,
};
use crate::proxy::chunk::{chunk_bytes, chunk_from, chunk_of, held};
use crate::proxy::peek::{
    canonical_name, peek_for_sni, PeekEvent, PeekStep, SniPeek, PEEK_BUF_SIZE, TLS_HANDSHAKE,
};
use crate::proxy::reader::ChannelReader;
use crate::proxy::socks::{
    handle_socks4, handle_socks5, read_socks5_methods, socks4_reply, socks4_reply_chunk,
    socks4_request, socks5_method_reply, socks5_method_reply_chunk, socks5_methods, socks5_reply,
    socks5_reply_chunk, socks5_request, MethodsProgress, MethodsReading, Progress, Reading,
    Socks4Request, Socks5Methods, Socks5Request, SocksHost, SocksHostView, SOCKS4_GRANTED,
    SOCKS5_GRANTED, SOCKS5_NO_AUTH, SOCKS5_NO_METHOD,
};
use crate::proxy::tunnel::{
    direct_dst, dispatch_socks_tunnel, ports_view, resolve_looked_up, resolve_message,
    resolve_socks_dst, tunnel_plan, TunnelPlan,
};

verus! {

/// The first byte of a SOCKS4 handshake.
pub const SOCKS4_VERSION: u8 = 0x04;

/// The first byte of a SOCKS5 handshake.
pub const SOCKS5_VERSION: u8 = 0x05;

/// What the task of a connection is told at its start.
pub struct ProxyConfig {
    /// What the guest dialed, which policy rules match against.
    pub guest_dst: SocketAddr,
    /// The host-side address to dial for it.
    pub connect_dst: SocketAddr,
    /// Whether the egress policy has rules about domains.
    pub has_domain_rules: bool,
    /// The ports whose inner TLS stream is intercepted; `None` without a TLS proxy.
    pub intercepted_ports: Option<Vec<u16>>,
    /// The gateway's addresses.
    pub gateway: GatewayIps,
}

/// What a [`ProxyConfig`] says.
pub struct ConfigView {
    /// What the guest dialed.
    pub guest_dst: SocketAddr,
    /// The host-side address to dial for it.
    pub connect_dst: SocketAddr,
    /// Whether the egress policy has rules about domains.
    pub has_domain_rules: bool,
    /// The ports whose inner TLS stream is intercepted.
    pub intercepted_ports: Option<Seq<u16>>,
    /// The gateway's addresses.
    pub gateway: GatewayIps,
}

impl View for ProxyConfig {
    type V = ConfigView;

    open spec fn view(&self) -> ConfigView {
        ConfigView {
            guest_dst: self.guest_dst,
            connect_dst: self.connect_dst,
            has_domain_rules: self.has_domain_rules,
            intercepted_ports: ports_view(self.intercepted_ports),
            gateway: self.gateway,
        }
    }
}

/// The verdict of the egress policy on a destination.
#[derive(Debug, Clone, Copy, PartialEq, Eq, Structural)]
pub enum EgressEvaluation {
    /// The connection may be opened.
    Allow,
    /// The connection may not be opened.
    Deny,
    /// The verdict waits for a hostname. A task that has peeked never waits on.
    DeferUntilHostname,
}

/// Where the hostname of an egress decision comes from.
#[derive(Debug, Clone)]
pub enum HostnameSource {
    /// The server name that the guest's ClientHello carries.
    Sni(String),
    /// The names that were resolved to the destination before.
    CacheOnly,
}

/// Why a task ended with an error.
#[derive(Debug, Clone, Copy, PartialEq, Eq, Structural)]
pub enum ProxyErrorKind {
    /// The guest's channel ended within a handshake.
    UnexpectedEof,
    /// The channel to the guest is closed.
    BrokenPipe,
    /// A SOCKS target could not be resolved.
    NotFound,
    /// The upstream address could not be dialed.
    Dial,
}

/// The error that a task ended with.
#[derive(Debug, Clone)]
pub struct ProxyError {
    /// What went wrong.
    pub kind: ProxyErrorKind,
    /// A message for the log; the reason itself where the upstream address could not be
    /// dialed.
    pub message: String,
}

/// What came of the last action.
pub enum ProxyEvent {
    /// The next chunk of the guest's channel.
    Chunk(Bytes),
    /// The guest's channel is closed.
    Closed,
    /// The time budget of the peek ran out.
    PeekExpired,
    /// The server name that the peeked bytes carry, if they do.
    Sni(Option<String>),
    /// The verdict of the egress policy.
    Egress(EgressEvaluation),
    /// Whether a chunk could be handed to the guest.
    Sent(bool),
    /// The address that a host's text spells, if it does.
    Literal(Option<IpAddr>),
    /// The addresses that a host was resolved to, or the reason why it was not.
    LookedUp(Result<Vec<SocketAddr>, String>),
    /// The upstream address was dialed.
    Dialed,
    /// The upstream address could not be dialed, for this reason.
    DialFailed(String),
    /// Whether a chunk could be written upstream.
    Written(bool),
    /// What was read from upstream; nothing at its end.
    ServerData(Vec<u8>),
    /// Reading from upstream failed.
    ServerFailed,
}

/// What the caller is to do next.
pub enum ProxyAction {
    /// Wait for the guest's channel.
    Recv,
    /// Wait for the guest's channel, or for the end of the peek's time budget.
    RecvWithinBudget,
    /// Look for a server name in the peeked bytes.
    ExtractSni,
    /// Evaluate the egress policy.
    EvaluateEgress {
        /// The destination that rules match against.
        dst: SocketAddr,
        /// Where the hostname comes from.
        source: HostnameSource,
    },
    /// Send a reply to the guest, and wake its poll loop if that worked.
    Reply(Bytes),
    /// Send a reply to the guest, whether that works or not. The task is over.
    Refuse(Bytes),
    /// Parse a host as an address.
    ParseLiteral(String),
    /// Resolve a host.
    LookUp {
        /// The host.
        host: String,
        /// The port.
        port: u16,
    },
    /// Dial the upstream address.
    Dial(SocketAddr),
    /// Hand the connection to the TLS proxy. The task is over.
    Intercept {
        /// The destination as the guest sees it.
        guest_dst: SocketAddr,
        /// The address to dial.
        connect_dst: SocketAddr,
        /// Received bytes of the inner stream, which come before everything else.
        leftover: Bytes,
    },
    /// Write a chunk upstream.
    Write(Bytes),
    /// Wait for either side.
    Relay,
    /// Hand a chunk to the guest, and wake its poll loop if that worked.
    Deliver(Bytes),
    /// The task is over.
    Finish(Result<(), ProxyError>),
}

/// What a [`ProxyEvent`] says.
pub enum EventView {
    Chunk(Seq<u8>),
    Closed,
    PeekExpired,
    Sni(Option<Seq<char>>),
    Egress(EgressEvaluation),
    Sent(bool),
    Literal(Option<IpAddr>),
    LookedUp(Result<Seq<SocketAddr>, Seq<char>>),
    Dialed,
    DialFailed(Seq<char>),
    Written(bool),
    ServerData(Seq<u8>),
    ServerFailed,
}

/// What a [`HostnameSource`] says.
pub enum SourceView {
    Sni(Seq<char>),
    CacheOnly,
}

/// What a [`ProxyAction`] says.
pub enum ActionView {
    Recv,
    RecvWithinBudget,
    ExtractSni,
    EvaluateEgress { dst: SocketAddr, source: SourceView },
    Reply(Seq<u8>),
    Refuse(Seq<u8>),
    ParseLiteral(Seq<char>),
    LookUp { host: Seq<char>, port: u16 },
    Dial(SocketAddr),
    Intercept { guest_dst: SocketAddr, connect_dst: SocketAddr, leftover: Seq<u8> },
    Write(Seq<u8>),
    Relay,
    Deliver(Seq<u8>),
    Finish,
    Fail(ProxyErrorKind, Seq<char>),
}

impl View for HostnameSource {
    type V = SourceView;

    open spec fn view(&self) -> SourceView {
        match *self {
            HostnameSource::Sni(name) => SourceView::Sni(name@),
            HostnameSource::CacheOnly => SourceView::CacheOnly,
        }
    }
}

impl View for ProxyEvent {
    type V = EventView;

    open spec fn view(&self) -> EventView {
        match *self {
            ProxyEvent::Chunk(chunk) => EventView::Chunk(held(chunk)),
            ProxyEvent::Closed => EventView::Closed,
            ProxyEvent::PeekExpired => EventView::PeekExpired,
            ProxyEvent::Sni(Some(name)) => EventView::Sni(Some(name@)),
            ProxyEvent::Sni(None) => EventView::Sni(None),
            ProxyEvent::Egress(verdict) => EventView::Egress(verdict),
            ProxyEvent::Sent(ok) => EventView::Sent(ok),
            ProxyEvent::Literal(ip) => EventView::Literal(ip),
            ProxyEvent::LookedUp(Ok(addrs)) => EventView::LookedUp(Ok(addrs@)),
            ProxyEvent::LookedUp(Err(error)) => EventView::LookedUp(Err(error@)),
            ProxyEvent::Dialed => EventView::Dialed,
            ProxyEvent::DialFailed(error) => EventView::DialFailed(error@),
            ProxyEvent::Written(ok) => EventView::Written(ok),
            ProxyEvent::ServerData(data) => EventView::ServerData(data@),
            ProxyEvent::ServerFailed => EventView::ServerFailed,
        }
    }
}

impl View for ProxyAction {
    type V = ActionView;

    open spec fn view(&self) -> ActionView {
        match *self {
            ProxyAction::Recv => ActionView::Recv,
            ProxyAction::RecvWithinBudget => ActionView::RecvWithinBudget,
            ProxyAction::ExtractSni => ActionView::ExtractSni,
            ProxyAction::EvaluateEgress { dst, source } => ActionView::EvaluateEgress {
                dst,
                source: source@,
            },
            ProxyAction::Reply(chunk) => ActionView::Reply(held(chunk)),
            ProxyAction::Refuse(chunk) => ActionView::Refuse(held(chunk)),
            ProxyAction::ParseLiteral(host) => ActionView::ParseLiteral(host@),
            ProxyAction::LookUp { host, port } => ActionView::LookUp { host: host@, port },
            ProxyAction::Dial(dst) => ActionView::Dial(dst),
            ProxyAction::Intercept { guest_dst, connect_dst, leftover } => ActionView::Intercept {
                guest_dst,
                connect_dst,
                leftover: held(leftover),
            },
            ProxyAction::Write(chunk) => ActionView::Write(held(chunk)),
            ProxyAction::Relay => ActionView::Relay,
            ProxyAction::Deliver(chunk) => ActionView::Deliver(held(chunk)),
            ProxyAction::Finish(Ok(_)) => ActionView::Finish,
            ProxyAction::Finish(Err(error)) => ActionView::Fail(error.kind, error.message@),
        }
    }
}

/// Where a task is. Each stage but the last waits for what its action brings.
#[allow(inconsistent_fields)]
pub enum StageView {
    /// Nothing was received.
    First,
    /// A SOCKS4 request is being read; `seen` is what was read after the version.
    Socks4 { seen: Seq<u8> },
    /// A SOCKS5 offer of methods is being read.
    Socks5Offer { seen: Seq<u8> },
    /// The choice of a SOCKS5 method is being sent; `rest` was received behind it.
    Socks5Choice { rest: Seq<u8> },
    /// A SOCKS5 request is being read.
    Socks5Ask { seen: Seq<u8> },
    /// The grant of a SOCKS request is being sent.
    Granting { host: SocksHostView, port: u16, rest: Seq<u8> },
    /// The host of a tunnel is being parsed as an address.
    Parsing { host: Seq<char>, port: u16, rest: Seq<u8> },
    /// The host of a tunnel is being resolved.
    Resolving { host: Seq<char>, port: u16, rest: Seq<u8> },
    /// The first flight is being peeked at, and more data is awaited.
    Peeking { buf: Seq<u8> },
    /// A server name is being looked for in the first flight.
    Extracting { buf: Seq<u8> },
    /// The egress policy is being evaluated.
    Judging { buf: Seq<u8> },
    /// The upstream address is being dialed; `replay` goes out first.
    Dialing { replay: Seq<u8> },
    /// A chunk is being written upstream.
    Writing,
    /// Either side is awaited.
    Relaying,
    /// A chunk is being handed to the guest.
    Delivering,
    /// The task is over.
    Done,
}

/// Whether an event answers the action of a stage.
///
/// The guest's first chunk has at least the byte that is looked at.
pub open spec fn answers(stage: StageView, event: EventView) -> bool {
    match stage {
        StageView::First => event is Closed || (event matches EventView::Chunk(chunk) && chunk.len()
            > 0),
        StageView::Socks4 { .. } | StageView::Socks5Offer { .. } | StageView::Socks5Ask { .. } =>
            event is Chunk || event is Closed,
        StageView::Socks5Choice { .. } | StageView::Granting { .. } | StageView::Delivering =>
            event is Sent,
        StageView::Parsing { .. } => event is Literal,
        StageView::Resolving { .. } => event is LookedUp,
        StageView::Peeking { .. } => event is Chunk || event is Closed || event is PeekExpired,
        StageView::Extracting { .. } => event is Sni,
        StageView::Judging { .. } => event is Egress,
        StageView::Dialing { .. } => event is Dialed || event is DialFailed,
        StageView::Writing => event is Written,
        StageView::Relaying => event is Chunk || event is Closed || event is ServerData
            || event is ServerFailed,
        StageView::Done => false,
    }
}

/// The message of a handshake that the guest's channel ended in.
pub open spec fn eof_message() -> Seq<char> {
    "channel closed during SOCKS negotiation"@
}

/// The message of a reply that found the guest's channel closed.
pub open spec fn closed_message() -> Seq<char> {
    "to_smoltcp closed"@
}

/// A SOCKS4 request was read as far as `whole`.
pub open spec fn after_socks4(whole: Seq<u8>) -> (StageView, ActionView) {
    match socks4_request(whole) {
        Reading::NeedMore => (StageView::Socks4 { seen: whole }, ActionView::Recv),
        Reading::Refused { reply, len } => (StageView::Done, ActionView::Refuse(reply)),
        Reading::Granted { host, port, len } => (
            StageView::Granting { host, port, rest: whole.skip(len) },
            ActionView::Reply(socks4_reply(SOCKS4_GRANTED)),
        ),
    }
}

/// A SOCKS5 offer of methods was read as far as `whole`.
pub open spec fn after_socks5_offer(whole: Seq<u8>) -> (StageView, ActionView) {
    match socks5_methods(whole) {
        MethodsReading::NeedMore => (StageView::Socks5Offer { seen: whole }, ActionView::Recv),
        MethodsReading::Refused { len } => (
            StageView::Done,
            ActionView::Refuse(socks5_method_reply(SOCKS5_NO_METHOD)),
        ),
        MethodsReading::Accepted { len } => (
            StageView::Socks5Choice { rest: whole.skip(len) },
            ActionView::Reply(socks5_method_reply(SOCKS5_NO_AUTH)),
        ),
    }
}

/// A SOCKS5 request was read as far as `whole`.
pub open spec fn after_socks5_ask(whole: Seq<u8>) -> (StageView, ActionView) {
    match socks5_request(whole) {
        Reading::NeedMore => (StageView::Socks5Ask { seen: whole }, ActionView::Recv),
        Reading::Refused { reply, len } => (StageView::Done, ActionView::Refuse(reply)),
        Reading::Granted { host, port, len } => (
            StageView::Granting { host, port, rest: whole.skip(len) },
            ActionView::Reply(socks5_reply(SOCKS5_GRANTED)),
        ),
    }
}

/// The address to dial for a tunnel is known.
pub open spec fn after_resolve(
    config: ConfigView,
    host: SocksHostView,
    port: u16,
    rest: Seq<u8>,
    dst: SocketAddr,
) -> (StageView, ActionView) {
    match tunnel_plan(host, port, dst, config.intercepted_ports, config.gateway) {
        TunnelPlan::Intercept { guest_dst, connect_dst } => (
            StageView::Done,
            ActionView::Intercept { guest_dst, connect_dst, leftover: rest },
        ),
        TunnelPlan::Relay { connect_dst } => (
            StageView::Dialing { replay: rest },
            ActionView::Dial(connect_dst),
        ),
    }
}

/// The grant of a tunnel was sent.
pub open spec fn after_grant(
    config: ConfigView,
    host: SocksHostView,
    port: u16,
    rest: Seq<u8>,
) -> (StageView, ActionView) {
    match direct_dst(host, port, config.gateway) {
        Some(dst) => after_resolve(config, host, port, rest, dst),
        None => (
            StageView::Parsing { host: host->Name_0, port, rest },
            ActionView::ParseLiteral(host->Name_0),
        ),
    }
}

/// The peek is over.
pub open spec fn after_peek(config: ConfigView, buf: Seq<u8>, source: SourceView) -> (
    StageView,
    ActionView,
) {
    (
        StageView::Judging { buf },
        ActionView::EvaluateEgress { dst: config.guest_dst, source },
    )
}

/// The peek has received `buf`.
pub open spec fn after_peeked_data(config: ConfigView, buf: Seq<u8>) -> (StageView, ActionView) {
    if buf.len() > 0 && buf[0] == TLS_HANDSHAKE {
        (StageView::Extracting { buf }, ActionView::ExtractSni)
    } else {
        after_peek(config, buf, SourceView::CacheOnly)
    }
}

/// The guest's first chunk arrived.
pub open spec fn after_first_chunk(config: ConfigView, chunk: Seq<u8>) -> (StageView, ActionView) {
    if chunk[0] == SOCKS4_VERSION {
        after_socks4(chunk.skip(1))
    } else if chunk[0] == SOCKS5_VERSION {
        after_socks5_offer(chunk.skip(1))
    } else if config.has_domain_rules {
        after_peeked_data(config, chunk)
    } else {
        (StageView::Dialing { replay: chunk }, ActionView::Dial(config.connect_dst))
    }
}

/// What a task does next, and where it is then. Whatever is not listed ends the
/// task without an error: the guest's or the server's end, a chunk that could not
/// be passed on, and a connection that the policy does not allow.
pub open spec fn proxy_next(config: ConfigView, stage: StageView, event: EventView) -> (
    StageView,
    ActionView,
) {
    let finish = (StageView::Done, ActionView::Finish);
    match (stage, event) {
        (StageView::First, EventView::Chunk(chunk)) => after_first_chunk(config, chunk),
        (StageView::Socks4 { seen }, EventView::Chunk(chunk)) => after_socks4(seen + chunk),
        (StageView::Socks5Offer { seen }, EventView::Chunk(chunk)) => after_socks5_offer(
            seen + chunk,
        ),
        (StageView::Socks5Ask { seen }, EventView::Chunk(chunk)) => after_socks5_ask(seen + chunk),
        (
            StageView::Socks4 { .. } | StageView::Socks5Offer { .. } | StageView::Socks5Ask { .. },
            EventView::Closed,
        ) => (StageView::Done, ActionView::Fail(ProxyErrorKind::UnexpectedEof, eof_message())),
        (StageView::Socks5Choice { rest }, EventView::Sent(true)) => after_socks5_ask(rest),
        (StageView::Granting { host, port, rest }, EventView::Sent(true)) => after_grant(
            config,
            host,
            port,
            rest,
        ),
        (
            StageView::Socks5Choice { .. } | StageView::Granting { .. },
            EventView::Sent(false),
        ) => (StageView::Done, ActionView::Fail(ProxyErrorKind::BrokenPipe, closed_message())),
        (StageView::Parsing { host, port, rest }, EventView::Literal(Some(ip))) => after_resolve(
            config,
            SocksHostView::Name(host),
            port,
            rest,
            gateway_rewritten(SocketAddr::at(ip, port), config.gateway),
        ),
        (StageView::Parsing { host, port, rest }, EventView::Literal(None)) => (
            StageView::Resolving { host, port, rest },
            ActionView::LookUp { host, port },
        ),
        (StageView::Resolving { host, port, rest }, EventView::LookedUp(Ok(addrs))) => {
            if addrs.len() > 0 {
                after_resolve(
                    config,
                    SocksHostView::Name(host),
                    port,
                    rest,
                    gateway_rewritten(addrs[0], config.gateway),
                )
            } else {
                (
                    StageView::Done,
                    ActionView::Fail(
                        ProxyErrorKind::NotFound,
                        resolve_message(host, port, "no addresses"@),
                    ),
                )
            }
        },
        (StageView::Resolving { host, port, rest }, EventView::LookedUp(Err(error))) => (
            StageView::Done,
            ActionView::Fail(ProxyErrorKind::NotFound, resolve_message(host, port, error)),
        ),
        (StageView::Peeking { buf }, EventView::Chunk(chunk)) => after_peeked_data(
            config,
            buf + chunk,
        ),
        (
            StageView::Peeking { buf },
            EventView::Closed | EventView::PeekExpired,
        ) => after_peek(config, buf, SourceView::CacheOnly),
        (StageView::Extracting { buf }, EventView::Sni(Some(name))) => after_peek(
            config,
            buf,
            SourceView::Sni(canonical_name(name)),
        ),
        (StageView::Extracting { buf }, EventView::Sni(None)) => {
            if buf.len() >= PEEK_BUF_SIZE {
                after_peek(config, buf, SourceView::CacheOnly)
            } else {
                (StageView::Peeking { buf }, ActionView::RecvWithinBudget)
            }
        },
        (StageView::Judging { buf }, EventView::Egress(EgressEvaluation::Allow)) => (
            StageView::Dialing { replay: buf },
            ActionView::Dial(config.connect_dst),
        ),
        (StageView::Dialing { replay }, EventView::Dialed) => {
            if replay.len() > 0 {
                (StageView::Writing, ActionView::Write(replay))
            } else {
                (StageView::Relaying, ActionView::Relay)
            }
        },
        (StageView::Dialing { .. }, EventView::DialFailed(error)) => (
            StageView::Done,
            ActionView::Fail(ProxyErrorKind::Dial, error),
        ),
        (StageView::Writing, EventView::Written(true)) => (StageView::Relaying, ActionView::Relay),
        (StageView::Relaying, EventView::Chunk(chunk)) => (
            StageView::Writing,
            ActionView::Write(chunk),
        ),
        (StageView::Relaying, EventView::ServerData(data)) => {
            if data.len() > 0 {
                (StageView::Delivering, ActionView::Deliver(data))
            } else {
                finish
            }
        },
        (StageView::Delivering, EventView::Sent(true)) => (StageView::Relaying, ActionView::Relay),
        _ => finish,
    }
}

// The machine

/// Where a task is, with what it keeps there.
#[allow(inconsistent_fields)]
enum Stage {
    First,
    Socks4(Socks4Request),
    Socks5Offer(Socks5Methods),
    Socks5Choice(Bytes),
    Socks5Ask(Socks5Request),
    Granting { host: SocksHost, port: u16, rest: Bytes },
    Parsing { host: String, port: u16, rest: Bytes },
    Resolving { host: String, port: u16, rest: Bytes },
    Peeking(SniPeek),
    Extracting(SniPeek),
    Judging(Vec<u8>),
    Dialing(Bytes),
    Writing,
    Relaying,
    Delivering,
    Done,
}

impl Stage {
    spec fn wf(self) -> bool {
        match self {
            Stage::Socks4(request) => request.wf(),
            Stage::Socks5Offer(methods) => socks5_methods(methods.seen()) is NeedMore,
            Stage::Socks5Ask(request) => socks5_request(request.seen()) is NeedMore,
            Stage::Peeking(peek) => peek.cap() == PEEK_BUF_SIZE,
            Stage::Extracting(peek) => peek.cap() == PEEK_BUF_SIZE,
            _ => true,
        }
    }
}

impl View for Stage {
    type V = StageView;

    closed spec fn view(&self) -> StageView {
        match *self {
            Stage::First => StageView::First,
            Stage::Socks4(request) => StageView::Socks4 { seen: request.seen() },
            Stage::Socks5Offer(methods) => StageView::Socks5Offer { seen: methods.seen() },
            Stage::Socks5Choice(rest) => StageView::Socks5Choice { rest: held(rest) },
            Stage::Socks5Ask(request) => StageView::Socks5Ask { seen: request.seen() },
            Stage::Granting { host, port, rest } => StageView::Granting {
                host: host@,
                port,
                rest: held(rest),
            },
            Stage::Parsing { host, port, rest } => StageView::Parsing {
                host: host@,
                port,
                rest: held(rest),
            },
            Stage::Resolving { host, port, rest } => StageView::Resolving {
                host: host@,
                port,
                rest: held(rest),
            },
            Stage::Peeking(peek) => StageView::Peeking { buf: peek.received() },
            Stage::Extracting(peek) => StageView::Extracting { buf: peek.received() },
            Stage::Judging(buf) => StageView::Judging { buf: buf@ },
            Stage::Dialing(replay) => StageView::Dialing { replay: held(replay) },
            Stage::Writing => StageView::Writing,
            Stage::Relaying => StageView::Relaying,
            Stage::Delivering => StageView::Delivering,
            Stage::Done => StageView::Done,
        }
    }
}

/// Whether a stage and an action are the ones that the model names.
spec fn took(next: (Stage, ProxyAction), model: (StageView, ActionView)) -> bool {
    next.0.wf() && next.0@ == model.0 && next.1@ == model.1
}

fn fail(kind: ProxyErrorKind, message: &str) -> (next: (Stage, ProxyAction))
    ensures
        took(next, (StageView::Done, ActionView::Fail(kind, message@))),
{
    (Stage::Done, ProxyAction::Finish(Err(ProxyError { kind, message: message.to_owned() })))
}

fn finish() -> (next: (Stage, ProxyAction))
    ensures
        took(next, (StageView::Done, ActionView::Finish)),
{
    (Stage::Done, ProxyAction::Finish(Ok(())))
}

/// A reader that has received one chunk.
fn reader_of(chunk: Bytes) -> (reader: ChannelReader)
    ensures
        reader@ == held(chunk),
{
    let mut reader = ChannelReader::new();
    reader.supply(chunk);
    reader
}

fn read_socks4(request: Socks4Request, chunk: Bytes) -> (next: (Stage, ProxyAction))
    requires
        request.wf(),
    ensures
        took(next, after_socks4(request.seen() + held(chunk))),
{
    let mut reader = reader_of(chunk);
    match handle_socks4(request, &mut reader) {
        Progress::NeedMore(request) => (Stage::Socks4(request), ProxyAction::Recv),
        Progress::Refused(reply) => (Stage::Done, ProxyAction::Refuse(reply)),
        Progress::Granted { host, port } => (
            Stage::Granting { host, port, rest: reader.into_parts() },
            ProxyAction::Reply(socks4_reply_chunk(SOCKS4_GRANTED)),
        ),
    }
}

fn read_socks5_offer(methods: Socks5Methods, chunk: Bytes) -> (next: (Stage, ProxyAction))
    requires
        socks5_methods(methods.seen()) is NeedMore,
    ensures
        took(next, after_socks5_offer(methods.seen() + held(chunk))),
{
    let mut reader = reader_of(chunk);
    match read_socks5_methods(methods, &mut reader) {
        MethodsProgress::NeedMore(methods) => (Stage::Socks5Offer(methods), ProxyAction::Recv),
        MethodsProgress::Refused => (
            Stage::Done,
            ProxyAction::Refuse(socks5_method_reply_chunk(SOCKS5_NO_METHOD)),
        ),
        MethodsProgress::Accepted => (
            Stage::Socks5Choice(reader.into_parts()),
            ProxyAction::Reply(socks5_method_reply_chunk(SOCKS5_NO_AUTH)),
        ),
    }
}

fn read_socks5_ask(request: Socks5Request, chunk: Bytes) -> (next: (Stage, ProxyAction))
    requires
        socks5_request(request.seen()) is NeedMore,
    ensures
        took(next, after_socks5_ask(request.seen() + held(chunk))),
{
    let mut reader = reader_of(chunk);
    match handle_socks5(request, &mut reader) {
        Progress::NeedMore(request) => (Stage::Socks5Ask(request), ProxyAction::Recv),
        Progress::Refused(reply) => (Stage::Done, ProxyAction::Refuse(reply)),
        Progress::Granted { host, port } => (
            Stage::Granting { host, port, rest: reader.into_parts() },
            ProxyAction::Reply(socks5_reply_chunk(SOCKS5_GRANTED)),
        ),
    }
}

fn open_tunnel(
    config: &ProxyConfig,
    host: &SocksHost,
    port: u16,
    rest: Bytes,
    dst: SocketAddr,
) -> (next: (Stage, ProxyAction))
    ensures
        took(next, after_resolve(config@, host@, port, held(rest), dst)),
{
    match dispatch_socks_tunnel(host, port, dst, &config.intercepted_ports, config.gateway) {
        TunnelPlan::Intercept { guest_dst, connect_dst } => (
            Stage::Done,
            ProxyAction::Intercept { guest_dst, connect_dst, leftover: rest },
        ),
        TunnelPlan::Relay { connect_dst } => (
            Stage::Dialing(rest),
            ProxyAction::Dial(connect_dst),
        ),
    }
}

fn start_tunnel(config: &ProxyConfig, host: SocksHost, port: u16, rest: Bytes) -> (next: (
    Stage,
    ProxyAction,
))
    ensures
        took(next, after_grant(config@, host@, port, held(rest))),
{
    if let Some(dst) = resolve_socks_dst(&host, port, config.gateway) {
        return open_tunnel(config, &host, port, rest, dst);
    }
    match host {
        SocksHost::Name(name) => {
            let text = name.clone();
            (Stage::Parsing { host: name, port, rest }, ProxyAction::ParseLiteral(text))
        },
        SocksHost::Ip(_) => finish(),
    }
}

/// Take over what a peek does next.
fn peeked(config: &ProxyConfig, step: PeekStep) -> (next: (Stage, ProxyAction))
    requires
        step matches PeekStep::Recv(peek) ==> peek.cap() == PEEK_BUF_SIZE,
        step matches PeekStep::Extract(peek) ==> peek.cap() == PEEK_BUF_SIZE,
    ensures
        took(
            next,
            match step {
                PeekStep::Recv(peek) => (
                    StageView::Peeking { buf: peek.received() },
                    ActionView::RecvWithinBudget,
                ),
                PeekStep::Extract(peek) => (
                    StageView::Extracting { buf: peek.received() },
                    ActionView::ExtractSni,
                ),
                PeekStep::Done { buf, sni: Some(name) } => after_peek(
                    config@,
                    buf@,
                    SourceView::Sni(name@),
                ),
                PeekStep::Done { buf, sni: None } => after_peek(
                    config@,
                    buf@,
                    SourceView::CacheOnly,
                ),
            },
        ),
{
    match step {
        PeekStep::Recv(peek) => (Stage::Peeking(peek), ProxyAction::RecvWithinBudget),
        PeekStep::Extract(peek) => (Stage::Extracting(peek), ProxyAction::ExtractSni),
        PeekStep::Done { buf, sni } => {
            let source = match sni {
                Some(name) => HostnameSource::Sni(name),
                None => HostnameSource::CacheOnly,
            };
            (
                Stage::Judging(buf),
                ProxyAction::EvaluateEgress { dst: config.guest_dst, source },
            )
        },
    }
}

fn first_chunk(config: &ProxyConfig, chunk: Bytes) -> (next: (Stage, ProxyAction))
    requires
        held(chunk).len() > 0,
    ensures
        took(next, after_first_chunk(config@, held(chunk))),
{
    let first: u8 = chunk_bytes(&chunk)[0];
    if first == SOCKS4_VERSION {
        let request = Socks4Request::new();
        let rest = chunk_from(&chunk, 1);
        assert(request.seen() + held(rest) =~= held(chunk).skip(1));
        read_socks4(request, rest)
    } else if first == SOCKS5_VERSION {
        let methods = Socks5Methods::new();
        let rest = chunk_from(&chunk, 1);
        assert(methods.seen() + held(rest) =~= held(chunk).skip(1));
        read_socks5_offer(methods, rest)
    } else if config.has_domain_rules {
        let peek = SniPeek::new(PEEK_BUF_SIZE);
        assert(peek.received() + held(chunk) =~= held(chunk));
        peeked(config, peek_for_sni(peek, PeekEvent::Data(chunk)))
    } else {
        (Stage::Dialing(chunk), ProxyAction::Dial(config.connect_dst))
    }
}

/// The task of one proxied connection.
pub struct TcpProxy {
    config: ProxyConfig,
    stage: Stage,
    upstream_connected: bool,
}

impl TcpProxy {
    /// What the task was told at its start.
    pub closed spec fn config(self) -> ConfigView {
        self.config@
    }

    /// Where the task is.
    pub closed spec fn stage(self) -> StageView {
        self.stage@
    }

    /// Whether the upstream address was dialed.
    pub closed spec fn connected(self) -> bool {
        self.upstream_connected
    }

    /// What the task keeps fits the stage that it is in.
    pub closed spec fn wf(self) -> bool {
        self.stage.wf()
    }

    /// A task that has received nothing. Its first action is to wait for the
    /// guest's channel.
    pub fn new(config: ProxyConfig) -> (proxy: TcpProxy)
        ensures
            proxy.wf(),
            proxy.config() == config@,
            proxy.stage() == StageView::First,
            !proxy.connected(),
    {
        TcpProxy { config, stage: Stage::First, upstream_connected: false }
    }

    /// Whether the upstream address was dialed. A connection that ends without is
    /// reset rather than closed.
    pub fn upstream_connected(&self) -> (connected: bool)
        ensures
            connected == self.connected(),
    {
        self.upstream_connected
    }

    /// The bytes that a server name is to be looked for in.
    pub fn peeked(&self) -> (bytes: &[u8])
        ensures
            self.stage() matches StageView::Extracting { buf } ==> bytes@ == buf,
            !(self.stage() is Extracting) ==> bytes@.len() == 0,
    {
        match &self.stage {
            Stage::Extracting(peek) => peek.buffered(),
            _ => {
                let none: &[u8] = &[];
                none
            },
        }
    }

    /// Whether an event answers the action that the task waits for.
    pub fn accepts(&self, event: &ProxyEvent) -> (accepted: bool)
        ensures
            accepted == answers(self.stage(), event@),
    {
        match (&self.stage, event) {
            (Stage::First, ProxyEvent::Chunk(chunk)) => chunk_bytes(chunk).len() > 0,
            (Stage::First, ProxyEvent::Closed) => true,
            (
                Stage::Socks4(_) | Stage::Socks5Offer(_) | Stage::Socks5Ask(_),
                ProxyEvent::Chunk(_) | ProxyEvent::Closed,
            ) => true,
            (
                Stage::Socks5Choice(_) | Stage::Granting { .. } | Stage::Delivering,
                ProxyEvent::Sent(_),
            ) => true,
            (Stage::Parsing { .. }, ProxyEvent::Literal(_)) => true,
            (Stage::Resolving { .. }, ProxyEvent::LookedUp(_)) => true,
            (
                Stage::Peeking(_),
                ProxyEvent::Chunk(_) | ProxyEvent::Closed | ProxyEvent::PeekExpired,
            ) => true,
            (Stage::Extracting(_), ProxyEvent::Sni(_)) => true,
            (Stage::Judging(_), ProxyEvent::Egress(_)) => true,
            (Stage::Dialing(_), ProxyEvent::Dialed | ProxyEvent::DialFailed(_)) => true,
            (Stage::Writing, ProxyEvent::Written(_)) => true,
            (
                Stage::Relaying,
                ProxyEvent::Chunk(_) | ProxyEvent::Closed | ProxyEvent::ServerData(_)
                | ProxyEvent::ServerFailed,
            ) => true,
            _ => false,
        }
    }
}

/// Where a stage leads on an event, and what is done there.
fn step(config: &ProxyConfig, stage: Stage, event: ProxyEvent) -> (next: (Stage, ProxyAction))
    requires
        stage.wf(),
        answers(stage@, event@),
    ensures
        took(next, proxy_next(config@, stage@, event@)),
{
    match (stage, event) {
        (Stage::First, ProxyEvent::Chunk(chunk)) => first_chunk(config, chunk),
        (Stage::Socks4(request), ProxyEvent::Chunk(chunk)) => read_socks4(request, chunk),
        (Stage::Socks5Offer(methods), ProxyEvent::Chunk(chunk)) => read_socks5_offer(
            methods,
            chunk,
        ),
        (Stage::Socks5Ask(request), ProxyEvent::Chunk(chunk)) => read_socks5_ask(request, chunk),
        (
            Stage::Socks4(_) | Stage::Socks5Offer(_) | Stage::Socks5Ask(_),
            ProxyEvent::Closed,
        ) => fail(
            ProxyErrorKind::UnexpectedEof,
            "channel closed during SOCKS negotiation",
        ),
        (Stage::Socks5Choice(rest), ProxyEvent::Sent(true)) => {
            let request = Socks5Request::new();
            assert(request.seen() + held(rest) =~= held(rest));
            read_socks5_ask(request, rest)
        },
        (Stage::Granting { host, port, rest }, ProxyEvent::Sent(true)) => start_tunnel(
            config,
            host,
            port,
            rest,
        ),
        (Stage::Socks5Choice(_) | Stage::Granting { .. }, ProxyEvent::Sent(false)) => fail(
            ProxyErrorKind::BrokenPipe,
            "to_smoltcp closed",
        ),
        (Stage::Parsing { host, port, rest }, ProxyEvent::Literal(Some(ip))) => {
            let dst = rewrite_gateway(SocketAddr::new(ip, port), config.gateway);
            open_tunnel(config, &SocksHost::Name(host), port, rest, dst)
        },
        (Stage::Parsing { host, port, rest }, ProxyEvent::Literal(None)) => {
            let text = host.clone();
            (Stage::Resolving { host, port, rest }, ProxyAction::LookUp { host: text, port })
        },
        (Stage::Resolving { host, port, rest }, ProxyEvent::LookedUp(looked_up)) => {
            match resolve_looked_up(host.as_str(), port, looked_up, config.gateway) {
                Ok(dst) => open_tunnel(config, &SocksHost::Name(host), port, rest, dst),
                Err(message) => fail(ProxyErrorKind::NotFound, message.as_str()),
            }
        },
        (Stage::Peeking(peek), ProxyEvent::Chunk(chunk)) => peeked(
            config,
            peek_for_sni(peek, PeekEvent::Data(chunk)),
        ),
        (Stage::Peeking(peek), ProxyEvent::Closed) => peeked(
            config,
            peek_for_sni(peek, PeekEvent::Closed),
        ),
        (Stage::Peeking(peek), ProxyEvent::PeekExpired) => peeked(
            config,
            peek_for_sni(peek, PeekEvent::Expired),
        ),
        (Stage::Extracting(peek), ProxyEvent::Sni(name)) => peeked(
            config,
            peek_for_sni(peek, PeekEvent::Extracted(name)),
        ),
        (Stage::Judging(buf), ProxyEvent::Egress(EgressEvaluation::Allow)) => (
            Stage::Dialing(chunk_of(buf.as_slice())),
            ProxyAction::Dial(config.connect_dst),
        ),
        (Stage::Dialing(replay), ProxyEvent::Dialed) => {
            if chunk_bytes(&replay).len() > 0 {
                (Stage::Writing, ProxyAction::Write(replay))
            } else {
                (Stage::Relaying, ProxyAction::Relay)
            }
        },
        (Stage::Dialing(_), ProxyEvent::DialFailed(error)) => fail(
            ProxyErrorKind::Dial,
            error.as_str(),
        ),
        (Stage::Writing, ProxyEvent::Written(true)) => (Stage::Relaying, ProxyAction::Relay),
        (Stage::Relaying, ProxyEvent::Chunk(chunk)) => (Stage::Writing, ProxyAction::Write(chunk)),
        (Stage::Relaying, ProxyEvent::ServerData(data)) => {
            if data.len() > 0 {
                (Stage::Delivering, ProxyAction::Deliver(chunk_of(data.as_slice())))
            } else {
                finish()
            }
        },
        (Stage::Delivering, ProxyEvent::Sent(true)) => (Stage::Relaying, ProxyAction::Relay),
        _ => finish(),
    }
}

/// Take the task of a connection on by one event.
pub fn tcp_proxy_task(proxy: TcpProxy, event: ProxyEvent) -> (next: (TcpProxy, ProxyAction))
    requires
        proxy.wf(),
        answers(proxy.stage(), event@),
    ensures
        next.0.wf(),
        next.0.config() == proxy.config(),
        (next.0.stage(), next.1@) == proxy_next(proxy.config(), proxy.stage(), event@),
        next.0.connected() == (proxy.connected() || event@ == EventView::Dialed),
        event is Dialed ==> next.0.connected(),
        !(event is Dialed) ==> next.0.connected() == proxy.connected(),
{
    let dialed = matches!(event, ProxyEvent::Dialed);
    let TcpProxy { config, stage, upstream_connected } = proxy;
    let (stage, action) = step(&config, stage, event);
    (TcpProxy { config, stage, upstream_connected: upstream_connected || dialed }, action)
}

/// A config says what its fields hold, each under its own name.
pub proof fn lemma_a_config_says_what_it_holds(config: ProxyConfig)
    ensures
        config@.guest_dst == config.guest_dst,
        config@.connect_dst == config.connect_dst,
        config@.has_domain_rules == config.has_domain_rules,
        config@.gateway.ipv4 == config.gateway.ipv4,
        config@.gateway.ipv6 == config.gateway.ipv6,
        match config.intercepted_ports {
            Some(ports) => config@.intercepted_ports == Some(ports@),
            None => config@.intercepted_ports is None,
        },
{
}

/// An action says what it holds: the bytes of its chunk, its addresses, and its texts.
pub proof fn lemma_an_action_says_what_it_holds(action: ProxyAction)
    ensures
        match action {
            ProxyAction::Reply(chunk) => action@ == ActionView::Reply(held(chunk)),
            ProxyAction::Refuse(chunk) => action@ == ActionView::Refuse(held(chunk)),
            ProxyAction::Write(chunk) => action@ == ActionView::Write(held(chunk)),
            ProxyAction::Deliver(chunk) => action@ == ActionView::Deliver(held(chunk)),
            ProxyAction::Dial(dst) => action@ == ActionView::Dial(dst),
            ProxyAction::ParseLiteral(host) => action@ == ActionView::ParseLiteral(host@),
            ProxyAction::LookUp { host, port } => action@ == (ActionView::LookUp {
                host: host@,
                port,
            }),
            ProxyAction::Intercept { guest_dst, connect_dst, leftover } => action@ == (
            ActionView::Intercept { guest_dst, connect_dst, leftover: held(leftover) }),
            ProxyAction::EvaluateEgress { dst, source } => action@ matches
                ActionView::EvaluateEgress { dst: asked, source: from } && asked == dst
                && match source {
                HostnameSource::Sni(name) => from == SourceView::Sni(name@),
                HostnameSource::CacheOnly => from is CacheOnly,
            },
            ProxyAction::Recv => action@ is Recv,
            ProxyAction::RecvWithinBudget => action@ is RecvWithinBudget,
            ProxyAction::ExtractSni => action@ is ExtractSni,
            ProxyAction::Relay => action@ is Relay,
            ProxyAction::Finish(Ok(_)) => action@ is Finish,
            ProxyAction::Finish(Err(error)) => action@ == ActionView::Fail(
                error.kind,
                error.message@,
            ),
        },
{
}

/// An event says what it holds: the bytes that came, the texts, and the outcomes.
pub proof fn lemma_an_event_says_what_it_holds(event: ProxyEvent)
    ensures
        match event {
            ProxyEvent::Chunk(chunk) => event@ == EventView::Chunk(held(chunk)),
            ProxyEvent::Closed => event@ is Closed,
            ProxyEvent::PeekExpired => event@ is PeekExpired,
            ProxyEvent::Sni(Some(name)) => event@ == EventView::Sni(Some(name@)),
            ProxyEvent::Sni(None) => event@ == EventView::Sni(None),
            ProxyEvent::Egress(verdict) => event@ == EventView::Egress(verdict),
            ProxyEvent::Sent(sent) => event@ == EventView::Sent(sent),
            ProxyEvent::Literal(ip) => event@ == EventView::Literal(ip),
            ProxyEvent::LookedUp(Ok(addrs)) => event@ == EventView::LookedUp(Ok(addrs@)),
            ProxyEvent::LookedUp(Err(error)) => event@ == EventView::LookedUp(Err(error@)),
            ProxyEvent::Dialed => event@ is Dialed,
            ProxyEvent::DialFailed(error) => event@ == EventView::DialFailed(error@),
            ProxyEvent::Written(written) => event@ == EventView::Written(written),
            ProxyEvent::ServerData(data) => event@ == EventView::ServerData(data@),
            ProxyEvent::ServerFailed => event@ is ServerFailed,
        },
{
}

} // verus!
