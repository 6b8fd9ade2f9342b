//! What a task does on what it is told, for every run: which bytes are a handshake, what the
//! policy is asked, where a tunnel leads, and how a task ends.

use vstd::prelude::*;

use crate::proxy::address::{gateway_rewritten, IpAddr, SocketAddr};
use crate::proxy::handshake_laws::lemma_socks5_offer;
use crate::proxy::laws::{
    actions_on, chunk_in, guest_bytes, guest_stream, inner_stream, legal,
    lemma_handshake_ignores_chunking, lemma_run_accounts, lemma_stream_stays_decided, stage_after,
    GuestStream,
};
use crate::proxy::peek::canonical_name;
use crate::proxy::socks::{socks4_request, socks5_request, Reading, SocksHostView};
use crate::proxy::task::{
    after_resolve, after_socks4, after_socks5_ask, after_socks5_offer, answers, proxy_next,
    ActionView, ConfigView, EgressEvaluation, EventView, ProxyErrorKind,
    SourceView, StageView,
};
use crate::proxy::tunnel::{
    is_host_alias, lemma_targets_without_a_lookup, lemma_the_port_decides,
    lemma_the_presented_address, resolve_message, tunnel_plan,
};

verus! {

/// The action that a run ends with.
pub open spec fn last_action(config: ConfigView, events: Seq<EventView>) -> ActionView {
    actions_on(config, events).last()
}

proof fn lemma_last_step(config: ConfigView, events: Seq<EventView>)
    requires
        events.len() > 0,
    ensures
        stage_after(config, events) == proxy_next(
            config,
            stage_after(config, events.drop_last()),
            events.last(),
        ).0,
        last_action(config, events) == proxy_next(
            config,
            stage_after(config, events.drop_last()),
            events.last(),
        ).1,
{
}

// Streams

/// A stream is plain where its first byte is that of no SOCKS version, and then all of it is
/// for upstream. Before the first byte nothing is decided.
pub proof fn lemma_the_first_byte_decides(stream: Seq<u8>)
    ensures
        guest_stream(stream) is Plain <==> stream.len() > 0 && stream[0] != 0x04 && stream[0]
            != 0x05,
        guest_stream(stream) is Plain ==> inner_stream(stream) == stream,
        stream.len() == 0 ==> guest_stream(stream) is Undecided,
{
}

/// A stream that starts with `4` is a SOCKS4 request: it is refused or granted as the
/// request is, and what comes behind the request is the inner stream.
pub proof fn lemma_a_socks4_stream(request: Seq<u8>)
    ensures
        ({
            let stream = seq![0x04u8] + request;
            match socks4_request(request) {
                Reading::NeedMore => guest_stream(stream) is Undecided,
                Reading::Refused { reply, len } => guest_stream(stream) == (GuestStream::Refused {
                    reply,
                }),
                Reading::Granted { host, port, len } => {
                    &&& guest_stream(stream) matches GuestStream::Tunnel { host: h, port: p, .. }
                        && h == host && p == port
                    &&& 0 <= len <= request.len() ==> inner_stream(stream) == request.skip(len)
                },
            }
        }),
{
    let stream = seq![0x04u8] + request;
    assert(stream.skip(1) =~= request);
    if let Reading::Granted { host, port, len } = socks4_request(request) {
        if 0 <= len <= request.len() {
            assert(stream.skip(1 + len) =~= request.skip(len));
        }
    }
}

/// A stream that starts with `5` is an offer of methods and a SOCKS5 request. Where no method
/// is the one without authentication it is refused with `05 ff`; otherwise it is refused or
/// granted as the request is, and what comes behind the request is the inner stream.
pub proof fn lemma_a_socks5_stream(methods: Seq<u8>, request: Seq<u8>)
    requires
        methods.len() <= 255,
    ensures
        ({
            let stream = seq![0x05u8, methods.len() as u8] + methods + request;
            if forall|i: int| 0 <= i < methods.len() ==> methods[i] != 0x00 {
                guest_stream(stream) == (GuestStream::Refused { reply: seq![0x05u8, 0xff] })
            } else {
                match socks5_request(request) {
                    Reading::NeedMore => guest_stream(stream) is Undecided,
                    Reading::Refused { reply, len } => guest_stream(stream) == (
                    GuestStream::Refused { reply }),
                    Reading::Granted { host, port, len } => {
                        &&& guest_stream(stream) matches GuestStream::Tunnel { host: h, port: p, .. }
                            && h == host && p == port
                        &&& 0 <= len <= request.len() ==> inner_stream(stream) == request.skip(len)
                    },
                }
            }
        }),
{
    let stream = seq![0x05u8, methods.len() as u8] + methods + request;
    let offer = seq![methods.len() as u8] + methods + request;
    let size = methods.len() as int + 1;
    assert(stream.skip(1) =~= offer);
    lemma_socks5_offer(methods, request);
    assert(offer.skip(size) =~= request);
    if let Reading::Granted { host, port, len } = socks5_request(request) {
        if 0 <= len <= request.len() {
            assert(stream.skip(1 + size + len) =~= request.skip(len));
        }
    }
}

/// A stream that starts with `5` and whose methods are not all there is not decided.
pub proof fn lemma_a_socks5_offer_in_part(stream: Seq<u8>)
    requires
        stream.len() > 0,
        stream[0] == 0x05,
        stream.len() == 1 || stream.len() < 2 + stream[1],
    ensures
        guest_stream(stream) is Undecided,
{
}

// Answers

/// Whether an event is what came of an action.
pub open spec fn comes_of(action: ActionView, event: EventView) -> bool {
    match action {
        ActionView::Recv => event is Chunk || event is Closed,
        ActionView::RecvWithinBudget => event is Chunk || event is Closed || event is PeekExpired,
        ActionView::ExtractSni => event is Sni,
        ActionView::EvaluateEgress { .. } => event is Egress,
        ActionView::Reply(_) => event is Sent,
        ActionView::Deliver(_) => event is Sent,
        ActionView::ParseLiteral(_) => event is Literal,
        ActionView::LookUp { .. } => event is LookedUp,
        ActionView::Dial(_) => event is Dialed || event is DialFailed,
        ActionView::Write(_) => event is Written,
        ActionView::Relay => event is Chunk || event is Closed || event is ServerData || event
            is ServerFailed,
        ActionView::Refuse(_) | ActionView::Intercept { .. } | ActionView::Finish
        | ActionView::Fail(_, _) => false,
    }
}

#[verifier::spinoff_prover]
proof fn lemma_step_is_answered(
    config: ConfigView,
    stage: StageView,
    event: EventView,
    answer: EventView,
)
    requires
        answers(stage, event),
    ensures
        ({
            let next = proxy_next(config, stage, event);
            answers(next.0, answer) <==> comes_of(next.1, answer)
        }),
{
    let next = proxy_next(config, stage, event);
    match stage {
        StageView::First => {
            if let EventView::Chunk(chunk) = event {
                lemma_read_is_answered(chunk.skip(1), answer);
            }
        },
        StageView::Socks4 { seen } | StageView::Socks5Offer { seen } | StageView::Socks5Ask {
            seen,
        } => {
            if let EventView::Chunk(chunk) = event {
                lemma_read_is_answered(seen + chunk, answer);
            }
        },
        StageView::Socks5Choice { rest } => {
            lemma_read_is_answered(rest, answer);
        },
        _ => {},
    }
}

proof fn lemma_read_is_answered(whole: Seq<u8>, answer: EventView)
    ensures
        answers(after_socks4(whole).0, answer) <==> comes_of(after_socks4(whole).1, answer),
        answers(after_socks5_offer(whole).0, answer) <==> comes_of(
            after_socks5_offer(whole).1,
            answer,
        ),
        answers(after_socks5_ask(whole).0, answer) <==> comes_of(
            after_socks5_ask(whole).1,
            answer,
        ),
{
}

/// What each action waits for can be told, and nothing else: a task is never left without an
/// answer that it takes, and takes none after its end.
pub proof fn lemma_each_action_is_answered(
    config: ConfigView,
    events: Seq<EventView>,
    event: EventView,
)
    requires
        legal(config, events),
    ensures
        events.len() == 0 ==> (legal(config, events.push(event)) <==> event is Closed || (event
            matches EventView::Chunk(chunk) && chunk.len() > 0)),
        events.len() > 0 ==> (legal(config, events.push(event)) <==> comes_of(
            last_action(config, events),
            event,
        )),
{
    assert(events.push(event).drop_last() =~= events);
    if events.len() > 0 {
        lemma_last_step(config, events);
        lemma_step_is_answered(
            config,
            stage_after(config, events.drop_last()),
            events.last(),
            event,
        );
    }
}

// Handshakes

/// A handshake that is not complete is read on: what follows on more of it is to wait for
/// more, or the choice `05 00` of a method.
pub proof fn lemma_an_incomplete_handshake_is_read_on(config: ConfigView, events: Seq<EventView>)
    requires
        legal(config, events),
        events.len() > 0,
        events.last() is Chunk || events.last() == EventView::Sent(true),
        guest_stream(guest_bytes(events)) is Undecided,
    ensures
        last_action(config, events) is Recv || last_action(config, events) == ActionView::Reply(
            seq![0x05u8, 0x00],
        ),
        events.last() == EventView::Sent(true) ==> last_action(config, events) is Recv,
{
    lemma_last_step(config, events);
    lemma_run_accounts(config, events.drop_last());
    lemma_run_accounts(config, events);
    lemma_handshake_ignores_chunking(config, events);
    let before = guest_bytes(events.drop_last());
    if !(guest_stream(before) is Undecided) {
        assert(guest_bytes(events) == before + chunk_in(events.last()));
        lemma_stream_stays_decided(before, chunk_in(events.last()));
    }
}

proof fn lemma_reply_step(config: ConfigView, stage: StageView, event: EventView)
    requires
        answers(stage, event),
        proxy_next(config, stage, event).1 is Reply,
    ensures
        ({
            let next = proxy_next(config, stage, event);
            let reply = next.1->Reply_0;
            match stage {
                StageView::First => {
                    let chunk = event->Chunk_0;
                    ||| chunk[0] == 0x04 && next.0 is Granting && reply == seq![
                        0x00u8,
                        0x5a,
                        0,
                        0,
                        0,
                        0,
                        0,
                        0,
                    ]
                    ||| chunk[0] == 0x05 && next.0 is Socks5Choice && reply == seq![0x05u8, 0x00]
                },
                StageView::Socks4 { .. } => next.0 is Granting && reply == seq![
                    0x00u8,
                    0x5a,
                    0,
                    0,
                    0,
                    0,
                    0,
                    0,
                ],
                StageView::Socks5Offer { .. } => next.0 is Socks5Choice && reply == seq![
                    0x05u8,
                    0x00,
                ],
                StageView::Socks5Choice { .. } | StageView::Socks5Ask { .. } => next.0 is Granting
                    && reply == seq![0x05u8, 0x00, 0x00, 0x01, 0, 0, 0, 0, 0, 0],
                _ => false,
            }
        }),
{
    match stage {
        StageView::First => {
            let chunk = event->Chunk_0;
            assert(event is Chunk);
        },
        _ => {},
    }
}

/// What the stage of a run says of the guest's first byte.
proof fn lemma_the_version_of_a_stage(config: ConfigView, events: Seq<EventView>)
    requires
        legal(config, events),
    ensures
        ({
            let stage = stage_after(config, events);
            let taken = guest_bytes(events);
            &&& stage is First ==> taken.len() == 0
            &&& stage is Socks4 ==> taken.len() > 0 && taken[0] == 0x04
            &&& stage is Socks5Offer || stage is Socks5Choice || stage is Socks5Ask ==> taken.len()
                > 0 && taken[0] == 0x05
            &&& stage is Granting ==> guest_stream(taken) is Tunnel
        }),
{
    lemma_run_accounts(config, events);
}

/// Every reply of a handshake is the choice `05 00`, the grant of SOCKS4 or that of SOCKS5,
/// and is sent to a guest that speaks that version.
pub proof fn lemma_the_replies(config: ConfigView, events: Seq<EventView>)
    requires
        legal(config, events),
        events.len() > 0,
        last_action(config, events) is Reply,
    ensures
        ({
            let reply = last_action(config, events)->Reply_0;
            let taken = guest_bytes(events);
            ||| taken[0] == 0x04 && reply == seq![0x00u8, 0x5a, 0, 0, 0, 0, 0, 0] && guest_stream(
                taken,
            ) is Tunnel
            ||| taken[0] == 0x05 && reply == seq![0x05u8, 0x00]
            ||| taken[0] == 0x05 && reply == seq![0x05u8, 0x00, 0x00, 0x01, 0, 0, 0, 0, 0, 0]
                && guest_stream(taken) is Tunnel
        }),
{
    let stage = stage_after(config, events.drop_last());
    let before = guest_bytes(events.drop_last());
    let chunk = chunk_in(events.last());
    let next = proxy_next(config, stage, events.last());
    assert(stage_after(config, events) == next.0 && last_action(config, events) == next.1) by {
        lemma_last_step(config, events);
    }
    lemma_the_version_of_a_stage(config, events.drop_last());
    lemma_the_version_of_a_stage(config, events);
    lemma_reply_step(config, stage, events.last());
    assert(guest_bytes(events) == before + chunk);
    assert(before.len() == 0 ==> before + chunk =~= chunk);
}

/// A guest that closes within a handshake, and one that cannot be sent a reply of it, end the
/// task with an error of their own. Everywhere else a guest that closes ends it without one.
pub proof fn lemma_how_a_handshake_breaks(config: ConfigView, events: Seq<EventView>)
    requires
        legal(config, events),
        events.len() > 1,
    ensures
        ({
            let before = last_action(config, events.drop_last());
            let stream = guest_stream(guest_bytes(events));
            let after = last_action(config, events);
            &&& events.last() is Closed && before is Recv ==> stream is Undecided && after
                == ActionView::Fail(
                ProxyErrorKind::UnexpectedEof,
                "channel closed during SOCKS negotiation"@,
            )
            &&& events.last() == EventView::Sent(false) && before is Reply ==> after
                == ActionView::Fail(ProxyErrorKind::BrokenPipe, "to_smoltcp closed"@)
            &&& events.last() is Closed && before is Relay ==> after == ActionView::Finish
        }),
{
    lemma_last_step(config, events);
    lemma_last_step(config, events.drop_last());
    lemma_run_accounts(config, events.drop_last());
    let before = guest_bytes(events.drop_last());
    assert(events.last() is Closed ==> guest_bytes(events) =~= before);
}

// Peek and policy

/// A name that was found decides: whatever was buffered, the policy is asked about the
/// guest's destination under the canonical form of that name.
pub proof fn lemma_a_found_name_is_judged(
    config: ConfigView,
    events: Seq<EventView>,
    name: Seq<char>,
)
    requires
        legal(config, events.push(EventView::Sni(Some(name)))),
    ensures
        last_action(config, events.push(EventView::Sni(Some(name)))) == (
        ActionView::EvaluateEgress {
            dst: config.guest_dst,
            source: SourceView::Sni(canonical_name(name)),
        }),
{
    assert(events.push(EventView::Sni(Some(name))).drop_last() =~= events);
}

/// The policy is asked about the guest's destination, once and only under rules about
/// domains. It is asked from the cache only where no name was found in what the guest has
/// sent: that starts no TLS handshake, or a search found none in 16384 bytes, or the channel
/// ended, or the time budget did.
pub proof fn lemma_what_the_policy_is_asked(config: ConfigView, events: Seq<EventView>)
    requires
        legal(config, events),
        events.len() > 0,
        last_action(config, events) is EvaluateEgress,
    ensures
        ({
            let taken = guest_bytes(events);
            &&& config.has_domain_rules
            &&& guest_stream(taken) is Plain
            &&& last_action(config, events)->dst == config.guest_dst
            &&& match last_action(config, events)->source {
                SourceView::Sni(asked) => events.last() matches EventView::Sni(Some(name)) && asked
                    == canonical_name(name),
                SourceView::CacheOnly => {
                    ||| events.last() is Chunk && taken[0] != 0x16
                    ||| events.last() == EventView::Sni(None) && taken.len() >= 16384
                    ||| events.last() is Closed
                    ||| events.last() is PeekExpired
                },
            }
        }),
{
    lemma_last_step(config, events);
    lemma_run_accounts(config, events);
    lemma_rules_are_needed(config, events);
    assert(events.last() == EventView::Sni(None) ==> guest_bytes(events) =~= guest_bytes(
        events.drop_last(),
    ));
    lemma_run_accounts(config, events.drop_last());
}

proof fn lemma_rules_are_needed(config: ConfigView, events: Seq<EventView>)
    requires
        legal(config, events),
    ensures
        ({
            let stage = stage_after(config, events);
            stage is Peeking || stage is Extracting || stage is Judging
        }) ==> config.has_domain_rules,
    decreases events.len(),
{
    if events.len() > 0 {
        lemma_rules_are_needed(config, events.drop_last());
    }
}

/// More of a plain stream under rules about domains is searched for a name where the stream
/// starts a TLS handshake, and judged from the cache where it does not. All that the guest
/// has sent is searched. A search that finds nothing in fewer than 16384 bytes waits for
/// more, and the cache decides once there are as many, or where nothing more comes.
pub proof fn lemma_the_search_for_a_name(config: ConfigView, events: Seq<EventView>)
    requires
        legal(config, events),
        events.len() > 0,
        config.has_domain_rules,
        guest_stream(guest_bytes(events)) is Plain,
    ensures
        ({
            let taken = guest_bytes(events);
            let first = events.len() == 1;
            let peeking = first || last_action(config, events.drop_last()) is RecvWithinBudget;
            let after = last_action(config, events);
            &&& events.last() is Chunk && peeking && taken[0] == 0x16 ==> after is ExtractSni
            &&& events.last() is Chunk && peeking && taken[0] != 0x16 ==> after == (
            ActionView::EvaluateEgress { dst: config.guest_dst, source: SourceView::CacheOnly })
            &&& after is ExtractSni ==> stage_after(config, events) == (StageView::Extracting {
                buf: taken,
            })
            &&& events.last() == EventView::Sni(None) && taken.len() < 16384 ==> after
                is RecvWithinBudget
            &&& events.last() == EventView::Sni(None) && taken.len() >= 16384 ==> after == (
            ActionView::EvaluateEgress { dst: config.guest_dst, source: SourceView::CacheOnly })
            &&& !first && peeking && !(events.last() is Chunk) ==> after == (
            ActionView::EvaluateEgress { dst: config.guest_dst, source: SourceView::CacheOnly })
        }),
{
    lemma_last_step(config, events);
    lemma_run_accounts(config, events);
    lemma_run_accounts(config, events.drop_last());
    if events.len() > 1 {
        lemma_last_step(config, events.drop_last());
    } else {
        assert(events.drop_last() =~= Seq::<EventView>::empty());
        assert(guest_bytes(events.drop_last()) =~= Seq::<u8>::empty());
        assert(guest_bytes(events) =~= chunk_in(events.last()));
    }
    assert(events.last() == EventView::Sni(None) ==> guest_bytes(events) =~= guest_bytes(
        events.drop_last(),
    ));
}

/// The verdict is obeyed: a connection that is allowed is dialed at the address that the task
/// was told, and any other ends the task without an error.
pub proof fn lemma_the_verdict_is_obeyed(
    config: ConfigView,
    events: Seq<EventView>,
    verdict: EgressEvaluation,
)
    requires
        legal(config, events.push(EventView::Egress(verdict))),
    ensures
        last_action(config, events.push(EventView::Egress(verdict))) == if verdict
            == EgressEvaluation::Allow {
            ActionView::Dial(config.connect_dst)
        } else {
            ActionView::Finish
        },
{
    assert(events.push(EventView::Egress(verdict)).drop_last() =~= events);
}

/// Without rules about domains a plain stream is dialed at once, at the address that the task
/// was told.
pub proof fn lemma_without_rules_a_stream_is_dialed(config: ConfigView, chunk: Seq<u8>)
    requires
        !config.has_domain_rules,
        chunk.len() > 0,
        chunk[0] != 0x04,
        chunk[0] != 0x05,
    ensures
        last_action(config, seq![EventView::Chunk(chunk)]) == ActionView::Dial(config.connect_dst),
{
    let events = seq![EventView::Chunk(chunk)];
    assert(events.drop_last() =~= Seq::<EventView>::empty());
}

/// A guest that closes before it has sent anything ends the task, without an error.
pub proof fn lemma_an_early_end(config: ConfigView)
    ensures
        legal(config, seq![EventView::Closed]),
        last_action(config, seq![EventView::Closed]) == ActionView::Finish,
{
    let events = seq![EventView::Closed];
    assert(events.drop_last() =~= Seq::<EventView>::empty());
    assert(legal(config, events.drop_last()));
}

// Tunnels

/// The address that a tunnel is presented under: the one that is dialed for it, and for the
/// host alias the gateway's, the IPv4 one first.
pub open spec fn presented(config: ConfigView, host: SocksHostView, dst: SocketAddr) -> IpAddr {
    if host is Ip || !is_host_alias(host->Name_0) {
        dst.ip
    } else if config.gateway.ipv4 is Some {
        IpAddr::V4(config.gateway.ipv4->0)
    } else if config.gateway.ipv6 is Some {
        IpAddr::V6(config.gateway.ipv6->0)
    } else {
        dst.ip
    }
}

/// Whether there is a TLS proxy whose list has the port, at whatever place.
pub open spec fn is_listed(config: ConfigView, port: u16) -> bool {
    config.intercepted_ports matches Some(list) && exists|i: int|
        0 <= i < list.len() && list[i] == port
}

/// Whether an action opens a tunnel to `host` and `port` at `dst`: through the TLS proxy,
/// with all of the inner stream that was received, where its list has the port, and by a dial
/// otherwise.
pub open spec fn opens(
    config: ConfigView,
    action: ActionView,
    host: SocksHostView,
    port: u16,
    dst: SocketAddr,
    inner: Seq<u8>,
) -> bool {
    if is_listed(config, port) {
        action matches ActionView::Intercept { guest_dst, connect_dst, leftover } && connect_dst
            == dst && guest_dst == (SocketAddr {
            ip: presented(config, host, dst),
            port,
            flow_info: 0,
            scope_id: 0,
        }) && leftover == inner
    } else {
        action == ActionView::Dial(dst)
    }
}

proof fn lemma_resolved_opens(
    config: ConfigView,
    host: SocksHostView,
    port: u16,
    rest: Seq<u8>,
    dst: SocketAddr,
)
    ensures
        opens(
            config,
            after_resolve(config, host, port, rest, dst).1,
            host,
            port,
            dst,
            rest,
        ),
{
    lemma_the_port_decides(host, port, dst, config.intercepted_ports, config.gateway);
    lemma_the_presented_address(host, port, dst, config.intercepted_ports, config.gateway);
}

/// A tunnel that was granted is opened. An address is dialed as it is, except that the
/// gateway's becomes loopback; the host alias is dialed at `127.0.0.1`; and any other name is
/// parsed first.
pub proof fn lemma_a_granted_tunnel_is_opened(
    config: ConfigView,
    events: Seq<EventView>,
    host: SocksHostView,
    port: u16,
    rest: Seq<u8>,
)
    requires
        legal(config, events.push(EventView::Sent(true))),
        stage_after(config, events) == (StageView::Granting { host, port, rest }),
    ensures
        ({
            let action = last_action(config, events.push(EventView::Sent(true)));
            match host {
                SocksHostView::Ip(ip) => opens(
                    config,
                    action,
                    host,
                    port,
                    gateway_rewritten(
                        SocketAddr { ip, port, flow_info: 0, scope_id: 0 },
                        config.gateway,
                    ),
                    rest,
                ),
                SocksHostView::Name(name) => if is_host_alias(name) {
                    opens(
                        config,
                        action,
                        host,
                        port,
                        SocketAddr {
                            ip: IpAddr::V4(0x7f00_0001),
                            port,
                            flow_info: 0,
                            scope_id: 0,
                        },
                        rest,
                    )
                } else {
                    action == ActionView::ParseLiteral(name)
                },
            }
        }),
{
    let all = events.push(EventView::Sent(true));
    assert(all.drop_last() =~= events);
    match host {
        SocksHostView::Ip(ip) => {
            lemma_targets_without_a_lookup(ip, Seq::empty(), port, config.gateway);
            lemma_resolved_opens(
                config,
                host,
                port,
                rest,
                gateway_rewritten(
                    SocketAddr { ip, port, flow_info: 0, scope_id: 0 },
                    config.gateway,
                ),
            );
        },
        SocksHostView::Name(name) => {
            lemma_targets_without_a_lookup(IpAddr::V4(0), name, port, config.gateway);
            lemma_resolved_opens(
                config,
                host,
                port,
                rest,
                SocketAddr { ip: IpAddr::V4(0x7f00_0001), port, flow_info: 0, scope_id: 0 },
            );
        },
    }
}

/// A name that spells an address leads to that address, and any other is looked up with the
/// tunnel's port.
pub proof fn lemma_a_parsed_name(
    config: ConfigView,
    events: Seq<EventView>,
    name: Seq<char>,
    port: u16,
    rest: Seq<u8>,
    literal: Option<IpAddr>,
)
    requires
        legal(config, events.push(EventView::Literal(literal))),
        stage_after(config, events) == (StageView::Parsing { host: name, port, rest }),
    ensures
        ({
            let action = last_action(config, events.push(EventView::Literal(literal)));
            match literal {
                Some(ip) => opens(
                    config,
                    action,
                    SocksHostView::Name(name),
                    port,
                    gateway_rewritten(
                        SocketAddr { ip, port, flow_info: 0, scope_id: 0 },
                        config.gateway,
                    ),
                    rest,
                ),
                None => action == (ActionView::LookUp { host: name, port }),
            }
        }),
{
    let all = events.push(EventView::Literal(literal));
    assert(all.drop_last() =~= events);
    if let Some(ip) = literal {
        lemma_resolved_opens(
            config,
            SocksHostView::Name(name),
            port,
            rest,
            gateway_rewritten(SocketAddr { ip, port, flow_info: 0, scope_id: 0 }, config.gateway),
        );
    }
}

/// A name that was looked up leads to the first address that came back. Without one the task
/// ends with an error that names the target and the reason.
pub proof fn lemma_a_looked_up_name(
    config: ConfigView,
    events: Seq<EventView>,
    name: Seq<char>,
    port: u16,
    rest: Seq<u8>,
    looked_up: Result<Seq<SocketAddr>, Seq<char>>,
)
    requires
        legal(config, events.push(EventView::LookedUp(looked_up))),
        stage_after(config, events) == (StageView::Resolving { host: name, port, rest }),
    ensures
        ({
            let action = last_action(config, events.push(EventView::LookedUp(looked_up)));
            match looked_up {
                Ok(addrs) => if addrs.len() > 0 {
                    opens(
                        config,
                        action,
                        SocksHostView::Name(name),
                        port,
                        gateway_rewritten(addrs[0], config.gateway),
                        rest,
                    )
                } else {
                    action == ActionView::Fail(
                        ProxyErrorKind::NotFound,
                        resolve_message(name, port, "no addresses"@),
                    )
                },
                Err(error) => action == ActionView::Fail(
                    ProxyErrorKind::NotFound,
                    resolve_message(name, port, error),
                ),
            }
        }),
{
    let all = events.push(EventView::LookedUp(looked_up));
    assert(all.drop_last() =~= events);
    if let Ok(addrs) = looked_up {
        if addrs.len() > 0 {
            lemma_resolved_opens(
                config,
                SocksHostView::Name(name),
                port,
                rest,
                gateway_rewritten(addrs[0], config.gateway),
            );
        }
    }
}

proof fn lemma_the_tunnel_of_a_stage(config: ConfigView, events: Seq<EventView>)
    requires
        legal(config, events),
    ensures
        ({
            let stream = guest_stream(guest_bytes(events));
            match stage_after(config, events) {
                StageView::Granting { host, port, .. } => stream matches GuestStream::Tunnel {
                    host: h,
                    port: p,
                    ..
                } && h == host && p == port,
                StageView::Parsing { host, port, .. } | StageView::Resolving { host, port, .. } =>
                    stream matches GuestStream::Tunnel { host: h, port: p, .. } && h
                        == SocksHostView::Name(host) && p == port,
                StageView::First => guest_bytes(events).len() == 0,
                StageView::Judging { .. } => stream is Plain,
                _ => true,
            }
        }),
{
    lemma_run_accounts(config, events);
}

/// Where a run leads follows from what the guest asked for and from what was found out. A
/// plain stream leads to the address that the task was told. A tunnel leads to the address
/// that the guest gave, to loopback for the host alias, and for another name to the address
/// that it spells or to the first that a lookup gave; the gateway's own address becomes
/// loopback. The name that is parsed and looked up, and the port, are the guest's.
pub proof fn lemma_where_a_run_leads(config: ConfigView, events: Seq<EventView>, dst: SocketAddr)
    requires
        legal(config, events),
        events.len() > 0,
    ensures
        ({
            let action = last_action(config, events);
            let stream = guest_stream(guest_bytes(events));
            let leads = action == ActionView::Dial(dst) || (action is Intercept
                && action->connect_dst == dst);
            &&& leads && stream is Plain ==> dst == config.connect_dst
            &&& leads ==> stream is Plain || stream is Tunnel
            &&& stream matches GuestStream::Tunnel { host, port, .. } ==> {
                &&& leads ==> match host {
                    SocksHostView::Ip(ip) => dst == gateway_rewritten(
                        SocketAddr { ip, port, flow_info: 0, scope_id: 0 },
                        config.gateway,
                    ),
                    SocksHostView::Name(name) => if is_host_alias(name) {
                        dst == (SocketAddr {
                            ip: IpAddr::V4(0x7f00_0001),
                            port,
                            flow_info: 0,
                            scope_id: 0,
                        })
                    } else {
                        ||| events.last() matches EventView::Literal(Some(ip)) && dst
                            == gateway_rewritten(
                            SocketAddr { ip, port, flow_info: 0, scope_id: 0 },
                            config.gateway,
                        )
                        ||| events.last() matches EventView::LookedUp(Ok(addrs)) && addrs.len() > 0
                            && dst == gateway_rewritten(addrs[0], config.gateway)
                    },
                }
                &&& action matches ActionView::ParseLiteral(name) ==> host
                    == SocksHostView::Name(name) && !is_host_alias(name)
                &&& action matches ActionView::LookUp { host: name, port: asked } ==> host
                    == SocksHostView::Name(name) && asked == port
            }
        }),
{
    let before = events.drop_last();
    let stage = stage_after(config, before);
    let event = events.last();
    let taken = guest_bytes(before);
    let chunk = chunk_in(event);
    let next = proxy_next(config, stage, event);
    assert(stage_after(config, events) == next.0 && last_action(config, events) == next.1) by {
        lemma_last_step(config, events);
    }
    lemma_the_tunnel_of_a_stage(config, before);
    lemma_names_stay_unresolved(config, before);
    assert(guest_bytes(events) == taken + chunk);
    assert(chunk.len() == 0 ==> taken + chunk =~= taken);
    assert(taken.len() == 0 ==> taken + chunk =~= chunk);
    lemma_the_first_byte_decides(guest_bytes(events));
    lemma_step_leads(config, stage, event);
}

/// A name is parsed, and looked up, only where it is not the host alias.
proof fn lemma_names_stay_unresolved(config: ConfigView, events: Seq<EventView>)
    requires
        legal(config, events),
    ensures
        match stage_after(config, events) {
            StageView::Parsing { host, .. } | StageView::Resolving { host, .. } => !is_host_alias(
                host,
            ),
            _ => true,
        },
    decreases events.len(),
{
    if events.len() > 0 {
        lemma_names_stay_unresolved(config, events.drop_last());
    }
}

proof fn lemma_step_leads(config: ConfigView, stage: StageView, event: EventView)
    requires
        answers(stage, event),
    ensures
        ({
            let action = proxy_next(config, stage, event).1;
            let dst = if action is Intercept {
                action->connect_dst
            } else {
                action->Dial_0
            };
            &&& action is Dial || action is Intercept ==> match stage {
                StageView::First => action is Dial && dst == config.connect_dst && event
                    is Chunk && event->Chunk_0.len() > 0 && event->Chunk_0[0] != 0x04
                    && event->Chunk_0[0] != 0x05,
                StageView::Judging { .. } => action is Dial && dst == config.connect_dst,
                StageView::Granting { host, port, .. } => event is Sent && match host {
                    SocksHostView::Ip(ip) => dst == gateway_rewritten(
                        SocketAddr { ip, port, flow_info: 0, scope_id: 0 },
                        config.gateway,
                    ),
                    SocksHostView::Name(name) => is_host_alias(name) && dst == (SocketAddr {
                        ip: IpAddr::V4(0x7f00_0001),
                        port,
                        flow_info: 0,
                        scope_id: 0,
                    }),
                },
                StageView::Parsing { host, port, .. } => event matches EventView::Literal(Some(ip))
                    && dst == gateway_rewritten(
                    SocketAddr { ip, port, flow_info: 0, scope_id: 0 },
                    config.gateway,
                ),
                StageView::Resolving { .. } => event matches EventView::LookedUp(Ok(addrs))
                    && addrs.len() > 0 && dst == gateway_rewritten(addrs[0], config.gateway),
                _ => false,
            }
            &&& action matches ActionView::ParseLiteral(name) ==> event is Sent && (stage matches
                StageView::Granting { host, .. } && host == SocksHostView::Name(name)
                && !is_host_alias(name))
            &&& action matches ActionView::LookUp { host: name, port: asked } ==> event
                is Literal && (stage matches StageView::Parsing { host, port, .. } && host == name
                && port == asked)
        }),
{
    match stage {
        StageView::Granting { host, port, .. } => {
            if let SocksHostView::Ip(ip) = host {
                lemma_targets_without_a_lookup(ip, Seq::empty(), port, config.gateway);
            }
            if let SocksHostView::Name(name) = host {
                lemma_targets_without_a_lookup(IpAddr::V4(0), name, port, config.gateway);
            }
        },
        _ => {},
    }
}

/// The port of a tunnel decides in every run: one whose port is on the TLS proxy's list is
/// never dialed, so that nothing goes past the proxy, and one whose port is not never goes
/// through it.
pub proof fn lemma_listed_tunnels_are_never_dialed(config: ConfigView, events: Seq<EventView>)
    requires
        legal(config, events),
        guest_stream(guest_bytes(events)) is Tunnel,
    ensures
        actions_on(config, events).len() == events.len(),
        forall|i: int|
            0 <= i < events.len() ==> {
                let port = guest_stream(guest_bytes(events))->port;
                &&& is_listed(config, port) ==> !(#[trigger] actions_on(config, events)[i] is Dial)
                &&& !is_listed(config, port) ==> !(actions_on(config, events)[i] is Intercept)
            },
{
    lemma_dials_are_decided(config, events);
}

/// Every dial and every interception is that of a plain stream or of a tunnel with a port that
/// calls for it.
proof fn lemma_dials_are_decided(config: ConfigView, events: Seq<EventView>)
    requires
        legal(config, events),
    ensures
        actions_on(config, events).len() == events.len(),
        forall|i: int|
            0 <= i < events.len() ==> {
                let action = #[trigger] actions_on(config, events)[i];
                action is Dial || action is Intercept ==> {
                    ||| guest_stream(guest_bytes(events)) is Plain && action is Dial
                    ||| guest_stream(guest_bytes(events)) matches GuestStream::Tunnel { port, .. }
                        && (action is Intercept <==> is_listed(config, port))
                }
            },
    decreases events.len(),
{
    if events.len() > 0 {
        let before = events.drop_last();
        let taken = guest_bytes(before);
        let stage = stage_after(config, before);
        let event = events.last();
        let chunk = chunk_in(event);
        let now = guest_bytes(events);
        lemma_dials_are_decided(config, before);
        lemma_run_accounts(config, before);
        lemma_last_step(config, events);
        assert(now == taken + chunk);
        if !(guest_stream(taken) is Undecided) {
            lemma_stream_stays_decided(taken, chunk);
        }
        assert(taken.len() == 0 ==> now =~= chunk);
        assert(chunk.len() == 0 ==> now =~= taken);
        let next = proxy_next(config, stage, event);
        if next.1 is Dial || next.1 is Intercept {
            lemma_tunnel_step(config, stage, event);
        }
        assert forall|i: int| 0 <= i < events.len() implies {
            let action = #[trigger] actions_on(config, events)[i];
            action is Dial || action is Intercept ==> {
                ||| guest_stream(now) is Plain && action is Dial
                ||| guest_stream(now) matches GuestStream::Tunnel { port, .. } && (action
                    is Intercept <==> is_listed(config, port))
            }
        } by {
            if i < before.len() {
                assert(actions_on(config, events)[i] == actions_on(config, before)[i]);
            }
        }
    }
}

proof fn lemma_tunnel_step(config: ConfigView, stage: StageView, event: EventView)
    requires
        answers(stage, event),
        proxy_next(config, stage, event).1 is Dial || proxy_next(config, stage, event).1
            is Intercept,
    ensures
        ({
            let action = proxy_next(config, stage, event).1;
            match stage {
                StageView::Granting { port, .. } | StageView::Parsing { port, .. }
                | StageView::Resolving { port, .. } => action is Intercept <==> is_listed(
                    config,
                    port,
                ),
                StageView::First => action is Dial && event is Chunk && {
                    let chunk = event->Chunk_0;
                    chunk.len() > 0 && chunk[0] != 0x04 && chunk[0] != 0x05
                },
                StageView::Judging { .. } => action is Dial,
                _ => false,
            }
        }),
{
    let host = match stage {
        StageView::Granting { host, .. } => host,
        StageView::Parsing { host, .. } => SocksHostView::Name(host),
        StageView::Resolving { host, .. } => SocksHostView::Name(host),
        _ => SocksHostView::Name(Seq::empty()),
    };
    match stage {
        StageView::Granting { port, .. } | StageView::Parsing { port, .. }
        | StageView::Resolving { port, .. } => {
            assert forall|dst: SocketAddr|
                #[trigger] tunnel_plan(host, port, dst, config.intercepted_ports, config.gateway)
                    is Intercept <==> is_listed(config, port) by {
                lemma_the_port_decides(host, port, dst, config.intercepted_ports, config.gateway);
            }
        },
        _ => {},
    }
}

// Relay

/// Once the upstream address was dialed, the task goes on exactly until either side ends or
/// fails, and ends without an error then. What is held back is written first.
pub proof fn lemma_the_relay_goes_on(config: ConfigView, events: Seq<EventView>)
    requires
        legal(config, events),
        events.len() > 1,
    ensures
        ({
            let before = last_action(config, events.drop_last());
            let event = events.last();
            let after = last_action(config, events);
            &&& event is Dialed ==> after is Write || after is Relay
            &&& before is Write ==> after == if event == EventView::Written(true) {
                ActionView::Relay
            } else {
                ActionView::Finish
            }
            &&& before is Deliver ==> after == if event == EventView::Sent(true) {
                ActionView::Relay
            } else {
                ActionView::Finish
            }
            &&& before is Relay ==> match event {
                EventView::Chunk(chunk) => after == ActionView::Write(chunk),
                EventView::ServerData(data) => after == if data.len() > 0 {
                    ActionView::Deliver(data)
                } else {
                    ActionView::Finish
                },
                _ => after == ActionView::Finish,
            }
        }),
{
    lemma_last_step(config, events);
    lemma_last_step(config, events.drop_last());
}

} // verus!
