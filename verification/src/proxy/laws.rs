//! What holds of every run of a proxied connection.

use vstd::prelude::*;

use crate::proxy::address::{loopback_like, SocketAddr};
use crate::proxy::socks::{
    lemma_socks4_request_decides, lemma_socks5_methods_decide, lemma_socks5_request_decides,
    socks4_reply, socks4_request, socks5_method_reply, socks5_methods, socks5_reply,
    socks5_request, MethodsReading, Reading, SocksHostView, SOCKS4_GRANTED, SOCKS5_GRANTED,
    SOCKS5_NO_METHOD,
};
use crate::proxy::task::{
    after_socks4, after_socks5_ask, after_socks5_offer, answers, proxy_next, ActionView,
    ConfigView, EgressEvaluation, EventView, ProxyErrorKind, StageView, SOCKS4_VERSION,
    SOCKS5_VERSION,
};

verus! {

/// Where a task is after the given events.
pub open spec fn stage_after(config: ConfigView, events: Seq<EventView>) -> StageView
    decreases events.len(),
{
    if events.len() == 0 {
        StageView::First
    } else {
        proxy_next(config, stage_after(config, events.drop_last()), events.last()).0
    }
}

/// The actions that a task takes on the given events, one for each.
pub open spec fn actions_on(config: ConfigView, events: Seq<EventView>) -> Seq<ActionView>
    decreases events.len(),
{
    if events.len() == 0 {
        Seq::empty()
    } else {
        actions_on(config, events.drop_last()).push(
            proxy_next(config, stage_after(config, events.drop_last()), events.last()).1,
        )
    }
}

/// Whether each event answers the action before it.
pub open spec fn legal(config: ConfigView, events: Seq<EventView>) -> bool
    decreases events.len(),
{
    events.len() == 0 || (legal(config, events.drop_last()) && answers(
        stage_after(config, events.drop_last()),
        events.last(),
    ))
}

/// The bytes of an event that come from the guest.
pub open spec fn chunk_in(event: EventView) -> Seq<u8> {
    match event {
        EventView::Chunk(chunk) => chunk,
        _ => Seq::empty(),
    }
}

/// The bytes of an action that go upstream, there or through the TLS proxy.
pub open spec fn chunk_out(action: ActionView) -> Seq<u8> {
    match action {
        ActionView::Write(chunk) => chunk,
        ActionView::Intercept { guest_dst, connect_dst, leftover } => leftover,
        _ => Seq::empty(),
    }
}

/// Everything that the guest has sent.
pub open spec fn guest_bytes(events: Seq<EventView>) -> Seq<u8>
    decreases events.len(),
{
    if events.len() == 0 {
        Seq::empty()
    } else {
        guest_bytes(events.drop_last()) + chunk_in(events.last())
    }
}

/// Everything that was sent upstream.
pub open spec fn upstream_bytes(actions: Seq<ActionView>) -> Seq<u8>
    decreases actions.len(),
{
    if actions.len() == 0 {
        Seq::empty()
    } else {
        upstream_bytes(actions.drop_last()) + chunk_out(actions.last())
    }
}

/// What a guest's byte stream amounts to.
pub enum GuestStream {
    /// A handshake that is not complete, or nothing at all.
    Undecided,
    /// A handshake that is refused.
    Refused { reply: Seq<u8> },
    /// No handshake: the stream itself is for upstream.
    Plain,
    /// A handshake for a tunnel; the inner stream starts at `start`.
    Tunnel { host: SocksHostView, port: u16, start: int },
}

/// What a handshake amounts to whose request begins `offset` bytes into the stream.
pub open spec fn stream_of_reading(reading: Reading, offset: int) -> GuestStream {
    match reading {
        Reading::NeedMore => GuestStream::Undecided,
        Reading::Refused { reply, len } => GuestStream::Refused { reply },
        Reading::Granted { host, port, len } => GuestStream::Tunnel {
            host,
            port,
            start: offset + len,
        },
    }
}

/// What a guest's byte stream amounts to, whatever the chunks that it comes in.
pub open spec fn guest_stream(stream: Seq<u8>) -> GuestStream {
    if stream.len() == 0 {
        GuestStream::Undecided
    } else if stream[0] == SOCKS4_VERSION {
        stream_of_reading(socks4_request(stream.skip(1)), 1)
    } else if stream[0] == SOCKS5_VERSION {
        match socks5_methods(stream.skip(1)) {
            MethodsReading::NeedMore => GuestStream::Undecided,
            MethodsReading::Refused { len } => GuestStream::Refused {
                reply: socks5_method_reply(SOCKS5_NO_METHOD),
            },
            MethodsReading::Accepted { len } => stream_of_reading(
                socks5_request(stream.skip(1).skip(len)),
                1 + len,
            ),
        }
    } else {
        GuestStream::Plain
    }
}

/// The part of a guest's stream that is for upstream.
pub open spec fn inner_stream(stream: Seq<u8>) -> Seq<u8> {
    match guest_stream(stream) {
        GuestStream::Plain => stream,
        GuestStream::Tunnel { host, port, start } => stream.skip(start),
        _ => Seq::empty(),
    }
}

/// Once a stream is decided, more of it changes neither the decision nor where the
/// inner stream starts; it only makes the inner stream longer.
pub proof fn lemma_stream_stays_decided(stream: Seq<u8>, more: Seq<u8>)
    requires
        !(guest_stream(stream) is Undecided),
    ensures
        guest_stream(stream + more) == guest_stream(stream),
        guest_stream(stream) matches GuestStream::Tunnel { host, port, start } ==> 0 < start
            <= stream.len(),
        !(guest_stream(stream) is Refused) ==> inner_stream(stream + more) == inner_stream(stream)
            + more,
{
    let whole = stream + more;
    assert(whole[0] == stream[0]);
    assert(whole.skip(1) =~= stream.skip(1) + more);
    if stream[0] == SOCKS4_VERSION {
        lemma_socks4_request_decides(stream.skip(1), more);
    } else if stream[0] == SOCKS5_VERSION {
        lemma_socks5_methods_decide(stream.skip(1), more);
        if let MethodsReading::Accepted { len } = socks5_methods(stream.skip(1)) {
            assert(whole.skip(1).skip(len) =~= stream.skip(1).skip(len) + more);
            lemma_socks5_request_decides(stream.skip(1).skip(len), more);
        }
    }
    if let GuestStream::Tunnel { host, port, start } = guest_stream(stream) {
        assert(whole.skip(start) =~= stream.skip(start) + more);
    }
}

/// What every stage keeps of the guest's bytes: what is being read is all that was
/// sent, what is held back is all of the inner stream, and what went upstream is
/// all of it or nothing.
pub open spec fn accounts_for(
    stage: StageView,
    taken: Seq<u8>,
    sent: Seq<u8>,
) -> bool {
    match stage {
        StageView::First => taken.len() == 0 && sent.len() == 0,
        StageView::Socks4 { seen } => {
            &&& taken == seq![SOCKS4_VERSION] + seen
            &&& guest_stream(taken) is Undecided
            &&& sent.len() == 0
        },
        StageView::Socks5Offer { seen } => {
            &&& taken == seq![SOCKS5_VERSION] + seen
            &&& guest_stream(taken) is Undecided
            &&& sent.len() == 0
        },
        StageView::Socks5Choice { rest } => {
            &&& taken.len() > 0 && taken[0] == SOCKS5_VERSION
            &&& socks5_methods(taken.skip(1)) matches MethodsReading::Accepted { len } && rest
                == taken.skip(1).skip(len)
            &&& sent.len() == 0
        },
        StageView::Socks5Ask { seen } => {
            &&& taken.len() > 0 && taken[0] == SOCKS5_VERSION
            &&& socks5_methods(taken.skip(1)) matches MethodsReading::Accepted { len } && seen
                == taken.skip(1).skip(len)
            &&& guest_stream(taken) is Undecided
            &&& sent.len() == 0
        },
        StageView::Granting { host, port, rest } => {
            &&& guest_stream(taken) matches GuestStream::Tunnel { host: h, port: p, start } && h
                == host && p == port && rest == taken.skip(start)
            &&& sent.len() == 0
        },
        StageView::Parsing { host, port, rest } | StageView::Resolving { host, port, rest } => {
            &&& guest_stream(taken) matches GuestStream::Tunnel { host: h, port: p, start } && h
                == SocksHostView::Name(host) && p == port && rest == taken.skip(start)
            &&& sent.len() == 0
        },
        StageView::Peeking { buf } | StageView::Extracting { buf } | StageView::Judging { buf } => {
            &&& guest_stream(taken) is Plain
            &&& buf == taken
            &&& sent.len() == 0
        },
        StageView::Dialing { replay } => {
            &&& guest_stream(taken) is Plain || guest_stream(taken) is Tunnel
            &&& replay == inner_stream(taken)
            &&& sent.len() == 0
        },
        StageView::Writing | StageView::Relaying | StageView::Delivering => {
            &&& guest_stream(taken) is Plain || guest_stream(taken) is Tunnel
            &&& sent == inner_stream(taken)
        },
        StageView::Done => sent.len() == 0 || sent == inner_stream(taken),
    }
}

proof fn lemma_socks4_accounts(whole: Seq<u8>)
    ensures
        ({
            let next = after_socks4(whole);
            &&& accounts_for(next.0, seq![SOCKS4_VERSION] + whole, Seq::empty())
            &&& chunk_out(next.1) =~= Seq::<u8>::empty()
            &&& next.1 matches ActionView::Refuse(reply) ==> guest_stream(
                seq![SOCKS4_VERSION] + whole,
            ) == (GuestStream::Refused { reply })
        }),
{
    let taken = seq![SOCKS4_VERSION] + whole;
    assert(taken.skip(1) =~= whole);
    if let Reading::Granted { host, port, len } = socks4_request(whole) {
        assert(taken.skip(1 + len) =~= whole.skip(len)) by {
            lemma_socks4_request_decides(whole, Seq::empty());
        }
    }
}

proof fn lemma_socks5_offer_accounts(whole: Seq<u8>)
    ensures
        ({
            let next = after_socks5_offer(whole);
            &&& accounts_for(next.0, seq![SOCKS5_VERSION] + whole, Seq::empty())
            &&& chunk_out(next.1) =~= Seq::<u8>::empty()
            &&& next.1 matches ActionView::Refuse(reply) ==> guest_stream(
                seq![SOCKS5_VERSION] + whole,
            ) == (GuestStream::Refused { reply })
        }),
{
    let taken = seq![SOCKS5_VERSION] + whole;
    assert(taken.skip(1) =~= whole);
}

proof fn lemma_socks5_ask_accounts(taken: Seq<u8>, len: int)
    requires
        taken.len() > 0,
        taken[0] == SOCKS5_VERSION,
        socks5_methods(taken.skip(1)) == (MethodsReading::Accepted { len }),
    ensures
        ({
            let next = after_socks5_ask(taken.skip(1).skip(len));
            &&& accounts_for(next.0, taken, Seq::empty())
            &&& chunk_out(next.1) =~= Seq::<u8>::empty()
            &&& next.1 matches ActionView::Refuse(reply) ==> guest_stream(taken) == (
            GuestStream::Refused { reply })
        }),
{
    let whole = taken.skip(1).skip(len);
    lemma_socks5_methods_decide(taken.skip(1), Seq::empty());
    if let Reading::Granted { host, port, len: l } = socks5_request(whole) {
        lemma_socks5_request_decides(whole, Seq::empty());
        assert(taken.skip(1 + len + l) =~= whole.skip(l));
    }
}

/// A step accounts for the guest's bytes, and refuses what the stream says is
/// refused.
spec fn step_accounts(
    config: ConfigView,
    stage: StageView,
    event: EventView,
    taken: Seq<u8>,
    sent: Seq<u8>,
) -> bool {
    let next = proxy_next(config, stage, event);
    &&& accounts_for(next.0, taken + chunk_in(event), sent + chunk_out(next.1))
    &&& next.1 matches ActionView::Refuse(reply) ==> guest_stream(taken + chunk_in(event)) == (
    GuestStream::Refused { reply })
}

/// Where one of two sequences is empty, the other is their concatenation.
proof fn lemma_nothing_added(whole: Seq<u8>, more: Seq<u8>)
    ensures
        more.len() == 0 ==> whole + more == whole,
        whole.len() == 0 ==> whole + more == more && whole == Seq::<u8>::empty(),
{
    assert(more.len() == 0 ==> whole + more =~= whole);
    assert(whole.len() == 0 ==> whole + more =~= more);
}

proof fn lemma_first_step_accounts(
    config: ConfigView,
    stage: StageView,
    event: EventView,
    taken: Seq<u8>,
    sent: Seq<u8>,
)
    requires
        accounts_for(stage, taken, sent),
        answers(stage, event),
        stage is First,
    ensures
        step_accounts(config, stage, event, taken, sent),
{
    let now = taken + chunk_in(event);
    lemma_nothing_added(taken, chunk_in(event));
    lemma_nothing_added(sent, chunk_out(proxy_next(config, stage, event).1));
    if let EventView::Chunk(chunk) = event {
        assert(now =~= chunk);
        if chunk[0] == SOCKS4_VERSION {
            assert(now =~= seq![SOCKS4_VERSION] + chunk.skip(1));
            lemma_socks4_accounts(chunk.skip(1));
        } else if chunk[0] == SOCKS5_VERSION {
            assert(now =~= seq![SOCKS5_VERSION] + chunk.skip(1));
            lemma_socks5_offer_accounts(chunk.skip(1));
        }
    }
}

proof fn lemma_socks4_step_accounts(
    config: ConfigView,
    stage: StageView,
    event: EventView,
    taken: Seq<u8>,
    sent: Seq<u8>,
)
    requires
        accounts_for(stage, taken, sent),
        answers(stage, event),
        stage is Socks4,
    ensures
        step_accounts(config, stage, event, taken, sent),
{
    let now = taken + chunk_in(event);
    lemma_nothing_added(taken, chunk_in(event));
    lemma_nothing_added(sent, chunk_out(proxy_next(config, stage, event).1));
    if let EventView::Chunk(chunk) = event {
        let seen = stage->Socks4_seen;
        assert(now =~= seq![SOCKS4_VERSION] + (seen + chunk));
        lemma_socks4_accounts(seen + chunk);
    }
}

proof fn lemma_socks5_step_accounts(
    config: ConfigView,
    stage: StageView,
    event: EventView,
    taken: Seq<u8>,
    sent: Seq<u8>,
)
    requires
        accounts_for(stage, taken, sent),
        answers(stage, event),
        stage is Socks5Offer || stage is Socks5Choice || stage is Socks5Ask,
    ensures
        step_accounts(config, stage, event, taken, sent),
{
    let now = taken + chunk_in(event);
    lemma_nothing_added(taken, chunk_in(event));
    lemma_nothing_added(sent, chunk_out(proxy_next(config, stage, event).1));
    match (stage, event) {
        (StageView::Socks5Offer { seen }, EventView::Chunk(chunk)) => {
            assert(now =~= seq![SOCKS5_VERSION] + (seen + chunk));
            lemma_socks5_offer_accounts(seen + chunk);
        },
        (StageView::Socks5Choice { rest }, EventView::Sent(true)) => {
            let len = socks5_methods(taken.skip(1))->Accepted_len;
            lemma_socks5_ask_accounts(taken, len);
        },
        (StageView::Socks5Ask { seen }, EventView::Chunk(chunk)) => {
            let len = socks5_methods(taken.skip(1))->Accepted_len;
            lemma_socks5_methods_decide(taken.skip(1), chunk);
            assert(now.skip(1) =~= taken.skip(1) + chunk);
            assert(now.skip(1).skip(len) =~= seen + chunk);
            lemma_socks5_ask_accounts(now, len);
        },
        _ => {},
    }
}

proof fn lemma_tunnel_step_accounts(
    config: ConfigView,
    stage: StageView,
    event: EventView,
    taken: Seq<u8>,
    sent: Seq<u8>,
)
    requires
        accounts_for(stage, taken, sent),
        answers(stage, event),
        stage is Granting || stage is Parsing || stage is Resolving,
    ensures
        step_accounts(config, stage, event, taken, sent),
{
    lemma_nothing_added(taken, chunk_in(event));
    lemma_nothing_added(sent, chunk_out(proxy_next(config, stage, event).1));
}

proof fn lemma_peek_step_accounts(
    config: ConfigView,
    stage: StageView,
    event: EventView,
    taken: Seq<u8>,
    sent: Seq<u8>,
)
    requires
        accounts_for(stage, taken, sent),
        answers(stage, event),
        stage is Peeking || stage is Extracting || stage is Judging,
    ensures
        step_accounts(config, stage, event, taken, sent),
{
    lemma_nothing_added(taken, chunk_in(event));
    lemma_nothing_added(sent, chunk_out(proxy_next(config, stage, event).1));
    if let EventView::Chunk(chunk) = event {
        lemma_stream_stays_decided(taken, chunk);
    }
}

proof fn lemma_relay_step_accounts(
    config: ConfigView,
    stage: StageView,
    event: EventView,
    taken: Seq<u8>,
    sent: Seq<u8>,
)
    requires
        accounts_for(stage, taken, sent),
        answers(stage, event),
        stage is Dialing || stage is Writing || stage is Relaying || stage is Delivering,
    ensures
        step_accounts(config, stage, event, taken, sent),
{
    lemma_nothing_added(taken, chunk_in(event));
    lemma_nothing_added(sent, chunk_out(proxy_next(config, stage, event).1));
    if let StageView::Dialing { replay } = stage {
        assert(sent + replay =~= replay);
        assert(replay.len() == 0 ==> sent =~= replay);
    }
    if let EventView::Chunk(chunk) = event {
        lemma_stream_stays_decided(taken, chunk);
    }
}

proof fn lemma_step_accounts(
    config: ConfigView,
    stage: StageView,
    event: EventView,
    taken: Seq<u8>,
    sent: Seq<u8>,
)
    requires
        accounts_for(stage, taken, sent),
        answers(stage, event),
    ensures
        step_accounts(config, stage, event, taken, sent),
{
    match stage {
        StageView::First => lemma_first_step_accounts(config, stage, event, taken, sent),
        StageView::Socks4 { .. } => lemma_socks4_step_accounts(config, stage, event, taken, sent),
        StageView::Socks5Offer { .. } | StageView::Socks5Choice { .. } | StageView::Socks5Ask {
            ..
        } => lemma_socks5_step_accounts(config, stage, event, taken, sent),
        StageView::Granting { .. } | StageView::Parsing { .. } | StageView::Resolving { .. } =>
            lemma_tunnel_step_accounts(config, stage, event, taken, sent),
        StageView::Peeking { .. } | StageView::Extracting { .. } | StageView::Judging { .. } =>
            lemma_peek_step_accounts(config, stage, event, taken, sent),
        _ => lemma_relay_step_accounts(config, stage, event, taken, sent),
    }
}

pub(crate) proof fn lemma_run_accounts(config: ConfigView, events: Seq<EventView>)
    requires
        legal(config, events),
    ensures
        accounts_for(
            stage_after(config, events),
            guest_bytes(events),
            upstream_bytes(actions_on(config, events)),
        ),
    decreases events.len(),
{
    if events.len() > 0 {
        let before = events.drop_last();
        lemma_run_accounts(config, before);
        lemma_step_accounts(
            config,
            stage_after(config, before),
            events.last(),
            guest_bytes(before),
            upstream_bytes(actions_on(config, before)),
        );
        assert(actions_on(config, events).drop_last() =~= actions_on(config, before));
    }
}

/// The proxy is transparent. Whatever chunks the guest's stream comes in, what goes
/// upstream is the stream behind the SOCKS handshake, or all of it where there is
/// none: nothing is lost, doubled or reordered, and nothing of a handshake leaks.
/// While both sides are relayed, all of it has gone out, and the TLS proxy is handed all
/// of it that was received.
pub proof fn lemma_relay_is_transparent(config: ConfigView, events: Seq<EventView>)
    requires
        legal(config, events),
    ensures
        ({
            let sent = upstream_bytes(actions_on(config, events));
            let inner = inner_stream(guest_bytes(events));
            &&& sent.len() > 0 ==> sent == inner
            &&& stage_after(config, events) is Relaying ==> sent == inner
            &&& events.len() > 0 && actions_on(config, events).last() is Intercept ==> actions_on(
                config,
                events,
            ).last()->leftover == inner
        }),
{
    lemma_run_accounts(config, events);
    if events.len() > 0 {
        let before = events.drop_last();
        lemma_run_accounts(config, before);
        assert(guest_bytes(before) + Seq::<u8>::empty() =~= guest_bytes(before));
    }
}

/// A handshake's outcome depends on the guest's bytes alone, not on the chunks that
/// they come in: a tunnel is granted to the host and port that the stream asks for,
/// a reply of refusal is the one that the stream calls for, and a stream that asks
/// for neither leaves the task waiting.
pub proof fn lemma_handshake_ignores_chunking(config: ConfigView, events: Seq<EventView>)
    requires
        legal(config, events),
    ensures
        ({
            let stream = guest_stream(guest_bytes(events));
            let stage = stage_after(config, events);
            &&& stage matches StageView::Granting { host, port, rest } ==> {
                &&& stream matches GuestStream::Tunnel { host: h, port: p, start } && h == host && p
                    == port
                &&& rest == inner_stream(guest_bytes(events))
            }
            &&& (stage is Socks4 || stage is Socks5Offer || stage is Socks5Ask)
                ==> stream is Undecided
            &&& events.len() > 0 && actions_on(config, events).last() is Refuse ==> stream == (
            GuestStream::Refused { reply: actions_on(config, events).last()->Refuse_0 })
        }),
{
    lemma_run_accounts(config, events);
    if events.len() > 0 {
        let before = events.drop_last();
        lemma_run_accounts(config, before);
        lemma_step_accounts(
            config,
            stage_after(config, before),
            events.last(),
            guest_bytes(before),
            upstream_bytes(actions_on(config, before)),
        );
    }
}

/// The reply that grants the tunnel which a stream asks for.
pub open spec fn grant_for(stream: Seq<u8>) -> Seq<u8> {
    if stream[0] == SOCKS4_VERSION {
        socks4_reply(SOCKS4_GRANTED)
    } else {
        socks5_reply(SOCKS5_GRANTED)
    }
}

/// The actions hold the answer that the stream calls for, unless the choice of a method
/// is still to be sent before it.
spec fn answered(stage: StageView, taken: Seq<u8>, actions: Seq<ActionView>) -> bool {
    match guest_stream(taken) {
        GuestStream::Refused { reply } => stage is Socks5Choice || (actions.len() > 0
            && actions.last() == ActionView::Refuse(reply)),
        GuestStream::Tunnel { .. } => stage is Socks5Choice || actions.contains(
            ActionView::Reply(grant_for(taken)),
        ),
        _ => true,
    }
}

proof fn lemma_step_answers(
    config: ConfigView,
    stage: StageView,
    event: EventView,
    taken: Seq<u8>,
    sent: Seq<u8>,
    actions: Seq<ActionView>,
)
    requires
        accounts_for(stage, taken, sent),
        answered(stage, taken, actions),
        answers(stage, event),
        !(stage is Socks5Choice && event == EventView::Sent(false)),
    ensures
        ({
            let next = proxy_next(config, stage, event);
            answered(next.0, taken + chunk_in(event), actions.push(next.1))
        }),
{
    let next = proxy_next(config, stage, event);
    let now = taken + chunk_in(event);
    let after = actions.push(next.1);
    lemma_step_accounts(config, stage, event, taken, sent);
    assert(after.last() == next.1);
    assert(after.contains(next.1));
    assert forall|action: ActionView| actions.contains(action) implies after.contains(action) by {
        let i = choose|i: int| 0 <= i < actions.len() && actions[i] == action;
        assert(after[i] == action);
    }
    assert(taken.len() > 0 ==> now[0] == taken[0]);
    if guest_stream(taken) is Refused || guest_stream(taken) is Plain || guest_stream(
        taken,
    ) is Tunnel {
        lemma_stream_stays_decided(taken, chunk_in(event));
    }
}

/// Whether the task ended since the choice of a SOCKS5 method could not be sent.
pub open spec fn choice_failed(config: ConfigView, events: Seq<EventView>) -> bool {
    &&& events.len() > 0
    &&& stage_after(config, events.drop_last()) is Socks5Choice
    &&& events.last() == EventView::Sent(false)
}

proof fn lemma_run_answers(config: ConfigView, events: Seq<EventView>)
    requires
        legal(config, events),
        !choice_failed(config, events),
    ensures
        answered(stage_after(config, events), guest_bytes(events), actions_on(config, events)),
    decreases events.len(),
{
    if events.len() > 0 {
        let before = events.drop_last();
        lemma_run_answers(config, before);
        lemma_run_accounts(config, before);
        lemma_step_answers(
            config,
            stage_after(config, before),
            events.last(),
            guest_bytes(before),
            upstream_bytes(actions_on(config, before)),
            actions_on(config, before),
        );
    }
}

/// Every handshake is answered as its bytes call for, whatever follows. Unless the choice
/// of a SOCKS5 method is still to be sent or could not be sent, a stream that is refused
/// has got its reply of refusal, and one that asks for a tunnel has got the grant.
pub proof fn lemma_handshakes_are_answered(config: ConfigView, events: Seq<EventView>)
    requires
        legal(config, events),
        !choice_failed(config, events),
        !(stage_after(config, events) is Socks5Choice),
    ensures
        ({
            let actions = actions_on(config, events);
            match guest_stream(guest_bytes(events)) {
                GuestStream::Refused { reply } => actions.last() == ActionView::Refuse(reply),
                GuestStream::Tunnel { .. } => actions.contains(
                    ActionView::Reply(grant_for(guest_bytes(events))),
                ),
                _ => true,
            }
        }),
{
    lemma_run_answers(config, events);
}

/// Everything that the server has sent.
pub open spec fn server_bytes(events: Seq<EventView>) -> Seq<u8>
    decreases events.len(),
{
    if events.len() == 0 {
        Seq::empty()
    } else {
        server_bytes(events.drop_last()) + match events.last() {
            EventView::ServerData(data) => data,
            _ => Seq::empty(),
        }
    }
}

/// Everything of the server's that was handed to the guest.
pub open spec fn delivered_bytes(actions: Seq<ActionView>) -> Seq<u8>
    decreases actions.len(),
{
    if actions.len() == 0 {
        Seq::empty()
    } else {
        delivered_bytes(actions.drop_last()) + match actions.last() {
            ActionView::Deliver(chunk) => chunk,
            _ => Seq::empty(),
        }
    }
}

/// What the server sends is handed to the guest, all of it and in order.
pub proof fn lemma_server_bytes_reach_the_guest(config: ConfigView, events: Seq<EventView>)
    requires
        legal(config, events),
    ensures
        delivered_bytes(actions_on(config, events)) == server_bytes(events),
    decreases events.len(),
{
    if events.len() > 0 {
        let before = events.drop_last();
        lemma_server_bytes_reach_the_guest(config, before);
        assert(actions_on(config, events).drop_last() =~= actions_on(config, before));
    }
}

/// Whether an action sends nothing to the guest.
pub open spec fn is_silent(action: ActionView) -> bool {
    !(action is Reply) && !(action is Refuse) && !(action is Deliver)
}

/// Until a plain stream's address is dialed, the task is silent.
proof fn lemma_plain_is_silent(config: ConfigView, events: Seq<EventView>)
    requires
        legal(config, events),
        guest_stream(guest_bytes(events)) is Plain || events.len() == 0,
        ({
            let stage = stage_after(config, events);
            stage is First || stage is Peeking || stage is Extracting || stage is Judging || stage
                is Dialing
        }),
    ensures
        actions_on(config, events).len() == events.len(),
        forall|i: int|
            0 <= i < events.len() ==> is_silent(#[trigger] actions_on(config, events)[i]),
    decreases events.len(),
{
    if events.len() > 0 {
        let before = events.drop_last();
        lemma_run_accounts(config, before);
        lemma_run_accounts(config, events);
        let taken = guest_bytes(before);
        if !(guest_stream(taken) is Undecided) {
            lemma_stream_stays_decided(taken, chunk_in(events.last()));
        }
        assert(taken.len() > 0 ==> guest_bytes(events)[0] == taken[0]);
        if before.len() > 0 {
            assert(!(stage_after(config, before) is First)) by {
                let earlier = before.drop_last();
                assert(answers(stage_after(config, earlier), before.last()));
            }
        }
        lemma_plain_is_silent(config, before);
        assert forall|i: int| 0 <= i < events.len() implies is_silent(
            #[trigger] actions_on(config, events)[i],
        ) by {
            if i < before.len() {
                assert(actions_on(config, events)[i] == actions_on(config, before)[i]);
            }
        }
    }
}

/// An address is dialed once.
proof fn lemma_undialed(config: ConfigView, events: Seq<EventView>)
    requires
        legal(config, events),
    ensures
        events.contains(EventView::Dialed) ==> {
            let stage = stage_after(config, events);
            stage is Writing || stage is Relaying || stage is Delivering || stage is Done
        },
    decreases events.len(),
{
    if events.len() > 0 {
        let before = events.drop_last();
        lemma_undialed(config, before);
        if events.contains(EventView::Dialed) && events.last() != EventView::Dialed {
            let i = choose|i: int| 0 <= i < events.len() && events[i] == EventView::Dialed;
            assert(before[i] == EventView::Dialed);
        }
    }
}

/// An address that cannot be dialed ends the task with the reason that the dial gave, and
/// the connection never counts as connected. A guest that opened no tunnel has been sent
/// nothing then.
pub proof fn lemma_a_failed_dial_is_the_outcome(
    config: ConfigView,
    events: Seq<EventView>,
    error: Seq<char>,
)
    requires
        legal(config, events.push(EventView::DialFailed(error))),
    ensures
        ({
            let all = events.push(EventView::DialFailed(error));
            &&& stage_after(config, all) is Done
            &&& actions_on(config, all).last() == ActionView::Fail(ProxyErrorKind::Dial, error)
            &&& !all.contains(EventView::Dialed)
            &&& guest_stream(guest_bytes(all)) is Plain ==> forall|i: int|
                0 <= i < all.len() ==> is_silent(#[trigger] actions_on(config, all)[i])
        }),
{
    let failed = EventView::DialFailed(error);
    let all = events.push(failed);
    assert(all.drop_last() =~= events);
    lemma_undialed(config, events);
    if all.contains(EventView::Dialed) {
        let i = choose|i: int| 0 <= i < all.len() && all[i] == EventView::Dialed;
        assert(events[i] == EventView::Dialed);
    }
    assert(guest_bytes(all) =~= guest_bytes(events));
    if guest_stream(guest_bytes(all)) is Plain {
        lemma_plain_is_silent(config, events);
        assert forall|i: int| 0 <= i < all.len() implies is_silent(
            #[trigger] actions_on(config, all)[i],
        ) by {
            if i < events.len() {
                assert(actions_on(config, all)[i] == actions_on(config, events)[i]);
            }
        }
    }
}

/// The task is over exactly after the actions that say so.
pub proof fn lemma_the_task_ends_with_its_last_action(
    config: ConfigView,
    stage: StageView,
    event: EventView,
)
    requires
        answers(stage, event),
    ensures
        ({
            let next = proxy_next(config, stage, event);
            next.0 is Done <==> next.1 is Refuse || next.1 is Intercept || next.1 is Finish
                || next.1 is Fail
        }),
{
}

/// Whether a stage comes before any permission to go upstream.
spec fn before_upstream(stage: StageView) -> bool {
    stage is First || stage is Socks4 || stage is Socks5Offer || stage is Socks5Choice
        || stage is Socks5Ask || stage is Peeking || stage is Extracting || stage is Judging
        || stage is Done
}

/// Whether an action opens or uses a way upstream.
pub open spec fn goes_upstream(action: ActionView) -> bool {
    action is Dial || action is Write || action is Intercept
}

proof fn lemma_no_tunnel_before(stream: Seq<u8>, more: Seq<u8>)
    requires
        !(guest_stream(stream + more) is Tunnel),
    ensures
        !(guest_stream(stream) is Tunnel),
{
    if guest_stream(stream) is Tunnel {
        lemma_stream_stays_decided(stream, more);
    }
}

proof fn lemma_stays_before_upstream(config: ConfigView, events: Seq<EventView>)
    requires
        legal(config, events),
        config.has_domain_rules,
        !(guest_stream(guest_bytes(events)) is Tunnel),
        forall|i: int|
            0 <= i < events.len() ==> #[trigger] events[i] != EventView::Egress(
                EgressEvaluation::Allow,
            ),
    ensures
        before_upstream(stage_after(config, events)),
        actions_on(config, events).len() == events.len(),
        forall|i: int|
            0 <= i < events.len() ==> !goes_upstream(#[trigger] actions_on(config, events)[i]),
        forall|i: int| 0 <= i < events.len() ==> #[trigger] events[i] != EventView::Dialed,
    decreases events.len(),
{
    if events.len() > 0 {
        let before = events.drop_last();
        lemma_no_tunnel_before(guest_bytes(before), chunk_in(events.last()));
        assert forall|i: int| 0 <= i < before.len() implies #[trigger] before[i]
            != EventView::Egress(EgressEvaluation::Allow) by {
            assert(before[i] == events[i]);
        }
        lemma_stays_before_upstream(config, before);
        let stage = stage_after(config, before);
        let event = events.last();
        let next = proxy_next(config, stage, event);
        assert(event == events[events.len() - 1]);
        lemma_run_accounts(config, events);
        assert(!(next.0 is Granting));
        assert(before_upstream(next.0) && !goes_upstream(next.1));
        assert forall|i: int| 0 <= i < events.len() implies !goes_upstream(
            #[trigger] actions_on(config, events)[i],
        ) by {
            if i < before.len() {
                assert(actions_on(config, events)[i] == actions_on(config, before)[i]);
            }
        }
        assert forall|i: int| 0 <= i < events.len() implies #[trigger] events[i]
            != EventView::Dialed by {
            if i < before.len() {
                assert(before[i] == events[i]);
            }
        }
    }
}

/// Under rules about domains, a connection that the policy does not allow never
/// goes upstream: without a verdict to allow it, no address is dialed, no byte is
/// written, and the connection never counts as connected. Only a SOCKS tunnel is
/// opened without a verdict.
pub proof fn lemma_nothing_goes_upstream_unless_allowed(config: ConfigView, events: Seq<EventView>)
    requires
        legal(config, events),
        config.has_domain_rules,
        !(guest_stream(guest_bytes(events)) is Tunnel),
        !events.contains(EventView::Egress(EgressEvaluation::Allow)),
    ensures
        forall|i: int|
            0 <= i < events.len() ==> !goes_upstream(#[trigger] actions_on(config, events)[i]),
        !events.contains(EventView::Dialed),
{
    lemma_stays_before_upstream(config, events);
}

/// An address that the task dials or hands on is the one that it was told at its
/// start, or the target of a tunnel. The latter is never the gateway's own address,
/// unless that is loopback.
pub proof fn lemma_tunnels_never_dial_the_gateway(
    config: ConfigView,
    stage: StageView,
    event: EventView,
    dst: SocketAddr,
)
    requires
        answers(stage, event),
        proxy_next(config, stage, event).1 == ActionView::Dial(dst) || (proxy_next(
            config,
            stage,
            event,
        ).1 matches ActionView::Intercept { connect_dst, .. } && connect_dst == dst),
    ensures
        stage is First || stage is Judging ==> dst == config.connect_dst,
        !(stage is First || stage is Judging) ==> (!config.gateway.owns(dst.ip) || dst.ip
            == loopback_like(dst.ip)),
{
}

} // verus!
