//! One rotation through the cloud API, from a client's request to its settled outcome.

use vstd::arithmetic::power2::pow2;
use vstd::prelude::*;

use crate::error::MicrosandboxError;
use crate::secret::backend::{
    current_secret_version, first_named, next_poll_interval, no_secret_message,
    wait_for_secret_rotation, wait_step, WaitStep, SECRET_ROTATION_INITIAL_POLL_INTERVAL_MS,
};
use crate::secret::rotation::{
    neutral_disposition, CloudSecretMetadataList, CloudSecretOperationStatus,
    CloudSecretRotationOperation, CloudSecretRotationRequest, SecretRotationRequest,
    SecretRotationResult,
};
use crate::text::quoted;

verus! {

/// Where a rotation stands.
#[allow(inconsistent_fields)]
pub enum RotationState {
    /// The sandbox is being looked up.
    Finding {
        /// The secret's name.
        name: String,
        /// What the client asked for.
        request: SecretRotationRequest,
    },
    /// The current version is being read.
    Reading {
        /// The sandbox's id.
        sandbox_id: String,
        /// The secret's name.
        name: String,
        /// The request, still without a version.
        request: CloudSecretRotationRequest,
    },
    /// The request was sent; its operation is awaited.
    Settling {
        /// How long the next poll waits, in milliseconds.
        interval_ms: u64,
    },
    /// The outcome was reported.
    Settled,
}

/// What a call brought back.
pub enum RotationEvent {
    /// The sandbox was found.
    Sandbox {
        /// Its id.
        id: String,
    },
    /// The secrets were listed.
    Listing(CloudSecretMetadataList),
    /// The operation was read.
    Operation {
        /// The operation.
        operation: CloudSecretRotationOperation,
        /// How long ago the first read of the operation was, in milliseconds.
        elapsed_ms: u64,
    },
    /// The call failed: the lookup of the sandbox, the listing, the write or the poll.
    Failed(MicrosandboxError),
}

/// What to do next.
pub enum RotationAction {
    /// List the sandbox's secrets.
    Read {
        /// The sandbox's id.
        sandbox_id: String,
    },
    /// Send the request.
    Write {
        /// The sandbox's id.
        sandbox_id: String,
        /// The secret's name.
        name: String,
        /// The request.
        request: CloudSecretRotationRequest,
    },
    /// Wait, and read the operation again.
    Poll {
        /// The operation's id.
        id: String,
        /// How long to wait, in milliseconds.
        after_ms: u64,
    },
    /// Report the outcome.
    Finish(Result<SecretRotationResult, MicrosandboxError>),
}

/// Whether the event is one that the state awaits.
pub open spec fn awaits(state: RotationState, event: RotationEvent) -> bool {
    match state {
        RotationState::Finding { .. } => event is Sandbox || event is Failed,
        RotationState::Reading { .. } => event is Listing || event is Failed,
        RotationState::Settling { .. } => event is Operation || event is Failed,
        RotationState::Settled => false,
    }
}

/// The state of a rotation whose request was just sent.
pub open spec fn sent() -> RotationState {
    RotationState::Settling { interval_ms: SECRET_ROTATION_INITIAL_POLL_INTERVAL_MS }
}

/// What follows on an event: the next state and the action. A call that failed ends the
/// rotation with its error; nothing is tried again.
pub open spec fn rotation_step(
    state: RotationState,
    event: RotationEvent,
    next: RotationState,
    action: RotationAction,
) -> bool {
    match (state, event) {
        (RotationState::Finding { name, request }, RotationEvent::Sandbox { id }) => {
            let wire = CloudSecretRotationRequest {
                value: request.value,
                version: request.version,
            };
            if request.version is Some {
                &&& next == sent()
                &&& action == RotationAction::Write { sandbox_id: id, name, request: wire }
            } else {
                &&& next == RotationState::Reading { sandbox_id: id, name, request: wire }
                &&& action == RotationAction::Read { sandbox_id: id }
            }
        },
        (
            RotationState::Reading { sandbox_id, name, request },
            RotationEvent::Listing(listing),
        ) => match first_named(listing.data@, name@) {
            Some(entry) => {
                &&& next == sent()
                &&& action == RotationAction::Write {
                    sandbox_id,
                    name,
                    request: CloudSecretRotationRequest {
                        value: request.value,
                        version: Some(entry.version),
                    },
                }
            },
            None => {
                &&& next == RotationState::Settled
                &&& action matches RotationAction::Finish(
                    Err(MicrosandboxError::Runtime(message)),
                )
                &&& message@ == no_secret_message(sandbox_id@, name@)
            },
        },
        (
            RotationState::Settling { interval_ms },
            RotationEvent::Operation { operation, elapsed_ms },
        ) => exists|step: WaitStep| #[trigger]
            wait_step(operation, interval_ms, elapsed_ms, step) && settling_step(
                step,
                next,
                action,
            ),
        (
            RotationState::Finding { .. } | RotationState::Reading { .. } | RotationState::Settling {
                ..
            },
            RotationEvent::Failed(error),
        ) => {
            &&& next == RotationState::Settled
            &&& action == RotationAction::Finish(Err(error))
        },
        _ => false,
    }
}

/// What follows on a step of the wait.
pub open spec fn settling_step(
    step: WaitStep,
    next: RotationState,
    action: RotationAction,
) -> bool {
    match step {
        WaitStep::Poll { id, after_ms, next_interval_ms } => {
            &&& next == RotationState::Settling { interval_ms: next_interval_ms }
            &&& action == RotationAction::Poll { id, after_ms }
        },
        WaitStep::Settled(Ok(result)) => {
            &&& next == RotationState::Settled
            &&& action == RotationAction::Finish(
                Ok(
                    SecretRotationResult {
                        name: result.name,
                        version: result.version,
                        disposition: neutral_disposition(result.disposition),
                    },
                ),
            )
        },
        WaitStep::Settled(Err(error)) => {
            &&& next == RotationState::Settled
            &&& action == RotationAction::Finish(Err(error))
        },
    }
}

impl RotationState {
    /// Whether the event is one that the state awaits.
    pub fn accepts(&self, event: &RotationEvent) -> (accepted: bool)
        ensures
            accepted == awaits(*self, *event),
    {
        match (self, event) {
            (RotationState::Finding { .. }, RotationEvent::Sandbox { .. }) => true,
            (RotationState::Reading { .. }, RotationEvent::Listing(_)) => true,
            (RotationState::Settling { .. }, RotationEvent::Operation { .. }) => true,
            (RotationState::Settled, _) => false,
            (_, RotationEvent::Failed(_)) => true,
            _ => false,
        }
    }
}

/// The state of a rotation before anything was called.
pub fn begin_rotation(name: &str, request: SecretRotationRequest) -> (state: RotationState)
    ensures
        state matches RotationState::Finding { name: kept, request: asked } && kept@ == name@
            && asked == request,
{
    RotationState::Finding { name: name.to_owned(), request }
}

/// One step of a rotation.
///
/// A client may leave the version out, which says "whatever is current", while the cloud
/// API requires an explicit token on every write. That token is read here. A concurrent
/// write after that read still loses safely at the server-side comparison.
pub fn rotate(state: RotationState, event: RotationEvent) -> (step: (
    RotationState,
    RotationAction,
))
    requires
        awaits(state, event),
    ensures
        rotation_step(state, event, step.0, step.1),
{
    match (state, event) {
        (RotationState::Finding { name, request }, RotationEvent::Sandbox { id }) => {
            let request = CloudSecretRotationRequest::from(request);
            match &request.version {
                Some(_) => (
                    RotationState::Settling {
                        interval_ms: SECRET_ROTATION_INITIAL_POLL_INTERVAL_MS,
                    },
                    RotationAction::Write { sandbox_id: id, name, request },
                ),
                None => (
                    RotationState::Reading { sandbox_id: id.clone(), name, request },
                    RotationAction::Read { sandbox_id: id },
                ),
            }
        },
        (
            RotationState::Reading { sandbox_id, name, request },
            RotationEvent::Listing(listing),
        ) => match current_secret_version(listing, sandbox_id.as_str(), name.as_str()) {
            Ok(version) => (
                RotationState::Settling { interval_ms: SECRET_ROTATION_INITIAL_POLL_INTERVAL_MS },
                RotationAction::Write {
                    sandbox_id,
                    name,
                    request: CloudSecretRotationRequest {
                        value: request.value,
                        version: Some(version),
                    },
                },
            ),
            Err(error) => (RotationState::Settled, RotationAction::Finish(Err(error))),
        },
        (
            RotationState::Settling { interval_ms },
            RotationEvent::Operation { operation, elapsed_ms },
        ) => {
            let step = wait_for_secret_rotation(operation, interval_ms, elapsed_ms);
            let ghost taken = step;
            assert(wait_step(operation, interval_ms, elapsed_ms, taken));
            match step {
                WaitStep::Poll { id, after_ms, next_interval_ms } => (
                    RotationState::Settling { interval_ms: next_interval_ms },
                    RotationAction::Poll { id, after_ms },
                ),
                WaitStep::Settled(Ok(result)) => (
                    RotationState::Settled,
                    RotationAction::Finish(Ok(SecretRotationResult::from(result))),
                ),
                WaitStep::Settled(Err(error)) => (
                    RotationState::Settled,
                    RotationAction::Finish(Err(error)),
                ),
            }
        },
        (_, RotationEvent::Failed(error)) => (
            RotationState::Settled,
            RotationAction::Finish(Err(error)),
        ),
        _ => vstd::pervasive::unreached(),
    }
}

// Laws

/// Every request that is sent quotes a version, and carries the material that the client
/// asked for.
pub proof fn lemma_every_write_quotes_a_version(
    state: RotationState,
    event: RotationEvent,
    next: RotationState,
    action: RotationAction,
)
    requires
        rotation_step(state, event, next, action),
        action is Write,
    ensures
        action->request.version is Some,
        match state {
            RotationState::Finding { name, request } => action->name == name
                && action->request.value == request.value,
            RotationState::Reading { sandbox_id, name, request } => action->name == name
                && action->Write_sandbox_id == sandbox_id && action->request.value
                == request.value,
            _ => false,
        },
{
}

/// A version that the client named is sent as it is, without reading the current one.
pub proof fn lemma_a_named_version_is_sent_unread(
    name: String,
    request: SecretRotationRequest,
    id: String,
    next: RotationState,
    action: RotationAction,
)
    requires
        request.version is Some,
        rotation_step(
            RotationState::Finding { name, request },
            RotationEvent::Sandbox { id },
            next,
            action,
        ),
    ensures
        action == (RotationAction::Write {
            sandbox_id: id,
            name,
            request: CloudSecretRotationRequest { value: request.value, version: request.version },
        }),
{
}

/// Without a version, the current one is read and quoted. A secret that is not listed has
/// none to quote: nothing is sent, and the rotation fails.
pub proof fn lemma_an_absent_version_resolves_to_the_current_one(
    name: String,
    request: SecretRotationRequest,
    id: String,
    middle: RotationState,
    read: RotationAction,
    listing: CloudSecretMetadataList,
    next: RotationState,
    action: RotationAction,
)
    requires
        request.version is None,
        rotation_step(
            RotationState::Finding { name, request },
            RotationEvent::Sandbox { id },
            middle,
            read,
        ),
        rotation_step(middle, RotationEvent::Listing(listing), next, action),
    ensures
        read == (RotationAction::Read { sandbox_id: id }),
        match first_named(listing.data@, name@) {
            Some(entry) => action == (RotationAction::Write {
                sandbox_id: id,
                name,
                request: CloudSecretRotationRequest {
                    value: request.value,
                    version: Some(entry.version),
                },
            }),
            None => next is Settled && (action matches RotationAction::Finish(
                Err(MicrosandboxError::Runtime(text)),
            ) && text@ == "sandbox "@ + quoted(id@) + " has no secret "@ + quoted(name@)),
        },
{
}

/// Once a request was sent, the rotation goes on exactly while the operation is in
/// progress and its time is not up, and reports an outcome otherwise. A result is
/// reported as it was committed, and an error names the operation and what became of it.
pub proof fn lemma_a_sent_rotation_settles(
    interval_ms: u64,
    operation: CloudSecretRotationOperation,
    elapsed_ms: u64,
    next: RotationState,
    action: RotationAction,
)
    requires
        rotation_step(
            RotationState::Settling { interval_ms },
            RotationEvent::Operation { operation, elapsed_ms },
            next,
            action,
        ),
    ensures
        action is Poll || action is Finish,
        action is Poll <==> operation.status == CloudSecretOperationStatus::InProgress && elapsed_ms
            < 300_000,
        action matches RotationAction::Poll { id, after_ms } ==> id == operation.id && after_ms
            == interval_ms && next is Settling,
        action is Finish <==> next is Settled,
        action matches RotationAction::Finish(outcome) ==> (outcome is Ok <==> operation.status
            == CloudSecretOperationStatus::Succeeded && operation.result is Some),
        action matches RotationAction::Finish(Err(error)) ==> {
            let head = "secret rotation operation "@ + operation.id@;
            error matches MicrosandboxError::Runtime(text) && text@ == match operation.status {
                CloudSecretOperationStatus::Succeeded => head + " succeeded without a result"@,
                CloudSecretOperationStatus::Failed => match operation.error {
                    Some(detail) => head + " failed"@ + ": "@ + detail.code@ + ": "@
                        + detail.message@,
                    None => head + " failed"@,
                },
                CloudSecretOperationStatus::InProgress => head
                    + " did not finish within 300s; server-side work may still be continuing"@,
            }
        },
        action matches RotationAction::Finish(Ok(outcome)) ==> {
            let committed = operation.result->0;
            &&& outcome.name == committed.name
            &&& outcome.version == committed.version
            &&& outcome.disposition == neutral_disposition(committed.disposition)
        },
{
}

/// A call that fails ends the rotation with its error, wherever the rotation stands: the
/// call is not made again, and no other is made.
pub proof fn lemma_a_failed_call_ends_the_rotation(
    state: RotationState,
    error: MicrosandboxError,
    next: RotationState,
    action: RotationAction,
)
    requires
        rotation_step(state, RotationEvent::Failed(error), next, action),
    ensures
        next == RotationState::Settled,
        action == RotationAction::Finish(Err(error)),
{
}

/// Each call can be answered by what it brings or by its failure, and the outcome by
/// nothing.
pub proof fn lemma_each_call_is_awaited(
    state: RotationState,
    event: RotationEvent,
    next: RotationState,
    action: RotationAction,
    answer: RotationEvent,
)
    requires
        rotation_step(state, event, next, action),
    ensures
        action is Read ==> (awaits(next, answer) <==> answer is Listing || answer is Failed),
        action is Write || action is Poll ==> (awaits(next, answer) <==> answer is Operation
            || answer is Failed),
        action is Finish ==> !awaits(next, answer),
        action is Write ==> next == (RotationState::Settling { interval_ms: 250 }),
{
}

/// A rotation starts with the sandbox's lookup, which is answered by its id or by a failure.
pub proof fn lemma_a_rotation_starts_with_the_lookup(
    name: String,
    request: SecretRotationRequest,
    answer: RotationEvent,
)
    ensures
        awaits(RotationState::Finding { name, request }, answer) <==> answer is Sandbox || answer
            is Failed,
{
}

/// Whether the actions follow on the events, state by state.
pub open spec fn is_run(
    states: Seq<RotationState>,
    events: Seq<RotationEvent>,
    actions: Seq<RotationAction>,
) -> bool {
    &&& states.len() == events.len() + 1
    &&& actions.len() == events.len()
    &&& forall|i: int|
        #![trigger events[i]]
        0 <= i < events.len() ==> rotation_step(states[i], events[i], states[i + 1], actions[i])
}

proof fn lemma_stays_sent(
    states: Seq<RotationState>,
    events: Seq<RotationEvent>,
    actions: Seq<RotationAction>,
    i: int,
    j: int,
)
    requires
        is_run(states, events, actions),
        0 <= i < j <= events.len(),
        actions[i] is Write,
    ensures
        states[j] is Settling || states[j] is Settled,
    decreases j,
{
    if j == i + 1 {
        assert(rotation_step(states[i], events[i], states[i + 1], actions[i]));
    } else {
        lemma_stays_sent(states, events, actions, i, j - 1);
        assert(rotation_step(states[j - 1], events[j - 1], states[j], actions[j - 1])) by {
            let last = events[j - 1];
        }
    }
}

/// A rotation sends its request once.
pub proof fn lemma_a_rotation_writes_once(
    states: Seq<RotationState>,
    events: Seq<RotationEvent>,
    actions: Seq<RotationAction>,
    i: int,
    j: int,
)
    requires
        is_run(states, events, actions),
        0 <= i < j < events.len(),
        actions[i] is Write,
    ensures
        !(actions[j] is Write),
        !(actions[j] is Read),
{
    lemma_stays_sent(states, events, actions, i, j);
    assert(rotation_step(states[j], events[j], states[j + 1], actions[j])) by {
        let last = events[j];
    }
}

/// An outcome is the last action of a rotation: nothing is called after it.
pub proof fn lemma_nothing_follows_the_outcome(
    states: Seq<RotationState>,
    events: Seq<RotationEvent>,
    actions: Seq<RotationAction>,
    i: int,
)
    requires
        is_run(states, events, actions),
        0 <= i < events.len(),
        actions[i] is Finish,
    ensures
        i == events.len() - 1,
{
    assert(rotation_step(states[i], events[i], states[i + 1], actions[i]));
    if i + 1 < events.len() {
        let following = events[i + 1];
        assert(rotation_step(states[i + 1], following, states[i + 2], actions[i + 1]));
    }
}

/// How long the poll after `n` others waits, in milliseconds.
pub open spec fn poll_interval(n: nat) -> nat
    decreases n,
{
    if n == 0 {
        SECRET_ROTATION_INITIAL_POLL_INTERVAL_MS as nat
    } else {
        next_poll_interval(poll_interval((n - 1) as nat))
    }
}

/// The waits double from a quarter of a second to five seconds.
pub proof fn lemma_polls_back_off(n: nat)
    ensures
        poll_interval(n) == if 250 * pow2(n) <= 5_000 {
            250 * pow2(n)
        } else {
            5_000
        },
    decreases n,
{
    if n == 0 {
        vstd::arithmetic::power2::lemma2_to64();
    } else {
        lemma_polls_back_off((n - 1) as nat);
        vstd::arithmetic::power2::lemma_pow2_unfold(n);
    }
}

/// A run that polls waits as the schedule says: the poll after `n` others waits
/// `poll_interval(n)`.
pub proof fn lemma_polls_keep_the_schedule(
    states: Seq<RotationState>,
    events: Seq<RotationEvent>,
    actions: Seq<RotationAction>,
    sent_at: int,
    n: nat,
)
    requires
        is_run(states, events, actions),
        0 <= sent_at,
        sent_at + 1 + n < events.len(),
        actions[sent_at] is Write,
        actions[sent_at + 1 + n] is Poll,
    ensures
        actions[sent_at + 1 + n]->after_ms == poll_interval(n),
        states[sent_at + 1 + n] matches RotationState::Settling { interval_ms } && interval_ms
            == poll_interval(n),
    decreases n,
{
    let at = sent_at + 1 + n;
    assert(rotation_step(states[at], events[at], states[at + 1], actions[at])) by {
        let last = events[at];
    }
    assert(rotation_step(states[at - 1], events[at - 1], states[at], actions[at - 1])) by {
        let last = events[at - 1];
    }
    if n > 0 {
        lemma_stays_sent(states, events, actions, sent_at, at - 1);
        assert(states[at] is Settling) by {
            lemma_stays_sent(states, events, actions, sent_at, at);
        }
        lemma_polls_keep_the_schedule(states, events, actions, sent_at, (n - 1) as nat);
    }
}

} // verus!
