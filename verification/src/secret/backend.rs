//! Listing and rotation of a sandbox's secrets, as decisions over what a backend
//! answered: the caller performs the calls and hands back the answers.

use vstd::prelude::*;

use crate::error::{MicrosandboxError, Operation, UnsupportedReason};
use crate::secret::rotation::{
    neutral_metadata, CloudSecretMetadata, CloudSecretMetadataList,
    CloudSecretOperationStatus, CloudSecretRotationError, CloudSecretRotationOperation,
    CloudSecretRotationRequest, CloudSecretRotationResult, SecretMetadata, SecretRotationRequest,
    SecretRotationResult,
};
use crate::text::{quote, quoted, same_text};

verus! {

/// How long a rotation may stay in progress, in milliseconds.
pub const SECRET_ROTATION_TIMEOUT_MS: u64 = 300_000;

/// How long the first poll of a rotation waits, in milliseconds.
pub const SECRET_ROTATION_INITIAL_POLL_INTERVAL_MS: u64 = 250;

/// How long a poll of a rotation waits at most, in milliseconds.
pub const SECRET_ROTATION_MAX_POLL_INTERVAL_MS: u64 = 5_000;

// Local backend

/// The backend on this machine. It keeps no versioned store, so it publishes no
/// tokens and commits no versions.
pub struct LocalBackend;

impl LocalBackend {
    /// No versioned store locally, so there is no token to publish. Refusing beats an
    /// empty list, which would read as "this sandbox holds none".
    pub fn list(&self, _sandbox: &str) -> (listed: Result<Vec<SecretMetadata>, MicrosandboxError>)
        ensures
            listed == Err::<Vec<SecretMetadata>, _>(
                (MicrosandboxError::Unsupported {
                    op: Operation::SecretList,
                    reason: UnsupportedReason::CloudOnly,
                }),
            ),
    {
        Err(MicrosandboxError::unsupported(Operation::SecretList, UnsupportedReason::CloudOnly))
    }

    /// Local rotation goes through a modification of the sandbox, as one batched
    /// update. Nothing here commits a version to report.
    pub fn rotate(
        &self,
        _sandbox: &str,
        _name: &str,
        _request: SecretRotationRequest,
    ) -> (rotated: Result<SecretRotationResult, MicrosandboxError>)
        ensures
            rotated == Err::<SecretRotationResult, _>(
                (MicrosandboxError::Unsupported {
                    op: Operation::SecretRotate,
                    reason: UnsupportedReason::CloudOnly,
                }),
            ),
    {
        Err(MicrosandboxError::unsupported(Operation::SecretRotate, UnsupportedReason::CloudOnly))
    }
}

// Cloud backend: calls

/// The method of a call.
#[derive(Debug, Clone, Copy, PartialEq, Eq, Structural)]
pub enum Method {
    /// Read.
    Get,
    /// Write.
    Put,
}

/// A call of the cloud API.
#[derive(Debug)]
pub struct CloudCall {
    /// The method.
    pub method: Method,
    /// The URL.
    pub url: String,
    /// The route, as errors name it.
    pub route: &'static str,
}

/// The cloud API at one base URL.
#[derive(Debug)]
pub struct CloudBackend {
    /// The base URL, without a slash at its end.
    pub url: String,
}

impl CloudBackend {
    /// The call that lists a sandbox's secrets. The id comes percent-encoded.
    pub fn list_secrets(&self, encoded_sandbox_id: &str) -> (call: CloudCall)
        ensures
            call.method == Method::Get,
            call.url@ == self.url@ + "/v1/sandboxes/"@ + encoded_sandbox_id@ + "/secrets"@,
            call.route@ == "GET /v1/sandboxes/:id/secrets"@,
    {
        CloudCall {
            method: Method::Get,
            url: self.url.clone().concat("/v1/sandboxes/").concat(encoded_sandbox_id).concat(
                "/secrets",
            ),
            route: "GET /v1/sandboxes/:id/secrets",
        }
    }

    /// The call that rotates one secret. The id and the name come percent-encoded.
    ///
    /// The precondition rides in the body's `version` field; the route defines no
    /// conditional request header.
    pub fn rotate_secret(&self, encoded_sandbox_id: &str, encoded_name: &str) -> (call: CloudCall)
        ensures
            call.method == Method::Put,
            call.url@ == self.url@ + "/v1/sandboxes/"@ + encoded_sandbox_id@ + "/secrets/"@
                + encoded_name@,
            call.route@ == "PUT /v1/sandboxes/:id/secrets/:name"@,
    {
        CloudCall {
            method: Method::Put,
            url: self.url.clone().concat("/v1/sandboxes/").concat(encoded_sandbox_id).concat(
                "/secrets/",
            ).concat(encoded_name),
            route: "PUT /v1/sandboxes/:id/secrets/:name",
        }
    }

    /// The call that reads a rotation operation. The id comes percent-encoded.
    pub fn get_secret_rotation_operation(&self, encoded_id: &str) -> (call: CloudCall)
        ensures
            call.method == Method::Get,
            call.url@ == self.url@ + "/v1/secret-rotation-operations/"@ + encoded_id@,
            call.route@ == "GET /v1/secret-rotation-operations/:id"@,
    {
        CloudCall {
            method: Method::Get,
            url: self.url.clone().concat("/v1/secret-rotation-operations/").concat(encoded_id),
            route: "GET /v1/secret-rotation-operations/:id",
        }
    }
}

// Cloud backend: decisions

/// What the calls behind a listing give a client: each entry in its place, or the error of
/// the call that failed.
pub fn list(called: Result<CloudSecretMetadataList, MicrosandboxError>) -> (listed: Result<
    Vec<SecretMetadata>,
    MicrosandboxError,
>)
    ensures
        match called {
            Ok(listing) => listed matches Ok(secrets) && secrets@ == listing.data@.map_values(
                |entry: CloudSecretMetadata| neutral_metadata(entry),
            ),
            Err(error) => listed == Err::<Vec<SecretMetadata>, _>(error),
        },
        called matches Ok(listing) ==> (listed matches Ok(secrets) ==> secrets@.len()
            == listing.data@.len() && forall|i: int|
            0 <= i < secrets@.len() ==> {
                &&& (#[trigger] secrets@[i]).name == listing.data@[i].name
                &&& secrets@[i].version == listing.data@[i].version
                &&& secrets@[i].updated_at == listing.data@[i].updated_at
            }),
{
    match called {
        Ok(listing) => Ok(published(listing)),
        Err(error) => Err(error),
    }
}

fn published(listing: CloudSecretMetadataList) -> (listed: Vec<SecretMetadata>)
    ensures
        listed@ == listing.data@.map_values(|entry: CloudSecretMetadata| neutral_metadata(entry)),
{
    let mut listed: Vec<SecretMetadata> = Vec::new();
    for i in 0..listing.data.len()
        invariant
            listed@ =~= listing.data@.take(i as int).map_values(
                |entry: CloudSecretMetadata| neutral_metadata(entry),
            ),
    {
        listed.push(SecretMetadata::from(listing.data[i].clone()));
    }
    assert(listing.data@.take(listing.data@.len() as int) =~= listing.data@);
    listed
}

/// The first entry of that name in a listing.
pub open spec fn first_named(data: Seq<CloudSecretMetadata>, name: Seq<char>) -> Option<
    CloudSecretMetadata,
>
    decreases data.len(),
{
    if data.len() == 0 {
        None
    } else if data[0].name@ == name {
        Some(data[0])
    } else {
        first_named(data.skip(1), name)
    }
}

/// The first entry of a name has that name and stands before every other such entry;
/// there is none exactly where no entry has the name.
pub proof fn lemma_first_named_is_the_first(data: Seq<CloudSecretMetadata>, name: Seq<char>)
    ensures
        match first_named(data, name) {
            Some(entry) => exists|i: int|
                0 <= i < data.len() && #[trigger] data[i] == entry && entry.name@ == name && (
                forall|j: int| 0 <= j < i ==> (#[trigger] data[j]).name@ != name),
            None => forall|j: int| 0 <= j < data.len() ==> (#[trigger] data[j]).name@ != name,
        },
    decreases data.len(),
{
    if data.len() > 0 && data[0].name@ != name {
        let rest = data.skip(1);
        lemma_first_named_is_the_first(rest, name);
        assert forall|j: int| 1 <= j < data.len() implies #[trigger] data[j] == rest[j - 1] by {}
        match first_named(data, name) {
            Some(entry) => {
                let i = choose|i: int|
                    0 <= i < rest.len() && #[trigger] rest[i] == entry && entry.name@ == name && (
                    forall|j: int| 0 <= j < i ==> (#[trigger] rest[j]).name@ != name);
                assert(data[i + 1] == entry);
            },
            None => {},
        }
    }
}

/// The message that a sandbox has no secret of that name, both quoted already.
pub open spec fn quoted_no_secret_message(
    quoted_sandbox_id: Seq<char>,
    quoted_name: Seq<char>,
) -> Seq<char> {
    "sandbox "@ + quoted_sandbox_id + " has no secret "@ + quoted_name
}

/// The message that a sandbox has no secret of that name.
pub open spec fn no_secret_message(sandbox_id: Seq<char>, name: Seq<char>) -> Seq<char> {
    quoted_no_secret_message(quoted(sandbox_id), quoted(name))
}

/// The message that a sandbox has no secret of that name, from both between quotes.
pub fn missing_secret_message(quoted_sandbox_id: &str, quoted_name: &str) -> (message: String)
    ensures
        message@ == quoted_no_secret_message(quoted_sandbox_id@, quoted_name@),
{
    "sandbox ".to_owned().concat(quoted_sandbox_id).concat(" has no secret ").concat(quoted_name)
}

/// Resolve the current opaque version for an unconditional client call.
pub fn current_secret_version(
    listing: CloudSecretMetadataList,
    sandbox_id: &str,
    name: &str,
) -> (version: Result<String, MicrosandboxError>)
    ensures
        match first_named(listing.data@, name@) {
            Some(entry) => version == Ok::<String, MicrosandboxError>(entry.version),
            None => version matches Err(MicrosandboxError::Runtime(message)) && message@
                == no_secret_message(sandbox_id@, name@),
        },
{
    assert(listing.data@.skip(0) =~= listing.data@);
    for i in 0..listing.data.len()
        invariant
            first_named(listing.data@, name@) == first_named(listing.data@.skip(i as int), name@),
    {
        if same_text(listing.data[i].name.as_str(), name) {
            return Ok(listing.data[i].version.clone());
        }
        assert(listing.data@.skip(i as int).skip(1) =~= listing.data@.skip(i + 1));
    }
    Err(
        MicrosandboxError::Runtime(
            missing_secret_message(quote(sandbox_id).as_str(), quote(name).as_str()),
        ),
    )
}

/// The message of an operation that succeeded and carries no result.
pub open spec fn no_result_message(id: Seq<char>) -> Seq<char> {
    "secret rotation operation "@ + id + " succeeded without a result"@
}

/// The message of an operation that failed.
pub open spec fn failed_message(
    id: Seq<char>,
    error: Option<CloudSecretRotationError>,
) -> Seq<char> {
    let head = "secret rotation operation "@ + id + " failed"@;
    match error {
        Some(error) => head + ": "@ + error.code@ + ": "@ + error.message@,
        None => head,
    }
}

/// The message of an operation that did not finish in time.
pub open spec fn timeout_message(id: Seq<char>) -> Seq<char> {
    "secret rotation operation "@ + id
        + " did not finish within 300s; server-side work may still be continuing"@
}

/// The wait before the poll after one that waited `interval_ms`: twice as long, up to
/// the longest.
pub open spec fn next_poll_interval(interval_ms: nat) -> nat {
    if 2 * interval_ms <= SECRET_ROTATION_MAX_POLL_INTERVAL_MS {
        2 * interval_ms
    } else {
        SECRET_ROTATION_MAX_POLL_INTERVAL_MS as nat
    }
}

/// What to do with a rotation operation.
pub enum WaitStep {
    /// The operation settled, or its time is up.
    Settled(Result<CloudSecretRotationResult, MicrosandboxError>),
    /// Read the operation again.
    Poll {
        /// The operation to read.
        id: String,
        /// How long to wait first, in milliseconds.
        after_ms: u64,
        /// How long to wait before the poll after that, in milliseconds.
        next_interval_ms: u64,
    },
}

/// What to do with an operation that was read `elapsed_ms` after the wait began, where
/// the next poll would wait `interval_ms`.
pub open spec fn wait_step(
    operation: CloudSecretRotationOperation,
    interval_ms: u64,
    elapsed_ms: u64,
    step: WaitStep,
) -> bool {
    match operation.status {
        CloudSecretOperationStatus::Succeeded => match operation.result {
            Some(result) => step == WaitStep::Settled(Ok(result)),
            None => step matches WaitStep::Settled(Err(MicrosandboxError::Runtime(message)))
                && message@ == no_result_message(operation.id@),
        },
        CloudSecretOperationStatus::Failed => step matches WaitStep::Settled(
            Err(MicrosandboxError::Runtime(message)),
        ) && message@ == failed_message(operation.id@, operation.error),
        CloudSecretOperationStatus::InProgress => if elapsed_ms >= SECRET_ROTATION_TIMEOUT_MS {
            step matches WaitStep::Settled(Err(MicrosandboxError::Runtime(message))) && message@
                == timeout_message(operation.id@)
        } else {
            step matches WaitStep::Poll { id, after_ms, next_interval_ms } && id == operation.id
                && after_ms == interval_ms && next_interval_ms == next_poll_interval(
                interval_ms as nat,
            )
        },
    }
}

/// Drive an accepted rotation to its settled outcome, one read at a time.
///
/// The route answers `InProgress` whenever delivery outlives the request, so acceptance
/// alone says nothing about the committed version.
pub fn wait_for_secret_rotation(
    operation: CloudSecretRotationOperation,
    interval_ms: u64,
    elapsed_ms: u64,
) -> (step: WaitStep)
    ensures
        wait_step(operation, interval_ms, elapsed_ms, step),
{
    match operation.status {
        CloudSecretOperationStatus::Succeeded => match operation.result {
            Some(result) => WaitStep::Settled(Ok(result)),
            None => WaitStep::Settled(
                Err(
                    MicrosandboxError::Runtime(
                        "secret rotation operation ".to_owned().concat(
                            operation.id.as_str(),
                        ).concat(" succeeded without a result"),
                    ),
                ),
            ),
        },
        CloudSecretOperationStatus::Failed => {
            let head = "secret rotation operation ".to_owned().concat(
                operation.id.as_str(),
            ).concat(" failed");
            let message = match operation.error {
                Some(error) => head.concat(": ").concat(error.code.as_str()).concat(": ").concat(
                    error.message.as_str(),
                ),
                None => head,
            };
            WaitStep::Settled(Err(MicrosandboxError::Runtime(message)))
        },
        CloudSecretOperationStatus::InProgress => {
            if elapsed_ms >= SECRET_ROTATION_TIMEOUT_MS {
                WaitStep::Settled(
                    Err(
                        MicrosandboxError::Runtime(
                            "secret rotation operation ".to_owned().concat(
                                operation.id.as_str(),
                            ).concat(
                                " did not finish within 300s; server-side work may still be continuing",
                            ),
                        ),
                    ),
                )
            } else {
                WaitStep::Poll {
                    id: operation.id,
                    after_ms: interval_ms,
                    next_interval_ms: if interval_ms
                        <= SECRET_ROTATION_MAX_POLL_INTERVAL_MS / 2 {
                        2 * interval_ms
                    } else {
                        SECRET_ROTATION_MAX_POLL_INTERVAL_MS
                    },
                }
            }
        },
    }
}

/// What a wait does with an operation. One that succeeded settles with its result, one that
/// failed with an error that names it and its detail. One that is in progress is read again
/// after the given wait, and the wait after that is twice as long but at most five seconds,
/// until five minutes are over.
pub proof fn lemma_the_wait(
    operation: CloudSecretRotationOperation,
    interval_ms: u64,
    elapsed_ms: u64,
    step: WaitStep,
)
    requires
        wait_step(operation, interval_ms, elapsed_ms, step),
    ensures
        ({
            let head = "secret rotation operation "@ + operation.id@;
            match operation.status {
                CloudSecretOperationStatus::Succeeded => match operation.result {
                    Some(result) => step == WaitStep::Settled(Ok(result)),
                    None => step matches WaitStep::Settled(Err(MicrosandboxError::Runtime(text)))
                        && text@ == head + " succeeded without a result"@,
                },
                CloudSecretOperationStatus::Failed => step matches WaitStep::Settled(
                    Err(MicrosandboxError::Runtime(text)),
                ) && text@ == match operation.error {
                    Some(error) => head + " failed"@ + ": "@ + error.code@ + ": "@
                        + error.message@,
                    None => head + " failed"@,
                },
                CloudSecretOperationStatus::InProgress => if elapsed_ms < 300_000 {
                    step matches WaitStep::Poll { id, after_ms, next_interval_ms } && id@
                        == operation.id@ && after_ms == interval_ms && next_interval_ms <= 5_000
                        && next_interval_ms <= 2 * interval_ms && (next_interval_ms == 5_000
                        || next_interval_ms == 2 * interval_ms)
                } else {
                    step matches WaitStep::Settled(Err(MicrosandboxError::Runtime(text)))
                        && text@ == head
                        + " did not finish within 300s; server-side work may still be continuing"@
                },
            }
        }),
{
}

/// The message about a secret that is not there names the sandbox and the secret, each
/// between quotes.
pub proof fn lemma_the_missing_secret_message(sandbox_id: Seq<char>, name: Seq<char>)
    ensures
        no_secret_message(sandbox_id, name) == "sandbox "@ + quoted(sandbox_id)
            + " has no secret "@ + quoted(name),
{
}

} // verus!
