//! Rotation contracts: the backend-neutral ones, and their twins on the wire of
//! the cloud API.

use vstd::prelude::*;
use vstd::std_specs::convert::FromSpec;

use crate::text::{quote, quoted};

verus! {

// Backend-neutral contracts

/// A point in time as a backend publishes it: seconds since the epoch, and
/// nanoseconds within the second.
#[derive(Debug, Clone, Copy, PartialEq, Eq, Structural)]
pub struct Timestamp {
    /// Seconds since the epoch.
    pub secs: i64,
    /// Nanoseconds within the second.
    pub nanos: u32,
}

/// One secret's metadata, as a backend publishes it.
#[derive(Debug, PartialEq, Eq)]
pub struct SecretMetadata {
    /// The configured env var name, and the only identifier this exposes.
    pub name: String,
    /// Opaque: no ordering, nothing to decode, equality only. Quote it back on the
    /// next conditional rotation.
    pub version: String,
    /// The backend's own timestamp, never a local clock.
    pub updated_at: Timestamp,
}

/// A request to replace one secret's material.
///
/// There is no `Debug`: it would print the value.
pub struct SecretRotationRequest {
    /// New plaintext, at most 64 KiB of UTF-8 and never empty.
    pub value: String,
    /// Absent means no precondition; what that licenses is the backend's call.
    pub version: Option<String>,
}

/// How far a committed version got toward the running runtime.
#[derive(Debug, Clone, Copy, PartialEq, Eq, Structural)]
pub enum SecretDisposition {
    /// The authoritative runtime acknowledged it. Nothing to do.
    Applied,
    /// Durable, but not delivered live. A future start reads it.
    OnNextStart,
    /// Durable, but the current runtime could not be confirmed.
    Unconfirmed,
}

/// The settled outcome of a rotation.
#[derive(Debug, PartialEq, Eq)]
pub struct SecretRotationResult {
    /// The configured env var name this result reports on.
    pub name: String,
    /// The committed version, usable as the next precondition without a further
    /// metadata read.
    pub version: String,
    /// How far the new value reached: stored, or confirmed live.
    pub disposition: SecretDisposition,
}

// Wire contracts

/// One secret's metadata, as the listing endpoint publishes it.
#[derive(Debug)]
pub struct CloudSecretMetadata {
    /// The configured env var name, and the only identifier the contract exposes.
    pub name: String,
    /// Opaque current version token. Send it back as the `version` field of the
    /// next conditional update.
    pub version: String,
    /// The store's own timestamp for this version, never a local clock.
    pub updated_at: Timestamp,
}

/// Envelope for the metadata list.
#[derive(Debug)]
pub struct CloudSecretMetadataList {
    /// One entry per configured secret, ordered by name.
    pub data: Vec<CloudSecretMetadata>,
}

/// The rotation request body.
///
/// There is no `Debug`: secret material must never reach a log.
pub struct CloudSecretRotationRequest {
    /// New plaintext, at most 64 KiB of UTF-8 and never empty.
    pub value: String,
    /// Opaque version token the write is conditional on. Absent means no
    /// precondition was supplied, which the server refuses.
    pub version: Option<String>,
}

/// Public status of a rotation operation: whether it is finished.
#[derive(Debug, Clone, Copy, PartialEq, Eq, Structural)]
pub enum CloudSecretOperationStatus {
    /// Still active; carries neither result nor error.
    InProgress,
    /// Durably committed; carries only the result.
    Succeeded,
    /// Could not be established as successful; carries only a sanitized error.
    Failed,
}

/// How far the committed version got toward the running VM.
#[derive(Debug, Clone, Copy, PartialEq, Eq, Structural)]
pub enum CloudSecretDisposition {
    /// The authoritative runtime acknowledged it. Nothing to do.
    Applied,
    /// Durable, but not delivered live. A future start reads it.
    OnNextStart,
    /// Durable, but the current runtime could not be confirmed.
    Unconfirmed,
}

/// The result of a succeeded rotation.
#[derive(Debug)]
pub struct CloudSecretRotationResult {
    /// Env var name that was rotated.
    pub name: String,
    /// Opaque token for the version the store committed.
    pub version: String,
    /// How far the new version got toward the running runtime.
    pub disposition: CloudSecretDisposition,
}

/// Sanitized failure detail, chosen from a closed set.
#[derive(Debug)]
pub struct CloudSecretRotationError {
    /// Stable machine-readable code.
    pub code: String,
    /// Fixed human-readable text for that code.
    pub message: String,
}

/// The operation envelope.
#[derive(Debug)]
pub struct CloudSecretRotationOperation {
    /// Server-generated operation id, issued only after acceptance.
    pub id: String,
    /// Current operation status.
    pub status: CloudSecretOperationStatus,
    /// Present only when `status` is `Succeeded`.
    pub result: Option<CloudSecretRotationResult>,
    /// Present only when `status` is `Failed`.
    pub error: Option<CloudSecretRotationError>,
}

// Copies

impl Clone for SecretMetadata {
    fn clone(&self) -> (copy: Self)
        ensures
            copy == *self,
    {
        SecretMetadata {
            name: self.name.clone(),
            version: self.version.clone(),
            updated_at: self.updated_at,
        }
    }
}

impl Clone for SecretRotationRequest {
    fn clone(&self) -> (copy: Self)
        ensures
            copy == *self,
    {
        SecretRotationRequest {
            value: self.value.clone(),
            version: match &self.version {
                Some(version) => Some(version.clone()),
                None => None,
            },
        }
    }
}

impl Clone for SecretRotationResult {
    fn clone(&self) -> (copy: Self)
        ensures
            copy == *self,
    {
        SecretRotationResult {
            name: self.name.clone(),
            version: self.version.clone(),
            disposition: self.disposition,
        }
    }
}

impl Clone for CloudSecretMetadata {
    fn clone(&self) -> (copy: Self)
        ensures
            copy == *self,
    {
        CloudSecretMetadata {
            name: self.name.clone(),
            version: self.version.clone(),
            updated_at: self.updated_at,
        }
    }
}

impl Clone for CloudSecretMetadataList {
    fn clone(&self) -> (copy: Self)
        ensures
            copy.data@ == self.data@,
    {
        let mut data: Vec<CloudSecretMetadata> = Vec::new();
        for i in 0..self.data.len()
            invariant
                data@ =~= self.data@.take(i as int),
        {
            data.push(self.data[i].clone());
        }
        CloudSecretMetadataList { data }
    }
}

impl Clone for CloudSecretRotationRequest {
    fn clone(&self) -> (copy: Self)
        ensures
            copy == *self,
    {
        CloudSecretRotationRequest {
            value: self.value.clone(),
            version: match &self.version {
                Some(version) => Some(version.clone()),
                None => None,
            },
        }
    }
}

impl Clone for CloudSecretRotationResult {
    fn clone(&self) -> (copy: Self)
        ensures
            copy == *self,
    {
        CloudSecretRotationResult {
            name: self.name.clone(),
            version: self.version.clone(),
            disposition: self.disposition,
        }
    }
}

impl Clone for CloudSecretRotationError {
    fn clone(&self) -> (copy: Self)
        ensures
            copy == *self,
    {
        CloudSecretRotationError { code: self.code.clone(), message: self.message.clone() }
    }
}

impl Clone for CloudSecretRotationOperation {
    fn clone(&self) -> (copy: Self)
        ensures
            copy == *self,
    {
        CloudSecretRotationOperation {
            id: self.id.clone(),
            status: self.status,
            result: match &self.result {
                Some(result) => Some(result.clone()),
                None => None,
            },
            error: match &self.error {
                Some(error) => Some(error.clone()),
                None => None,
            },
        }
    }
}

// Conversions

impl From<CloudSecretMetadata> for SecretMetadata {
    fn from(metadata: CloudSecretMetadata) -> (neutral: Self)
        ensures
            neutral.name == metadata.name,
            neutral.version == metadata.version,
            neutral.updated_at == metadata.updated_at,
    {
        SecretMetadata {
            name: metadata.name,
            version: metadata.version,
            updated_at: metadata.updated_at,
        }
    }
}

impl vstd::std_specs::convert::FromSpecImpl<CloudSecretMetadata> for SecretMetadata {
    open spec fn obeys_from_spec() -> bool {
        true
    }

    open spec fn from_spec(metadata: CloudSecretMetadata) -> SecretMetadata {
        neutral_metadata(metadata)
    }
}

/// What listed metadata says to a client.
pub open spec fn neutral_metadata(metadata: CloudSecretMetadata) -> SecretMetadata {
    SecretMetadata {
        name: metadata.name,
        version: metadata.version,
        updated_at: metadata.updated_at,
    }
}

impl From<SecretRotationRequest> for CloudSecretRotationRequest {
    fn from(request: SecretRotationRequest) -> (wire: Self)
        ensures
            wire.value == request.value,
            wire.version == request.version,
    {
        CloudSecretRotationRequest { value: request.value, version: request.version }
    }
}

impl vstd::std_specs::convert::FromSpecImpl<SecretRotationRequest> for CloudSecretRotationRequest {
    open spec fn obeys_from_spec() -> bool {
        true
    }

    open spec fn from_spec(request: SecretRotationRequest) -> CloudSecretRotationRequest {
        CloudSecretRotationRequest { value: request.value, version: request.version }
    }
}

/// What a disposition on the wire says to a client.
pub open spec fn neutral_disposition(disposition: CloudSecretDisposition) -> SecretDisposition {
    match disposition {
        CloudSecretDisposition::Applied => SecretDisposition::Applied,
        CloudSecretDisposition::OnNextStart => SecretDisposition::OnNextStart,
        CloudSecretDisposition::Unconfirmed => SecretDisposition::Unconfirmed,
    }
}

impl From<CloudSecretDisposition> for SecretDisposition {
    fn from(disposition: CloudSecretDisposition) -> (neutral: Self) {
        match disposition {
            CloudSecretDisposition::Applied => Self::Applied,
            CloudSecretDisposition::OnNextStart => Self::OnNextStart,
            CloudSecretDisposition::Unconfirmed => Self::Unconfirmed,
        }
    }
}

impl vstd::std_specs::convert::FromSpecImpl<CloudSecretDisposition> for SecretDisposition {
    open spec fn obeys_from_spec() -> bool {
        true
    }

    open spec fn from_spec(disposition: CloudSecretDisposition) -> SecretDisposition {
        neutral_disposition(disposition)
    }
}

impl From<CloudSecretRotationResult> for SecretRotationResult {
    fn from(result: CloudSecretRotationResult) -> (neutral: Self)
        ensures
            neutral.name == result.name,
            neutral.version == result.version,
            neutral.disposition is Applied <==> result.disposition is Applied,
            neutral.disposition is OnNextStart <==> result.disposition is OnNextStart,
            neutral.disposition is Unconfirmed <==> result.disposition is Unconfirmed,
    {
        SecretRotationResult {
            name: result.name,
            version: result.version,
            disposition: SecretDisposition::from(result.disposition),
        }
    }
}

impl vstd::std_specs::convert::FromSpecImpl<CloudSecretRotationResult> for SecretRotationResult {
    open spec fn obeys_from_spec() -> bool {
        true
    }

    open spec fn from_spec(result: CloudSecretRotationResult) -> SecretRotationResult {
        SecretRotationResult {
            name: result.name,
            version: result.version,
            disposition: neutral_disposition(result.disposition),
        }
    }
}

// Rendering

/// The characters of an optional text.
pub open spec fn optional_text(text: Option<String>) -> Option<Seq<char>> {
    match text {
        Some(text) => Some(text@),
        None => None,
    }
}

/// How an optional text is printed that is quoted already.
pub open spec fn rendered_option(quoted_text: Option<Seq<char>>) -> Seq<char> {
    match quoted_text {
        Some(text) => "Some("@ + text + ")"@,
        None => "None"@,
    }
}

/// How a request is printed: its type and its precondition, which is quoted already. The
/// value is not printed, so it plays no part here.
pub open spec fn rendered_request(name: Seq<char>, quoted_version: Option<Seq<char>>) -> Seq<char> {
    name + " { value: \"[REDACTED]\", version: "@ + rendered_option(quoted_version) + " }"@
}

/// What an optional text is between quotes.
pub open spec fn quoted_option(text: Option<Seq<char>>) -> Option<Seq<char>> {
    match text {
        Some(text) => Some(quoted(text)),
        None => None,
    }
}

/// A request as text, from the name of its type and its precondition between quotes.
pub fn render_request(name: &str, quoted_version: Option<&str>) -> (rendered: String)
    ensures
        rendered@ == rendered_request(
            name@,
            match quoted_version {
                Some(version) => Some(version@),
                None => None,
            },
        ),
{
    let version_text = match quoted_version {
        Some(text) => "Some(".to_owned().concat(text).concat(")"),
        None => "None".to_owned(),
    };
    name.to_owned().concat(" { value: \"[REDACTED]\", version: ").concat(
        version_text.as_str(),
    ).concat(" }")
}

fn render_with_version(name: &str, version: &Option<String>) -> (rendered: String)
    ensures
        rendered@ == rendered_request(name@, quoted_option(optional_text(*version))),
{
    match version {
        Some(text) => render_request(name, Some(quote(text.as_str()).as_str())),
        None => render_request(name, None),
    }
}

impl SecretRotationRequest {
    /// How the request is printed.
    pub open spec fn rendered(self) -> Seq<char> {
        rendered_request("SecretRotationRequest"@, quoted_option(optional_text(self.version)))
    }

    /// The request as text, with the value redacted.
    pub fn debug_text(&self) -> (text: String)
        ensures
            text@ == self.rendered(),
    {
        render_with_version("SecretRotationRequest", &self.version)
    }
}

impl CloudSecretRotationRequest {
    /// How the request is printed.
    pub open spec fn rendered(self) -> Seq<char> {
        rendered_request("CloudSecretRotationRequest"@, quoted_option(optional_text(self.version)))
    }

    /// The request as text, with the value redacted.
    pub fn debug_text(&self) -> (text: String)
        ensures
            text@ == self.rendered(),
    {
        render_with_version("CloudSecretRotationRequest", &self.version)
    }
}

// Laws

/// Secret material never reaches a rendering: requests that differ in their values
/// alone print the same, on either side of the wire.
pub proof fn lemma_rendering_hides_the_value(
    a: SecretRotationRequest,
    b: SecretRotationRequest,
    wire_a: CloudSecretRotationRequest,
    wire_b: CloudSecretRotationRequest,
)
    requires
        optional_text(a.version) == optional_text(b.version),
        optional_text(wire_a.version) == optional_text(wire_b.version),
    ensures
        a.rendered() == b.rendered(),
        wire_a.rendered() == wire_b.rendered(),
{
}

/// Each disposition on the wire lands on its own neutral one, which says the same.
pub proof fn lemma_dispositions_stay_apart(a: CloudSecretDisposition, b: CloudSecretDisposition)
    ensures
        neutral_disposition(a) == neutral_disposition(b) <==> a == b,
        neutral_disposition(a) is Applied <==> a is Applied,
        neutral_disposition(a) is OnNextStart <==> a is OnNextStart,
        neutral_disposition(a) is Unconfirmed <==> a is Unconfirmed,
{
}

/// A projection keeps each field in its place: the token of metadata, the precondition and
/// the value of a request, the token and the disposition of a result.
pub proof fn lemma_projections_keep_each_field(
    metadata: CloudSecretMetadata,
    request: SecretRotationRequest,
    result: CloudSecretRotationResult,
)
    ensures
        ({
            let neutral = <SecretMetadata as FromSpec<CloudSecretMetadata>>::from_spec(metadata);
            &&& neutral.name@ == metadata.name@
            &&& neutral.version@ == metadata.version@
            &&& neutral.updated_at.secs == metadata.updated_at.secs
            &&& neutral.updated_at.nanos == metadata.updated_at.nanos
        }),
        ({
            let wire = <CloudSecretRotationRequest as FromSpec<SecretRotationRequest>>::from_spec(
                request,
            );
            &&& wire.value@ == request.value@
            &&& optional_text(wire.version) == optional_text(request.version)
        }),
        ({
            let neutral = <SecretRotationResult as FromSpec<CloudSecretRotationResult>>::from_spec(
                result,
            );
            &&& neutral.name@ == result.name@
            &&& neutral.version@ == result.version@
            &&& neutral.disposition is Applied <==> result.disposition is Applied
            &&& neutral.disposition is OnNextStart <==> result.disposition is OnNextStart
            &&& neutral.disposition is Unconfirmed <==> result.disposition is Unconfirmed
        }),
{
}

/// A request is printed with its precondition between quotes, or without one, and with the
/// value replaced.
pub proof fn lemma_renderings(request: SecretRotationRequest, wire: CloudSecretRotationRequest)
    ensures
        request.version is None ==> request.rendered()
            == "SecretRotationRequest"@ + " { value: \"[REDACTED]\", version: "@ + "None"@ + " }"@,
        request.version matches Some(version) ==> request.rendered() == "SecretRotationRequest"@
            + " { value: \"[REDACTED]\", version: "@ + ("Some("@ + quoted(version@) + ")"@) + " }"@,
        wire.version is None ==> wire.rendered() == "CloudSecretRotationRequest"@
            + " { value: \"[REDACTED]\", version: "@ + "None"@ + " }"@,
        wire.version matches Some(version) ==> wire.rendered() == "CloudSecretRotationRequest"@
            + " { value: \"[REDACTED]\", version: "@ + ("Some("@ + quoted(version@) + ")"@) + " }"@,
{
}

} // verus!
