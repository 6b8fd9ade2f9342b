//! The secret-substitution configuration of a sandbox.

use vstd::prelude::*;

use crate::secret::zeroed::SecretText;

verus! {

/// Host allowlist pattern.
#[derive(Debug, Clone)]
pub enum HostPattern {
    /// Exact hostname match.
    Exact(String),
    /// Wildcard match, such as `*.openai.com`.
    Wildcard(String),
    /// Any host. Dangerous: the secret can be exfiltrated.
    Any,
}

/// Action on a secret violation.
#[derive(Debug, Clone, Copy, PartialEq, Eq, Structural)]
pub enum SecretViolationAction {
    /// Block the request silently.
    Block,
    /// Block and log.
    BlockAndLog,
    /// Block and terminate the sandbox.
    BlockAndTerminate,
}

/// Host-side source of a secret.
#[derive(Debug, Clone)]
pub enum SecretSource {
    /// Read from a host environment variable at apply time.
    Env {
        /// Host environment variable name.
        var: String,
    },
    /// Read from a host-side secret store reference.
    Store {
        /// Store-specific secret reference.
        reference: String,
    },
}

/// Where a secret may be injected.
#[derive(Debug, Clone, Copy, PartialEq, Eq, Structural)]
pub struct SecretSubstitution {
    /// In HTTP headers.
    pub headers: bool,
    /// In HTTP basic authentication.
    pub basic_auth: bool,
    /// In query parameters.
    pub query_params: bool,
    /// In request bodies.
    pub body: bool,
}

/// A single secret.
#[derive(Debug, Clone)]
pub struct SecretEntry {
    /// Environment variable name exposed to the sandbox.
    pub env_var: String,
    /// The secret value; empty when `source` carries a reference instead.
    pub value: SecretText,
    /// Host-side source resolved into `value` at spawn time.
    pub source: Option<SecretSource>,
    /// Placeholder the sandbox sees instead of the real value.
    pub placeholder: String,
    /// Hosts allowed to receive this secret.
    pub allowed_hosts: Vec<HostPattern>,
    /// Where the secret may be injected.
    pub substitution: SecretSubstitution,
    /// Hosts allowed to receive the placeholder unchanged.
    pub passthrough_hosts: Vec<HostPattern>,
    /// Per-secret violation action overriding the config default.
    pub violation_action: Option<SecretViolationAction>,
    /// Require verified TLS identity before substituting.
    pub require_tls_identity: bool,
}

/// Secret-substitution config.
#[derive(Debug, Clone)]
pub struct SecretsConfig {
    /// Secrets to inject.
    pub secrets: Vec<SecretEntry>,
    /// Default placeholder passthrough hosts.
    pub passthrough_hosts: Option<Vec<HostPattern>>,
    /// Default action when a placeholder leaks to a disallowed host.
    pub violation_action: SecretViolationAction,
}

} // verus!
