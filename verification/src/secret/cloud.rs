//! Secret-substitution wire contracts of the cloud API, and their conversions.

use vstd::prelude::*;

use crate::secret::domain::{
    HostPattern, SecretEntry, SecretSource, SecretSubstitution, SecretViolationAction,
    SecretsConfig,
};
use crate::secret::zeroed::{material, SecretText};

verus! {

/// Secret-substitution config for the cloud API. Twin of [`SecretsConfig`].
#[derive(Debug, Clone)]
pub struct CloudSecretsConfig {
    /// Secrets to inject.
    pub entries: Vec<CloudSecretEntry>,
    /// Default placeholder passthrough hosts, including for secrets added later. A
    /// per-secret violation action overrides this default.
    pub passthrough_hosts: Option<Vec<CloudHostPattern>>,
    /// Default action when a placeholder leaks to a disallowed host.
    pub violation_action: CloudViolationAction,
}

/// A single cloud secret entry. Twin of [`SecretEntry`].
#[derive(Debug, Clone)]
pub struct CloudSecretEntry {
    /// Environment variable name exposed to the sandbox.
    pub env_var: String,
    /// The secret value; empty when `source` carries a reference instead.
    pub value: String,
    /// Host-side source resolved into `value` at spawn time.
    pub source: Option<CloudSecretSource>,
    /// Explicit placeholder the sandbox sees instead of the real value.
    pub placeholder: String,
    /// Hosts allowed to receive this secret.
    pub allowed_hosts: Vec<CloudHostPattern>,
    /// Where the secret may be injected.
    pub substitution: SecretSubstitution,
    /// Hosts allowed to receive the placeholder unchanged.
    pub passthrough_hosts: Vec<CloudHostPattern>,
    /// Per-secret violation action overriding the config default.
    pub violation_action: Option<CloudViolationAction>,
    /// Require verified TLS identity before substituting (default: true).
    pub require_tls_identity: bool,
}

/// Host-side source for a cloud secret. Twin of [`SecretSource`].
#[derive(Debug, Clone)]
pub enum CloudSecretSource {
    /// Read from a host environment variable at apply time.
    Env {
        /// Host environment variable name.
        var: String,
    },
    /// Read from a host-side secret store reference.
    Store {
        /// Store-specific secret reference.
        reference: String,
    },
}

/// Host allowlist pattern for cloud secrets. Twin of [`HostPattern`], with the
/// scalar variants normalized to `{ value }` for a uniform union.
#[derive(Debug, Clone)]
pub enum CloudHostPattern {
    /// Exact hostname match.
    Exact {
        /// Hostname to match exactly.
        value: String,
    },
    /// Wildcard match, such as `*.openai.com`.
    Wildcard {
        /// Wildcard pattern.
        value: String,
    },
    /// Any host. Dangerous: the secret can be exfiltrated.
    Any,
}

/// Action on a cloud secret violation. Twin of [`SecretViolationAction`].
#[derive(Debug, Clone, Copy, PartialEq, Eq, Structural)]
pub enum CloudViolationAction {
    /// Block the request silently.
    Block,
    /// Block and log (default).
    BlockAndLog,
    /// Block and terminate the sandbox.
    BlockAndTerminate,
}

impl Default for CloudViolationAction {
    fn default() -> (action: Self)
        ensures
            action == CloudViolationAction::BlockAndLog,
    {
        CloudViolationAction::BlockAndLog
    }
}

impl Default for CloudSecretsConfig {
    fn default() -> (config: Self)
        ensures
            config.entries@.len() == 0,
            config.passthrough_hosts is None,
            config.violation_action == CloudViolationAction::BlockAndLog,
    {
        CloudSecretsConfig {
            entries: Vec::new(),
            passthrough_hosts: None,
            violation_action: CloudViolationAction::default(),
        }
    }
}

/// Whether an entry requires verified TLS identity, by what it says of it: it does unless
/// it says otherwise.
pub fn tls_identity_required(given: Option<bool>) -> (required: bool)
    ensures
        required == (given != Some(false)),
{
    match given {
        Some(required) => required,
        None => true,
    }
}

// Host patterns

/// The wire form of a host pattern.
pub open spec fn host_to_wire(pattern: HostPattern) -> CloudHostPattern {
    match pattern {
        HostPattern::Exact(value) => CloudHostPattern::Exact { value },
        HostPattern::Wildcard(value) => CloudHostPattern::Wildcard { value },
        HostPattern::Any => CloudHostPattern::Any,
    }
}

/// The host pattern of a wire form.
pub open spec fn host_from_wire(pattern: CloudHostPattern) -> HostPattern {
    match pattern {
        CloudHostPattern::Exact { value } => HostPattern::Exact(value),
        CloudHostPattern::Wildcard { value } => HostPattern::Wildcard(value),
        CloudHostPattern::Any => HostPattern::Any,
    }
}

impl From<HostPattern> for CloudHostPattern {
    fn from(pattern: HostPattern) -> (wire: Self) {
        match pattern {
            HostPattern::Exact(value) => Self::Exact { value },
            HostPattern::Wildcard(value) => Self::Wildcard { value },
            HostPattern::Any => Self::Any,
        }
    }
}

impl vstd::std_specs::convert::FromSpecImpl<HostPattern> for CloudHostPattern {
    open spec fn obeys_from_spec() -> bool {
        true
    }

    open spec fn from_spec(pattern: HostPattern) -> CloudHostPattern {
        host_to_wire(pattern)
    }
}

impl From<CloudHostPattern> for HostPattern {
    fn from(pattern: CloudHostPattern) -> (host: Self) {
        match pattern {
            CloudHostPattern::Exact { value } => Self::Exact(value),
            CloudHostPattern::Wildcard { value } => Self::Wildcard(value),
            CloudHostPattern::Any => Self::Any,
        }
    }
}

impl vstd::std_specs::convert::FromSpecImpl<CloudHostPattern> for HostPattern {
    open spec fn obeys_from_spec() -> bool {
        true
    }

    open spec fn from_spec(pattern: CloudHostPattern) -> HostPattern {
        host_from_wire(pattern)
    }
}

/// The wire form of a list of host patterns, in the same order.
pub open spec fn hosts_to_wire(hosts: Seq<HostPattern>) -> Seq<CloudHostPattern> {
    hosts.map_values(|pattern: HostPattern| host_to_wire(pattern))
}

/// The host patterns of a wire form, in the same order.
pub open spec fn hosts_from_wire(hosts: Seq<CloudHostPattern>) -> Seq<HostPattern> {
    hosts.map_values(|pattern: CloudHostPattern| host_from_wire(pattern))
}

fn hosts_into_wire(hosts: Vec<HostPattern>) -> (wire: Vec<CloudHostPattern>)
    ensures
        wire@ == hosts_to_wire(hosts@),
{
    let mut wire: Vec<CloudHostPattern> = Vec::new();
    for pattern in it: hosts
        invariant
            it.seq() == hosts@,
            wire@ =~= hosts_to_wire(hosts@.take(it.index())),
    {
        wire.push(CloudHostPattern::from(pattern));
    }
    assert(hosts@.take(hosts@.len() as int) =~= hosts@);
    wire
}

fn hosts_out_of_wire(wire: Vec<CloudHostPattern>) -> (hosts: Vec<HostPattern>)
    ensures
        hosts@ == hosts_from_wire(wire@),
        hosts_to_wire(hosts@) == wire@,
{
    let mut hosts: Vec<HostPattern> = Vec::new();
    for pattern in it: wire
        invariant
            it.seq() == wire@,
            hosts@ =~= hosts_from_wire(wire@.take(it.index())),
    {
        hosts.push(HostPattern::from(pattern));
    }
    assert(wire@.take(wire@.len() as int) =~= wire@);
    assert(hosts_to_wire(hosts@) =~= wire@);
    hosts
}

// Violation actions

/// The wire form of a violation action.
pub open spec fn action_to_wire(action: SecretViolationAction) -> CloudViolationAction {
    match action {
        SecretViolationAction::Block => CloudViolationAction::Block,
        SecretViolationAction::BlockAndLog => CloudViolationAction::BlockAndLog,
        SecretViolationAction::BlockAndTerminate => CloudViolationAction::BlockAndTerminate,
    }
}

/// The violation action of a wire form.
pub open spec fn action_from_wire(action: CloudViolationAction) -> SecretViolationAction {
    match action {
        CloudViolationAction::Block => SecretViolationAction::Block,
        CloudViolationAction::BlockAndLog => SecretViolationAction::BlockAndLog,
        CloudViolationAction::BlockAndTerminate => SecretViolationAction::BlockAndTerminate,
    }
}

impl From<SecretViolationAction> for CloudViolationAction {
    fn from(action: SecretViolationAction) -> (wire: Self) {
        match action {
            SecretViolationAction::Block => Self::Block,
            SecretViolationAction::BlockAndLog => Self::BlockAndLog,
            SecretViolationAction::BlockAndTerminate => Self::BlockAndTerminate,
        }
    }
}

impl vstd::std_specs::convert::FromSpecImpl<SecretViolationAction> for CloudViolationAction {
    open spec fn obeys_from_spec() -> bool {
        true
    }

    open spec fn from_spec(action: SecretViolationAction) -> CloudViolationAction {
        action_to_wire(action)
    }
}

impl From<CloudViolationAction> for SecretViolationAction {
    fn from(action: CloudViolationAction) -> (domain: Self) {
        match action {
            CloudViolationAction::Block => Self::Block,
            CloudViolationAction::BlockAndLog => Self::BlockAndLog,
            CloudViolationAction::BlockAndTerminate => Self::BlockAndTerminate,
        }
    }
}

impl vstd::std_specs::convert::FromSpecImpl<CloudViolationAction> for SecretViolationAction {
    open spec fn obeys_from_spec() -> bool {
        true
    }

    open spec fn from_spec(action: CloudViolationAction) -> SecretViolationAction {
        action_from_wire(action)
    }
}

// Sources

/// The wire form of a secret's source.
pub open spec fn source_to_wire(source: SecretSource) -> CloudSecretSource {
    match source {
        SecretSource::Env { var } => CloudSecretSource::Env { var },
        SecretSource::Store { reference } => CloudSecretSource::Store { reference },
    }
}

/// The secret's source of a wire form.
pub open spec fn source_from_wire(source: CloudSecretSource) -> SecretSource {
    match source {
        CloudSecretSource::Env { var } => SecretSource::Env { var },
        CloudSecretSource::Store { reference } => SecretSource::Store { reference },
    }
}

impl From<SecretSource> for CloudSecretSource {
    fn from(source: SecretSource) -> (wire: Self) {
        match source {
            SecretSource::Env { var } => Self::Env { var },
            SecretSource::Store { reference } => Self::Store { reference },
        }
    }
}

impl vstd::std_specs::convert::FromSpecImpl<SecretSource> for CloudSecretSource {
    open spec fn obeys_from_spec() -> bool {
        true
    }

    open spec fn from_spec(source: SecretSource) -> CloudSecretSource {
        source_to_wire(source)
    }
}

impl From<CloudSecretSource> for SecretSource {
    fn from(source: CloudSecretSource) -> (domain: Self) {
        match source {
            CloudSecretSource::Env { var } => Self::Env { var },
            CloudSecretSource::Store { reference } => Self::Store { reference },
        }
    }
}

impl vstd::std_specs::convert::FromSpecImpl<CloudSecretSource> for SecretSource {
    open spec fn obeys_from_spec() -> bool {
        true
    }

    open spec fn from_spec(source: CloudSecretSource) -> SecretSource {
        source_from_wire(source)
    }
}

// Entries and configs

/// Whether a secret and a wire entry say the same, field by field.
pub open spec fn same_entry(entry: SecretEntry, wire: CloudSecretEntry) -> bool {
    &&& wire.env_var == entry.env_var
    &&& wire.value@ == material(entry.value)
    &&& wire.source == match entry.source {
        Some(source) => Some(source_to_wire(source)),
        None => None,
    }
    &&& wire.placeholder == entry.placeholder
    &&& wire.allowed_hosts@ == hosts_to_wire(entry.allowed_hosts@)
    &&& wire.substitution == entry.substitution
    &&& wire.passthrough_hosts@ == hosts_to_wire(entry.passthrough_hosts@)
    &&& wire.violation_action == match entry.violation_action {
        Some(action) => Some(action_to_wire(action)),
        None => None,
    }
    &&& wire.require_tls_identity == entry.require_tls_identity
}

/// Whether two lists of secrets and wire entries say the same, one by one.
pub open spec fn same_entries(entries: Seq<SecretEntry>, wire: Seq<CloudSecretEntry>) -> bool {
    &&& entries.len() == wire.len()
    &&& forall|i: int|
        #![trigger entries[i]]
        #![trigger wire[i]]
        0 <= i < entries.len() ==> same_entry(entries[i], wire[i])
}

/// Whether a config and a wire config say the same.
pub open spec fn same_config(config: SecretsConfig, wire: CloudSecretsConfig) -> bool {
    &&& same_entries(config.secrets@, wire.entries@)
    &&& match (config.passthrough_hosts, wire.passthrough_hosts) {
        (Some(hosts), Some(wire_hosts)) => wire_hosts@ == hosts_to_wire(hosts@),
        (None, None) => true,
        _ => false,
    }
    &&& wire.violation_action == action_to_wire(config.violation_action)
}

impl From<SecretEntry> for CloudSecretEntry {
    fn from(entry: SecretEntry) -> (wire: Self)
        ensures
            same_entry(entry, wire),
            wire.substitution.headers == entry.substitution.headers,
            wire.substitution.basic_auth == entry.substitution.basic_auth,
            wire.substitution.query_params == entry.substitution.query_params,
            wire.substitution.body == entry.substitution.body,
    {
        CloudSecretEntry {
            env_var: entry.env_var,
            value: entry.value.expose().to_owned(),
            source: match entry.source {
                Some(source) => Some(CloudSecretSource::from(source)),
                None => None,
            },
            placeholder: entry.placeholder,
            allowed_hosts: hosts_into_wire(entry.allowed_hosts),
            substitution: entry.substitution,
            passthrough_hosts: hosts_into_wire(entry.passthrough_hosts),
            violation_action: match entry.violation_action {
                Some(action) => Some(CloudViolationAction::from(action)),
                None => None,
            },
            require_tls_identity: entry.require_tls_identity,
        }
    }
}

impl vstd::std_specs::convert::FromSpecImpl<SecretEntry> for CloudSecretEntry {
    open spec fn obeys_from_spec() -> bool {
        false
    }

    open spec fn from_spec(entry: SecretEntry) -> CloudSecretEntry {
        choose|wire: CloudSecretEntry| same_entry(entry, wire)
    }
}

impl From<CloudSecretEntry> for SecretEntry {
    fn from(wire: CloudSecretEntry) -> (entry: Self)
        ensures
            same_entry(entry, wire),
            wire.substitution.headers == entry.substitution.headers,
            wire.substitution.basic_auth == entry.substitution.basic_auth,
            wire.substitution.query_params == entry.substitution.query_params,
            wire.substitution.body == entry.substitution.body,
    {
        SecretEntry {
            env_var: wire.env_var,
            value: SecretText::new(wire.value),
            source: match wire.source {
                Some(source) => Some(SecretSource::from(source)),
                None => None,
            },
            placeholder: wire.placeholder,
            allowed_hosts: hosts_out_of_wire(wire.allowed_hosts),
            substitution: wire.substitution,
            passthrough_hosts: hosts_out_of_wire(wire.passthrough_hosts),
            violation_action: match wire.violation_action {
                Some(action) => Some(SecretViolationAction::from(action)),
                None => None,
            },
            require_tls_identity: wire.require_tls_identity,
        }
    }
}

impl vstd::std_specs::convert::FromSpecImpl<CloudSecretEntry> for SecretEntry {
    open spec fn obeys_from_spec() -> bool {
        false
    }

    open spec fn from_spec(wire: CloudSecretEntry) -> SecretEntry {
        choose|entry: SecretEntry| same_entry(entry, wire)
    }
}

fn entries_into_wire(entries: Vec<SecretEntry>) -> (wire: Vec<CloudSecretEntry>)
    ensures
        same_entries(entries@, wire@),
{
    let mut wire: Vec<CloudSecretEntry> = Vec::new();
    for entry in it: entries
        invariant
            it.seq() == entries@,
            same_entries(entries@.take(it.index()), wire@),
    {
        wire.push(CloudSecretEntry::from(entry));
        assert forall|i: int| 0 <= i <= it.index() implies same_entry(
            #[trigger] entries@.take(it.index() + 1)[i],
            wire@[i],
        ) by {
            if i < it.index() {
                assert(entries@.take(it.index())[i] == entries@[i]);
            }
        }
    }
    assert(entries@.take(entries@.len() as int) =~= entries@);
    wire
}

fn entries_out_of_wire(wire: Vec<CloudSecretEntry>) -> (entries: Vec<SecretEntry>)
    ensures
        same_entries(entries@, wire@),
{
    let mut entries: Vec<SecretEntry> = Vec::new();
    for entry in it: wire
        invariant
            it.seq() == wire@,
            same_entries(entries@, wire@.take(it.index())),
    {
        entries.push(SecretEntry::from(entry));
        assert forall|i: int| 0 <= i <= it.index() implies same_entry(
            entries@[i],
            #[trigger] wire@.take(it.index() + 1)[i],
        ) by {
            if i < it.index() {
                assert(wire@.take(it.index())[i] == wire@[i]);
            }
        }
    }
    assert(wire@.take(wire@.len() as int) =~= wire@);
    entries
}

impl From<SecretsConfig> for CloudSecretsConfig {
    fn from(config: SecretsConfig) -> (wire: Self)
        ensures
            same_config(config, wire),
    {
        CloudSecretsConfig {
            entries: entries_into_wire(config.secrets),
            passthrough_hosts: match config.passthrough_hosts {
                Some(hosts) => Some(hosts_into_wire(hosts)),
                None => None,
            },
            violation_action: CloudViolationAction::from(config.violation_action),
        }
    }
}

impl vstd::std_specs::convert::FromSpecImpl<SecretsConfig> for CloudSecretsConfig {
    open spec fn obeys_from_spec() -> bool {
        false
    }

    open spec fn from_spec(config: SecretsConfig) -> CloudSecretsConfig {
        choose|wire: CloudSecretsConfig| same_config(config, wire)
    }
}

impl From<CloudSecretsConfig> for SecretsConfig {
    fn from(wire: CloudSecretsConfig) -> (config: Self)
        ensures
            same_config(config, wire),
    {
        SecretsConfig {
            secrets: entries_out_of_wire(wire.entries),
            passthrough_hosts: match wire.passthrough_hosts {
                Some(hosts) => Some(hosts_out_of_wire(hosts)),
                None => None,
            },
            violation_action: SecretViolationAction::from(wire.violation_action),
        }
    }
}

impl vstd::std_specs::convert::FromSpecImpl<CloudSecretsConfig> for SecretsConfig {
    open spec fn obeys_from_spec() -> bool {
        false
    }

    open spec fn from_spec(wire: CloudSecretsConfig) -> SecretsConfig {
        choose|config: SecretsConfig| same_config(config, wire)
    }
}

// Laws

/// Whether two secrets agree in everything that they say.
pub open spec fn entries_agree(a: SecretEntry, b: SecretEntry) -> bool {
    &&& a.env_var == b.env_var
    &&& material(a.value) == material(b.value)
    &&& a.source == b.source
    &&& a.placeholder == b.placeholder
    &&& a.allowed_hosts@ == b.allowed_hosts@
    &&& a.substitution == b.substitution
    &&& a.passthrough_hosts@ == b.passthrough_hosts@
    &&& a.violation_action == b.violation_action
    &&& a.require_tls_identity == b.require_tls_identity
}

/// Whether two wire entries agree in everything that they say.
pub open spec fn wire_entries_agree(a: CloudSecretEntry, b: CloudSecretEntry) -> bool {
    &&& a.env_var == b.env_var
    &&& a.value@ == b.value@
    &&& a.source == b.source
    &&& a.placeholder == b.placeholder
    &&& a.allowed_hosts@ == b.allowed_hosts@
    &&& a.substitution == b.substitution
    &&& a.passthrough_hosts@ == b.passthrough_hosts@
    &&& a.violation_action == b.violation_action
    &&& a.require_tls_identity == b.require_tls_identity
}

/// The scalar conversions undo each other, in both directions.
pub proof fn lemma_scalars_round_trip(
    host: HostPattern,
    wire_host: CloudHostPattern,
    action: SecretViolationAction,
    wire_action: CloudViolationAction,
    source: SecretSource,
    wire_source: CloudSecretSource,
)
    ensures
        host_from_wire(host_to_wire(host)) == host,
        host_to_wire(host_from_wire(wire_host)) == wire_host,
        action_from_wire(action_to_wire(action)) == action,
        action_to_wire(action_from_wire(wire_action)) == wire_action,
        source_from_wire(source_to_wire(source)) == source,
        source_to_wire(source_from_wire(wire_source)) == wire_source,
{
}

/// A secret that went onto the wire and came back agrees with what was sent.
pub proof fn lemma_entry_round_trips(entry: SecretEntry, wire: CloudSecretEntry, back: SecretEntry)
    requires
        same_entry(entry, wire),
        same_entry(back, wire),
    ensures
        entries_agree(entry, back),
{
    lemma_hosts_to_wire_is_injective(entry.allowed_hosts@, back.allowed_hosts@);
    lemma_hosts_to_wire_is_injective(entry.passthrough_hosts@, back.passthrough_hosts@);
}

/// A wire entry that was read and written again agrees with what was read.
pub proof fn lemma_wire_entry_round_trips(
    wire: CloudSecretEntry,
    entry: SecretEntry,
    again: CloudSecretEntry,
)
    requires
        same_entry(entry, wire),
        same_entry(entry, again),
    ensures
        wire_entries_agree(wire, again),
{
}

/// A config that went onto the wire and came back agrees with what was sent.
pub proof fn lemma_config_round_trips(
    config: SecretsConfig,
    wire: CloudSecretsConfig,
    back: SecretsConfig,
)
    requires
        same_config(config, wire),
        same_config(back, wire),
    ensures
        config.secrets@.len() == back.secrets@.len(),
        forall|i: int|
            0 <= i < config.secrets@.len() ==> entries_agree(
                #[trigger] config.secrets@[i],
                back.secrets@[i],
            ),
        match (config.passthrough_hosts, back.passthrough_hosts) {
            (Some(a), Some(b)) => a@ == b@,
            (None, None) => true,
            _ => false,
        },
        config.violation_action == back.violation_action,
{
    assert forall|i: int| 0 <= i < config.secrets@.len() implies entries_agree(
        #[trigger] config.secrets@[i],
        back.secrets@[i],
    ) by {
        lemma_entry_round_trips(config.secrets@[i], wire.entries@[i], back.secrets@[i]);
    }
    if let (Some(a), Some(b)) = (config.passthrough_hosts, back.passthrough_hosts) {
        lemma_hosts_to_wire_is_injective(a@, b@);
    }
}

/// A wire config that was read and written again agrees with what was read.
pub proof fn lemma_wire_config_round_trips(
    wire: CloudSecretsConfig,
    config: SecretsConfig,
    again: CloudSecretsConfig,
)
    requires
        same_config(config, wire),
        same_config(config, again),
    ensures
        wire.entries@.len() == again.entries@.len(),
        forall|i: int|
            0 <= i < wire.entries@.len() ==> wire_entries_agree(
                #[trigger] wire.entries@[i],
                again.entries@[i],
            ),
        match (wire.passthrough_hosts, again.passthrough_hosts) {
            (Some(a), Some(b)) => a@ == b@,
            (None, None) => true,
            _ => false,
        },
        wire.violation_action == again.violation_action,
{
    assert forall|i: int| 0 <= i < wire.entries@.len() implies wire_entries_agree(
        #[trigger] wire.entries@[i],
        again.entries@[i],
    ) by {
        lemma_wire_entry_round_trips(wire.entries@[i], config.secrets@[i], again.entries@[i]);
    }
}

proof fn lemma_hosts_to_wire_is_injective(a: Seq<HostPattern>, b: Seq<HostPattern>)
    requires
        hosts_to_wire(a) == hosts_to_wire(b),
    ensures
        a == b,
{
    assert(a.len() == hosts_to_wire(a).len() && b.len() == hosts_to_wire(b).len());
    assert forall|i: int| 0 <= i < a.len() implies a[i] == b[i] by {
        assert(hosts_to_wire(a)[i] == host_to_wire(a[i]));
        assert(hosts_to_wire(b)[i] == host_to_wire(b[i]));
    }
    assert(a =~= b);
}

/// Whether a host pattern and a wire pattern are of one kind and hold one text.
pub open spec fn hosts_correspond(host: HostPattern, wire: CloudHostPattern) -> bool {
    match host {
        HostPattern::Exact(text) => wire matches CloudHostPattern::Exact { value } && value@
            == text@,
        HostPattern::Wildcard(text) => wire matches CloudHostPattern::Wildcard { value } && value@
            == text@,
        HostPattern::Any => wire is Any,
    }
}

/// Whether a violation action and a wire action are the same.
pub open spec fn actions_correspond(
    action: SecretViolationAction,
    wire: CloudViolationAction,
) -> bool {
    &&& action is Block <==> wire is Block
    &&& action is BlockAndLog <==> wire is BlockAndLog
    &&& action is BlockAndTerminate <==> wire is BlockAndTerminate
}

/// A host pattern keeps its kind and its text, in both directions.
pub proof fn lemma_a_host_keeps_its_meaning(host: HostPattern, wire: CloudHostPattern)
    ensures
        hosts_correspond(host, host_to_wire(host)),
        hosts_correspond(host_from_wire(wire), wire),
{
}

/// A violation action keeps its meaning, in both directions.
pub proof fn lemma_an_action_keeps_its_meaning(
    action: SecretViolationAction,
    wire: CloudViolationAction,
)
    ensures
        actions_correspond(action, action_to_wire(action)),
        actions_correspond(action_from_wire(wire), wire),
{
}

/// Whether a host list and a wire list hold the same patterns, one by one.
pub open spec fn host_lists_correspond(
    hosts: Seq<HostPattern>,
    wire: Seq<CloudHostPattern>,
) -> bool {
    &&& hosts.len() == wire.len()
    &&& forall|i: int| 0 <= i < hosts.len() ==> hosts_correspond(#[trigger] hosts[i], wire[i])
}

/// An entry and its wire form hold the same in each field: texts, the source, both host
/// lists, each place where the secret may be injected, the action and the TLS requirement.
/// No field takes another's place.
pub proof fn lemma_an_entry_keeps_each_field(entry: SecretEntry, wire: CloudSecretEntry)
    requires
        same_entry(entry, wire),
    ensures
        wire.env_var@ == entry.env_var@,
        wire.value@ == material(entry.value),
        wire.placeholder@ == entry.placeholder@,
        match entry.source {
            Some(SecretSource::Env { var }) => wire.source matches Some(
                CloudSecretSource::Env { var: kept },
            ) && kept@ == var@,
            Some(SecretSource::Store { reference }) => wire.source matches Some(
                CloudSecretSource::Store { reference: kept },
            ) && kept@ == reference@,
            None => wire.source is None,
        },
        host_lists_correspond(entry.allowed_hosts@, wire.allowed_hosts@),
        host_lists_correspond(entry.passthrough_hosts@, wire.passthrough_hosts@),
        wire.substitution.headers == entry.substitution.headers,
        wire.substitution.basic_auth == entry.substitution.basic_auth,
        wire.substitution.query_params == entry.substitution.query_params,
        wire.substitution.body == entry.substitution.body,
        match entry.violation_action {
            Some(action) => wire.violation_action matches Some(kept) && actions_correspond(
                action,
                kept,
            ),
            None => wire.violation_action is None,
        },
        wire.require_tls_identity == entry.require_tls_identity,
{
}

/// A config and its wire form hold the same entries in the same order, the same hosts, and
/// the same action.
pub proof fn lemma_a_config_keeps_each_field(config: SecretsConfig, wire: CloudSecretsConfig)
    requires
        same_config(config, wire),
    ensures
        config.secrets@.len() == wire.entries@.len(),
        forall|i: int|
            0 <= i < config.secrets@.len() ==> same_entry(
                #[trigger] config.secrets@[i],
                wire.entries@[i],
            ),
        match config.passthrough_hosts {
            Some(hosts) => wire.passthrough_hosts matches Some(kept) && host_lists_correspond(
                hosts@,
                kept@,
            ),
            None => wire.passthrough_hosts is None,
        },
        actions_correspond(config.violation_action, wire.violation_action),
{
}

} // verus!
