use microsandbox_secrets::secret::cloud::{
    tls_identity_required, CloudHostPattern, CloudSecretEntry, CloudSecretSource, CloudSecretsConfig,
    CloudViolationAction,
};
use microsandbox_secrets::secret::domain::{
    HostPattern, SecretEntry, SecretSource, SecretSubstitution, SecretViolationAction,
    SecretsConfig,
};
use microsandbox_secrets::secret::zeroed::SecretText;

fn entry() -> SecretEntry {
    SecretEntry {
        env_var: "API_KEY".to_string(),
        value: SecretText::new("sk-live".to_string()),
        source: Some(SecretSource::Env {
            var: "HOST_API_KEY".to_string(),
        }),
        placeholder: "$MSB_API_KEY".to_string(),
        allowed_hosts: vec![
            HostPattern::Exact("api.example.com".to_string()),
            HostPattern::Wildcard("*.example.com".to_string()),
            HostPattern::Any,
        ],
        substitution: SecretSubstitution {
            headers: true,
            basic_auth: false,
            query_params: true,
            body: false,
        },
        passthrough_hosts: vec![HostPattern::Any],
        violation_action: Some(SecretViolationAction::BlockAndTerminate),
        require_tls_identity: true,
    }
}

fn config() -> SecretsConfig {
    let mut second = entry();
    second.env_var = "OTHER".to_string();
    second.value = SecretText::new(String::new());
    second.source = Some(SecretSource::Store {
        reference: "vault/other".to_string(),
    });
    second.violation_action = None;
    SecretsConfig {
        secrets: vec![entry(), second],
        passthrough_hosts: Some(vec![HostPattern::Exact("a".to_string())]),
        violation_action: SecretViolationAction::Block,
    }
}

#[test]
fn an_entry_reaches_the_wire_as_it_is() {
    let wire = CloudSecretEntry::from(entry());
    assert_eq!(wire.env_var, "API_KEY");
    assert_eq!(wire.value, "sk-live");
    assert!(matches!(
        wire.source,
        Some(CloudSecretSource::Env { ref var }) if var == "HOST_API_KEY"
    ));
    assert_eq!(wire.placeholder, "$MSB_API_KEY");
    assert_eq!(wire.allowed_hosts.len(), 3);
    assert!(matches!(
        &wire.allowed_hosts[0],
        CloudHostPattern::Exact { value } if value == "api.example.com"
    ));
    assert!(matches!(
        &wire.allowed_hosts[1],
        CloudHostPattern::Wildcard { value } if value == "*.example.com"
    ));
    assert!(matches!(&wire.allowed_hosts[2], CloudHostPattern::Any));
    assert!(wire.substitution.headers && wire.substitution.query_params);
    assert!(!wire.substitution.basic_auth && !wire.substitution.body);
    assert_eq!(wire.passthrough_hosts.len(), 1);
    assert_eq!(
        wire.violation_action,
        Some(CloudViolationAction::BlockAndTerminate)
    );
    assert!(wire.require_tls_identity);
}

#[test]
fn a_configuration_survives_the_round_trip() {
    let there = CloudSecretsConfig::from(config());
    assert_eq!(there.entries.len(), 2);
    assert_eq!(there.violation_action, CloudViolationAction::Block);
    let back = SecretsConfig::from(there);
    let first = config();
    assert_eq!(format!("{back:?}"), format!("{first:?}"));
    assert_eq!(back.secrets[0].value.expose(), "sk-live");
    assert_eq!(back.secrets[1].value.expose(), "");
}

#[test]
fn a_wire_configuration_survives_the_round_trip() {
    let wire = CloudSecretsConfig::from(config());
    let again = CloudSecretsConfig::from(SecretsConfig::from(wire.clone()));
    assert_eq!(format!("{wire:?}"), format!("{again:?}"));
}

#[test]
fn scalars_keep_their_meaning() {
    for (neutral, wire) in [
        (SecretViolationAction::Block, CloudViolationAction::Block),
        (
            SecretViolationAction::BlockAndLog,
            CloudViolationAction::BlockAndLog,
        ),
        (
            SecretViolationAction::BlockAndTerminate,
            CloudViolationAction::BlockAndTerminate,
        ),
    ] {
        assert_eq!(CloudViolationAction::from(neutral), wire);
        assert_eq!(SecretViolationAction::from(wire), neutral);
    }
}

#[test]
fn the_default_configuration_is_empty_and_logs() {
    let config = CloudSecretsConfig::default();
    assert!(config.entries.is_empty());
    assert!(config.passthrough_hosts.is_none());
    assert_eq!(config.violation_action, CloudViolationAction::BlockAndLog);
    assert_eq!(
        CloudViolationAction::default(),
        CloudViolationAction::BlockAndLog
    );
}

#[test]
fn verified_tls_identity_is_required_unless_said_otherwise() {
    assert!(tls_identity_required(None));
    assert!(tls_identity_required(Some(true)));
    assert!(!tls_identity_required(Some(false)));
}

#[test]
fn a_secret_text_holds_what_it_is_given() {
    let text = SecretText::new("p\u{e4}ss".to_string());
    assert_eq!(text.expose(), "p\u{e4}ss");
    assert_eq!(text.clone().expose(), "p\u{e4}ss");
}
