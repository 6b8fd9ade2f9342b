use microsandbox_secrets::error::Operation;
use microsandbox_secrets::secret::builder::{render_builder, Secret, SecretRotationBuilder};
use microsandbox_secrets::secret::rotation::{
    render_request, CloudSecretDisposition, CloudSecretMetadata, CloudSecretMetadataList,
    CloudSecretOperationStatus, CloudSecretRotationError, CloudSecretRotationOperation,
    CloudSecretRotationRequest, CloudSecretRotationResult, SecretDisposition, SecretMetadata,
    SecretRotationRequest, SecretRotationResult, Timestamp,
};
use microsandbox_secrets::secret::version::secret_version;

/// The version token is the precondition for the next conditional rotation, so a
/// projection that drops or rewrites it silently turns every following write
/// unconditional.
#[test]
fn projecting_metadata_preserves_the_version_token() {
    let now = std::time::SystemTime::now()
        .duration_since(std::time::UNIX_EPOCH)
        .expect("after the epoch");
    let updated_at = Timestamp {
        secs: now.as_secs() as i64,
        nanos: now.subsec_nanos(),
    };
    let wire = CloudSecretMetadata {
        name: "API_KEY".to_string(),
        version: secret_version(7),
        updated_at,
    };

    let neutral = SecretMetadata::from(wire.clone());

    assert_eq!(neutral.name, "API_KEY");
    assert_eq!(neutral.version, wire.version);
    assert_eq!(neutral.updated_at, updated_at);
}

/// The disposition is the whole answer to "is this live yet?", so each wire variant must
/// land on its own neutral variant rather than collapsing onto a default.
#[test]
fn projecting_a_result_preserves_the_version_and_disposition() {
    for (wire, expected) in [
        (CloudSecretDisposition::Applied, SecretDisposition::Applied),
        (
            CloudSecretDisposition::OnNextStart,
            SecretDisposition::OnNextStart,
        ),
        (
            CloudSecretDisposition::Unconfirmed,
            SecretDisposition::Unconfirmed,
        ),
    ] {
        let result = SecretRotationResult::from(CloudSecretRotationResult {
            name: "API_KEY".to_string(),
            version: secret_version(9),
            disposition: wire,
        });

        assert_eq!(result.name, "API_KEY");
        assert_eq!(result.version, secret_version(9));
        assert_eq!(result.disposition, expected);
    }
}

/// A neutral request reaches the server through the wire twin, so the precondition the
/// caller supplied has to survive that hop.
#[test]
fn projecting_a_request_onto_the_wire_keeps_the_precondition() {
    let wire = CloudSecretRotationRequest::from(SecretRotationRequest {
        value: "new-material".to_string(),
        version: Some(secret_version(3)),
    });

    assert_eq!(wire.value, "new-material");
    assert_eq!(wire.version, Some(secret_version(3)));
}

/// Secret material must never reach a log, on either side of the boundary.
#[test]
fn debug_redacts_the_value_on_both_sides_of_the_boundary() {
    const MATERIAL: &str = "sk-live-do-not-log-me";

    let neutral = SecretRotationRequest {
        value: MATERIAL.to_string(),
        version: Some(secret_version(1)),
    };
    let wire = CloudSecretRotationRequest::from(neutral.clone());

    for rendered in [neutral.debug_text(), wire.debug_text()] {
        assert!(!rendered.contains(MATERIAL), "value leaked: {rendered}");
        assert!(rendered.contains("[REDACTED]"), "{rendered}");
        assert!(rendered.contains(&secret_version(1)), "{rendered}");
    }
}

#[test]
fn the_builder_builds_and_redacts_its_request() {
    let request = Secret::rotate("api", "API_KEY", "new-material")
        .if_version("v1")
        .build();
    assert_eq!(request.value, "new-material");
    assert_eq!(request.version.as_deref(), Some("v1"));

    let rendered = Secret::rotate("api", "API_KEY", "super-secret-material")
        .if_version("v1")
        .debug_text();
    assert!(!rendered.contains("super-secret-material"), "{rendered}");
    assert!(rendered.contains("[REDACTED]"), "{rendered}");
}

#[test]
fn operation_names_match_the_secret_api() {
    assert_eq!(Operation::SecretList.api_path(), "Secret::list");
    assert_eq!(Operation::SecretRotate.api_path(), "Secret::rotate");
}

/// Renderings have one exact form, with the escapes of a quoted text.
#[test]
fn renderings_are_exact() {
    let request = SecretRotationRequest {
        value: "m".to_string(),
        version: Some("v\"1\n".to_string()),
    };
    assert_eq!(
        request.debug_text(),
        "SecretRotationRequest { value: \"[REDACTED]\", version: Some(\"v\\\"1\\n\") }"
    );
    let wire = CloudSecretRotationRequest {
        value: "m".to_string(),
        version: None,
    };
    assert_eq!(
        wire.debug_text(),
        "CloudSecretRotationRequest { value: \"[REDACTED]\", version: None }"
    );
    assert_eq!(
        SecretRotationBuilder::new("api", "K", "m").debug_text(),
        "SecretRotationBuilder { sandbox: \"api\", name: \"K\", request: \
         SecretRotationRequest { value: \"[REDACTED]\", version: None } }"
    );
}

/// A text that is quoted already is printed as it is.
#[test]
fn renderings_take_what_is_quoted_already() {
    assert_eq!(
        render_request("R", Some("\"v1\"")),
        "R { value: \"[REDACTED]\", version: Some(\"v1\") }"
    );
    assert_eq!(
        render_request("R", None),
        "R { value: \"[REDACTED]\", version: None }"
    );
    assert_eq!(
        render_builder("\"api\"", "\"K\"", "R"),
        "SecretRotationBuilder { sandbox: \"api\", name: \"K\", request: R }"
    );
}

/// Requests that differ in their values alone print the same.
#[test]
fn renderings_do_not_depend_on_the_value() {
    let one = Secret::rotate("api", "K", "one").if_version("v1");
    let two = Secret::rotate("api", "K", "two").if_version("v1");
    assert_eq!(one.debug_text(), two.debug_text());
    assert_eq!(one.build().debug_text(), two.build().debug_text());
}

/// The builder takes owned and borrowed texts alike, and the last version named wins.
#[test]
fn the_builder_keeps_its_parts() {
    let version = String::from("v2");
    let (sandbox, name, request) = Secret::rotate(String::from("api"), "K", "m")
        .if_version("v1")
        .if_version(&version)
        .into_parts();
    assert_eq!(sandbox, "api");
    assert_eq!(name, "K");
    assert_eq!(request.value, "m");
    assert_eq!(request.version.as_deref(), Some("v2"));

    let boxed: Box<str> = "m".into();
    let (sandbox, name, request) =
        Secret::rotate('s', std::borrow::Cow::Borrowed("K"), boxed).into_parts();
    assert_eq!(sandbox, "s");
    assert_eq!(name, "K");
    assert_eq!(request.value, "m");

    let plain = Secret::rotate("api", "K", "m").build();
    assert_eq!(plain.version, None);
}

#[test]
fn copies_are_equal() {
    let metadata = SecretMetadata {
        name: "K".to_string(),
        version: "v1".to_string(),
        updated_at: Timestamp { secs: 1, nanos: 2 },
    };
    assert_eq!(metadata.clone(), metadata);
    let result = SecretRotationResult {
        name: "K".to_string(),
        version: "v1".to_string(),
        disposition: SecretDisposition::OnNextStart,
    };
    assert_eq!(result.clone(), result);
    let listing = CloudSecretMetadataList {
        data: vec![
            CloudSecretMetadata {
                name: "A".to_string(),
                version: "v1".to_string(),
                updated_at: Timestamp { secs: 1, nanos: 2 },
            },
            CloudSecretMetadata {
                name: "B".to_string(),
                version: "v2".to_string(),
                updated_at: Timestamp { secs: 3, nanos: 4 },
            },
        ],
    };
    assert_eq!(format!("{:?}", listing.clone()), format!("{:?}", listing));
    let operation = CloudSecretRotationOperation {
        id: "op".to_string(),
        status: CloudSecretOperationStatus::Failed,
        result: None,
        error: Some(CloudSecretRotationError {
            code: "c".to_string(),
            message: "m".to_string(),
        }),
    };
    assert_eq!(format!("{:?}", operation.clone()), format!("{:?}", operation));
}
