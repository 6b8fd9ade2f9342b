use microsandbox_secrets::error::{MicrosandboxError, Operation, UnsupportedReason};
use microsandbox_secrets::secret::backend::{
    current_secret_version, list, missing_secret_message, wait_for_secret_rotation, CloudBackend,
    LocalBackend, Method, WaitStep, SECRET_ROTATION_INITIAL_POLL_INTERVAL_MS, SECRET_ROTATION_TIMEOUT_MS,
};
use microsandbox_secrets::secret::builder::Secret;
use microsandbox_secrets::secret::flow::{
    begin_rotation, rotate, RotationAction, RotationEvent, RotationState,
};
use microsandbox_secrets::secret::rotation::{
    CloudSecretDisposition, CloudSecretMetadata, CloudSecretMetadataList,
    CloudSecretOperationStatus, CloudSecretRotationError, CloudSecretRotationOperation,
    CloudSecretRotationResult, SecretDisposition, SecretRotationRequest, SecretRotationResult,
    Timestamp,
};

const URL: &str = "http://127.0.0.1:8080";

fn cloud() -> CloudBackend {
    CloudBackend {
        url: URL.to_string(),
    }
}

fn request() -> SecretRotationRequest {
    SecretRotationRequest {
        value: "new-material".into(),
        version: Some("v1".into()),
    }
}

fn unconditional() -> SecretRotationRequest {
    SecretRotationRequest {
        value: "new-material".into(),
        version: None,
    }
}

fn entry(name: &str, version: &str) -> CloudSecretMetadata {
    CloudSecretMetadata {
        name: name.to_string(),
        version: version.to_string(),
        updated_at: Timestamp {
            secs: 1_767_225_600,
            nanos: 0,
        },
    }
}

fn in_progress(id: &str) -> CloudSecretRotationOperation {
    CloudSecretRotationOperation {
        id: id.to_string(),
        status: CloudSecretOperationStatus::InProgress,
        result: None,
        error: None,
    }
}

fn succeeded(id: &str, version: &str) -> CloudSecretRotationOperation {
    CloudSecretRotationOperation {
        id: id.to_string(),
        status: CloudSecretOperationStatus::Succeeded,
        result: Some(CloudSecretRotationResult {
            name: "API_KEY".to_string(),
            version: version.to_string(),
            disposition: CloudSecretDisposition::Applied,
        }),
        error: None,
    }
}

/// What a server was asked, and the outcome, when it answers with the given listing and
/// operations in turn.
fn serve(
    name: &str,
    request: SecretRotationRequest,
    mut listings: Vec<CloudSecretMetadataList>,
    mut operations: Vec<CloudSecretRotationOperation>,
) -> (Vec<String>, Result<SecretRotationResult, MicrosandboxError>) {
    let mut asked = Vec::new();
    let mut state = begin_rotation(name, request);
    let mut event = RotationEvent::Sandbox {
        id: "sandbox-id".to_string(),
    };
    loop {
        assert!(state.accepts(&event));
        let (next, action) = rotate(state, event);
        state = next;
        event = match action {
            RotationAction::Read { sandbox_id } => {
                asked.push(format!("GET {}", path(&cloud().list_secrets(&sandbox_id).url)));
                RotationEvent::Listing(listings.remove(0))
            }
            RotationAction::Write {
                sandbox_id,
                name,
                request,
            } => {
                asked.push(format!(
                    "PUT {} {} {:?}",
                    path(&cloud().rotate_secret(&sandbox_id, &name).url),
                    request.value,
                    request.version
                ));
                RotationEvent::Operation {
                    operation: operations.remove(0),
                    elapsed_ms: 0,
                }
            }
            RotationAction::Poll { id, after_ms } => {
                asked.push(format!(
                    "GET {} after {after_ms}",
                    path(&cloud().get_secret_rotation_operation(&id).url)
                ));
                RotationEvent::Operation {
                    operation: operations.remove(0),
                    elapsed_ms: 1_000,
                }
            }
            RotationAction::Finish(outcome) => {
                assert!(matches!(state, RotationState::Settled));
                return (asked, outcome);
            }
        };
    }
}

fn failure(message: &str) -> MicrosandboxError {
    MicrosandboxError::Runtime(message.to_string())
}

fn path(url: &str) -> &str {
    url.strip_prefix(URL).expect("the base url comes first")
}

fn runtime(error: MicrosandboxError) -> String {
    match error {
        MicrosandboxError::Runtime(message) => message,
        other => panic!("not a runtime error: {other:?}"),
    }
}

#[test]
fn rotate_polls_until_the_operation_settles() {
    let (asked, outcome) = serve(
        "API_KEY",
        request(),
        vec![],
        vec![in_progress("op-1"), in_progress("op-1"), succeeded("op-1", "v2")],
    );

    let result = outcome.expect("rotation settles");
    assert_eq!(result.version, "v2");
    assert_eq!(result.disposition, SecretDisposition::Applied);
    assert_eq!(
        asked,
        vec![
            "PUT /v1/sandboxes/sandbox-id/secrets/API_KEY new-material Some(\"v1\")",
            "GET /v1/secret-rotation-operations/op-1 after 250",
            "GET /v1/secret-rotation-operations/op-1 after 500",
        ]
    );
}

#[test]
fn failed_rotation_surfaces_its_error_code() {
    let (_, outcome) = serve(
        "API_KEY",
        request(),
        vec![],
        vec![CloudSecretRotationOperation {
            id: "op-2".to_string(),
            status: CloudSecretOperationStatus::Failed,
            result: None,
            error: Some(CloudSecretRotationError {
                code: "version_conflict".to_string(),
                message: "the secret changed".to_string(),
            }),
        }],
    );

    let message = runtime(outcome.expect_err("failed rotation is an error"));
    assert!(message.contains("version_conflict"), "{message}");
    assert!(message.contains("the secret changed"), "{message}");
    assert_eq!(
        message,
        "secret rotation operation op-2 failed: version_conflict: the secret changed"
    );
}

#[test]
fn list_returns_the_published_metadata() {
    let secrets = list(Ok(CloudSecretMetadataList {
        data: vec![entry("API_KEY", "v1")],
    }))
    .expect("listing succeeds");

    assert_eq!(secrets.len(), 1);
    assert_eq!(secrets[0].name, "API_KEY");
    assert_eq!(secrets[0].version, "v1");
    let call = cloud().list_secrets("sandbox-id");
    assert_eq!(call.method, Method::Get);
    assert_eq!(path(&call.url), "/v1/sandboxes/sandbox-id/secrets");
}

/// The server requires a version on every rotation. A caller that names none is asserting
/// "whatever is current", so the current token is read and quoted.
#[test]
fn an_absent_version_resolves_to_the_current_one() {
    let (asked, outcome) = serve(
        "API_KEY",
        unconditional(),
        vec![CloudSecretMetadataList {
            data: vec![entry("API_KEY", "v9current")],
        }],
        vec![succeeded("op-3", "v10")],
    );

    assert_eq!(outcome.expect("rotation settles").version, "v10");
    assert_eq!(
        asked,
        vec![
            "GET /v1/sandboxes/sandbox-id/secrets",
            "PUT /v1/sandboxes/sandbox-id/secrets/API_KEY new-material Some(\"v9current\")",
        ]
    );
}

/// Resolution is a fallback, not a step. A caller holding a token gets that token sent,
/// with no extra read that could widen the conflict window.
#[test]
fn a_named_version_is_sent_without_re_reading_it() {
    let (asked, outcome) = serve("API_KEY", request(), vec![], vec![succeeded("op-4", "v2")]);

    outcome.expect("rotation settles");
    assert_eq!(
        asked,
        vec!["PUT /v1/sandboxes/sandbox-id/secrets/API_KEY new-material Some(\"v1\")"]
    );
}

/// Resolution cannot invent a precondition for a secret that is not there.
#[test]
fn an_absent_version_for_an_unknown_secret_is_an_error() {
    let (asked, outcome) = serve(
        "MISSING",
        unconditional(),
        vec![CloudSecretMetadataList { data: vec![] }],
        vec![],
    );

    let message = runtime(outcome.expect_err("an unknown secret has no version to quote"));
    assert!(message.contains("has no secret"));
    assert_eq!(message, "sandbox \"sandbox-id\" has no secret \"MISSING\"");
    assert_eq!(
        asked,
        vec!["GET /v1/sandboxes/sandbox-id/secrets"],
        "rotation must not be attempted"
    );
}

#[test]
fn rotate_with_a_version_sends_it_as_the_precondition() {
    let (_, name, request) = Secret::rotate("api", "API_KEY", "new-material")
        .if_version("v1")
        .into_parts();
    let (asked, outcome) = serve(&name, request, vec![], vec![succeeded("op-1", "v2")]);

    let result = outcome.expect("rotation settles");
    assert_eq!(result.version, "v2");
    assert_eq!(result.disposition, SecretDisposition::Applied);
    assert_eq!(
        asked,
        vec!["PUT /v1/sandboxes/sandbox-id/secrets/API_KEY new-material Some(\"v1\")"]
    );
}

#[test]
fn rotate_without_a_version_resolves_the_current_precondition() {
    let (_, name, request) = Secret::rotate("api", "API_KEY", "new-material").into_parts();
    let (asked, outcome) = serve(
        &name,
        request,
        vec![CloudSecretMetadataList {
            data: vec![entry("API_KEY", "v9current")],
        }],
        vec![succeeded("op-2", "v10")],
    );

    assert_eq!(outcome.expect("rotation settles").version, "v10");
    assert_eq!(asked.len(), 2);
    assert_eq!(asked[0], "GET /v1/sandboxes/sandbox-id/secrets");
    assert!(asked[1].starts_with("PUT /v1/sandboxes/sandbox-id/secrets/API_KEY "));
    assert!(asked[1].contains("v9current"));
}

#[test]
fn local_secret_list_fails_closed() {
    let error = LocalBackend
        .list("api")
        .expect_err("Local must never report a secret listing it cannot derive");
    assert!(matches!(
        error,
        MicrosandboxError::Unsupported {
            op: Operation::SecretList,
            reason: UnsupportedReason::CloudOnly,
        }
    ));
}

#[test]
fn local_secret_rotation_fails_closed() {
    let error = LocalBackend
        .rotate("api", "API_KEY", unconditional())
        .expect_err("Local must never report a version it does not commit");
    assert!(matches!(
        error,
        MicrosandboxError::Unsupported {
            op: Operation::SecretRotate,
            reason: UnsupportedReason::CloudOnly,
        }
    ));
}

#[test]
fn listing_keeps_every_entry_in_its_place() {
    let secrets = list(Ok(CloudSecretMetadataList {
        data: vec![entry("A", "v1"), entry("B", "v2"), entry("C", "v3")],
    }))
    .expect("listing succeeds");
    let names: Vec<&str> = secrets.iter().map(|secret| secret.name.as_str()).collect();
    assert_eq!(names, vec!["A", "B", "C"]);
    assert_eq!(secrets[2].version, "v3");
    assert_eq!(secrets[1].updated_at.secs, 1_767_225_600);
    let none = list(Ok(CloudSecretMetadataList { data: vec![] })).expect("listing succeeds");
    assert!(none.is_empty());
    let error = list(Err(failure("unreachable"))).expect_err("the call failed");
    assert_eq!(runtime(error), "unreachable");
}

#[test]
fn the_current_version_is_the_first_of_its_name() {
    let listing = CloudSecretMetadataList {
        data: vec![entry("A", "v1"), entry("B", "v2"), entry("B", "v3")],
    };
    let version = current_secret_version(listing.clone(), "id", "B").expect("listed");
    assert_eq!(version, "v2");
    let error = current_secret_version(listing, "s\"1", "b").expect_err("names have a case");
    assert_eq!(runtime(error), "sandbox \"s\\\"1\" has no secret \"b\"");
}

#[test]
fn calls_name_their_route() {
    let call = cloud().rotate_secret("s%201", "K%2F");
    assert_eq!(call.method, Method::Put);
    assert_eq!(
        call.url,
        "http://127.0.0.1:8080/v1/sandboxes/s%201/secrets/K%2F"
    );
    assert_eq!(call.route, "PUT /v1/sandboxes/:id/secrets/:name");
    assert_eq!(
        cloud().list_secrets("x").route,
        "GET /v1/sandboxes/:id/secrets"
    );
    let call = cloud().get_secret_rotation_operation("op-1");
    assert_eq!(call.method, Method::Get);
    assert_eq!(call.route, "GET /v1/secret-rotation-operations/:id");
    assert_eq!(path(&call.url), "/v1/secret-rotation-operations/op-1");
}

/// The waits double from a quarter of a second to five seconds.
#[test]
fn polls_back_off() {
    let mut interval = SECRET_ROTATION_INITIAL_POLL_INTERVAL_MS;
    let mut waits = Vec::new();
    for _ in 0..8 {
        match wait_for_secret_rotation(in_progress("op"), interval, 0) {
            WaitStep::Poll {
                id,
                after_ms,
                next_interval_ms,
            } => {
                assert_eq!(id, "op");
                waits.push(after_ms);
                interval = next_interval_ms;
            }
            WaitStep::Settled(_) => panic!("still in progress"),
        }
    }
    assert_eq!(waits, vec![250, 500, 1000, 2000, 4000, 5000, 5000, 5000]);
    assert!(matches!(
        wait_for_secret_rotation(in_progress("op"), u64::MAX, 0),
        WaitStep::Poll {
            next_interval_ms: 5000,
            ..
        }
    ));
}

#[test]
fn a_rotation_gives_up_when_its_time_is_up() {
    assert!(matches!(
        wait_for_secret_rotation(in_progress("op"), 250, SECRET_ROTATION_TIMEOUT_MS - 1),
        WaitStep::Poll { .. }
    ));
    match wait_for_secret_rotation(in_progress("op"), 250, SECRET_ROTATION_TIMEOUT_MS) {
        WaitStep::Settled(Err(error)) => assert_eq!(
            runtime(error),
            "secret rotation operation op did not finish within 300s; \
             server-side work may still be continuing"
        ),
        _ => panic!("time is up"),
    }
    // An outcome that arrives late is still an outcome.
    assert!(matches!(
        wait_for_secret_rotation(succeeded("op", "v2"), 250, SECRET_ROTATION_TIMEOUT_MS),
        WaitStep::Settled(Ok(_))
    ));
}

#[test]
fn a_bare_failure_and_a_bare_success_are_errors() {
    let mut operation = in_progress("op");
    operation.status = CloudSecretOperationStatus::Failed;
    match wait_for_secret_rotation(operation, 250, 0) {
        WaitStep::Settled(Err(error)) => {
            assert_eq!(runtime(error), "secret rotation operation op failed")
        }
        _ => panic!("failed"),
    }
    let mut operation = in_progress("op");
    operation.status = CloudSecretOperationStatus::Succeeded;
    match wait_for_secret_rotation(operation, 250, 0) {
        WaitStep::Settled(Err(error)) => assert_eq!(
            runtime(error),
            "secret rotation operation op succeeded without a result"
        ),
        _ => panic!("no result"),
    }
}

#[test]
fn a_rotation_awaits_one_kind_of_answer_at_a_time() {
    let state = begin_rotation("K", unconditional());
    assert!(!state.accepts(&RotationEvent::Listing(CloudSecretMetadataList { data: vec![] })));
    let (state, _) = rotate(
        state,
        RotationEvent::Sandbox {
            id: "id".to_string(),
        },
    );
    assert!(!state.accepts(&RotationEvent::Operation {
        operation: in_progress("op"),
        elapsed_ms: 0,
    }));
    let (state, _) = rotate(
        state,
        RotationEvent::Listing(CloudSecretMetadataList { data: vec![] }),
    );
    assert!(!state.accepts(&RotationEvent::Sandbox {
        id: "id".to_string(),
    }));
}

/// A call that fails ends the rotation with its error, wherever the rotation stands.
#[test]
fn a_failed_call_ends_the_rotation() {
    let fails = |state: RotationState| {
        let event = RotationEvent::Failed(failure("502 from upstream"));
        assert!(state.accepts(&event));
        let (state, action) = rotate(state, event);
        assert!(matches!(state, RotationState::Settled));
        assert!(!state.accepts(&RotationEvent::Failed(failure("again"))));
        match action {
            RotationAction::Finish(Err(error)) => {
                assert_eq!(runtime(error), "502 from upstream")
            }
            _ => panic!("nothing is tried again"),
        }
    };
    let found = || RotationEvent::Sandbox {
        id: "id".to_string(),
    };

    fails(begin_rotation("K", request()));
    fails(rotate(begin_rotation("K", unconditional()), found()).0);
    let sent = rotate(begin_rotation("K", request()), found()).0;
    fails(sent);
    let sent = rotate(begin_rotation("K", request()), found()).0;
    let polled = rotate(
        sent,
        RotationEvent::Operation {
            operation: in_progress("op"),
            elapsed_ms: 0,
        },
    );
    assert!(matches!(polled.1, RotationAction::Poll { .. }));
    fails(polled.0);
}

/// A write that lost against another is answered with the server's status and code.
#[test]
fn a_stale_version_comes_back_as_a_conflict() {
    let (sent, action) = rotate(
        begin_rotation("K", request()),
        RotationEvent::Sandbox {
            id: "id".to_string(),
        },
    );
    assert!(matches!(action, RotationAction::Write { .. }));
    let conflict = MicrosandboxError::CloudHttp {
        status: 409,
        code: Some("secret_version_conflict".to_string()),
        message: "the secret changed".to_string(),
    };
    let (_, action) = rotate(sent, RotationEvent::Failed(conflict));
    match action {
        RotationAction::Finish(Err(MicrosandboxError::CloudHttp {
            status: 409,
            code: Some(code),
            ..
        })) if code == "secret_version_conflict" => {}
        _ => panic!("the conflict is what the client sees"),
    }
}

#[test]
fn the_message_about_a_missing_secret_is_exact() {
    assert_eq!(
        missing_secret_message("\"s\"", "\"K\""),
        "sandbox \"s\" has no secret \"K\""
    );
}

#[test]
fn local_operations_fail_closed() {
    let list_error = LocalBackend
        .list("api")
        .expect_err("local has no versioned store to list");
    assert!(matches!(
        list_error,
        MicrosandboxError::Unsupported {
            op: Operation::SecretList,
            reason: UnsupportedReason::CloudOnly,
        }
    ));

    let (sandbox, name, request) = Secret::rotate("api", "API_KEY", "new-material").into_parts();
    let rotate_error = LocalBackend
        .rotate(&sandbox, &name, request)
        .expect_err("local commits no version to report");
    assert!(matches!(
        rotate_error,
        MicrosandboxError::Unsupported {
            op: Operation::SecretRotate,
            reason: UnsupportedReason::CloudOnly,
        }
    ));
}
