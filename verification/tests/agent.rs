use holdfast::agent::{
    check_pong, map_attachment_session_error, map_open_validation_error, map_session_error,
    validate_attach_request, validate_open_request, validate_registration, AgentError, AgentLimits,
    AgentSupervisor, OpenValidationError, ReconnectPolicy, RegistrationRequest,
};
use holdfast::daemon::{start_agent, DaemonConfig};
use holdfast::grant::{ConnectionGrant, GrantClaims, GrantSigner};
use holdfast::ids::ServerId;
use holdfast::protocol::{
    AgentAttachShell, AgentOpenShell, AgentRegistration, Envelope, ErrorCode, Message, SessionError,
    SessionErrorKind,
};

fn limits() -> AgentLimits {
    AgentLimits {
        control_frame_bytes_min: 1_024,
        control_frame_bytes_max: 65_536,
        attachment_frame_bytes_max: 65_536,
        audience_bytes_max: 128,
        user_id_bytes_max: 128,
        unix_account_bytes_max: 64,
        command_bytes_max: 4_096,
        grant_bytes_max: 4_096,
        history_lines_max: 1_000,
        terminal_input_bytes_max: 16_384,
        terminal_output_bytes_max: 16_384,
    }
}

#[test]
fn build_metadata_is_bounded_in_encoded_bytes() {
    assert!(RegistrationRequest::new(ServerId([1; 16]), "x".repeat(128), &limits()).is_ok());
    assert!(matches!(
        RegistrationRequest::new(ServerId([1; 16]), "é".repeat(65), &limits()),
        Err(AgentError::BuildTooLong(130))
    ));
}

#[test]
fn shell_open_requires_signed_subject_operation_and_server_scope() {
    let signer = GrantSigner::generate();
    let server_id = ServerId([9; 16]);
    let now = 1_700_000_000_000;
    let issue = |sub: &str, servers: Vec<String>, ops: Vec<String>| {
        signer.issue(&GrantClaims {
            sub: sub.to_owned(),
            aud: "gateway-audience".to_owned(),
            servers,
            ops,
            iat_ms: now - 1_000,
            exp_ms: now + 60_000,
            jti: "test-jti".to_owned(),
        })
    };
    let request = |user: &str, grant: ConnectionGrant| AgentOpenShell {
        user_id: user.to_owned(),
        unix_account: "allowed".to_owned(),
        command: String::new(),
        initial_cols: 80,
        initial_rows: 24,
        idempotency_key: vec![1; 16],
        connection_grant: grant.as_bytes().to_vec(),
    };

    let valid = request(
        "alice",
        issue(
            "alice",
            vec![server_id.to_text()],
            vec!["open".to_owned()],
        ),
    );
    assert!(
        validate_open_request(valid, &signer.grant_verifier(), "gateway-audience", server_id, &limits(), now).is_ok()
    );

    let wrong_subject = request(
        "bob",
        issue(
            "alice",
            vec![server_id.to_text()],
            vec!["open".to_owned()],
        ),
    );
    assert!(matches!(
        validate_open_request(
            wrong_subject,
            &signer.grant_verifier(),
            "gateway-audience",
            server_id, &limits(), now
        ),
        Err(OpenValidationError::Forbidden)
    ));

    let wrong_server = request(
        "alice",
        issue(
            "alice",
            vec![ServerId([8; 16]).to_text()],
            vec!["open".to_owned()],
        ),
    );
    assert!(matches!(
        validate_open_request(
            wrong_server,
            &signer.grant_verifier(),
            "gateway-audience",
            server_id, &limits(), now
        ),
        Err(OpenValidationError::Forbidden)
    ));

    let wrong_operation = request(
        "alice",
        issue(
            "alice",
            vec![server_id.to_text()],
            vec!["list".to_owned()],
        ),
    );
    assert!(matches!(
        validate_open_request(
            wrong_operation,
            &signer.grant_verifier(),
            "gateway-audience",
            server_id, &limits(), now
        ),
        Err(OpenValidationError::Forbidden)
    ));
}

#[test]
fn attachment_requires_attach_scoped_signed_grant() {
    let signer = GrantSigner::generate();
    let server_id = ServerId([10; 16]);
    let now = 1_700_000_000_000;
    let issue = |sub: &str, operation: &str| {
        signer.issue(&GrantClaims {
            sub: sub.to_owned(),
            aud: "gateway-audience".to_owned(),
            servers: vec![server_id.to_text()],
            ops: vec![operation.to_owned()],
            iat_ms: now - 1_000,
            exp_ms: now + 60_000,
            jti: "attach-jti".to_owned(),
        })
    };
    let request = |user: &str, grant: ConnectionGrant| AgentAttachShell {
        user_id: user.to_owned(),
        connection_grant: grant.as_bytes().to_vec(),
        cols: 80,
        rows: 24,
    };

    let valid = validate_attach_request(
        request("alice", issue("alice", "attach")),
        &signer.grant_verifier(),
        "gateway-audience",
        server_id, &limits(), now
    )
    .unwrap();
    assert_eq!(valid.user_id, "alice");

    assert!(matches!(
        validate_attach_request(
            request("alice", issue("alice", "open")),
            &signer.grant_verifier(),
            "gateway-audience",
            server_id, &limits(), now
        ),
        Err(OpenValidationError::Forbidden)
    ));
    assert!(matches!(
        validate_attach_request(
            request("bob", issue("alice", "attach")),
            &signer.grant_verifier(),
            "gateway-audience",
            server_id, &limits(), now
        ),
        Err(OpenValidationError::Forbidden)
    ));
}

#[test]
fn a_registration_must_fit_the_request() {
    let id = ServerId([4; 16]);
    let accepted = AgentRegistration {
        accepted: true,
        rejection_reason: String::new(),
        server_id: vec![4; 16],
        max_frame_bytes: 65_536,
        keepalive_interval_ms: 15_000,
    };
    assert!(validate_registration(id, &[4; 16], &accepted, &limits()).is_ok());
    assert!(validate_registration(id, &[5; 16], &accepted, &limits()).is_err());
    let other = AgentRegistration { server_id: vec![5; 16], ..accepted.clone() };
    assert!(validate_registration(id, &[4; 16], &other, &limits()).is_err());
    let refused = AgentRegistration {
        accepted: false,
        rejection_reason: "unknown server".to_string(),
        ..accepted
    };
    assert_eq!(
        validate_registration(id, &[4; 16], &refused, &limits()),
        Err(AgentError::Rejected("unknown server".to_string()))
    );
}

#[test]
fn waits_double_up_to_the_longest() {
    let policy = ReconnectPolicy { initial_delay: 250, maximum_delay: 1_500 };
    let mut link = AgentSupervisor::new(policy, "aud".to_string(), &limits()).ok().unwrap();
    assert_eq!(link.disconnected(), 250);
    assert_eq!(link.disconnected(), 500);
    assert_eq!(link.disconnected(), 1_000);
    assert_eq!(link.disconnected(), 1_500);
    assert_eq!(link.disconnected(), 1_500);
    link.registered();
    assert!(link.status().snapshot().connected);
    assert_eq!(link.status().snapshot().registrations, 1);
    assert_eq!(link.disconnected(), 250);
    assert!(!link.status().snapshot().connected);
    assert_eq!(link.grant_audience(), "aud");
}

#[test]
fn policies_and_audiences_are_checked() {
    let bad = ReconnectPolicy { initial_delay: 10, maximum_delay: 5 };
    assert!(matches!(
        AgentSupervisor::new(bad, "aud".to_string(), &limits()),
        Err(AgentError::InvalidReconnectPolicy)
    ));
    assert!(matches!(
        AgentSupervisor::new(ReconnectPolicy::default(), String::new(), &limits()),
        Err(AgentError::InvalidGrantAudience)
    ));
    let config = DaemonConfig::default();
    assert!(matches!(
        start_agent(&config, ReconnectPolicy::default(), "aud".to_string(), &limits()),
        Err(AgentError::MissingAccountPolicy)
    ));
    let config = DaemonConfig { account_policy: Some(vec![]), ..config };
    assert!(start_agent(&config, ReconnectPolicy::default(), "aud".to_string(), &limits()).is_ok());
}

#[test]
fn a_pong_must_return_the_nonce() {
    let pong = |nonce| Envelope {
        request_id: 1,
        server_id: vec![],
        shell_id: vec![],
        message: Some(Message::AgentPong { nonce }),
    };
    assert!(check_pong(&pong(7), 7).is_ok());
    assert_eq!(check_pong(&pong(8), 7), Err(AgentError::UnexpectedResponse));
}

#[test]
fn refusals_do_not_tell_whose_shell_it_is() {
    let error = |kind| SessionError { kind, text: "detail".to_string() };
    let missing = map_attachment_session_error(&error(SessionErrorKind::ShellNotFound));
    let foreign = map_attachment_session_error(&error(SessionErrorKind::Forbidden));
    assert_eq!(missing, foreign);
    let denied = map_session_error(&error(SessionErrorKind::Forbidden));
    assert_eq!(denied.code, ErrorCode::ErrForbidden);
    assert_eq!(
        map_open_validation_error(OpenValidationError::Unauthenticated).code,
        ErrorCode::ErrUnauthenticated
    );
}
