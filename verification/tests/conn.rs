use holdfast::auth::{AuthMode, AuthState};
use holdfast::conn::{
    attachment_closed, attachment_event, hex16, Action, AttachReply, Clock, Conn, ListedShell,
    Outcome, UploadEnd,
};
use holdfast::daemon::{auth_state, derive_server_id, server_id_for, Daemon, DaemonConfig};
use holdfast::forward::ForwardService;
use holdfast::grant::{GrantClaims, GrantSigner};
use holdfast::ids::{ServerId, ShellId};
use holdfast::net::IpAddr;
use holdfast::observability::{AuditEvent, RejectReason, UploadOutcome};
use holdfast::password::PasswordAuth;
use holdfast::protocol::{
    Attachment, AttachmentEvent, AuthenticationResult, Capability, ClientHello, Credential, Envelope, ErrorCode,
    Message, Negotiated, OpenedShell, SessionError, SessionErrorKind, ShellExit, ShellState,
};
use holdfast::ssh::{channel_bound_message, SshVerifier, SSH_NAMESPACE};
use holdfast::uploads::UploadError;
use sha2::{Digest, Sha256};
use ssh_key::private::Ed25519Keypair;
use ssh_key::{HashAlg, PrivateKey};

const LOOPBACK: IpAddr = IpAddr::V4(0x7F00_0001);

fn clock(tick_ms: u64) -> Clock {
    Clock { tick_ms, now_ms: 1_700_000_000_000 }
}

fn plain(request_id: u64, message: Message) -> Envelope {
    Envelope { request_id, server_id: vec![], shell_id: vec![], message: Some(message) }
}

fn no_forwarding() -> ForwardService {
    ForwardService::new(vec![]).ok().unwrap()
}

fn key(seed: u8) -> PrivateKey {
    PrivateKey::from(Ed25519Keypair::from_seed(&[seed; 32]))
}

fn with_users(users: &[(&str, &PrivateKey)]) -> AuthState {
    let users = users
        .iter()
        .map(|(name, key)| {
            let line = key.public_key().to_openssh().unwrap();
            (name.to_string(), SshVerifier::from_authorized_keys(&line).ok().unwrap())
        })
        .collect();
    AuthState::new(AuthMode::SshKeys { users }, None, "srv_test".to_string(), Some([7; 32]))
}

fn greeted(binding: Vec<u8>) -> Conn {
    let mut conn = Conn::new(ServerId([1; 16]), LOOPBACK, 65_536, vec![], false, binding);
    let out = conn.negotiated(
        1,
        Ok(Negotiated { protocol_minor: 0, max_frame_bytes: 4_096, capabilities: vec![] }),
    );
    assert!(out.open);
    conn
}

fn login_result(out: &Outcome) -> AuthenticationResult {
    out.actions
        .iter()
        .find_map(|a| match a {
            Action::Send {
                envelope: Envelope { message: Some(Message::AuthenticationResult(r)), .. },
                ..
            } => Some(r.clone()),
            _ => None,
        })
        .expect("a login is answered")
}

fn refusal(out: &Outcome) -> ErrorCode {
    out.actions
        .iter()
        .find_map(|a| match a {
            Action::Send {
                envelope: Envelope { message: Some(Message::Error { code, .. }), .. },
                ..
            } => Some(*code),
            _ => None,
        })
        .expect("a refusal is answered")
}

fn ssh_login(conn: &mut Conn, auth: &mut AuthState, user: &str, key: &PrivateKey, tick: u64) -> AuthenticationResult {
    let service = no_forwarding();
    let request = Credential::SshChallengeRequest {
        username: user.to_string(),
        public_key: key.public_key().to_openssh().unwrap().into_bytes(),
    };
    let out = conn.dispatch(
        auth,
        &service,
        0,
        plain(2, Message::Authenticate { method: Some(request) }),
        clock(tick),
    );
    let first = login_result(&out);
    if first.challenge.is_empty() {
        return first;
    }
    let message = channel_bound_message(b"", &first.challenge);
    let signature = key.sign(SSH_NAMESPACE, HashAlg::Sha512, &message).unwrap();
    let response = Credential::SshChallengeResponse {
        challenge: first.challenge,
        signature: signature.to_pem(ssh_key::LineEnding::LF).unwrap().into_bytes(),
    };
    let out = conn.dispatch(
        auth,
        &service,
        0,
        plain(3, Message::Authenticate { method: Some(response) }),
        clock(tick),
    );
    login_result(&out)
}

fn grant_login(conn: &mut Conn, auth: &mut AuthState, grant: Vec<u8>) -> AuthenticationResult {
    let out = conn.dispatch(
        auth,
        &no_forwarding(),
        0,
        plain(4, Message::Authenticate { method: Some(Credential::ConnectionGrant(grant)) }),
        clock(0),
    );
    login_result(&out)
}

#[test]
fn a_hello_is_negotiated_first() {
    let mut auth = with_users(&[]);
    let mut conn = Conn::new(ServerId([1; 16]), LOOPBACK, 65_536, vec![], true, vec![]);
    assert_eq!(conn.max_frame_bytes(), 65_536);
    let hello = ClientHello {
        protocol_major: 0,
        protocol_minor: 3,
        client_build: "test".to_string(),
        capabilities: vec![],
        max_frame_bytes: 4_096,
        max_datagram_bytes: 0,
    };
    let out = conn.dispatch(
        &mut auth,
        &no_forwarding(),
        0,
        plain(1, Message::ClientHello(hello.clone())),
        clock(0),
    );
    assert!(out.open);
    assert_eq!(
        out.actions,
        vec![Action::Negotiate {
            request_id: 1,
            hello,
            offered: vec![],
            max_frame_bytes: 65_536,
            max_datagram_bytes: 1_200,
            transport_datagrams: true,
        }]
    );
    let conn = greeted(vec![]);
    assert_eq!(conn.max_frame_bytes(), 4_096);
}

#[test]
fn nothing_is_served_before_a_login() {
    let mut auth = with_users(&[]);
    let mut conn = greeted(vec![]);
    for message in [
        Message::ListServers,
        Message::ListShells,
        Message::TerminateShell,
        Message::OpenShell {
            unix_account: String::new(),
            command: String::new(),
            initial_cols: 80,
            initial_rows: 24,
            idempotency_key: vec![0; 16],
        },
    ] {
        let out = conn.dispatch(&mut auth, &no_forwarding(), 0, plain(9, message), clock(0));
        assert_eq!(refusal(&out), ErrorCode::ErrUnauthenticated);
    }
}

#[test]
fn an_issued_grant_logs_in_again() {
    let alice = key(1);
    let mut auth = with_users(&[("alice", &alice)]);
    let mut conn = greeted(vec![]);
    let first = ssh_login(&mut conn, &mut auth, "alice", &alice, 0);
    assert!(first.ok);
    assert_eq!(first.user_id, "alice");
    assert!(!first.challenge.is_empty(), "the grant comes with the answer");

    let mut again = greeted(vec![]);
    let second = grant_login(&mut again, &mut auth, first.challenge);
    assert!(second.ok);
    assert_eq!(second.user_id, "alice");
}

#[test]
fn five_failures_lock_a_source_out() {
    let alice = key(1);
    let mallory = key(2);
    let mut auth = with_users(&[("alice", &alice)]);
    for _ in 0..5 {
        let mut conn = greeted(vec![]);
        assert!(!ssh_login(&mut conn, &mut auth, "alice", &mallory, 10).ok);
    }
    let mut conn = greeted(vec![]);
    let locked = ssh_login(&mut conn, &mut auth, "alice", &alice, 11);
    assert!(!locked.ok);
    assert_eq!(locked.error_code, Some(ErrorCode::ErrLimitExceeded));
    let mut conn = greeted(vec![]);
    assert!(ssh_login(&mut conn, &mut auth, "alice", &alice, 60_011).ok);
}

#[test]
fn a_signature_for_another_channel_is_refused() {
    let alice = key(1);
    let mut auth = with_users(&[("alice", &alice)]);
    let mut conn = greeted(vec![0x42; 32]);
    let result = ssh_login(&mut conn, &mut auth, "alice", &alice, 0);
    assert!(!result.ok, "the signature is not over this channel's binding");
}

#[test]
fn scoped_grants_stay_scoped() {
    let mut auth = with_users(&[]);
    let grant = auth.grant_signer.issue(&GrantClaims {
        sub: "alice".to_string(),
        aud: "srv_test".to_string(),
        servers: vec![],
        ops: vec!["list".to_string()],
        iat_ms: 0,
        exp_ms: 4_102_444_800_000,
        jti: "scope".to_string(),
    });
    let mut conn = greeted(vec![]);
    assert!(grant_login(&mut conn, &mut auth, grant.as_bytes().to_vec()).ok);
    assert!(conn.permits("list"));
    assert!(!conn.permits("open"));
    let service = no_forwarding();
    let out = conn.dispatch(&mut auth, &service, 0, plain(5, Message::ListShells), clock(0));
    assert_eq!(out.actions, vec![Action::ListShells { request_id: 5 }]);
    let open = Message::OpenShell {
        unix_account: String::new(),
        command: String::new(),
        initial_cols: 80,
        initial_rows: 24,
        idempotency_key: vec![0; 16],
    };
    let out = conn.dispatch(&mut auth, &service, 0, plain(6, open), clock(0));
    assert_eq!(refusal(&out), ErrorCode::ErrForbidden);
    let mut terminate = plain(7, Message::TerminateShell);
    terminate.shell_id = vec![3; 16];
    let out = conn.dispatch(&mut auth, &service, 0, terminate, clock(0));
    assert_eq!(refusal(&out), ErrorCode::ErrForbidden);
}

#[test]
fn scoped_grant_ops_are_enforced() {
    let grant_key = [7u8; 32];
    let mut auth = with_users(&[]);
    let grant = GrantSigner::from_bytes(&grant_key).issue(&GrantClaims {
        sub: "alice".to_string(),
        aud: "srv_test".to_string(),
        servers: vec![],
        ops: vec!["list".to_string()],
        iat_ms: 0,
        exp_ms: 4_102_444_800_000,
        jti: "test-jti".to_string(),
    });
    let mut conn = Conn::new(ServerId([1; 16]), LOOPBACK, 65_536, vec![], false, vec![]);
    let _ = conn.negotiated(
        1,
        Ok(Negotiated {
            protocol_minor: 0,
            max_frame_bytes: 65_536,
            capabilities: vec![Capability::FileTransfer],
        }),
    );
    assert!(
        grant_login(&mut conn, &mut auth, grant.as_bytes().to_vec()).ok,
        "valid scoped grant must authenticate"
    );
    let service = no_forwarding();
    let out = conn.dispatch(&mut auth, &service, 0, plain(0, Message::ListShells), clock(0));
    assert_eq!(out.actions, vec![Action::ListShells { request_id: 0 }], "list is permitted");
    let open = Message::OpenShell {
        unix_account: String::new(),
        command: String::new(),
        initial_cols: 80,
        initial_rows: 24,
        idempotency_key: vec![0; 16],
    };
    let out = conn.dispatch(&mut auth, &service, 0, plain(0, open), clock(0));
    assert_eq!(refusal(&out), ErrorCode::ErrForbidden);
    let mut term = plain(0, Message::TerminateShell);
    term.shell_id = vec![9u8; 16];
    let out = conn.dispatch(&mut auth, &service, 0, term, clock(0));
    assert_eq!(refusal(&out), ErrorCode::ErrForbidden);
    let mut upload = plain(
        0,
        Message::BeginUpload {
            original_name: "forbidden.txt".to_string(),
            total_bytes: 0,
            sha256: Sha256::digest([]).to_vec(),
        },
    );
    upload.shell_id = vec![8u8; 16];
    let out = conn.dispatch(&mut auth, &service, 3, upload, clock(0));
    assert_eq!(refusal(&out), ErrorCode::ErrForbidden);
    assert!(!out.actions.iter().any(|a| matches!(a, Action::CheckUploadOwner { .. })));
}

#[test]
fn users_see_and_end_only_their_own_shells() {
    let bob = key(3);
    let mut auth = with_users(&[("bob", &bob)]);
    let mut conn = greeted(vec![]);
    assert!(ssh_login(&mut conn, &mut auth, "bob", &bob, 0).ok);
    let shells = vec![
        ListedShell {
            shell_id: ShellId([1; 16]),
            owner: "alice".to_string(),
            state: ShellState::Running,
            created_at_ms: 1,
            last_attached_at_ms: 2,
        },
        ListedShell {
            shell_id: ShellId([2; 16]),
            owner: "bob".to_string(),
            state: ShellState::Running,
            created_at_ms: 3,
            last_attached_at_ms: 4,
        },
    ];
    let out = conn.shells_listed(8, &shells);
    match &out.actions[0] {
        Action::Send { envelope: Envelope { message: Some(Message::ShellList { shells }), .. }, .. } => {
            assert_eq!(shells.len(), 1);
            assert_eq!(shells[0].shell_id, vec![2; 16]);
        }
        other => panic!("no list: {other:?}"),
    }
    let out = conn.owner_checked(9, ShellId([1; 16]), Some("alice"));
    assert_eq!(refusal(&out), ErrorCode::ErrNotFound);
    let out = conn.owner_checked(9, ShellId([1; 16]), None);
    assert_eq!(refusal(&out), ErrorCode::ErrNotFound);
    let out = conn.owner_checked(9, ShellId([2; 16]), Some("bob"));
    assert_eq!(
        out.actions,
        vec![Action::Terminate { request_id: 9, shell_id: ShellId([2; 16]) }]
    );
    let out = conn.upload_owner_checked(
        3,
        10,
        ShellId([1; 16]),
        Some("alice"),
        "probe.txt".to_string(),
        0,
        vec![0; 32],
    );
    assert_eq!(refusal(&out), ErrorCode::ErrForbidden);
}

#[test]
fn a_password_login_is_checked_and_answered_with_a_grant() {
    let mut auth = AuthState::new(
        AuthMode::SshKeys { users: vec![] },
        Some(PasswordAuth { users: vec!["alice".to_string()] }),
        "srv_test".to_string(),
        Some([7; 32]),
    );
    let service = no_forwarding();
    let mut conn = greeted(vec![]);
    let ask = |username: &str, password: String| {
        plain(
            4,
            Message::Authenticate {
                method: Some(Credential::PasswordRequest {
                    username: username.to_string(),
                    password,
                }),
            },
        )
    };
    let out = conn.dispatch(&mut auth, &service, 0, ask("alice", "secret".to_string()), clock(0));
    assert_eq!(
        out.actions,
        vec![Action::VerifyPassword {
            request_id: 4,
            username: "alice".to_string(),
            password: "secret".to_string(),
        }]
    );
    let refused = conn.password_checked(&mut auth, 4, "alice".to_string(), false, clock(0));
    assert!(!login_result(&refused).ok);
    let accepted = conn.password_checked_with(&mut auth, 4, "alice".to_string(), true, clock(0), [0; 16]);
    let result = login_result(&accepted);
    assert!(result.ok);
    let mut again = greeted(vec![]);
    assert!(grant_login(&mut again, &mut auth, result.challenge).ok);

    let mut conn = greeted(vec![]);
    let out = conn.dispatch(&mut auth, &service, 0, ask("mallory", "secret".to_string()), clock(0));
    assert!(!login_result(&out).ok);
    let out = conn.dispatch(&mut auth, &service, 0, ask("alice", "x".repeat(1025)), clock(0));
    assert!(!login_result(&out).ok);
    let mut none = with_users(&[]);
    let out = conn.dispatch(&mut none, &service, 0, ask("alice", "secret".to_string()), clock(0));
    assert!(!login_result(&out).ok);
}

#[test]
fn a_persisted_key_gives_a_stable_server_and_grants_that_last() {
    let config = DaemonConfig { grant_signing_key: Some([9; 32]), ..DaemonConfig::default() };
    let before_id = server_id_for(&config);
    let after_id = server_id_for(&config);
    assert_eq!(before_id, after_id);
    assert_eq!(before_id, derive_server_id(&[9; 32]));
    assert_ne!(before_id, derive_server_id(&[8; 32]));
    let before = auth_state(&config, AuthMode::SshKeys { users: vec![] }, &before_id);
    let mut after = auth_state(&config, AuthMode::SshKeys { users: vec![] }, &after_id);
    let grant = before.grant_signer.issue(&GrantClaims {
        sub: "alice".to_string(),
        aud: before.audience.clone(),
        servers: vec![],
        ops: vec![],
        iat_ms: 0,
        exp_ms: 4_102_444_800_000,
        jti: "restart".to_string(),
    });
    let mut conn = greeted(vec![]);
    assert!(grant_login(&mut conn, &mut after, grant.as_bytes().to_vec()).ok);
}

#[test]
fn an_attachment_lives_and_dies_with_its_channel() {
    let alice = key(1);
    let mut auth = with_users(&[("alice", &alice)]);
    let service = no_forwarding();
    let mut conn = greeted(vec![]);
    assert!(ssh_login(&mut conn, &mut auth, "alice", &alice, 0).ok);
    let mut attach = plain(
        5,
        Message::AttachShell {
            resume_token: vec![1; 32],
            cols: 80,
            rows: 24,
            last_seen_revision: 0,
            last_history_line_id: 0,
        },
    );
    attach.shell_id = vec![4; 16];
    let out = conn.dispatch(&mut auth, &service, 2, attach, clock(0));
    assert_eq!(
        out.actions,
        vec![Action::Attach {
            channel: 2,
            request_id: 5,
            user: "alice".to_string(),
            shell_id: ShellId([4; 16]),
            resume_token: vec![1; 32],
            cols: 80,
            rows: 24,
        }]
    );
    assert!(!conn.is_busy(2));
    let out = conn.attached(
        2,
        5,
        ShellId([4; 16]),
        AttachReply::Attached(Attachment {
            attachment_id: 11,
            snapshot: b"screen".to_vec(),
            screen_revision: 3,
            rotated_resume_token: vec![2; 32],
            oldest_history_line_id: 1,
            newest_history_line_id: 9,
        }),
    );
    assert!(out.open);
    assert!(conn.is_busy(2));
    let out = conn.dispatch(
        &mut auth,
        &service,
        2,
        plain(6, Message::TerminalInput { data: b"ls\n".to_vec() }),
        clock(0),
    );
    assert!(matches!(
        &out.actions[..],
        [Action::WriteInput { channel: 2, shell_id, data, .. }]
            if *shell_id == ShellId([4; 16]) && data == b"ls\n"
    ));
    let out = conn.channel_closed(2);
    assert!(out
        .actions
        .contains(&Action::Detach { shell_id: ShellId([4; 16]), attachment_id: 11 }));
    assert!(!conn.is_busy(2));
}

#[test]
fn a_replayed_token_has_a_code_of_its_own() {
    let alice = key(1);
    let mut auth = with_users(&[("alice", &alice)]);
    let mut conn = greeted(vec![]);
    assert!(ssh_login(&mut conn, &mut auth, "alice", &alice, 0).ok);
    let error = SessionError { kind: SessionErrorKind::TokenReplayed, text: "used".to_string() };
    let out = conn.attached(2, 5, ShellId([4; 16]), AttachReply::Refused(error));
    assert_eq!(refusal(&out), ErrorCode::ErrTokenReplayed);
    assert!(out.actions.iter().any(|a| matches!(
        a,
        Action::Audit(AuditEvent::ShellOperationRejected { reason: RejectReason::TokenReplayed, .. })
    )));
}

#[test]
fn results_are_answered_as_they_come() {
    let alice = key(1);
    let mut auth = with_users(&[("alice", &alice)]);
    let mut conn = greeted(vec![]);
    assert!(ssh_login(&mut conn, &mut auth, "alice", &alice, 0).ok);
    let out = conn.shell_opened(
        5,
        None,
        Ok(OpenedShell { shell_id: ShellId([4; 16]), resume_token: vec![8; 32], reused: false }),
    );
    assert!(out.actions.iter().any(|a| matches!(
        a,
        Action::Send { envelope: Envelope { shell_id, message: Some(Message::ShellOpened { .. }), .. }, .. }
            if *shell_id == vec![4; 16]
    )));
    let out = conn.shell_terminated(
        6,
        ShellId([4; 16]),
        Ok(ShellExit { exit_code: 3, success: false }),
    );
    assert!(out.actions.iter().any(|a| matches!(
        a,
        Action::Send { envelope: Envelope { message: Some(Message::ShellExited { exit_code: 3, .. }), .. }, .. }
    )));
    assert!(matches!(
        attachment_event(AttachmentEvent::Output(vec![1])).message,
        Some(Message::TerminalOutput { data }) if data == vec![1]
    ));
    assert!(attachment_closed(true).is_none());
    assert!(attachment_closed(false).is_some());
    assert_eq!(hex16(&[0xab; 16]), "ab".repeat(16));
}

#[test]
fn in_development_anybody_is_let_in() {
    let mut auth = AuthState::new(AuthMode::DevInsecure, None, "srv_dev".to_string(), None);
    let mut conn = greeted(vec![]);
    let out = conn.dispatch(
        &mut auth,
        &no_forwarding(),
        0,
        plain(2, Message::Authenticate { method: None }),
        clock(0),
    );
    assert!(login_result(&out).ok);
}

#[test]
fn uploads_run_on_channels_of_their_own() {
    let alice = key(1);
    let mut auth = with_users(&[("alice", &alice)]);
    let service = no_forwarding();
    let mut conn = greeted(vec![]);
    assert!(ssh_login(&mut conn, &mut auth, "alice", &alice, 0).ok);
    let shell = ShellId([4; 16]);
    let out = conn.upload_begun(3, 8, shell, "f.txt".to_string(), 5, Ok((vec![6; 16], 1_024)));
    assert!(matches!(
        &out.actions[1],
        Action::Send { channel: 3, envelope: Envelope { message: Some(Message::UploadAccepted { .. }), .. } }
    ));
    assert!(conn.is_busy(3));
    let chunk = plain(
        9,
        Message::UploadChunk { upload_id: vec![6; 16], offset: 0, data: vec![1; 5] },
    );
    let out = conn.dispatch(&mut auth, &service, 3, chunk.clone(), clock(0));
    assert_eq!(out.actions, vec![Action::UploadFrame { channel: 3, envelope: chunk }]);
    let out = conn.upload_ended(3, UploadEnd::Cancelled);
    assert!(out.actions.iter().any(|a| matches!(
        a,
        Action::Audit(AuditEvent::UploadEnded { outcome: UploadOutcome::Cancelled, .. })
    )));
    assert!(!conn.is_busy(3));
    let out = conn.upload_begun(
        3,
        8,
        shell,
        "f.txt".to_string(),
        5,
        Err(UploadError::LimitExceeded),
    );
    assert_eq!(refusal(&out), ErrorCode::ErrLimitExceeded);
    assert!(!conn.is_busy(3));
}

#[test]
fn forwarding_needs_its_own_permission() {
    let alice = key(1);
    let mut auth = with_users(&[("alice", &alice)]);
    let mut conn = Conn::new(ServerId([1; 16]), LOOPBACK, 65_536, vec![], false, vec![]);
    let _ = conn.negotiated(
        1,
        Ok(Negotiated {
            protocol_minor: 0,
            max_frame_bytes: 65_536,
            capabilities: vec![Capability::TcpForward],
        }),
    );
    let open = || {
        plain(0, Message::OpenTcpForward { host: "127.0.0.1".to_string(), port: 22 })
    };
    let allowed = ForwardService::new(vec!["alice".to_string()]).ok().unwrap();
    let out = conn.dispatch(&mut auth, &allowed, 5, open(), clock(0));
    assert_eq!(refusal(&out), ErrorCode::ErrUnauthenticated);
    assert!(ssh_login(&mut conn, &mut auth, "alice", &alice, 0).ok);
    let out = conn.dispatch(&mut auth, &no_forwarding(), 5, open(), clock(0));
    assert_eq!(refusal(&out), ErrorCode::ErrForbidden);
    let out = conn.dispatch(&mut auth, &allowed, 5, open(), clock(0));
    assert!(matches!(
        &out.actions[..],
        [Action::OpenForward { channel: 5, user, host, port: 22, .. }]
            if host == "127.0.0.1" && user == "alice"
    ));
    assert!(conn.is_busy(5));
    conn.forward_ended(5);
    assert!(!conn.is_busy(5));
    let _ = conn.dispatch(&mut auth, &allowed, 5, open(), clock(0));
    let out = conn.forward_refused(5);
    assert_eq!(refusal(&out), ErrorCode::ErrLimitExceeded);
    assert!(!conn.is_busy(5));
}

#[test]
fn losing_the_connection_detaches_and_ends_nothing() {
    let alice = key(1);
    let mut auth = with_users(&[("alice", &alice)]);
    let mut conn = greeted(vec![]);
    assert!(ssh_login(&mut conn, &mut auth, "alice", &alice, 0).ok);
    for channel in 1..4 {
        let _ = conn.attached(
            channel,
            5,
            ShellId([channel as u8; 16]),
            AttachReply::Attached(Attachment {
                attachment_id: channel,
                snapshot: vec![],
                screen_revision: 0,
                rotated_resume_token: vec![],
                oldest_history_line_id: 0,
                newest_history_line_id: 0,
            }),
        );
    }
    let out = conn.detach_all();
    let detached = out.actions.iter().filter(|a| matches!(a, Action::Detach { .. })).count();
    assert_eq!(detached, 3);
    assert!(!out.actions.iter().any(|a| matches!(a, Action::Terminate { .. })));
    let error = SessionError { kind: SessionErrorKind::NotRunning, text: "gone".to_string() };
    assert_eq!(refusal(&conn.input_written(1, 2, Some(error))), ErrorCode::ErrNotFound);
    assert!(conn.input_written(1, 2, None).actions.is_empty());
}

/// Greets a daemon that speaks version 3, and logs in where that is asked for.
fn client(daemon: &mut Daemon, auth: bool, minor: u32) -> (Conn, Vec<Capability>) {
    let mut conn = daemon.connection(LOOPBACK, 65_536, false, vec![]);
    let hello = ClientHello {
        protocol_major: 0,
        protocol_minor: minor,
        client_build: "test".to_string(),
        capabilities: vec![Capability::FileTransfer, Capability::TcpForward],
        max_frame_bytes: 65_536,
        max_datagram_bytes: 0,
    };
    let out = conn.dispatch(
        &mut daemon.auth,
        &daemon.forward,
        0,
        plain(1, Message::ClientHello(hello)),
        clock(0),
    );
    let Action::Negotiate { request_id, hello, offered, max_frame_bytes, .. } =
        out.actions.into_iter().next().unwrap()
    else {
        panic!("a hello is negotiated")
    };
    let capabilities: Vec<Capability> = hello
        .capabilities
        .into_iter()
        .filter(|capability| minor >= 3 && offered.contains(capability))
        .collect();
    let negotiated = Negotiated {
        protocol_minor: minor,
        max_frame_bytes,
        capabilities: capabilities.clone(),
    };
    assert!(conn.negotiated(request_id, Ok(negotiated)).open);
    if auth {
        let login = Message::Authenticate { method: Some(Credential::ConnectionGrant(vec![])) };
        let out = conn.dispatch(&mut daemon.auth, &daemon.forward, 0, plain(2, login), clock(0));
        assert!(login_result(&out).ok);
    }
    (conn, capabilities)
}

#[test]
fn forwarding_requires_capability_auth_and_allowlist_before_tcp() {
    for (users, auth, minor, code) in [
        (vec![], true, 3, ErrorCode::ErrUnknownMessage),
        (vec!["dev"], false, 3, ErrorCode::ErrUnauthenticated),
        (vec!["other"], true, 3, ErrorCode::ErrForbidden),
        (vec!["dev"], true, 2, ErrorCode::ErrUnknownMessage),
    ] {
        let config = DaemonConfig {
            webtransport_bind: None,
            enable_websocket: true,
            tcp_forward_users: users.iter().map(|s| s.to_string()).collect(),
            ..DaemonConfig::default()
        };
        let mut daemon = Daemon::start(&config, 1 << 30).ok().unwrap();
        let (mut conn, capabilities) = client(&mut daemon, auth, minor);
        assert_eq!(
            capabilities.contains(&Capability::TcpForward),
            !users.is_empty() && minor >= 3
        );
        let open = Message::OpenTcpForward { host: "127.0.0.1".to_string(), port: 4000 };
        let out = conn.dispatch(&mut daemon.auth, &daemon.forward, 1, plain(3, open), clock(0));
        assert_eq!(refusal(&out), code);
        assert!(out.actions.iter().all(|a| match a {
            Action::Send { channel, .. } => *channel == 1,
            other => !matches!(other, Action::OpenForward { .. }),
        }));
    }
}

#[test]
fn upload_capability_stays_disabled_without_an_explicit_root() {
    let config = DaemonConfig { enable_websocket: true, ..DaemonConfig::default() };
    let mut daemon = Daemon::start(&config, 1 << 30).ok().unwrap();
    assert_eq!(daemon.offered(), vec![]);
    let (mut conn, capabilities) = client(&mut daemon, true, 3);
    assert!(!capabilities.contains(&Capability::FileTransfer));
    let begin = Envelope {
        shell_id: vec![92; 16],
        ..plain(
            6,
            Message::BeginUpload {
                original_name: "disabled.txt".to_string(),
                total_bytes: 0,
                sha256: Sha256::digest([]).to_vec(),
            },
        )
    };
    let out = conn.dispatch(&mut daemon.auth, &daemon.forward, 5, begin, clock(0));
    assert_eq!(refusal(&out), ErrorCode::ErrUnknownMessage);
    assert!(matches!(&out.actions[..], [Action::Send { channel: 5, .. }]));
    assert!(!conn.is_busy(5));
}

#[test]
fn a_daemon_offers_what_it_is_told_to() {
    let config = DaemonConfig {
        upload_root: Some(b"/var/lib/uploads".to_vec()),
        tcp_forward_users: vec!["dev".to_string()],
        ..DaemonConfig::default()
    };
    let mut daemon = Daemon::start(&config, 1 << 30).ok().unwrap();
    let offered = daemon.offered();
    assert_eq!(offered.len(), 2);
    assert!(offered.contains(&Capability::FileTransfer));
    assert!(offered.contains(&Capability::TcpForward));
    let (mut conn, _) = client(&mut daemon, true, 3);
    let open = Message::OpenTcpForward { host: "127.0.0.1".to_string(), port: 22 };
    let out = conn.dispatch(&mut daemon.auth, &daemon.forward, 5, plain(3, open), clock(0));
    assert!(matches!(&out.actions[..], [Action::OpenForward { port: 22, .. }]));
}

#[test]
fn each_password_login_gets_a_grant_of_its_own() {
    let mut auth = with_users(&[]);
    let mut conn = greeted(vec![]);
    let mut login = || {
        let user = "alice".to_string();
        login_result(&conn.password_checked(&mut auth, 4, user, true, clock(0))).challenge
    };
    let (first, second) = (login(), login());
    assert!(!first.is_empty());
    assert_ne!(first, second);
}
