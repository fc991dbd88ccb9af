use holdfast::agent::{check_pong, AgentError, AgentLimits, RegistrationRequest};
use holdfast::agent_link::{
    remaining_ms, AgentAction, AttachmentStream, ControlStep, RegisteredLink, StreamNext, StreamStep,
};
use holdfast::grant::{GrantClaims, GrantSigner};
use holdfast::ids::{ServerId, ShellId};
use holdfast::protocol::{
    AgentAttachShell, AgentOpenShell, AgentRegistration, Attachment, AttachmentEvent, Envelope,
    ErrorCode, HistoryRange, Message, OpenedShell, SessionError, SessionErrorKind, ShellExit,
};

const NOW: i64 = 1_700_000_000_000;

fn limits() -> AgentLimits {
    AgentLimits {
        control_frame_bytes_min: 1_024,
        control_frame_bytes_max: 65_536,
        attachment_frame_bytes_max: 65_536,
        audience_bytes_max: 128,
        user_id_bytes_max: 128,
        unix_account_bytes_max: 64,
        command_bytes_max: 4_096,
        grant_bytes_max: 4_096,
        history_lines_max: 1_000,
        terminal_input_bytes_max: 4,
        terminal_output_bytes_max: 4,
    }
}

fn server() -> ServerId {
    ServerId([9; 16])
}

fn signer() -> GrantSigner {
    GrantSigner::from_bytes(&[4; 32])
}

fn grant(op: &str) -> Vec<u8> {
    signer()
        .issue(&GrantClaims {
            sub: "alice".to_string(),
            aud: "aud".to_string(),
            servers: vec![server().to_text()],
            ops: vec![op.to_string()],
            iat_ms: NOW - 1_000,
            exp_ms: NOW + 60_000,
            jti: "j".to_string(),
        })
        .as_bytes()
        .to_vec()
}

fn control(server_id: Vec<u8>, message: Message) -> Envelope {
    Envelope { request_id: 5, server_id, shell_id: vec![], message: Some(message) }
}

fn registration() -> AgentRegistration {
    AgentRegistration {
        accepted: true,
        rejection_reason: String::new(),
        server_id: vec![9; 16],
        max_frame_bytes: 2_048,
        keepalive_interval_ms: 5_000,
    }
}

fn connect(answer: Message) -> Result<RegisteredLink, AgentError> {
    let request = RegistrationRequest::new(server(), "build".to_string(), &limits()).unwrap();
    RegisteredLink::connect(&request, control(vec![9; 16], answer), limits())
}

fn link() -> RegisteredLink {
    match connect(Message::AgentRegistration(registration())) {
        Ok(link) => link,
        Err(e) => panic!("no link: {e:?}"),
    }
}

fn serve(request: Envelope) -> ControlStep {
    link().serve_next(request, &signer().grant_verifier(), "aud", NOW)
}

fn open(op: &str) -> Message {
    Message::AgentOpenShell(AgentOpenShell {
        user_id: "alice".to_string(),
        unix_account: "alice".to_string(),
        command: String::new(),
        initial_cols: 80,
        initial_rows: 24,
        idempotency_key: vec![1; 16],
        connection_grant: grant(op),
    })
}

fn frame(shell_id: Vec<u8>, message: Message) -> Envelope {
    Envelope { request_id: 6, server_id: vec![9; 16], shell_id, message: Some(message) }
}

fn attach(op: &str) -> Envelope {
    frame(
        vec![7; 16],
        Message::AgentAttachShell(AgentAttachShell {
            user_id: "alice".to_string(),
            connection_grant: grant(op),
            cols: 80,
            rows: 24,
        }),
    )
}

fn begin(first: Envelope) -> (StreamStep, Option<AttachmentStream>) {
    AttachmentStream::begin(first, server(), &signer().grant_verifier(), "aud", limits(), NOW)
}

fn stream() -> AttachmentStream {
    begin(attach("attach")).1.unwrap()
}

fn code(step: &StreamStep) -> ErrorCode {
    match &step.replies[0].message {
        Some(Message::Error { code, .. }) => *code,
        other => panic!("no refusal: {other:?}"),
    }
}

#[test]
fn control_messages_are_for_this_server() {
    match serve(control(vec![9; 16], Message::AgentPing { nonce: 3 })) {
        ControlStep::Reply { reply, action } => {
            assert_eq!(reply.message, Some(Message::AgentPong { nonce: 3 }));
            assert_eq!(reply.server_id, vec![9; 16]);
            assert_eq!(action, AgentAction::Ping(3));
        }
        other => panic!("no pong: {other:?}"),
    }
    assert!(matches!(
        serve(control(vec![8; 16], Message::AgentPing { nonce: 3 })),
        ControlStep::Close { reply: Some(_), error: AgentError::ServerIdentityMismatch }
    ));
    assert!(matches!(
        serve(control(vec![], Message::AgentPing { nonce: 3 })),
        ControlStep::Close { reply: None, error: AgentError::ServerIdentityMismatch }
    ));
    assert!(matches!(
        serve(control(vec![9; 16], Message::ListShells)),
        ControlStep::Reply { action: AgentAction::UnknownRejected, .. }
    ));
}

#[test]
fn shells_open_with_a_grant_for_it() {
    assert!(matches!(
        serve(control(vec![9; 16], open("open"))),
        ControlStep::OpenShell { request_id: 5, request } if request.user == "alice"
    ));
    assert!(matches!(
        serve(control(vec![9; 16], open("list"))),
        ControlStep::Reply {
            action: AgentAction::ShellRejected { code: ErrorCode::ErrForbidden },
            ..
        }
    ));
    let link = link();
    let opened = OpenedShell { shell_id: ShellId([2; 16]), resume_token: vec![1], reused: true };
    let (reply, action) = link.shell_opened(5, Ok(opened));
    assert!(matches!(reply.message, Some(Message::AgentShellOpened { reused: true, .. })));
    assert_eq!(action, AgentAction::ShellOpened { shell_id: ShellId([2; 16]), reused: true });
    let full = SessionError { kind: SessionErrorKind::LimitExceeded, text: String::new() };
    assert_eq!(
        link.shell_opened(5, Err(full)).1,
        AgentAction::ShellRejected { code: ErrorCode::ErrLimitExceeded }
    );
}

#[test]
fn a_stream_starts_with_a_grant_to_attach() {
    let (step, stream) = begin(attach("attach"));
    assert!(stream.is_some());
    assert!(step.replies.is_empty());
    assert!(matches!(
        step.next,
        StreamNext::Attach { user_id, shell_id: ShellId([7, ..]), cols: 80, rows: 24, expires_at_ms }
            if user_id == "alice" && expires_at_ms == NOW + 60_000
    ));
    let (step, _) = begin(attach("open"));
    assert_eq!(code(&step), ErrorCode::ErrForbidden);
    let mut foreign = attach("attach");
    foreign.server_id = vec![8; 16];
    let (step, stream) = begin(foreign);
    assert!(stream.is_none());
    assert_eq!(step.next, StreamNext::Failed(AgentError::ServerIdentityMismatch));
}

#[test]
fn a_stream_keeps_to_its_shell_and_its_limits() {
    let stream = stream();
    let step = stream.frame(frame(vec![7; 16], Message::TerminalInput { data: vec![1, 2] }));
    assert_eq!(step.next, StreamNext::WriteInput { request_id: 6, shell_id: ShellId([7; 16]), data: vec![1, 2] });
    let step = stream.frame(frame(vec![6; 16], Message::TerminalInput { data: vec![1] }));
    assert_eq!(step.next, StreamNext::Failed(AgentError::AttachmentIdentityMismatch));
    let step = stream.frame(frame(vec![7; 16], Message::TerminalInput { data: vec![1; 5] }));
    assert_eq!(step.replies.len(), 1);
    let step = stream.event(Some(AttachmentEvent::Output(vec![1; 5])));
    assert_eq!(step.next, StreamNext::Failed(AgentError::OversizedTerminalOutput(5)));
    let step = stream.event(Some(AttachmentEvent::Output(vec![1; 4])));
    assert_eq!(step.replies[0].shell_id, vec![7; 16]);
    assert_eq!(step.next, StreamNext::Continue);
    let step = stream.event(Some(AttachmentEvent::Exited(ShellExit { exit_code: 0, success: true })));
    assert!(matches!(
        step.replies[0].message,
        Some(Message::ShellExited { exit_code: 0, .. })
    ));
}

#[test]
fn results_reach_the_stream() {
    let mut stream = stream();
    assert_eq!(begin(attach("attach")).1.unwrap().ended(), None);
    let step = stream.attached(
        6,
        Ok(Attachment {
            attachment_id: 1,
            snapshot: vec![5],
            screen_revision: 2,
            rotated_resume_token: vec![],
            oldest_history_line_id: 3,
            newest_history_line_id: 4,
        }),
    );
    assert!(matches!(
        &step.replies[0].message,
        Some(Message::AgentShellAttached { screen_snapshot, .. }) if screen_snapshot == &vec![5]
    ));
    assert_eq!(stream.operated(6, None).next, StreamNext::Continue);
    let gone = SessionError { kind: SessionErrorKind::NotRunning, text: String::new() };
    let step = stream.operated(6, Some(gone));
    assert_eq!(code(&step), ErrorCode::ErrNotReady);
    assert_eq!(step.next, StreamNext::Done);
    let range = HistoryRange {
        first_line_id: 1,
        lines: vec!["l".to_string()],
        truncated_by_eviction: false,
    };
    assert_eq!(stream.history_read(6, Ok((range, Some(1)))).replies.len(), 2);
    assert_eq!(code(&stream.expired()), ErrorCode::ErrTokenExpired);
    assert_eq!(stream.ended(), Some((ShellId([7; 16]), 1)));
    assert_eq!(remaining_ms(10, 4), 6);
    assert_eq!(remaining_ms(4, 10), 0);
    assert_eq!(remaining_ms(i64::MAX, -5), i64::MAX as u64);
}

#[test]
fn a_registration_makes_a_link() {
    let request = RegistrationRequest::new(server(), "build".to_string(), &limits()).unwrap();
    let first = request.message(1, 2);
    assert_eq!(first.server_id, vec![9; 16]);
    assert_eq!(
        first.message,
        Some(Message::AgentRegister {
            protocol_major: 1,
            protocol_minor: 2,
            server_id: vec![9; 16],
            agent_build: "build".to_string(),
            max_frame_bytes: 65_536,
        })
    );
    let link = link();
    assert_eq!(link.server_id(), server());
    assert_eq!(link.max_frame_bytes(), 2_048);
    assert_eq!(link.keepalive_interval_ms(), 5_000);
    let ping = link.ping(7);
    assert_eq!(ping.message, Some(Message::AgentPing { nonce: 7 }));
    let pong = control(vec![9; 16], Message::AgentPong { nonce: 7 });
    assert!(check_pong(&pong, 7).is_ok());
}

#[test]
fn a_bad_registration_makes_none() {
    let refused = AgentRegistration {
        accepted: false,
        rejection_reason: "certificate identity mismatch".to_string(),
        ..registration()
    };
    assert_eq!(
        connect(Message::AgentRegistration(refused)).err(),
        Some(AgentError::Rejected("certificate identity mismatch".to_string()))
    );
    let other = AgentRegistration { server_id: vec![8; 16], ..registration() };
    assert_eq!(
        connect(Message::AgentRegistration(other)).err(),
        Some(AgentError::UnexpectedResponse)
    );
    assert_eq!(
        connect(Message::AgentPong { nonce: 1 }).err(),
        Some(AgentError::UnexpectedResponse)
    );
}

#[test]
fn a_link_serves_so_many_streams() {
    let mut link = link();
    for _ in 0..64 {
        assert!(link.accept_stream());
    }
    assert!(!link.accept_stream());
    link.stream_ended();
    assert!(link.accept_stream());
}
