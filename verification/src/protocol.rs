//! The messages that clients, daemons, agents and gateways exchange, as plain
//! values.

use vstd::prelude::*;

use crate::ids::ShellId;

verus! {

/// The error codes of the protocol.
#[derive(Debug, Clone, Copy, PartialEq, Eq, Structural)]
pub enum ErrorCode {
    ErrVersion,
    ErrUnauthenticated,
    ErrForbidden,
    ErrNotFound,
    ErrLimitExceeded,
    ErrUnknownMessage,
    ErrInvalidArgument,
    ErrTokenExpired,
    ErrTokenReplayed,
    ErrInputOverflow,
    ErrTooSlow,
    ErrNotReady,
    ErrServerUnavailable,
    ErrInternal,
    ErrFrameTooLarge,
}

/// What a peer can do beyond the basics.
#[derive(Debug, Clone, Copy, PartialEq, Eq, Structural)]
pub enum Capability {
    Datagrams,
    FileTransfer,
    TcpForward,
}

/// The state of a shell.
#[derive(Debug, Clone, Copy, PartialEq, Eq, Structural)]
pub enum ShellState {
    Running,
    Terminating,
    Exited,
}

/// Why the shell manager refused something.
#[derive(Debug, Clone, Copy, PartialEq, Eq, Structural)]
pub enum SessionErrorKind {
    ShellNotFound,
    NotRunning,
    LimitExceeded,
    Forbidden,
    InvalidToken,
    TokenReplayed,
    Pty,
    Internal,
}

/// A refusal of the shell manager, with its text.
#[derive(Debug, Clone, PartialEq, Eq)]
pub struct SessionError {
    pub kind: SessionErrorKind,
    pub text: String,
}

/// How a shell ended.
#[derive(Debug, Clone, Copy, PartialEq, Eq, Structural)]
pub struct ShellExit {
    pub exit_code: u32,
    pub success: bool,
}

/// What was agreed on in a handshake.
#[derive(Debug, Clone, PartialEq, Eq)]
pub struct Negotiated {
    pub protocol_minor: u32,
    pub max_frame_bytes: u32,
    pub capabilities: Vec<Capability>,
}

/// A client's first message.
#[derive(Debug, Clone, PartialEq, Eq)]
pub struct ClientHello {
    pub protocol_major: u32,
    pub protocol_minor: u32,
    pub client_build: String,
    pub capabilities: Vec<Capability>,
    pub max_frame_bytes: u32,
    pub max_datagram_bytes: u32,
}

/// One way to log in.
#[derive(Debug, Clone, PartialEq, Eq)]
pub enum Credential {
    /// A grant that was issued before.
    ConnectionGrant(Vec<u8>),
    /// A key that the client can sign with.
    SshChallengeRequest { username: String, public_key: Vec<u8> },
    /// The signature of a challenge.
    SshChallengeResponse { challenge: Vec<u8>, signature: Vec<u8> },
    /// A user's password.
    PasswordRequest { username: String, password: String },
}

/// What became of a login.
#[derive(Debug, Clone, PartialEq, Eq)]
pub struct AuthenticationResult {
    pub ok: bool,
    pub user_id: String,
    pub expires_at_ms: i64,
    pub error_code: Option<ErrorCode>,
    pub error_message: String,
    /// A challenge to sign, or the grant that was issued.
    pub challenge: Vec<u8>,
}

/// A server that can be reached.
#[derive(Debug, Clone, PartialEq, Eq)]
pub struct ServerInfo {
    pub server_id: Vec<u8>,
    pub display_name: String,
    pub healthy: bool,
}

/// A shell that can be attached.
#[derive(Debug, Clone, PartialEq, Eq)]
pub struct ShellInfo {
    pub server_id: Vec<u8>,
    pub shell_id: Vec<u8>,
    pub state: ShellState,
    pub title: String,
    pub created_at_ms: i64,
    pub last_attached_at_ms: i64,
}

/// What the shell manager is asked to open.
#[derive(Debug, Clone, PartialEq, Eq)]
pub struct OpenShellRequest {
    pub user: String,
    pub requested_account: Option<String>,
    pub command: Option<String>,
    pub args: Vec<String>,
    pub cols: u16,
    pub rows: u16,
    pub idempotency_key: [u8; 16],
}

/// The messages.
#[derive(Debug, Clone, PartialEq, Eq)]
pub enum Message {
    ClientHello(ClientHello),
    ServerHello { negotiated: Negotiated, keepalive_interval_ms: u32 },
    Authenticate { method: Option<Credential> },
    AuthenticationResult(AuthenticationResult),
    Ping { nonce: u64 },
    Pong { nonce: u64 },
    Close,
    Error { code: ErrorCode, human_message: String, retryable: bool },
    ListServers,
    ServerList { servers: Vec<ServerInfo> },
    ListShells,
    ShellList { shells: Vec<ShellInfo> },
    OpenShell {
        unix_account: String,
        command: String,
        initial_cols: u32,
        initial_rows: u32,
        idempotency_key: Vec<u8>,
    },
    ShellOpened { resume_token: Vec<u8>, expires_at_ms: i64 },
    TerminateShell,
    ShellExited { exit_code: i32, signaled: bool, signal: String },
    AttachShell {
        resume_token: Vec<u8>,
        cols: u32,
        rows: u32,
        last_seen_revision: u64,
        last_history_line_id: u64,
    },
    ShellAttached {
        screen_snapshot: Vec<u8>,
        screen_revision: u64,
        rotated_resume_token: Vec<u8>,
        oldest_history_line_id: u64,
        newest_history_line_id: u64,
    },
    TerminalInput { data: Vec<u8> },
    TerminalOutput { data: Vec<u8> },
    TerminalResize { cols: u32, rows: u32 },
    RequestHistory { before_line_id: u64, maximum_lines: u32, maximum_bytes: u32 },
    HistoryChunk { first_line_id: u64, lines: Vec<String>, truncated_by_eviction: bool },
    HistoryEnd { oldest_available_line_id: u64 },
    DetachShell,
    BeginUpload { original_name: String, total_bytes: u64, sha256: Vec<u8> },
    UploadAccepted { upload_id: Vec<u8>, maximum_chunk_bytes: u32 },
    UploadChunk { upload_id: Vec<u8>, offset: u64, data: Vec<u8> },
    FinishUpload { upload_id: Vec<u8> },
    UploadFinished {
        upload_id: Vec<u8>,
        remote_path: String,
        bytes_written: u64,
        sha256: Vec<u8>,
    },
    AbortUpload { upload_id: Vec<u8>, reason: String },
    OpenTcpForward { host: String, port: u32 },
    TcpForwardOpened { bound_ip: String, bound_port: u32 },
    TcpForwardData { data: Vec<u8> },
    TcpForwardEof,
    TcpForwardAck,
    AgentRegister {
        protocol_major: u32,
        protocol_minor: u32,
        server_id: Vec<u8>,
        agent_build: String,
        max_frame_bytes: u32,
    },
    AgentRegistration(AgentRegistration),
    AgentPing { nonce: u64 },
    AgentPong { nonce: u64 },
    AgentOpenShell(AgentOpenShell),
    AgentShellOpened { shell_id: Vec<u8>, reused: bool },
    AgentAttachShell(AgentAttachShell),
    AgentShellAttached {
        screen_snapshot: Vec<u8>,
        screen_revision: u64,
        oldest_history_line_id: u64,
        newest_history_line_id: u64,
    },
}

/// What a gateway answers a registration with.
#[derive(Debug, Clone, PartialEq, Eq)]
pub struct AgentRegistration {
    pub accepted: bool,
    pub rejection_reason: String,
    pub server_id: Vec<u8>,
    pub max_frame_bytes: u32,
    pub keepalive_interval_ms: u32,
}

/// A gateway's request to open a shell.
#[derive(Debug, Clone, PartialEq, Eq)]
pub struct AgentOpenShell {
    pub user_id: String,
    pub unix_account: String,
    pub command: String,
    pub initial_cols: u32,
    pub initial_rows: u32,
    pub idempotency_key: Vec<u8>,
    pub connection_grant: Vec<u8>,
}

/// A gateway's request to attach to a shell.
#[derive(Debug, Clone, PartialEq, Eq)]
pub struct AgentAttachShell {
    pub user_id: String,
    pub connection_grant: Vec<u8>,
    pub cols: u32,
    pub rows: u32,
}

/// A message with what it belongs to.
#[derive(Debug, Clone, PartialEq, Eq)]
pub struct Envelope {
    pub request_id: u64,
    pub server_id: Vec<u8>,
    pub shell_id: Vec<u8>,
    pub message: Option<Message>,
}

/// What the shell manager reports of a shell that it opened.
#[derive(Debug, Clone, PartialEq, Eq)]
pub struct OpenedShell {
    pub shell_id: ShellId,
    pub resume_token: Vec<u8>,
    pub reused: bool,
}

/// What the shell manager reports of an attachment.
#[derive(Debug, Clone, PartialEq, Eq)]
pub struct Attachment {
    pub attachment_id: u64,
    pub snapshot: Vec<u8>,
    pub screen_revision: u64,
    pub rotated_resume_token: Vec<u8>,
    pub oldest_history_line_id: u64,
    pub newest_history_line_id: u64,
}

/// A stretch of scrollback.
#[derive(Debug, Clone, PartialEq, Eq)]
pub struct HistoryRange {
    pub first_line_id: u64,
    pub lines: Vec<String>,
    pub truncated_by_eviction: bool,
}

/// What an attached shell does.
#[derive(Debug, Clone, PartialEq, Eq)]
pub enum AttachmentEvent {
    Output(Vec<u8>),
    Exited(ShellExit),
}

impl Envelope {
    /// Whether this is a bare answer to a request: it names no server and no
    /// shell.
    pub open spec fn answers(self, request_id: u64) -> bool {
        self.request_id == request_id && self.server_id@.len() == 0 && self.shell_id@.len() == 0
    }

    /// Whether this answers a request with an error.
    pub open spec fn is_error(
        self,
        request_id: u64,
        code: ErrorCode,
        text: Seq<char>,
        retryable: bool,
    ) -> bool {
        &&& self.answers(request_id)
        &&& self.message matches Some(Message::Error { code: c, human_message, retryable: r })
        &&& c == code
        &&& human_message@ == text
        &&& r == retryable
    }
}

/// An answer that names no server and no shell.
pub fn respond(request_id: u64, message: Message) -> (r: Envelope)
    ensures
        r.answers(request_id),
        r.message == Some(message),
{
    Envelope { request_id, server_id: Vec::new(), shell_id: Vec::new(), message: Some(message) }
}

/// An answer that reports an error.
pub fn error_envelope(request_id: u64, code: ErrorCode, text: &str, retryable: bool) -> (r: Envelope)
    ensures
        r.is_error(request_id, code, text@, retryable),
{
    respond(request_id, Message::Error { code, human_message: text.to_owned(), retryable })
}

/// The code and whether to retry for a refusal of the shell manager. A token
/// that was superseded has a code of its own, since it may have been stolen.
pub open spec fn session_error_code(kind: SessionErrorKind) -> (ErrorCode, bool) {
    match kind {
        SessionErrorKind::ShellNotFound => (ErrorCode::ErrNotFound, false),
        SessionErrorKind::NotRunning => (ErrorCode::ErrNotFound, false),
        SessionErrorKind::LimitExceeded => (ErrorCode::ErrLimitExceeded, true),
        SessionErrorKind::Forbidden => (ErrorCode::ErrForbidden, false),
        SessionErrorKind::InvalidToken => (ErrorCode::ErrTokenExpired, false),
        SessionErrorKind::TokenReplayed => (ErrorCode::ErrTokenReplayed, false),
        SessionErrorKind::Pty => (ErrorCode::ErrInternal, true),
        SessionErrorKind::Internal => (ErrorCode::ErrInternal, true),
    }
}

impl Envelope {
    /// Whether this answers a request with a refusal of the shell manager.
    pub open spec fn is_session_error(self, request_id: u64, error: SessionError) -> bool {
        self.is_error(
            request_id,
            session_error_code(error.kind).0,
            error.text@,
            session_error_code(error.kind).1,
        )
    }
}

/// An answer that reports a refusal of the shell manager.
pub fn session_error(request_id: u64, e: &SessionError) -> (r: Envelope)
    ensures
        r.is_session_error(request_id, *e),
{
    let (code, retryable): (ErrorCode, bool) = match e.kind {
        SessionErrorKind::ShellNotFound => (ErrorCode::ErrNotFound, false),
        SessionErrorKind::NotRunning => (ErrorCode::ErrNotFound, false),
        SessionErrorKind::LimitExceeded => (ErrorCode::ErrLimitExceeded, true),
        SessionErrorKind::Forbidden => (ErrorCode::ErrForbidden, false),
        SessionErrorKind::InvalidToken => (ErrorCode::ErrTokenExpired, false),
        SessionErrorKind::TokenReplayed => (ErrorCode::ErrTokenReplayed, false),
        SessionErrorKind::Pty | SessionErrorKind::Internal => (ErrorCode::ErrInternal, true),
    };
    error_envelope(request_id, code, e.text.as_str(), retryable)
}

/// The low sixteen bits of a terminal dimension.
pub open spec fn low_bits(v: u32) -> u16 {
    (v % 0x1_0000) as u16
}

/// The low sixteen bits of a terminal dimension.
pub fn dimension(v: u32) -> (r: u16)
    ensures
        r == low_bits(v),
{
    (v % 0x1_0000) as u16
}

/// The low thirty-two bits of an exit code, read as a signed number.
pub open spec fn signed_code(v: u32) -> i32 {
    if v > 0x7fff_ffff {
        (v - 0x1_0000_0000) as i32
    } else {
        v as i32
    }
}

/// An exit code, read as a signed number.
pub fn exit_code_wire(v: u32) -> (r: i32)
    ensures
        r == signed_code(v),
{
    if v > 0x7fff_ffff {
        (v as i64 - 0x1_0000_0000) as i32
    } else {
        v as i32
    }
}

/// A text that may be empty, as an option.
pub open spec fn non_empty(s: Seq<char>) -> Option<Seq<char>> {
    if s.len() == 0 {
        None
    } else {
        Some(s)
    }
}

/// An optional text as what it holds.
pub open spec fn opt_text(s: Option<String>) -> Option<Seq<char>> {
    match s {
        Some(s) => Some(s@),
        None => None,
    }
}

/// A text that may be empty, as an option.
pub fn text_option(s: &String) -> (r: Option<String>)
    ensures
        opt_text(r) == non_empty(s@),
{
    if s.as_str().is_empty() {
        None
    } else {
        Some(s.clone())
    }
}

} // verus!
