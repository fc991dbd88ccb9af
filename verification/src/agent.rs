//! The outbound link of a managed server to its gateway: registration,
//! reconnection, and what the gateway may ask of the local shells.
//!
//! The link owns no shell. Every request is checked against a signed grant, and
//! goes through the local shell manager with its own policy and limits.

use vstd::prelude::*;
use vstd::string::*;
use vstd::utf8::*;

use crate::bytes::same_bytes;
use crate::grant::{
    among_is_contains, grant_checked, ClaimsView, ConnectionGrant, GrantClaims, GrantError,
    GrantErrorView, GrantVerifier,
};
use crate::ids::{server_text, sixteen, ServerId};
use crate::protocol::{
    non_empty, opt_text, text_option, AgentAttachShell, AgentOpenShell, AgentRegistration, Envelope,
    ErrorCode, Message, OpenShellRequest, SessionError, SessionErrorKind,
};
use crate::text::{contains, same};

verus! {

/// The longest description of a build that is sent.
pub const AGENT_BUILD_BYTES_MAX: usize = 128;

/// The most attachment streams of one link.
pub const AGENT_ATTACHMENT_STREAMS_MAX: usize = 64;

/// The limits that agents and gateways agree on.
#[derive(Debug, Clone, Copy, PartialEq, Eq, Structural)]
pub struct AgentLimits {
    pub control_frame_bytes_min: u32,
    pub control_frame_bytes_max: u32,
    pub attachment_frame_bytes_max: u32,
    pub audience_bytes_max: usize,
    pub user_id_bytes_max: usize,
    pub unix_account_bytes_max: usize,
    pub command_bytes_max: usize,
    pub grant_bytes_max: usize,
    pub history_lines_max: u32,
    pub terminal_input_bytes_max: usize,
    pub terminal_output_bytes_max: usize,
}

/// Why the link, or something on it, fails.
#[derive(Debug, Clone, PartialEq, Eq)]
pub enum AgentError {
    BuildTooLong(usize),
    Rejected(String),
    UnexpectedResponse,
    ServerIdentityMismatch,
    InvalidReconnectPolicy,
    InvalidGrantAudience,
    MissingAccountPolicy,
    UnexpectedAttachmentMessage,
    AttachmentIdentityMismatch,
    OversizedTerminalOutput(usize),
}

/// Who registers, sent on every reconnect.
#[derive(Debug, Clone, PartialEq, Eq)]
pub struct RegistrationRequest {
    pub server_id: ServerId,
    pub agent_build: String,
    pub max_frame_bytes: u32,
}

impl RegistrationRequest {
    /// A request for a server. Its build is bounded in encoded bytes.
    pub fn new(server_id: ServerId, agent_build: String, limits: &AgentLimits) -> (r: Result<
        RegistrationRequest,
        AgentError,
    >)
        ensures
            r is Ok <==> encode_utf8(agent_build@).len() <= AGENT_BUILD_BYTES_MAX,
            r matches Ok(q) ==> q.server_id == server_id && q.agent_build == agent_build
                && q.max_frame_bytes == limits.control_frame_bytes_max,
            r matches Err(e) ==> e == AgentError::BuildTooLong(
                encode_utf8(agent_build@).len() as usize,
            ),
    {
        let size: usize = agent_build.as_str().as_bytes().len();
        if size > AGENT_BUILD_BYTES_MAX {
            return Err(AgentError::BuildTooLong(size));
        }
        Ok(
            RegistrationRequest {
                server_id,
                agent_build,
                max_frame_bytes: limits.control_frame_bytes_max,
            },
        )
    }

    /// The first message of a link: who registers, and which version it speaks.
    pub fn message(&self, protocol_major: u32, protocol_minor: u32) -> (r: Envelope)
        ensures
            r.request_id == 0,
            r.server_id@ == self.server_id.0@,
            r.shell_id@.len() == 0,
            r.message matches Some(
                Message::AgentRegister {
                    protocol_major: major,
                    protocol_minor: minor,
                    server_id,
                    agent_build,
                    max_frame_bytes,
                },
            ) && major == protocol_major && minor == protocol_minor && server_id@
                == self.server_id.0@ && agent_build@ == self.agent_build@ && max_frame_bytes
                == self.max_frame_bytes,
    {
        Envelope {
            request_id: 0,
            server_id: self.server_id.to_wire(),
            shell_id: Vec::new(),
            message: Some(
                Message::AgentRegister {
                    protocol_major,
                    protocol_minor,
                    server_id: self.server_id.to_wire(),
                    agent_build: self.agent_build.clone(),
                    max_frame_bytes: self.max_frame_bytes,
                },
            ),
        }
    }
}

/// Whether an accepted registration makes sense.
pub open spec fn registration_fits(
    expected: Seq<u8>,
    envelope_server_id: Seq<u8>,
    registration: AgentRegistration,
    limits: AgentLimits,
) -> bool {
    &&& registration.server_id@ == expected
    &&& envelope_server_id == expected
    &&& limits.control_frame_bytes_min <= registration.max_frame_bytes
        <= limits.control_frame_bytes_max
    &&& registration.keepalive_interval_ms != 0
}

/// Checks what a gateway answers a registration with: it must name this server
/// twice, and its limits must be acceptable.
pub fn validate_registration(
    expected_server_id: ServerId,
    envelope_server_id: &[u8],
    registration: &AgentRegistration,
    limits: &AgentLimits,
) -> (r: Result<(), AgentError>)
    ensures
        r is Ok <==> registration.accepted && registration_fits(
            expected_server_id.0@,
            envelope_server_id@,
            *registration,
            *limits,
        ),
        r matches Err(e) ==> (if !registration.accepted {
            e matches AgentError::Rejected(why) && why@ == registration.rejection_reason@
        } else {
            e is UnexpectedResponse
        }),
{
    if !registration.accepted {
        return Err(AgentError::Rejected(registration.rejection_reason.clone()));
    }
    let expected: &[u8] = expected_server_id.0.as_slice();
    if !same_bytes(registration.server_id.as_slice(), expected) || !same_bytes(
        envelope_server_id,
        expected,
    ) || registration.max_frame_bytes < limits.control_frame_bytes_min
        || registration.max_frame_bytes > limits.control_frame_bytes_max
        || registration.keepalive_interval_ms == 0 {
        return Err(AgentError::UnexpectedResponse);
    }
    Ok(())
}

/// Checks the answer to a keepalive: it must carry the nonce that was sent.
pub fn check_pong(response: &Envelope, nonce: u64) -> (r: Result<(), AgentError>)
    ensures
        r is Ok <==> response.message == Some(Message::AgentPong { nonce }),
        r matches Err(e) ==> e is UnexpectedResponse,
{
    match &response.message {
        Some(Message::AgentPong { nonce: returned }) => {
            if *returned == nonce {
                Ok(())
            } else {
                Err(AgentError::UnexpectedResponse)
            }
        },
        _ => Err(AgentError::UnexpectedResponse),
    }
}

/// How long to wait between attempts, in milliseconds.
#[derive(Debug, Clone, Copy, PartialEq, Eq, Structural)]
pub struct ReconnectPolicy {
    pub initial_delay: u64,
    pub maximum_delay: u64,
}

impl Default for ReconnectPolicy {
    fn default() -> (r: ReconnectPolicy)
        ensures
            r == (ReconnectPolicy { initial_delay: 250, maximum_delay: 10_000 }),
    {
        ReconnectPolicy { initial_delay: 250, maximum_delay: 10_000 }
    }
}

impl ReconnectPolicy {
    /// Whether the delays make sense.
    pub open spec fn valid(self) -> bool {
        0 < self.initial_delay <= self.maximum_delay
    }

    /// Checks the delays: neither may be zero, nor the first longer than the
    /// longest.
    pub fn validate(self) -> (r: Result<ReconnectPolicy, AgentError>)
        ensures
            r is Ok <==> self.valid(),
            r matches Ok(p) ==> p == self,
            r matches Err(e) ==> e is InvalidReconnectPolicy,
    {
        if self.initial_delay == 0 || self.maximum_delay == 0 || self.initial_delay
            > self.maximum_delay {
            return Err(AgentError::InvalidReconnectPolicy);
        }
        Ok(self)
    }
}

/// How the link fares.
#[derive(Debug, Clone, Copy, PartialEq, Eq, Structural)]
pub struct AgentStatusSnapshot {
    pub connected: bool,
    pub registrations: u64,
}

/// Whether the link is up, and how often it was.
#[derive(Debug, Clone, Copy, PartialEq, Eq, Structural)]
pub struct AgentStatus {
    connected: bool,
    registrations: u64,
}

impl View for AgentStatus {
    type V = AgentStatusSnapshot;

    closed spec fn view(&self) -> AgentStatusSnapshot {
        AgentStatusSnapshot { connected: self.connected, registrations: self.registrations }
    }
}

impl AgentStatus {
    /// How the link fares now.
    pub fn snapshot(&self) -> (r: AgentStatusSnapshot)
        ensures
            r == self@,
    {
        AgentStatusSnapshot { connected: self.connected, registrations: self.registrations }
    }
}

/// Keeps the link up.
pub struct AgentSupervisor {
    policy: ReconnectPolicy,
    grant_audience: String,
    status: AgentStatus,
    delay: u64,
}

/// What an [`AgentSupervisor`] holds.
pub struct SupervisorView {
    pub policy: ReconnectPolicy,
    pub audience: Seq<char>,
    pub status: AgentStatusSnapshot,
    pub delay: u64,
}

/// The delay that follows a delay: twice as long, but not longer than the
/// longest.
pub open spec fn delay_after(delay: u64, policy: ReconnectPolicy) -> u64 {
    if 2 * delay > policy.maximum_delay {
        policy.maximum_delay
    } else {
        (2 * delay) as u64
    }
}

impl View for AgentSupervisor {
    type V = SupervisorView;

    closed spec fn view(&self) -> SupervisorView {
        SupervisorView {
            policy: self.policy,
            audience: self.grant_audience@,
            status: self.status@,
            delay: self.delay,
        }
    }
}

impl SupervisorView {
    /// Whether the delay is one that the policy allows.
    pub open spec fn sound(self) -> bool {
        self.policy.valid() && self.policy.initial_delay <= self.delay <= self.policy.maximum_delay
    }
}

impl AgentSupervisor {
    /// A supervisor whose link is down.
    pub fn new(policy: ReconnectPolicy, grant_audience: String, limits: &AgentLimits) -> (r: Result<
        AgentSupervisor,
        AgentError,
    >)
        ensures
            r is Ok <==> 0 < encode_utf8(grant_audience@).len() <= limits.audience_bytes_max
                && policy.valid(),
            r matches Ok(s) ==> s@.sound() && s@ == (SupervisorView {
                policy,
                audience: grant_audience@,
                status: AgentStatusSnapshot { connected: false, registrations: 0 },
                delay: policy.initial_delay,
            }),
            r matches Err(e) ==> (if 0 < encode_utf8(grant_audience@).len()
                <= limits.audience_bytes_max {
                e is InvalidReconnectPolicy
            } else {
                e is InvalidGrantAudience
            }),
    {
        let size: usize = grant_audience.as_str().as_bytes().len();
        if size == 0 || size > limits.audience_bytes_max {
            return Err(AgentError::InvalidGrantAudience);
        }
        let policy: ReconnectPolicy = match policy.validate() {
            Ok(policy) => policy,
            Err(e) => {
                return Err(e);
            },
        };
        Ok(
            AgentSupervisor {
                policy,
                grant_audience,
                status: AgentStatus { connected: false, registrations: 0 },
                delay: policy.initial_delay,
            },
        )
    }

    /// How the link fares.
    pub fn status(&self) -> (r: AgentStatus)
        ensures
            r@ == self@.status,
    {
        self.status
    }

    /// What grants must be bound to.
    pub fn grant_audience(&self) -> (r: &str)
        ensures
            r@ == self@.audience,
    {
        self.grant_audience.as_str()
    }

    /// The link is up: the next wait starts from the shortest again.
    pub fn registered(&mut self)
        requires
            old(self)@.sound(),
        ensures
            final(self)@.sound(),
            final(self)@.policy == old(self)@.policy,
            final(self)@.audience == old(self)@.audience,
            final(self)@.delay == old(self)@.policy.initial_delay,
            final(self)@.status.connected,
            final(self)@.status.registrations == crate::observability::up(
                old(self)@.status.registrations,
                1,
            ),
    {
        self.status.connected = true;
        self.status.registrations = self.status.registrations.wrapping_add(1);
        self.delay = self.policy.initial_delay;
    }

    /// The link is down, or did not come up: how long to wait before the next
    /// attempt.
    pub fn disconnected(&mut self) -> (wait: u64)
        requires
            old(self)@.sound(),
        ensures
            wait == old(self)@.delay,
            final(self)@.sound(),
            final(self)@ == (SupervisorView {
                status: AgentStatusSnapshot { connected: false, ..old(self)@.status },
                delay: delay_after(old(self)@.delay, old(self)@.policy),
                ..old(self)@
            }),
    {
        let wait: u64 = self.delay;
        self.status.connected = false;
        self.delay = if wait > self.policy.maximum_delay / 2 {
            self.policy.maximum_delay
        } else {
            2 * wait
        };
        wait
    }
}

/// Why a gateway's request is refused.
#[derive(Debug, Clone, Copy, PartialEq, Eq, Structural)]
pub enum OpenValidationError {
    Invalid,
    Unauthenticated,
    Forbidden,
}

/// What a grant is worth for an operation of a user on a server.
pub open spec fn grant_authorizes(
    public: Seq<u8>,
    grant: Seq<u8>,
    audience: Seq<char>,
    now_ms: i64,
    user: Seq<char>,
    op: Seq<char>,
    server_id: Seq<u8>,
) -> Result<ClaimsView, OpenValidationError> {
    if !valid_utf8(grant) {
        Err(OpenValidationError::Unauthenticated)
    } else {
        match grant_checked(public, decode_utf8(grant), audience, now_ms) {
            Err(GrantErrorView::WrongAudience { .. }) => Err(OpenValidationError::Forbidden),
            Err(_) => Err(OpenValidationError::Unauthenticated),
            Ok(c) => if c.sub == user && c.permits(op) && c.servers.contains(
                server_text(server_id),
            ) {
                Ok(c)
            } else {
                Err(OpenValidationError::Forbidden)
            },
        }
    }
}

/// Checks what a grant is worth for an operation of a user on a server.
pub fn authorize(
    verify_key: &GrantVerifier,
    grant: &[u8],
    audience: &str,
    now_ms: i64,
    user: &str,
    op: &str,
    server_id: ServerId,
) -> (r: Result<GrantClaims, OpenValidationError>)
    ensures
        r matches Ok(c) ==> grant_authorizes(
            verify_key.public(),
            grant@,
            audience@,
            now_ms,
            user@,
            op@,
            server_id.0@,
        ) == Ok::<ClaimsView, OpenValidationError>(c@),
        r matches Err(e) ==> grant_authorizes(
            verify_key.public(),
            grant@,
            audience@,
            now_ms,
            user@,
            op@,
            server_id.0@,
        ) == Err::<ClaimsView, OpenValidationError>(e),
{
    let grant: ConnectionGrant = match ConnectionGrant::from_wire(grant) {
        Ok(grant) => grant,
        Err(_) => {
            return Err(OpenValidationError::Unauthenticated);
        },
    };
    let claims: GrantClaims = match verify_key.verify(&grant, audience, now_ms) {
        Ok(claims) => claims,
        Err(GrantError::WrongAudience { .. }) => {
            return Err(OpenValidationError::Forbidden);
        },
        Err(_) => {
            return Err(OpenValidationError::Unauthenticated);
        },
    };
    let here: String = server_id.to_text();
    proof {
        among_is_contains(claims.servers@, here@);
    }
    if !same(claims.sub.as_str(), user) || !claims.permits(op) || !contains(
        &claims.servers,
        here.as_str(),
    ) {
        return Err(OpenValidationError::Forbidden);
    }
    Ok(claims)
}

/// Whether a request to open a shell is within the limits.
pub open spec fn open_fits(open: AgentOpenShell, limits: AgentLimits) -> bool {
    &&& 0 < encode_utf8(open.user_id@).len() <= limits.user_id_bytes_max
    &&& encode_utf8(open.unix_account@).len() <= limits.unix_account_bytes_max
    &&& encode_utf8(open.command@).len() <= limits.command_bytes_max
    &&& 0 < open.connection_grant@.len() <= limits.grant_bytes_max
    &&& open.idempotency_key@.len() == 16
    &&& open.initial_cols <= 0xffff
    &&& open.initial_rows <= 0xffff
}

/// What a request to open a shell is worth.
pub open spec fn open_checked(
    open: AgentOpenShell,
    public: Seq<u8>,
    audience: Seq<char>,
    server_id: Seq<u8>,
    limits: AgentLimits,
    now_ms: i64,
) -> Result<ClaimsView, OpenValidationError> {
    if !open_fits(open, limits) {
        Err(OpenValidationError::Invalid)
    } else {
        grant_authorizes(
            public,
            open.connection_grant@,
            audience,
            now_ms,
            open.user_id@,
            "open"@,
            server_id,
        )
    }
}

/// Whether a request reaches the shell manager as it was made.
pub open spec fn is_request_for(request: OpenShellRequest, open: AgentOpenShell) -> bool {
    &&& request.user@ == open.user_id@
    &&& opt_text(request.requested_account) == non_empty(open.unix_account@)
    &&& opt_text(request.command) == non_empty(open.command@)
    &&& request.args@.len() == 0
    &&& request.cols == open.initial_cols
    &&& request.rows == open.initial_rows
    &&& request.idempotency_key@ == open.idempotency_key@
}

/// Checks a gateway's request to open a shell: its size, and a grant for its
/// user, this operation and this server.
pub fn validate_open_request(
    open: AgentOpenShell,
    verify_key: &GrantVerifier,
    expected_audience: &str,
    server_id: ServerId,
    limits: &AgentLimits,
    now_ms: i64,
) -> (r: Result<OpenShellRequest, OpenValidationError>)
    ensures
        r is Ok <==> open_checked(
            open,
            verify_key.public(),
            expected_audience@,
            server_id.0@,
            *limits,
            now_ms,
        ) is Ok,
        r matches Ok(request) ==> is_request_for(request, open),
        r matches Err(e) ==> open_checked(
            open,
            verify_key.public(),
            expected_audience@,
            server_id.0@,
            *limits,
            now_ms,
        ) == Err::<ClaimsView, OpenValidationError>(e),
{
    let user: usize = open.user_id.as_str().as_bytes().len();
    let account: usize = open.unix_account.as_str().as_bytes().len();
    let command: usize = open.command.as_str().as_bytes().len();
    let grant: usize = open.connection_grant.len();
    if user == 0 || user > limits.user_id_bytes_max || account > limits.unix_account_bytes_max
        || command > limits.command_bytes_max || grant == 0 || grant > limits.grant_bytes_max
        || open.initial_cols > 0xffff || open.initial_rows > 0xffff {
        return Err(OpenValidationError::Invalid);
    }
    let idempotency_key: [u8; 16] = match sixteen(open.idempotency_key.as_slice()) {
        Some(key) => key,
        None => {
            return Err(OpenValidationError::Invalid);
        },
    };
    match authorize(
        verify_key,
        open.connection_grant.as_slice(),
        expected_audience,
        now_ms,
        open.user_id.as_str(),
        "open",
        server_id,
    ) {
        Err(e) => Err(e),
        Ok(_) => Ok(
            OpenShellRequest {
                user: open.user_id.clone(),
                requested_account: text_option(&open.unix_account),
                command: text_option(&open.command),
                args: Vec::new(),
                cols: open.initial_cols as u16,
                rows: open.initial_rows as u16,
                idempotency_key,
            },
        ),
    }
}

/// Who may attach, to what size, and until when.
#[derive(Debug, Clone, PartialEq, Eq)]
pub struct AttachmentAuthorization {
    pub user_id: String,
    pub cols: u16,
    pub rows: u16,
    pub expires_at_ms: i64,
}

/// Whether a request to attach is within the limits.
pub open spec fn attach_fits(attach: AgentAttachShell, limits: AgentLimits) -> bool {
    &&& 0 < encode_utf8(attach.user_id@).len() <= limits.user_id_bytes_max
    &&& 0 < attach.connection_grant@.len() <= limits.grant_bytes_max
    &&& attach.cols <= 0xffff
    &&& attach.rows <= 0xffff
}

/// What a request to attach is worth.
pub open spec fn attach_checked(
    attach: AgentAttachShell,
    public: Seq<u8>,
    audience: Seq<char>,
    server_id: Seq<u8>,
    limits: AgentLimits,
    now_ms: i64,
) -> Result<ClaimsView, OpenValidationError> {
    if !attach_fits(attach, limits) {
        Err(OpenValidationError::Invalid)
    } else {
        grant_authorizes(
            public,
            attach.connection_grant@,
            audience,
            now_ms,
            attach.user_id@,
            "attach"@,
            server_id,
        )
    }
}

/// Checks a gateway's request to attach: its size, and a grant for its user,
/// this operation and this server.
pub fn validate_attach_request(
    attach: AgentAttachShell,
    verify_key: &GrantVerifier,
    expected_audience: &str,
    server_id: ServerId,
    limits: &AgentLimits,
    now_ms: i64,
) -> (r: Result<AttachmentAuthorization, OpenValidationError>)
    ensures
        match attach_checked(
            attach,
            verify_key.public(),
            expected_audience@,
            server_id.0@,
            *limits,
            now_ms,
        ) {
            Ok(c) => r matches Ok(a) && a.user_id@ == attach.user_id@ && a.cols == attach.cols
                && a.rows == attach.rows && a.expires_at_ms == c.exp_ms,
            Err(e) => r == Err::<AttachmentAuthorization, OpenValidationError>(e),
        },
{
    let user: usize = attach.user_id.as_str().as_bytes().len();
    let grant: usize = attach.connection_grant.len();
    if user == 0 || user > limits.user_id_bytes_max || grant == 0 || grant > limits.grant_bytes_max
        || attach.cols > 0xffff || attach.rows > 0xffff {
        return Err(OpenValidationError::Invalid);
    }
    match authorize(
        verify_key,
        attach.connection_grant.as_slice(),
        expected_audience,
        now_ms,
        attach.user_id.as_str(),
        "attach",
        server_id,
    ) {
        Err(e) => Err(e),
        Ok(claims) => Ok(
            AttachmentAuthorization {
                user_id: attach.user_id.clone(),
                cols: attach.cols as u16,
                rows: attach.rows as u16,
                expires_at_ms: claims.exp_ms,
            },
        ),
    }
}

/// A code, a text and whether to retry, as a refusal is answered.
#[derive(Debug, Clone, Copy, PartialEq, Eq)]
pub struct Refusal {
    pub code: ErrorCode,
    pub text: &'static str,
    pub retryable: bool,
}

/// What a [`Refusal`] says.
pub open spec fn refusal_view(r: Refusal) -> (ErrorCode, Seq<char>, bool) {
    (r.code, r.text@, r.retryable)
}

/// How a request is answered that did not pass its checks.
pub open spec fn validation_refusal(error: OpenValidationError) -> (ErrorCode, Seq<char>, bool) {
    match error {
        OpenValidationError::Invalid => (
            ErrorCode::ErrUnknownMessage,
            "invalid shell request"@,
            false,
        ),
        OpenValidationError::Unauthenticated => (
            ErrorCode::ErrUnauthenticated,
            "invalid connection grant"@,
            false,
        ),
        OpenValidationError::Forbidden => (
            ErrorCode::ErrForbidden,
            "grant scope denied shell"@,
            false,
        ),
    }
}

/// How a request is answered that did not pass its checks.
pub fn map_open_validation_error(error: OpenValidationError) -> (r: Refusal)
    ensures
        refusal_view(r) == validation_refusal(error),
{
    match error {
        OpenValidationError::Invalid => Refusal {
            code: ErrorCode::ErrUnknownMessage,
            text: "invalid shell request",
            retryable: false,
        },
        OpenValidationError::Unauthenticated => Refusal {
            code: ErrorCode::ErrUnauthenticated,
            text: "invalid connection grant",
            retryable: false,
        },
        OpenValidationError::Forbidden => Refusal {
            code: ErrorCode::ErrForbidden,
            text: "grant scope denied shell",
            retryable: false,
        },
    }
}

/// How a request to open a shell is answered that the shell manager refused.
pub open spec fn open_refusal(kind: SessionErrorKind) -> (ErrorCode, Seq<char>, bool) {
    match kind {
        SessionErrorKind::Forbidden => (
            ErrorCode::ErrForbidden,
            "local access policy denied shell"@,
            false,
        ),
        SessionErrorKind::LimitExceeded => (
            ErrorCode::ErrLimitExceeded,
            "local shell limit exceeded"@,
            true,
        ),
        SessionErrorKind::Pty => (ErrorCode::ErrInternal, "local PTY launch failed"@, true),
        SessionErrorKind::Internal => (ErrorCode::ErrInternal, "invalid shell request"@, false),
        _ => (ErrorCode::ErrInternal, "invalid shell state"@, false),
    }
}

/// How a request to open a shell is answered that the shell manager refused.
pub fn map_session_error(error: &SessionError) -> (r: Refusal)
    ensures
        refusal_view(r) == open_refusal(error.kind),
{
    match error.kind {
        SessionErrorKind::Forbidden => Refusal {
            code: ErrorCode::ErrForbidden,
            text: "local access policy denied shell",
            retryable: false,
        },
        SessionErrorKind::LimitExceeded => Refusal {
            code: ErrorCode::ErrLimitExceeded,
            text: "local shell limit exceeded",
            retryable: true,
        },
        SessionErrorKind::Pty => Refusal {
            code: ErrorCode::ErrInternal,
            text: "local PTY launch failed",
            retryable: true,
        },
        SessionErrorKind::Internal => Refusal {
            code: ErrorCode::ErrInternal,
            text: "invalid shell request",
            retryable: false,
        },
        SessionErrorKind::ShellNotFound
        | SessionErrorKind::NotRunning
        | SessionErrorKind::InvalidToken
        | SessionErrorKind::TokenReplayed => Refusal {
            code: ErrorCode::ErrInternal,
            text: "invalid shell state",
            retryable: false,
        },
    }
}

/// How a gateway is answered that the shell manager refused something on an
/// attachment. Whether a shell is unknown or somebody else's looks the same.
pub open spec fn attachment_refusal(kind: SessionErrorKind) -> (ErrorCode, Seq<char>, bool) {
    match kind {
        SessionErrorKind::NotRunning => (ErrorCode::ErrNotReady, "shell is not running"@, false),
        SessionErrorKind::LimitExceeded => (
            ErrorCode::ErrLimitExceeded,
            "local attachment limit exceeded"@,
            true,
        ),
        SessionErrorKind::Pty => (ErrorCode::ErrInternal, "local PTY operation failed"@, true),
        SessionErrorKind::Internal => (ErrorCode::ErrInternal, "invalid shell state"@, false),
        _ => (ErrorCode::ErrForbidden, "shell attachment denied"@, false),
    }
}

/// How a gateway is answered that the shell manager refused something on an
/// attachment.
pub fn map_attachment_session_error(error: &SessionError) -> (r: Refusal)
    ensures
        refusal_view(r) == attachment_refusal(error.kind),
{
    match error.kind {
        SessionErrorKind::NotRunning => Refusal {
            code: ErrorCode::ErrNotReady,
            text: "shell is not running",
            retryable: false,
        },
        SessionErrorKind::LimitExceeded => Refusal {
            code: ErrorCode::ErrLimitExceeded,
            text: "local attachment limit exceeded",
            retryable: true,
        },
        SessionErrorKind::Pty => Refusal {
            code: ErrorCode::ErrInternal,
            text: "local PTY operation failed",
            retryable: true,
        },
        SessionErrorKind::Internal => Refusal {
            code: ErrorCode::ErrInternal,
            text: "invalid shell state",
            retryable: false,
        },
        SessionErrorKind::ShellNotFound
        | SessionErrorKind::Forbidden
        | SessionErrorKind::InvalidToken
        | SessionErrorKind::TokenReplayed => Refusal {
            code: ErrorCode::ErrForbidden,
            text: "shell attachment denied",
            retryable: false,
        },
    }
}

/// A gateway cannot tell an unknown shell from one that belongs to somebody
/// else.
pub proof fn ownership_is_not_revealed()
    ensures
        attachment_refusal(SessionErrorKind::ShellNotFound) == attachment_refusal(
            SessionErrorKind::Forbidden,
        ),
{
}

/// The delay never leaves the bounds of its policy, and grows until it reaches
/// the longest.
pub proof fn delays_are_bounded(delay: u64, policy: ReconnectPolicy)
    requires
        policy.valid(),
        policy.initial_delay <= delay <= policy.maximum_delay,
    ensures
        policy.initial_delay <= delay_after(delay, policy) <= policy.maximum_delay,
        delay <= delay_after(delay, policy),
        delay_after(delay, policy) == delay ==> delay == policy.maximum_delay,
{
}

/// Nothing is authorized without a signature that the verifier accepts, for the
/// expected audience, inside its time, and for this user, operation and server.
pub proof fn authority_is_signed(
    public: Seq<u8>,
    grant: Seq<u8>,
    audience: Seq<char>,
    now_ms: i64,
    user: Seq<char>,
    op: Seq<char>,
    server_id: Seq<u8>,
)
    requires
        grant_authorizes(public, grant, audience, now_ms, user, op, server_id) is Ok,
    ensures
        ({
            let c = grant_authorizes(public, grant, audience, now_ms, user, op, server_id)->Ok_0;
            &&& grant_checked(public, decode_utf8(grant), audience, now_ms) == Ok::<
                ClaimsView,
                GrantErrorView,
            >(c)
            &&& c.aud == audience
            &&& now_ms < c.exp_ms
            &&& c.sub == user
            &&& c.permits(op)
            &&& c.servers.contains(server_text(server_id))
        }),
{
}

} // verus!
