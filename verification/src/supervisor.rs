//! How the client looks after one server: it connects and logs in, works off what
//! it is asked, keeps the connection alive, and starts over when it is lost.

use vstd::prelude::*;
use vstd::string::*;
use vstd::utf8::*;

use crate::base64::{encoded, encoded_injective, standard_bytes};
use crate::bytes::{copy_bytes, same_bytes};
use crate::chance::random_16;
use crate::client::{AttachInfo, CoreEvent, RemoteShell, ServerStatus, ShellStateEvent};
use crate::hex::{hex, hex_text, unhex, unhex_bytes};
use crate::ids::sixteen;
use crate::opening::{
    begun, forget, forgets, shell_event, tells, Ending, EndingView, Opening,
};
use crate::protocol::{Envelope, Message, ShellInfo, ShellState};
use crate::store::{
    opt_view, Change, ServerRecord, ShellModel, ShellRecord, Store, StoreError, StoreModel,
};
use crate::text::{contains, push_text, pushed_contains, same, texts};

verus! {

/// The most requests that wait for an answer.
pub const MAX_INFLIGHT_CONTROL: usize = 32;

/// How many pings may go unanswered.
pub const MAX_MISSED_PONGS: u32 = 3;

/// How often a ping is sent where the server does not say.
pub const DEFAULT_KEEPALIVE_MS: u64 = 15_000;

/// How long the first pause between attempts is.
pub const BACKOFF_START_MS: u64 = 1_000;

/// How long the longest pause is.
pub const BACKOFF_CAP_MS: u64 = 15_000;

/// What is answered while a server waits for a login.
pub const LOGIN_REFUSAL: &'static str = "authentication required: log in to this server first";

/// What the interface asks of a server.
#[derive(Debug, Clone, PartialEq, Eq)]
pub enum ServerCmd {
    Open { name: String, cols: u16, rows: u16 },
    Attach { shell_hex: String, cols: u16, rows: u16 },
    Input { shell_hex: String, bytes: Vec<u8> },
    Resize { shell_hex: String, cols: u16, rows: u16 },
    Detach { shell_hex: String },
    Terminate { shell_hex: String },
    History { shell_hex: String, before_line_id: u64, max_lines: u32 },
    /// A password, for one attempt to log in.
    Login { password: String },
}

/// Whether a command is answered.
pub open spec fn is_answered(cmd: ServerCmd) -> bool {
    cmd is Open || cmd is Attach || cmd is Terminate || cmd is History
}

/// What a command is answered while a server waits for a login. One that is never
/// answered is dropped.
pub fn refuse_unauthenticated(cmd: &ServerCmd) -> (r: Option<&'static str>)
    ensures
        r is Some <==> is_answered(*cmd),
        r matches Some(text) ==> text@ == LOGIN_REFUSAL@,
{
    match cmd {
        ServerCmd::Open { .. }
        | ServerCmd::Attach { .. }
        | ServerCmd::Terminate { .. }
        | ServerCmd::History { .. } => Some(LOGIN_REFUSAL),
        ServerCmd::Input { .. }
        | ServerCmd::Resize { .. }
        | ServerCmd::Detach { .. }
        | ServerCmd::Login { .. } => None,
    }
}

/// What a [`Control`] holds: the requests that wait, the number of the next one, the
/// pings that went unanswered and the number of the last one.
#[verifier::ext_equal]
pub struct ControlView {
    pub pending: Set<u64>,
    pub next_request: u64,
    pub outstanding_pings: u32,
    pub nonce: u64,
}

impl ControlView {
    /// Whether no more requests wait than may.
    pub open spec fn bounded(self) -> bool {
        &&& self.pending.finite()
        &&& self.pending.len() <= MAX_INFLIGHT_CONTROL
        &&& self.outstanding_pings <= MAX_MISSED_PONGS
    }

    /// Once time has passed: another ping, unless too many went unanswered.
    pub open spec fn ticked(self) -> ControlView {
        if self.outstanding_pings >= MAX_MISSED_PONGS {
            self
        } else {
            ControlView {
                nonce: if self.nonce == u64::MAX {
                    0
                } else {
                    (self.nonce + 1) as u64
                },
                outstanding_pings: (self.outstanding_pings + 1) as u32,
                ..self
            }
        }
    }
}

/// What a message on the control channel leads to.
#[derive(Debug, Clone, Copy, PartialEq, Eq, Structural)]
pub enum ControlStep {
    /// Answer a ping.
    SendPong { nonce: u64 },
    /// Hand the message to whoever asked.
    Deliver { request_id: u64 },
    Nothing,
}

/// What passing time leads to.
#[derive(Debug, Clone, Copy, PartialEq, Eq, Structural)]
pub enum Tick {
    /// Send a ping.
    SendPing { nonce: u64 },
    /// The connection is dead.
    Dead,
}

/// The control channel of a connection.
pub struct Control {
    pending: Vec<u64>,
    next_request: u64,
    outstanding_pings: u32,
    nonce: u64,
}

impl View for Control {
    type V = ControlView;

    closed spec fn view(&self) -> ControlView {
        ControlView {
            pending: self.pending@.to_set(),
            next_request: self.next_request,
            outstanding_pings: self.outstanding_pings,
            nonce: self.nonce,
        }
    }
}

impl Control {
    /// Whether no request is listed twice, all that wait were numbered before the
    /// next one, and the bounds hold.
    pub closed spec fn wf(&self) -> bool {
        &&& self.pending@.no_duplicates()
        &&& forall|i: int| 0 <= i < self.pending@.len() ==> #[trigger] self.pending@[i] < self.next_request
        &&& self.pending@.len() <= MAX_INFLIGHT_CONTROL
        &&& self.outstanding_pings <= MAX_MISSED_PONGS
    }

    /// The channel is sound, so that its bounds hold.
    pub proof fn wf_is_bounded(&self)
        requires
            self.wf(),
        ensures
            self@.bounded(),
    {
        self.pending@.unique_seq_to_set();
    }

    /// A channel that nothing was sent on.
    pub fn new() -> (r: Control)
        ensures
            r.wf(),
            r@ == (ControlView {
                pending: Set::empty(),
                next_request: 1,
                outstanding_pings: 0,
                nonce: 0,
            }),
    {
        let r = Control { pending: Vec::new(), next_request: 1, outstanding_pings: 0, nonce: 0 };
        assert(r.pending@.to_set() =~= Set::empty());
        r
    }

    fn index_of(&self, request_id: u64) -> (r: Option<usize>)
        ensures
            r matches Some(i) ==> i < self.pending@.len() && self.pending@[i as int] == request_id,
            r is None ==> !self.pending@.contains(request_id),
    {
        let mut i: usize = 0;
        while i < self.pending.len()
            invariant
                i <= self.pending.len(),
                forall|k: int| 0 <= k < i ==> self.pending@[k] != request_id,
            decreases self.pending.len() - i,
        {
            if self.pending[i] == request_id {
                return Some(i);
            }
            i = i + 1;
        }
        None
    }

    /// Gives a request the next number, under which it waits once it is sent. Where
    /// too many wait already it is not sent, and its number is used up.
    pub fn request(&mut self, envelope: Envelope) -> (r: Option<Envelope>)
        requires
            old(self).wf(),
            old(self)@.next_request < u64::MAX,
        ensures
            final(self).wf(),
            r is Some <==> old(self)@.pending.len() < MAX_INFLIGHT_CONTROL,
            r matches Some(e) ==> e == (Envelope {
                request_id: old(self)@.next_request,
                ..envelope
            }),
            !old(self)@.pending.contains(old(self)@.next_request),
            final(self)@ == (ControlView {
                pending: if r is Some {
                    old(self)@.pending.insert(old(self)@.next_request)
                } else {
                    old(self)@.pending
                },
                next_request: (old(self)@.next_request + 1) as u64,
                ..old(self)@
            }),
    {
        proof {
            self.pending@.unique_seq_to_set();
        }
        let request_id: u64 = self.next_request;
        self.next_request = request_id + 1;
        if self.pending.len() >= MAX_INFLIGHT_CONTROL {
            return None;
        }
        let ghost before = self.pending@;
        self.pending.push(request_id);
        proof {
            let after = self.pending@;
            assert(after =~= before.push(request_id));
            assert forall|x: u64| after.to_set().contains(x) == before.to_set().insert(
                request_id,
            ).contains(x) by {
                if before.contains(x) {
                    let k = choose|k: int| 0 <= k < before.len() && before[k] == x;
                    assert(after[k] == x);
                }
                if x == request_id {
                    assert(after[before.len() as int] == x);
                }
            }
            assert(after.to_set() =~= before.to_set().insert(request_id));
        }
        Some(Envelope { request_id, ..envelope })
    }

    /// The number of the next request.
    pub fn next_request(&self) -> (r: u64)
        ensures
            r == self@.next_request,
    {
        self.next_request
    }

    /// Takes a message: a ping is answered, an answer to a ping clears those that
    /// went unanswered, and anything else is handed to whoever asked, if somebody
    /// did.
    pub fn received(&mut self, envelope: &Envelope) -> (r: ControlStep)
        requires
            old(self).wf(),
        ensures
            final(self).wf(),
            match envelope.message {
                Some(Message::Ping { nonce }) => r == (ControlStep::SendPong { nonce }) && final(self)@ == old(self)@,
                Some(Message::Pong { .. }) => r == ControlStep::Nothing && final(self)@ == (
                ControlView { outstanding_pings: 0, ..old(self)@ }),
                _ => {
                    &&& final(self)@ == (ControlView {
                        pending: old(self)@.pending.remove(envelope.request_id),
                        ..old(self)@
                    })
                    &&& r == (if old(self)@.pending.contains(envelope.request_id) {
                        ControlStep::Deliver { request_id: envelope.request_id }
                    } else {
                        ControlStep::Nothing
                    })
                },
            },
    {
        match &envelope.message {
            Some(Message::Ping { nonce }) => ControlStep::SendPong { nonce: *nonce },
            Some(Message::Pong { .. }) => {
                self.outstanding_pings = 0;
                ControlStep::Nothing
            },
            _ => {
                let ghost before = self.pending@;
                let id: u64 = envelope.request_id;
                match self.index_of(id) {
                    Some(i) => {
                        let _ = self.pending.remove(i);
                        proof {
                            let after = self.pending@;
                            assert(after =~= before.remove(i as int));
                            assert forall|a: int, b: int|
                                0 <= a < after.len() && 0 <= b < after.len() && a != b implies after[a]
                                != after[b] by {
                                let p = if a < i {
                                    a
                                } else {
                                    a + 1
                                };
                                let q = if b < i {
                                    b
                                } else {
                                    b + 1
                                };
                                assert(after[a] == before[p] && after[b] == before[q]);
                            }
                            assert forall|x: u64| after.to_set().contains(x)
                                == before.to_set().remove(id).contains(x) by {
                                if after.contains(x) {
                                    let a = choose|a: int| 0 <= a < after.len() && after[a] == x;
                                    let p = if a < i {
                                        a
                                    } else {
                                        a + 1
                                    };
                                    assert(before[p] == x);
                                }
                                if before.contains(x) && x != id {
                                    let p = choose|p: int| 0 <= p < before.len() && before[p] == x;
                                    assert(after[if p < i {
                                        p
                                    } else {
                                        p - 1
                                    }] == x);
                                }
                            }
                            assert(after.to_set() =~= before.to_set().remove(id));
                            assert(before.contains(id));
                        }
                        ControlStep::Deliver { request_id: id }
                    },
                    None => {
                        assert(before.to_set() =~= before.to_set().remove(id));
                        ControlStep::Nothing
                    },
                }
            },
        }
    }

    /// Takes the passing of an interval: another ping is sent, unless too many
    /// went unanswered.
    pub fn tick(&mut self) -> (r: Tick)
        requires
            old(self).wf(),
        ensures
            final(self).wf(),
            final(self)@ == old(self)@.ticked(),
            r == (if old(self)@.outstanding_pings >= MAX_MISSED_PONGS {
                Tick::Dead
            } else {
                Tick::SendPing { nonce: old(self)@.ticked().nonce }
            }),
    {
        if self.outstanding_pings >= MAX_MISSED_PONGS {
            return Tick::Dead;
        }
        self.nonce = if self.nonce == u64::MAX {
            0
        } else {
            self.nonce + 1
        };
        self.outstanding_pings = self.outstanding_pings + 1;
        Tick::SendPing { nonce: self.nonce }
    }
}

/// A connection is dead once three pings in a row went unanswered, and not before.
pub proof fn silence_is_noticed(control: ControlView)
    requires
        control.outstanding_pings == 0,
    ensures
        control.ticked().outstanding_pings < MAX_MISSED_PONGS,
        control.ticked().ticked().outstanding_pings < MAX_MISSED_PONGS,
        control.ticked().ticked().ticked().outstanding_pings >= MAX_MISSED_PONGS,
{
}

/// A request to list the shells.
pub fn list_request() -> (r: Envelope)
    ensures
        r.answers(0),
        r.message == Some(Message::ListShells),
{
    plain(Message::ListShells)
}

/// A message that belongs to nothing.
pub fn plain(message: Message) -> (r: Envelope)
    ensures
        r.answers(0),
        r.message == Some(message),
{
    Envelope { request_id: 0, server_id: Vec::new(), shell_id: Vec::new(), message: Some(message) }
}

/// Whether a message asks for a shell with a key, under the account and with the
/// command that the server chooses.
pub open spec fn is_open_request(e: Envelope, cols: u16, rows: u16, key: Seq<u8>) -> bool {
    e.answers(0) && (e.message matches Some(
        Message::OpenShell { unix_account, command, initial_cols, initial_rows, idempotency_key },
    ) && unix_account@ == ""@ && command@ == ""@ && initial_cols == cols && initial_rows == rows
        && idempotency_key@ == key)
}

/// A request to open a shell with a key.
pub(crate) fn open_request(cols: u16, rows: u16, key: &[u8; 16]) -> (r: Envelope)
    ensures
        is_open_request(r, cols, rows, key@),
{
    plain(
        Message::OpenShell {
            unix_account: "".to_owned(),
            command: "".to_owned(),
            initial_cols: cols as u32,
            initial_rows: rows as u32,
            idempotency_key: copy_bytes(key.as_slice()),
        },
    )
}

/// Whether a message asks to end a shell.
pub open spec fn is_terminate_request(e: Envelope, shell_id: Seq<u8>) -> bool {
    e.request_id == 0 && e.server_id@.len() == 0 && e.shell_id@ == shell_id && e.message == Some(
        Message::TerminateShell,
    )
}

/// A request to end a shell.
pub fn terminate_request(shell_id: &[u8]) -> (r: Envelope)
    ensures
        is_terminate_request(r, shell_id@),
{
    Envelope {
        request_id: 0,
        server_id: Vec::new(),
        shell_id: copy_bytes(shell_id),
        message: Some(Message::TerminateShell),
    }
}

/// What is asked of a server.
#[derive(Debug, Clone, Copy, PartialEq, Eq, Structural)]
pub enum ControlRequest {
    List,
    Open,
    Terminate,
}

/// Why a request failed.
#[derive(Debug, Clone, PartialEq, Eq)]
pub enum ControlError {
    /// The server refused it.
    Refused { request: ControlRequest, text: String },
    /// The server answered something else.
    Unexpected { request: ControlRequest },
    /// Too many requests wait.
    TooMany,
    /// The connection is gone.
    Closed,
}

impl ControlError {
    /// The error as a text.
    pub open spec fn spec_text(self) -> Seq<char> {
        match self {
            ControlError::Refused { request, text } => match request {
                ControlRequest::List => "list failed: "@ + text@,
                ControlRequest::Open => "open failed: "@ + text@,
                ControlRequest::Terminate => "terminate failed: "@ + text@,
            },
            ControlError::Unexpected { request } => match request {
                ControlRequest::List => "unexpected reply to ListShells"@,
                ControlRequest::Open => "unexpected reply to OpenShell"@,
                ControlRequest::Terminate => "unexpected reply to TerminateShell"@,
            },
            ControlError::TooMany => "too many in-flight control requests"@,
            ControlError::Closed => "control channel closed"@,
        }
    }

    /// The error as a text.
    pub fn text(&self) -> (r: String)
        ensures
            r@ == self.spec_text(),
    {
        match self {
            ControlError::Refused { request, text } => {
                let mut out: String = match request {
                    ControlRequest::List => "list failed: ".to_owned(),
                    ControlRequest::Open => "open failed: ".to_owned(),
                    ControlRequest::Terminate => "terminate failed: ".to_owned(),
                };
                push_text(&mut out, text.as_str());
                out
            },
            ControlError::Unexpected { request } => match request {
                ControlRequest::List => "unexpected reply to ListShells".to_owned(),
                ControlRequest::Open => "unexpected reply to OpenShell".to_owned(),
                ControlRequest::Terminate => "unexpected reply to TerminateShell".to_owned(),
            },
            ControlError::TooMany => "too many in-flight control requests".to_owned(),
            ControlError::Closed => "control channel closed".to_owned(),
        }
    }
}

/// The failure of a request that a message is.
pub open spec fn refusal(request: ControlRequest, message: Option<Message>) -> ControlError {
    match message {
        Some(Message::Error { human_message, .. }) => ControlError::Refused {
            request,
            text: human_message,
        },
        _ => ControlError::Unexpected { request },
    }
}

/// The shells that a server lists.
pub fn listed_shells(reply: Envelope) -> (r: Result<Vec<ShellInfo>, ControlError>)
    ensures
        r == (match reply.message {
            Some(Message::ShellList { shells }) => Ok::<
                Vec<ShellInfo>,
                ControlError,
            >(shells),
            _ => Err(refusal(ControlRequest::List, reply.message)),
        }),
{
    match reply.message {
        Some(Message::ShellList { shells }) => Ok(shells),
        Some(Message::Error { human_message, .. }) => {
            Err(ControlError::Refused { request: ControlRequest::List, text: human_message })
        },
        _ => Err(ControlError::Unexpected { request: ControlRequest::List }),
    }
}

/// The shell that a server opened, and the token to resume it.
pub fn opened_shell(reply: Envelope) -> (r: Result<(Vec<u8>, Vec<u8>), ControlError>)
    ensures
        r == (match reply.message {
            Some(Message::ShellOpened { resume_token, .. }) => Ok::<
                (Vec<u8>, Vec<u8>),
                ControlError,
            >((reply.shell_id, resume_token)),
            _ => Err(refusal(ControlRequest::Open, reply.message)),
        }),
{
    match reply.message {
        Some(Message::ShellOpened { resume_token, .. }) => Ok((reply.shell_id, resume_token)),
        Some(Message::Error { human_message, .. }) => {
            Err(ControlError::Refused { request: ControlRequest::Open, text: human_message })
        },
        _ => Err(ControlError::Unexpected { request: ControlRequest::Open }),
    }
}

/// How a shell ended that a server was asked to end.
pub fn terminated_shell(reply: Envelope) -> (r: Result<i32, ControlError>)
    ensures
        r == (match reply.message {
            Some(Message::ShellExited { exit_code, .. }) => Ok::<
                i32,
                ControlError,
            >(exit_code),
            _ => Err(refusal(ControlRequest::Terminate, reply.message)),
        }),
{
    match reply.message {
        Some(Message::ShellExited { exit_code, .. }) => Ok(exit_code),
        Some(Message::Error { human_message, .. }) => {
            Err(ControlError::Refused { request: ControlRequest::Terminate, text: human_message })
        },
        _ => Err(ControlError::Unexpected { request: ControlRequest::Terminate }),
    }
}

/// How a connection logs in.
#[derive(Debug, Clone, PartialEq, Eq)]
pub enum AuthMethod {
    Grant(Vec<u8>),
    SshKey { username: String, private_key_path: String },
    Password { username: String, password: String },
    Dev,
}

/// A password is needed and none is at hand.
#[derive(Debug, Clone, Copy, PartialEq, Eq, Structural)]
pub struct PasswordRequired;

/// The grant that is tried first, where one is remembered and can be read.
pub fn grant_attempt(record: &ServerRecord) -> (r: Option<AuthMethod>)
    ensures
        r matches Some(m) ==> (m matches AuthMethod::Grant(grant) && opt_view(record.grant) == Some(
            encoded(grant@, false, true),
        )),
        r is None ==> forall|grant: Seq<u8>|
            #![trigger encoded(grant, false, true)]
            opt_view(record.grant) != Some(encoded(grant, false, true)),
{
    match &record.grant {
        Some(text) => match standard_bytes(text.as_str()) {
            Some(grant) => Some(AuthMethod::Grant(grant)),
            None => None,
        },
        None => None,
    }
}

/// How a server is logged in to where no grant helps: with a key where the user
/// and a key are known, with a password where only the user is, and without
/// anything otherwise.
pub fn full_method(record: &ServerRecord, password: Option<String>) -> (r: Result<
    AuthMethod,
    PasswordRequired,
>)
    ensures
        match (opt_view(record.username), opt_view(record.ssh_key_path), password) {
            (Some(user), Some(path), _) => r matches Ok(
                AuthMethod::SshKey { username, private_key_path },
            ) && username@ == user && private_key_path@ == path,
            (Some(user), None, Some(p)) => r matches Ok(
                AuthMethod::Password { username, password: q },
            ) && username@ == user && q == p,
            (Some(user), None, None) => r is Err,
            (None, _, _) => r == Ok::<AuthMethod, PasswordRequired>(AuthMethod::Dev),
        },
{
    match (&record.username, &record.ssh_key_path) {
        (Some(user), Some(path)) => Ok(
            AuthMethod::SshKey {
                username: user.as_str().to_owned(),
                private_key_path: path.as_str().to_owned(),
            },
        ),
        (Some(user), None) => match password {
            Some(password) => Ok(
                AuthMethod::Password { username: user.as_str().to_owned(), password },
            ),
            None => Err(PasswordRequired),
        },
        _ => Ok(AuthMethod::Dev),
    }
}

/// Where the attempts to connect stand.
#[derive(Debug, Clone, PartialEq, Eq)]
pub struct Supervisor {
    first: bool,
    backoff_ms: u64,
    password: Option<String>,
}

/// Where the attempts to connect stand.
pub struct SupervisorView {
    pub first: bool,
    pub backoff_ms: u64,
    pub password: Option<String>,
}

impl View for Supervisor {
    type V = SupervisorView;

    closed spec fn view(&self) -> SupervisorView {
        SupervisorView {
            first: self.first,
            backoff_ms: self.backoff_ms,
            password: self.password,
        }
    }
}

/// What a failed attempt leads to.
#[derive(Debug, Clone, Copy, PartialEq, Eq, Structural)]
pub enum FailedStep {
    /// Nobody wants the server any more.
    Stop,
    /// Wait for a password; say why the last one failed, where one was tried.
    AwaitLogin { explain: bool },
    /// Say why, and try again after a pause.
    Retry { pause_ms: u64 },
}

impl Supervisor {
    /// Before the first attempt.
    pub fn new() -> (r: Supervisor)
        ensures
            r@ == (SupervisorView { first: true, backoff_ms: BACKOFF_START_MS, password: None }),
    {
        Supervisor { first: true, backoff_ms: BACKOFF_START_MS, password: None }
    }

    /// Starts an attempt: says what to show, and hands out the password, which is
    /// kept no longer.
    pub fn attempt(&mut self) -> (r: (ServerStatus, Option<String>))
        ensures
            r.0 == (if old(self)@.first {
                ServerStatus::Connecting
            } else {
                ServerStatus::Reconnecting
            }),
            r.1 == old(self)@.password,
            final(self)@ == (SupervisorView { first: false, password: None, ..old(self)@ }),
    {
        let status: ServerStatus = if self.first {
            ServerStatus::Connecting
        } else {
            ServerStatus::Reconnecting
        };
        self.first = false;
        (status, self.password.take())
    }

    /// Keeps a password for the next attempt.
    pub fn login(&mut self, password: String)
        ensures
            final(self)@ == (SupervisorView { password: Some(password), ..old(self)@ }),
    {
        self.password = Some(password);
    }

    /// Takes the failure of an attempt: whether it was made with a password,
    /// whether it failed for want of one, and whether anybody still wants the
    /// server. Without a right password trying again is of no use.
    pub fn failed(&mut self, with_password: bool, password_required: bool, abandoned: bool) -> (r:
        FailedStep)
        requires
            BACKOFF_START_MS <= old(self)@.backoff_ms <= BACKOFF_CAP_MS,
        ensures
            BACKOFF_START_MS <= final(self)@.backoff_ms <= BACKOFF_CAP_MS,
            with_password || password_required ==> r == (FailedStep::AwaitLogin {
                explain: with_password,
            }) && final(self)@ == old(self)@,
            !with_password && !password_required && abandoned ==> r == FailedStep::Stop && final(self)@ == old(self)@,
            !with_password && !password_required && !abandoned ==> {
                &&& r == (FailedStep::Retry { pause_ms: old(self)@.backoff_ms })
                &&& final(self)@ == (SupervisorView {
                    backoff_ms: if 2 * old(self)@.backoff_ms > BACKOFF_CAP_MS {
                        BACKOFF_CAP_MS
                    } else {
                        (2 * old(self)@.backoff_ms) as u64
                    },
                    ..old(self)@
                })
            },
    {
        if with_password || password_required {
            return FailedStep::AwaitLogin { explain: with_password };
        }
        if abandoned {
            return FailedStep::Stop;
        }
        let pause_ms: u64 = self.backoff_ms;
        let doubled: u64 = pause_ms * 2;
        self.backoff_ms = if doubled > BACKOFF_CAP_MS {
            BACKOFF_CAP_MS
        } else {
            doubled
        };
        FailedStep::Retry { pause_ms }
    }

    /// Takes the success of an attempt: the next pause is short again. Says how
    /// often a ping is sent.
    pub fn connected(&mut self, keepalive_interval_ms: u32) -> (r: u64)
        ensures
            final(self)@ == (SupervisorView { backoff_ms: BACKOFF_START_MS, ..old(self)@ }),
            r == (if keepalive_interval_ms > 0 {
                keepalive_interval_ms as u64
            } else {
                DEFAULT_KEEPALIVE_MS
            }),
    {
        self.backoff_ms = BACKOFF_START_MS;
        if keepalive_interval_ms > 0 {
            keepalive_interval_ms as u64
        } else {
            DEFAULT_KEEPALIVE_MS
        }
    }
}

/// The key that a text spells: sixteen bytes in hexadecimal.
pub open spec fn key_of(text: Seq<u8>) -> Option<Seq<u8>> {
    match unhex_bytes(text) {
        Some(bytes) => if bytes.len() == 16 {
            Some(bytes)
        } else {
            None
        },
        None => None,
    }
}

/// The key that a text spells.
pub fn parse_key(text: &str) -> (r: Option<[u8; 16]>)
    ensures
        r is Some <==> key_of(text.spec_bytes()) is Some,
        r matches Some(key) ==> key_of(text.spec_bytes()) == Some(key@),
{
    match unhex(text) {
        Some(bytes) => sixteen(bytes.as_slice()),
        None => None,
    }
}

/// What the writer of an attachment is handed.
#[derive(Debug, Clone, PartialEq, Eq)]
pub enum WriterCmd {
    Input(Vec<u8>),
    Resize(u16, u16),
    History { before_line_id: u64, max_lines: u32 },
    Detach,
}

/// What a command leads to on a server that is connected.
pub enum CmdStep {
    /// Write a shell's key; then [`Opening::written`].
    Open(Opening),
    /// Answer that the shell cannot be noted; nothing is sent.
    RefuseOpen(StoreError),
    /// Attach to a shell; then [`Live::attach_ended`].
    Attach { shell_hex: String, cols: u16, rows: u16 },
    /// Hand something to a shell's writer.
    Forward { shell_hex: String, cmd: WriterCmd },
    /// Tell a shell's writer to detach, where there is one, and the interface that it
    /// did.
    Detached { shell_hex: String, had_writer: bool, event: CoreEvent },
    /// Ask the server to end a shell; then [`Ending::answered`].
    Terminate { ending: Ending, request: Envelope },
    /// Answer that it cannot be done.
    Refuse { text: &'static str },
    Ignore,
}

/// What a command leads to, where some shells are attached.
/// A new shell is noted with the key that is at hand.
pub open spec fn cmd_step(
    live: Seq<Seq<char>>,
    store: StoreModel,
    server_key: Seq<char>,
    cmd: ServerCmd,
    key: Seq<u8>,
    step: CmdStep,
) -> bool {
    match cmd {
        ServerCmd::Open { name, cols, rows } => match step {
            CmdStep::Open(opening) => begun(
                store,
                server_key,
                key,
                name@,
                cols,
                rows,
                Ok::<Opening, StoreError>(opening),
            ),
            CmdStep::RefuseOpen(e) => begun(
                store,
                server_key,
                key,
                name@,
                cols,
                rows,
                Err::<Opening, StoreError>(e),
            ),
            _ => false,
        },
        ServerCmd::Attach { shell_hex, cols, rows } => step == (CmdStep::Attach {
            shell_hex,
            cols,
            rows,
        }),
        ServerCmd::Input { shell_hex, bytes } => if live.contains(shell_hex@) {
            step == (CmdStep::Forward { shell_hex, cmd: WriterCmd::Input(bytes) })
        } else {
            step is Ignore
        },
        ServerCmd::Resize { shell_hex, cols, rows } => if live.contains(shell_hex@) {
            step == (CmdStep::Forward { shell_hex, cmd: WriterCmd::Resize(cols, rows) })
        } else {
            step is Ignore
        },
        ServerCmd::Detach { shell_hex } => {
            &&& step matches CmdStep::Detached { shell_hex: gone, had_writer, event }
            &&& gone == shell_hex
            &&& had_writer == live.contains(shell_hex@)
            &&& tells(event, server_key, shell_hex@, ShellStateEvent::Detached, None)
        },
        ServerCmd::Terminate { shell_hex } => match unhex_bytes(encode_utf8(shell_hex@)) {
            Some(id) => step matches CmdStep::Terminate { ending, request } && ending@ == (
            EndingView { server_key, shell_hex: shell_hex@ }) && is_terminate_request(request, id),
            None => step matches CmdStep::Refuse { text } && text@ == "malformed shell id"@,
        },
        ServerCmd::History { shell_hex, before_line_id, max_lines } => if live.contains(
            shell_hex@,
        ) {
            step == (CmdStep::Forward {
                shell_hex,
                cmd: WriterCmd::History { before_line_id, max_lines },
            })
        } else {
            step matches CmdStep::Refuse { text } && text@ == "shell is not attached"@
        },
        ServerCmd::Login { .. } => step is Ignore,
    }
}

/// The shells that stay attached after a command.
pub open spec fn live_after(live: Set<Seq<char>>, cmd: ServerCmd) -> Set<Seq<char>> {
    match cmd {
        ServerCmd::Detach { shell_hex } => live.remove(shell_hex@),
        ServerCmd::Terminate { shell_hex } => if unhex_bytes(encode_utf8(shell_hex@)) is Some {
            live.remove(shell_hex@)
        } else {
            live
        },
        _ => live,
    }
}

/// The shells of a connected server that are attached.
pub struct Live {
    shells: Vec<String>,
}

impl View for Live {
    type V = Set<Seq<char>>;

    closed spec fn view(&self) -> Set<Seq<char>> {
        texts(self.shells@).to_set()
    }
}

impl Live {
    /// The shells, in some order.
    pub closed spec fn list(&self) -> Seq<Seq<char>> {
        texts(self.shells@)
    }

    /// What is in the list is attached, and the other way round.
    pub proof fn list_is_view(&self)
        ensures
            forall|s: Seq<char>| #[trigger] self.list().contains(s) <==> self@.contains(s),
    {
    }

    /// None.
    pub fn new() -> (r: Live)
        ensures
            r@ == Set::<Seq<char>>::empty(),
    {
        let r = Live { shells: Vec::new() };
        assert(r@ =~= Set::empty());
        r
    }

    /// Whether a shell is attached.
    pub fn is_live(&self, shell_hex: &str) -> (r: bool)
        ensures
            r == self@.contains(shell_hex@),
    {
        proof {
            crate::grant::among_is_contains(self.shells@, shell_hex@);
        }
        contains(&self.shells, shell_hex)
    }

    /// A shell is attached.
    fn insert(&mut self, shell_hex: &str)
        ensures
            final(self)@ == old(self)@.insert(shell_hex@),
    {
        let ghost before = texts(self.shells@);
        self.shells.push(shell_hex.to_owned());
        proof {
            let after = texts(self.shells@);
            assert(after =~= before.push(shell_hex@));
            assert forall|t: Seq<char>| after.to_set().contains(t) == before.to_set().insert(
                shell_hex@,
            ).contains(t) by {
                pushed_contains(before, shell_hex@, t);
            }
            assert(after.to_set() =~= before.to_set().insert(shell_hex@));
        }
    }

    /// Attaching to a shell succeeded or failed: what the interface and whoever
    /// asked are told. Only a shell that is attached takes commands from then on.
    pub fn attach_ended(
        &mut self,
        server_key: &str,
        shell_hex: &str,
        result: Result<AttachInfo, String>,
    ) -> (r: (Option<CoreEvent>, Result<AttachInfo, String>))
        ensures
            r.1 == result,
            match result {
                Ok(_) => final(self)@ == old(self)@.insert(shell_hex@) && (r.0 matches Some(event)
                    && tells(event, server_key@, shell_hex@, ShellStateEvent::Attached, None)),
                Err(_) => final(self)@ == old(self)@ && r.0 is None,
            },
    {
        match result {
            Ok(info) => {
                self.insert(shell_hex);
                let event: CoreEvent = shell_event(
                    server_key,
                    shell_hex,
                    ShellStateEvent::Attached,
                    None,
                );
                (Some(event), Ok(info))
            },
            Err(e) => (None, Err(e)),
        }
    }

    /// A shell is attached no more.
    pub fn gone(&mut self, shell_hex: &str)
        ensures
            final(self)@ == old(self)@.remove(shell_hex@),
    {
        let ghost all = texts(self.shells@);
        let mut kept: Vec<String> = Vec::new();
        let mut i: usize = 0;
        while i < self.shells.len()
            invariant
                i <= self.shells.len(),
                all == texts(self.shells@),
                forall|t: Seq<char>| #[trigger]
                    texts(kept@).contains(t) <==> t != shell_hex@ && all.take(i as int).contains(t),
            decreases self.shells.len() - i,
        {
            let ghost before = texts(kept@);
            let ghost this = self.shells@[i as int]@;
            let other: bool = !same(self.shells[i].as_str(), shell_hex);
            if other {
                kept.push(self.shells[i].as_str().to_owned());
            }
            proof {
                assert(all.take(i + 1) =~= all.take(i as int).push(this));
                assert forall|t: Seq<char>| #[trigger] texts(kept@).contains(t) <==> t != shell_hex@
                    && all.take(i + 1).contains(t) by {
                    if other {
                        assert(texts(kept@) =~= before.push(this));
                    }
                    pushed_contains(before, this, t);
                    pushed_contains(all.take(i as int), this, t);
                }
            }
            i = i + 1;
        }
        assert(all.take(i as int) =~= all);
        self.shells = kept;
        assert(self@ =~= old(self)@.remove(shell_hex@));
    }

    /// Takes a command: what it leads to, and which shells stay attached. A new
    /// shell gets a random key.
    pub fn handle_cmd(&mut self, store: &Store, server_key: &str, cmd: ServerCmd) -> (r: CmdStep)
        requires
            store.wf(),
        ensures
            exists|key: Seq<u8>|
                key.len() == 16 && #[trigger] cmd_step(
                    old(self).list(),
                    store@,
                    server_key@,
                    cmd,
                    key,
                    r,
                ),
            final(self)@ == live_after(old(self)@, cmd),
    {
        let key: [u8; 16] = random_16();
        let r: CmdStep = self.handle_cmd_with(store, server_key, cmd, key);
        assert(key@.len() == 16);
        r
    }

    /// Takes a command, with a fresh key for a new shell at hand: what it leads to,
    /// and which shells stay attached.
    pub fn handle_cmd_with(
        &mut self,
        store: &Store,
        server_key: &str,
        cmd: ServerCmd,
        key: [u8; 16],
    ) -> (r: CmdStep)
        requires
            store.wf(),
        ensures
            cmd_step(old(self).list(), store@, server_key@, cmd, key@, r),
            final(self)@ == live_after(old(self)@, cmd),
    {
        proof {
            self.list_is_view();
        }
        match cmd {
            ServerCmd::Open { name, cols, rows } => match Opening::begin(
                store,
                server_key,
                key,
                name.as_str(),
                cols,
                rows,
            ) {
                Ok(opening) => CmdStep::Open(opening),
                Err(e) => CmdStep::RefuseOpen(e),
            },
            ServerCmd::Attach { shell_hex, cols, rows } => CmdStep::Attach {
                shell_hex,
                cols,
                rows,
            },
            ServerCmd::Input { shell_hex, bytes } => if self.is_live(shell_hex.as_str()) {
                CmdStep::Forward { shell_hex, cmd: WriterCmd::Input(bytes) }
            } else {
                CmdStep::Ignore
            },
            ServerCmd::Resize { shell_hex, cols, rows } => if self.is_live(shell_hex.as_str()) {
                CmdStep::Forward { shell_hex, cmd: WriterCmd::Resize(cols, rows) }
            } else {
                CmdStep::Ignore
            },
            ServerCmd::Detach { shell_hex } => {
                let had_writer: bool = self.is_live(shell_hex.as_str());
                self.gone(shell_hex.as_str());
                let event: CoreEvent = shell_event(
                    server_key,
                    shell_hex.as_str(),
                    ShellStateEvent::Detached,
                    None,
                );
                CmdStep::Detached { shell_hex, had_writer, event }
            },
            ServerCmd::Terminate { shell_hex } => match unhex(shell_hex.as_str()) {
                Some(shell_id) => {
                    self.gone(shell_hex.as_str());
                    CmdStep::Terminate {
                        ending: Ending::begin(server_key, shell_hex.as_str()),
                        request: terminate_request(shell_id.as_slice()),
                    }
                },
                None => CmdStep::Refuse { text: "malformed shell id" },
            },
            ServerCmd::History { shell_hex, before_line_id, max_lines } => if self.is_live(
                shell_hex.as_str(),
            ) {
                CmdStep::Forward {
                    shell_hex,
                    cmd: WriterCmd::History { before_line_id, max_lines },
                }
            } else {
                CmdStep::Refuse { text: "shell is not attached" }
            },
            ServerCmd::Login { .. } => CmdStep::Ignore,
        }
    }
}

/// Why a shell cannot be attached to.
#[derive(Debug, Clone, Copy, PartialEq, Eq, Structural)]
pub enum AttachError {
    /// Nothing is remembered of it.
    NoStoredShell,
    /// Its identifier is none.
    MalformedShellId,
    /// Its token cannot be read.
    CorruptToken,
}

/// What a failed attempt to attach calls for.
#[derive(Debug, Clone, Copy, PartialEq, Eq, Structural)]
pub enum FailureAction {
    /// The failure will pass.
    Retry,
    /// It will not, but the token may still be good.
    ExitKeepToken,
    /// The shell is gone.
    ForgetAndExit,
    /// The token was used by somebody else: the shell's key gives a new one.
    RecoverViaIdempotency,
}

/// What a failed attempt to attach leads to.
pub enum AttachStep {
    /// Report the failure.
    GiveUp,
    /// Forget the shell, say that it ended, and report the failure. There is
    /// nothing to write where the server is remembered no more.
    Forget { change: Option<Change>, event: CoreEvent },
    /// Ask which shells run, to recover the token.
    Recover { request: Envelope },
}

/// What the list of shells leads to.
pub enum RecoverStep {
    /// The shell does not run: forget it, say that it is lost, and report that.
    NotRunning { change: Option<Change>, event: CoreEvent },
    /// Open it again with its key.
    Reopen { request: Envelope },
}

/// What opening the shell again leads to.
pub enum ReopenStep {
    /// Another shell was opened: end it, say that this one is lost, and report that.
    Different { request: Envelope, event: CoreEvent },
    /// Write the new token, where the server is remembered, and attach again.
    Attach { change: Option<Change> },
}

/// What is reported of a shell that does not run any more.
pub const NOT_RUNNING: &'static str = "shell no longer running on the server";

/// What is reported of a shell in whose place another one was opened.
pub const DIFFERENT_SHELL: &'static str = "idempotency key resolved to a different shell";

/// An attempt to attach to a shell.
#[derive(Debug, Clone, PartialEq, Eq)]
pub struct Attach {
    server_key: String,
    shell_hex: String,
    shell_id: Vec<u8>,
    token: Vec<u8>,
    recovery_key: Option<[u8; 16]>,
    recovered: bool,
}

/// An attempt to attach to a shell.
#[verifier::ext_equal]
pub struct AttachView {
    pub server_key: Seq<char>,
    pub shell_hex: Seq<char>,
    pub shell_id: Seq<u8>,
    pub token: Seq<u8>,
    pub recovery_key: Option<Seq<u8>>,
    pub recovered: bool,
}

impl AttachView {
    /// Whether the token can be recovered, which is tried at most once.
    pub open spec fn recoverable(self) -> bool {
        self.recovery_key is Some && !self.recovered
    }
}

impl View for Attach {
    type V = AttachView;

    closed spec fn view(&self) -> AttachView {
        AttachView {
            server_key: self.server_key@,
            shell_hex: self.shell_hex@,
            shell_id: self.shell_id@,
            token: self.token@,
            recovery_key: match self.recovery_key {
                Some(k) => Some(k@),
                None => None,
            },
            recovered: self.recovered,
        }
    }
}

/// Whether some shell of a list is a given one and runs.
pub open spec fn runs(shells: Seq<RemoteShell>, shell_id: Seq<u8>) -> bool {
    exists|i: int|
        0 <= i < shells.len() && (#[trigger] shells[i]).shell_id@ == shell_id && shells[i].state
            == Some(ShellState::Running)
}

/// The key that a shell can be recovered with.
pub open spec fn recovery_key(record: ShellModel) -> Option<Seq<u8>> {
    match record.idempotency_key {
        Some(text) => key_of(encode_utf8(text)),
        None => None,
    }
}

/// What an attempt starts with, given what is remembered of the shell.
pub open spec fn attach_begun(
    known: ShellModel,
    server_key: Seq<char>,
    shell_hex: Seq<char>,
    r: Result<Attach, AttachError>,
) -> bool {
    match unhex_bytes(encode_utf8(shell_hex)) {
        None => r == Err::<Attach, AttachError>(AttachError::MalformedShellId),
        Some(id) => match r {
            Ok(a) => {
                &&& known.token == encoded(a@.token, false, true)
                &&& a@ == (AttachView {
                    server_key,
                    shell_hex,
                    shell_id: id,
                    token: a@.token,
                    recovery_key: recovery_key(known),
                    recovered: false,
                })
            },
            Err(e) => e == AttachError::CorruptToken && forall|token: Seq<u8>|
                known.token != #[trigger] encoded(token, false, true),
        },
    }
}

/// Whether a shell's token is replaced, where its server is remembered.
pub open spec fn replaces_token(
    store: StoreModel,
    server_key: Seq<char>,
    shell_hex: Seq<char>,
    token: Seq<u8>,
    now_ms: i64,
    change: Option<Change>,
) -> bool {
    &&& change is Some <==> store.servers.dom().contains(server_key)
    &&& change matches Some(c) ==> c.wf() && c.base() == store && c@ == store.with(
        server_key,
        store.servers[server_key].token_updated(shell_hex, token, now_ms),
    )
}

fn replace_token(store: &Store, server_key: &str, shell_hex: &str, token: &[u8], now_ms: i64) -> (r:
    Option<Change>)
    requires
        store.wf(),
    ensures
        replaces_token(store@, server_key@, shell_hex@, token@, now_ms, r),
{
    match store.update_token(server_key, shell_hex, token, now_ms) {
        Ok(change) => Some(change),
        Err(_) => None,
    }
}

impl Attach {
    /// Starts an attempt with what is remembered of the shell.
    pub fn begin(store: &Store, server_key: &str, shell_hex: &str) -> (r: Result<Attach, AttachError>)
        requires
            store.wf(),
        ensures
            ({
                let servers = store@.servers;
                if !servers.dom().contains(server_key@)
                    || !servers[server_key@].shells.dom().contains(shell_hex@) {
                    r == Err::<Attach, AttachError>(AttachError::NoStoredShell)
                } else {
                    attach_begun(
                        servers[server_key@].shells[shell_hex@],
                        server_key@,
                        shell_hex@,
                        r,
                    )
                }
            }),
    {
        let record: Option<ShellRecord> = store.shell(server_key, shell_hex);
        let known: ShellRecord = match record {
            Some(known) => known,
            None => {
                return Err(AttachError::NoStoredShell);
            },
        };
        let shell_id: Vec<u8> = match unhex(shell_hex) {
            Some(id) => id,
            None => {
                return Err(AttachError::MalformedShellId);
            },
        };
        let token: Vec<u8> = match standard_bytes(known.token.as_str()) {
            Some(token) => token,
            None => {
                return Err(AttachError::CorruptToken);
            },
        };
        let key: Option<[u8; 16]> = match &known.idempotency_key {
            Some(text) => parse_key(text.as_str()),
            None => None,
        };
        Ok(
            Attach {
                server_key: server_key.to_owned(),
                shell_hex: shell_hex.to_owned(),
                shell_id,
                token,
                recovery_key: key,
                recovered: false,
            },
        )
    }

    /// The shell's identifier.
    pub fn shell_id(&self) -> (r: &Vec<u8>)
        ensures
            r@ == self@.shell_id,
    {
        &self.shell_id
    }

    /// The token to attach with.
    pub fn token(&self) -> (r: &Vec<u8>)
        ensures
            r@ == self@.token,
    {
        &self.token
    }

    /// Whether the token can be recovered.
    pub fn can_recover(&self) -> (r: bool)
        ensures
            r == self@.recoverable(),
    {
        self.recovery_key.is_some() && !self.recovered
    }

    /// The shell is attached: its token was used up, and the one that came in its
    /// place is to be written, where the server is remembered.
    pub fn succeeded(&self, store: &Store, rotated_token: &[u8], now_ms: i64) -> (r: Option<Change>)
        requires
            store.wf(),
        ensures
            replaces_token(
                store@,
                self@.server_key,
                self@.shell_hex,
                rotated_token@,
                now_ms,
                r,
            ),
    {
        replace_token(
            store,
            self.server_key.as_str(),
            self.shell_hex.as_str(),
            rotated_token,
            now_ms,
        )
    }

    /// Takes the failure of an attempt. A recovery is called for only where one
    /// is possible.
    pub fn failed(&mut self, store: &Store, action: FailureAction) -> (r: AttachStep)
        requires
            store.wf(),
            action is RecoverViaIdempotency ==> old(self)@.recoverable(),
        ensures
            match action {
                FailureAction::Retry | FailureAction::ExitKeepToken => r is GiveUp && final(self)@ == old(self)@,
                FailureAction::ForgetAndExit => {
                    &&& final(self)@ == old(self)@
                    &&& r matches AttachStep::Forget { change, event }
                    &&& forgets(store@, old(self)@.server_key, old(self)@.shell_hex, change)
                    &&& tells(
                        event,
                        old(self)@.server_key,
                        old(self)@.shell_hex,
                        ShellStateEvent::Exited,
                        None,
                    )
                },
                FailureAction::RecoverViaIdempotency => {
                    &&& final(self)@ == (AttachView { recovered: true, ..old(self)@ })
                    &&& r matches AttachStep::Recover { request }
                    &&& request.answers(0)
                    &&& request.message == Some(Message::ListShells)
                },
            },
    {
        match action {
            FailureAction::Retry | FailureAction::ExitKeepToken => AttachStep::GiveUp,
            FailureAction::ForgetAndExit => AttachStep::Forget {
                change: forget(store, self.server_key.as_str(), self.shell_hex.as_str()),
                event: shell_event(
                    self.server_key.as_str(),
                    self.shell_hex.as_str(),
                    ShellStateEvent::Exited,
                    None,
                ),
            },
            FailureAction::RecoverViaIdempotency => {
                self.recovered = true;
                AttachStep::Recover { request: list_request() }
            },
        }
    }

    /// What the interface is told where the token could not be recovered.
    pub fn lost(&self) -> (r: CoreEvent)
        ensures
            tells(r, self@.server_key, self@.shell_hex, ShellStateEvent::Orphaned, None),
    {
        shell_event(
            self.server_key.as_str(),
            self.shell_hex.as_str(),
            ShellStateEvent::Orphaned,
            None,
        )
    }

    /// Takes the list of shells: only one that runs is opened again.
    pub fn listed(&self, store: &Store, shells: &Vec<RemoteShell>) -> (r: RecoverStep)
        requires
            store.wf(),
            self@.recovery_key is Some,
        ensures
            !runs(shells@, self@.shell_id) ==> {
                &&& r matches RecoverStep::NotRunning { change, event }
                &&& forgets(store@, self@.server_key, hex_text(self@.shell_id), change)
                &&& tells(
                    event,
                    self@.server_key,
                    self@.shell_hex,
                    ShellStateEvent::Orphaned,
                    None,
                )
            },
            runs(shells@, self@.shell_id) ==> (r matches RecoverStep::Reopen { request }
                && is_open_request(request, 0, 0, self@.recovery_key->0)),
    {
        let mut running: bool = false;
        let mut i: usize = 0;
        while i < shells.len()
            invariant
                i <= shells.len(),
                running == runs(shells@.take(i as int), self@.shell_id),
            decreases shells.len() - i,
        {
            let here: bool = same_bytes(shells[i].shell_id.as_slice(), self.shell_id.as_slice())
                && match shells[i].state {
                Some(ShellState::Running) => true,
                _ => false,
            };
            proof {
                let shorter = shells@.take(i as int);
                let longer = shells@.take(i + 1);
                if running {
                    let k = choose|k: int|
                        0 <= k < shorter.len() && (#[trigger] shorter[k]).shell_id@ == self@.shell_id
                            && shorter[k].state == Some(ShellState::Running);
                    assert(longer[k] == shorter[k]);
                }
                if here {
                    assert(longer[i as int] == shells@[i as int]);
                }
                if runs(longer, self@.shell_id) && !here {
                    let k = choose|k: int|
                        0 <= k < longer.len() && (#[trigger] longer[k]).shell_id@ == self@.shell_id
                            && longer[k].state == Some(ShellState::Running);
                    assert(k < i);
                    assert(shorter[k] == longer[k]);
                }
            }
            running = running || here;
            i = i + 1;
        }
        assert(shells@.take(i as int) =~= shells@);
        match (running, self.recovery_key) {
            (true, Some(key)) => RecoverStep::Reopen { request: open_request(0, 0, &key) },
            _ => {
                let id: String = hex(self.shell_id.as_slice());
                RecoverStep::NotRunning {
                    change: forget(store, self.server_key.as_str(), id.as_str()),
                    event: self.lost(),
                }
            },
        }
    }

    /// Takes what opening the shell again gave: another shell than this one is
    /// never adopted.
    pub fn reopened(&mut self, store: &Store, shell_id: &[u8], token: &[u8], now_ms: i64) -> (r:
        ReopenStep)
        requires
            store.wf(),
        ensures
            if shell_id@ == old(self)@.shell_id {
                &&& final(self)@ == (AttachView { token: token@, ..old(self)@ })
                &&& r matches ReopenStep::Attach { change }
                &&& replaces_token(
                    store@,
                    old(self)@.server_key,
                    hex_text(shell_id@),
                    token@,
                    now_ms,
                    change,
                )
            } else {
                &&& final(self)@ == old(self)@
                &&& r matches ReopenStep::Different { request, event }
                &&& is_terminate_request(request, shell_id@)
                &&& tells(
                    event,
                    old(self)@.server_key,
                    old(self)@.shell_hex,
                    ShellStateEvent::Orphaned,
                    None,
                )
            },
    {
        if !same_bytes(shell_id, self.shell_id.as_slice()) {
            return ReopenStep::Different {
                request: terminate_request(shell_id),
                event: self.lost(),
            };
        }
        self.token = copy_bytes(token);
        let id: String = hex(shell_id);
        ReopenStep::Attach {
            change: replace_token(store, self.server_key.as_str(), id.as_str(), token, now_ms),
        }
    }
}

/// A token is recovered at most once in an attempt.
pub proof fn one_recovery(before: AttachView, after: AttachView)
    requires
        before.recoverable(),
        after == (AttachView { recovered: true, ..before }),
    ensures
        !after.recoverable(),
        after.shell_id == before.shell_id,
{
}

/// The token that is attached with is the one that was written: reading what a
/// token update wrote gives it back.
pub proof fn written_tokens_are_read(token: Seq<u8>, read: Seq<u8>)
    requires
        encoded(token, false, true) == encoded(read, false, true),
    ensures
        read == token,
{
    encoded_injective(token, read, false, true);
}

} // verus!
