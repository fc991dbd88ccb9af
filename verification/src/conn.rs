//! One client's connection to a daemon: what each message leads to, whatever
//! transport carries it.
//!
//! Channel 0 controls the session; every other channel is opened by the client
//! for one attachment. Work that only the shell manager, a password check or the
//! network can do is asked for by an [`Action`], and its result comes back
//! through the function that the action names. Losing the connection detaches
//! its shells and ends none of them.

use vstd::prelude::*;
use vstd::utf8::*;

use crate::assoc::{
    as_map, empty_is_empty, has_key, lookup, position, push_is_insert, remove_is_remove, same_size,
    unique,
};
use crate::auth::{AuthMode, AuthState};
use crate::bytes::{copy_bytes, same_bytes};
use crate::chance::random_16;
use crate::forward::{ForwardService, MAX_PER_CONNECTION};
use crate::grant::{
    among_is_contains, claims_checked, claims_payload, ed25519_signature, grant_checked,
    grant_survives_the_wire, issued, ClaimsView, ConnectionGrant, GrantClaims, GrantErrorView,
    CLOCK_SKEW_MS,
};
use crate::hex::{hex, hex_text};
use crate::ids::{sixteen, ServerId, ShellId};
use crate::net::IpAddr;
use crate::observability::{
    AuditEvent, AuthMethod, RejectReason, ShellOperation, UploadOutcome,
};
use crate::protocol::{
    dimension, error_envelope, exit_code_wire, low_bits, non_empty, opt_text, respond,
    session_error, signed_code, text_option, Attachment, AttachmentEvent, AuthenticationResult,
    Capability, ClientHello, Credential, Envelope, ErrorCode, HistoryRange, Message, Negotiated,
    OpenShellRequest, OpenedShell, ServerInfo, SessionError, SessionErrorKind, ShellExit, ShellInfo,
    ShellState,
};
use crate::rate_limit::LimiterView;
use crate::ssh::{listed, new_challenge, openssh_key, response_checked};
use crate::text::{among, contains, copy_list, lossy_text, same, texts, utf8_lossy};
use crate::uploads::{
    FinishedUpload, UploadError, UploadValidationError, MAX_UPLOADS_PER_CONNECTION,
};

verus! {

/// How often a client should show that it is alive.
pub const KEEPALIVE_INTERVAL_MS: u32 = 15_000;

/// The largest datagram that is agreed on.
pub const DATAGRAM_BYTES_MAX: u32 = 1_200;

/// The most messages that wait to be sent on a connection.
pub const OUTGOING_QUEUE: usize = 512;

/// How long a grant lasts that a login is answered with.
pub const GRANT_LIFETIME_MS: i64 = 43_200_000;

/// The most lines of scrollback that one request reads.
pub const HISTORY_LINES_MAX: u32 = 10_000;

/// Which attachment a channel carries.
#[derive(Debug, Clone, Copy, PartialEq, Eq)]
pub struct Binding {
    pub shell_id: ShellId,
    pub attachment_id: u64,
}

/// What the two clocks show: milliseconds of a monotonic clock, and
/// milliseconds since the epoch.
#[derive(Debug, Clone, Copy, PartialEq, Eq, Structural)]
pub struct Clock {
    pub tick_ms: u64,
    pub now_ms: i64,
}

/// What a connection asks for.
#[derive(Debug, Clone, PartialEq, Eq)]
pub enum Action {
    /// Send a message.
    Send { channel: u64, envelope: Envelope },
    /// Record an event.
    Audit(AuditEvent),
    /// Negotiate with the client; then [`Conn::negotiated`].
    Negotiate {
        request_id: u64,
        hello: ClientHello,
        /// What the server can do beyond the basics.
        offered: Vec<Capability>,
        max_frame_bytes: u32,
        max_datagram_bytes: u32,
        transport_datagrams: bool,
    },
    /// Check a password; then [`Conn::password_checked`].
    VerifyPassword { request_id: u64, username: String, password: String },
    /// List the shells; then [`Conn::shells_listed`].
    ListShells { request_id: u64 },
    /// Open a shell; then [`Conn::shell_opened`].
    OpenShell { request_id: u64, request: OpenShellRequest },
    /// Find out who owns a shell that shall be ended; then
    /// [`Conn::owner_checked`].
    CheckOwner { request_id: u64, shell_id: ShellId },
    /// End a shell; then [`Conn::shell_terminated`].
    Terminate { request_id: u64, shell_id: ShellId },
    /// Attach a user to a shell; then [`Conn::attached`].
    Attach {
        channel: u64,
        request_id: u64,
        user: String,
        shell_id: ShellId,
        resume_token: Vec<u8>,
        cols: u16,
        rows: u16,
    },
    /// Write to a shell; then [`Conn::input_written`].
    WriteInput { channel: u64, request_id: u64, shell_id: ShellId, data: Vec<u8> },
    /// Resize a shell's terminal, whether it still runs or not.
    Resize { shell_id: ShellId, cols: u16, rows: u16 },
    /// Read a shell's scrollback; then [`Conn::history_read`].
    ReadHistory {
        channel: u64,
        request_id: u64,
        shell_id: ShellId,
        before_line_id: u64,
        maximum_lines: u32,
        maximum_bytes: u32,
    },
    /// End an attachment; the shell runs on.
    Detach { shell_id: ShellId, attachment_id: u64 },
    /// Find out who owns a shell that a file shall be uploaded to; then
    /// [`Conn::upload_owner_checked`].
    CheckUploadOwner {
        channel: u64,
        request_id: u64,
        user: String,
        shell_id: ShellId,
        original_name: String,
        total_bytes: u64,
        sha256: Vec<u8>,
    },
    /// Begin an upload, with a place of the user's; then [`Conn::upload_begun`].
    BeginUpload {
        channel: u64,
        request_id: u64,
        user: String,
        shell_id: ShellId,
        original_name: String,
        total_bytes: u64,
        sha256: Vec<u8>,
    },
    /// Hand a frame to the upload of a channel; at its end,
    /// [`Conn::upload_ended`].
    UploadFrame { channel: u64, envelope: Envelope },
    /// Take a place of the user's and connect; then [`Conn::forward_refused`], or at its end
    /// [`Conn::forward_ended`].
    OpenForward { channel: u64, request_id: u64, user: String, host: String, port: u16 },
    /// Hand a frame to the forwarded connection of a channel.
    ForwardFrame { channel: u64, envelope: Envelope },
}

/// What a message or a result leads to.
#[derive(Debug, Clone, PartialEq, Eq)]
pub struct Outcome {
    /// What to do, in order.
    pub actions: Vec<Action>,
    /// Whether the connection stays open.
    pub open: bool,
}

/// What the shell manager made of an attachment.
#[derive(Debug, Clone, PartialEq, Eq)]
pub enum AttachReply {
    /// The resume token is none.
    MalformedToken,
    /// The manager refused.
    Refused(SessionError),
    /// The shell is attached.
    Attached(Attachment),
}

/// A shell as the manager lists it.
#[derive(Debug, Clone, PartialEq, Eq)]
pub struct ListedShell {
    pub shell_id: ShellId,
    pub owner: String,
    pub state: ShellState,
    pub created_at_ms: i64,
    pub last_attached_at_ms: i64,
}

/// What a [`Conn`] holds.
pub struct ConnView {
    pub server_id: ServerId,
    pub peer_ip: IpAddr,
    pub default_frame_bytes: u32,
    pub offered: Seq<Capability>,
    pub negotiated: Option<Negotiated>,
    pub authenticated: bool,
    pub user: Seq<char>,
    pub scope: Option<Seq<Seq<char>>>,
    pub channel_binding: Seq<u8>,
    pub pending: Option<(Seq<char>, Seq<u8>)>,
    pub transport_datagrams: bool,
    pub attachments: Map<u64, Binding>,
    pub uploads: Map<u64, ShellId>,
    pub forwards: Map<u64, u64>,
}

impl ConnView {
    /// Whether a capability was agreed on.
    pub open spec fn can(self, capability: Capability) -> bool {
        self.negotiated matches Some(n) && n.capabilities@.contains(capability)
    }

    /// Whether a channel carries anything.
    pub open spec fn busy(self, channel: u64) -> bool {
        self.attachments.dom().contains(channel) || self.uploads.dom().contains(channel)
            || self.forwards.dom().contains(channel)
    }

    /// Whether the client's grant permits an operation: it names it, or it is
    /// not scoped.
    pub open spec fn permits(self, op: Seq<char>) -> bool {
        self.scope matches Some(ops) ==> ops.contains(op)
    }

    /// The largest frame that the client accepts.
    pub open spec fn max_frame_bytes(self) -> u32 {
        match self.negotiated {
            Some(n) => n.max_frame_bytes,
            None => self.default_frame_bytes,
        }
    }
}

/// Whether an action records an event.
pub open spec fn audits(action: Action, event: AuditEvent<Seq<char>>) -> bool {
    action matches Action::Audit(e) && e@ == event
}

/// Whether an action answers a request with an error.
pub open spec fn reports(
    action: Action,
    channel: u64,
    request_id: u64,
    code: ErrorCode,
    text: Seq<char>,
) -> bool {
    &&& action matches Action::Send { channel: c, envelope }
    &&& c == channel
    &&& envelope.is_error(request_id, code, text, false)
}

/// Whether a request is refused, and nothing else happens.
pub open spec fn refused(
    out: Outcome,
    channel: u64,
    request_id: u64,
    code: ErrorCode,
    text: Seq<char>,
) -> bool {
    &&& out.open
    &&& out.actions@.len() == 1
    &&& reports(out.actions@[0], channel, request_id, code, text)
}

/// Whether a request is refused, and the refusal is recorded.
pub open spec fn refused_audited(
    out: Outcome,
    channel: u64,
    request_id: u64,
    code: ErrorCode,
    text: Seq<char>,
    event: AuditEvent<Seq<char>>,
) -> bool {
    &&& out.open
    &&& out.actions@.len() == 2
    &&& audits(out.actions@[0], event)
    &&& reports(out.actions@[1], channel, request_id, code, text)
}

/// Whether nothing happens.
pub open spec fn nothing(out: Outcome) -> bool {
    out.open && out.actions@.len() == 0
}

/// Whether a message is the result of a login.
pub open spec fn is_auth_result(
    envelope: Envelope,
    request_id: u64,
    ok: bool,
    user: Seq<char>,
    expires_at_ms: i64,
    code: Option<ErrorCode>,
    text: Seq<char>,
    challenge: Seq<u8>,
) -> bool {
    &&& envelope.answers(request_id)
    &&& envelope.message matches Some(Message::AuthenticationResult(r))
    &&& r.ok == ok
    &&& r.user_id@ == user
    &&& r.expires_at_ms == expires_at_ms
    &&& r.error_code == code
    &&& r.error_message@ == text
    &&& r.challenge@ == challenge
}

fn auth_ok(request_id: u64, user_id: &str, expires_at_ms: i64, challenge: Vec<u8>) -> (r: Envelope)
    ensures
        is_auth_result(
            r,
            request_id,
            true,
            user_id@,
            expires_at_ms,
            None,
            Seq::empty(),
            challenge@,
        ),
{
    respond(
        request_id,
        Message::AuthenticationResult(
            AuthenticationResult {
                ok: true,
                user_id: user_id.to_owned(),
                expires_at_ms,
                error_code: None,
                error_message: String::new(),
                challenge,
            },
        ),
    )
}

fn auth_failure(request_id: u64, code: ErrorCode, message: &str) -> (r: Envelope)
    ensures
        is_auth_result(
            r,
            request_id,
            false,
            Seq::empty(),
            0,
            Some(code),
            message@,
            Seq::empty(),
        ),
{
    respond(
        request_id,
        Message::AuthenticationResult(
            AuthenticationResult {
                ok: false,
                user_id: String::new(),
                expires_at_ms: 0,
                error_code: Some(code),
                error_message: message.to_owned(),
                challenge: Vec::new(),
            },
        ),
    )
}

/// Why a refusal of the shell manager is recorded.
pub open spec fn reject_reason_of(kind: SessionErrorKind) -> RejectReason {
    match kind {
        SessionErrorKind::ShellNotFound => RejectReason::NotFound,
        SessionErrorKind::NotRunning => RejectReason::NotRunning,
        SessionErrorKind::LimitExceeded => RejectReason::LimitExceeded,
        SessionErrorKind::Forbidden => RejectReason::Forbidden,
        SessionErrorKind::InvalidToken => RejectReason::InvalidToken,
        SessionErrorKind::TokenReplayed => RejectReason::TokenReplayed,
        SessionErrorKind::Pty => RejectReason::Internal,
        SessionErrorKind::Internal => RejectReason::Internal,
    }
}

/// Why a refusal of the shell manager is recorded.
pub fn reject_reason(error: &SessionError) -> (r: RejectReason)
    ensures
        r == reject_reason_of(error.kind),
{
    match error.kind {
        SessionErrorKind::ShellNotFound => RejectReason::NotFound,
        SessionErrorKind::NotRunning => RejectReason::NotRunning,
        SessionErrorKind::LimitExceeded => RejectReason::LimitExceeded,
        SessionErrorKind::Forbidden => RejectReason::Forbidden,
        SessionErrorKind::InvalidToken => RejectReason::InvalidToken,
        SessionErrorKind::TokenReplayed => RejectReason::TokenReplayed,
        SessionErrorKind::Pty | SessionErrorKind::Internal => RejectReason::Internal,
    }
}

/// A client's connection.
pub struct Conn {
    server_id: ServerId,
    peer_ip: IpAddr,
    default_frame_bytes: u32,
    offered: Vec<Capability>,
    negotiated: Option<Negotiated>,
    authenticated: bool,
    user_id: String,
    op_scope: Option<Vec<String>>,
    channel_binding: Vec<u8>,
    pending_challenge: Option<(String, Vec<u8>)>,
    transport_datagrams: bool,
    attachments: Vec<(u64, Binding)>,
    uploads: Vec<(u64, ShellId)>,
    forwards: Vec<(u64, u64)>,
}

/// Where a channel is listed.
fn find_channel<V>(list: &Vec<(u64, V)>, channel: u64) -> (r: Option<usize>)
    requires
        unique(list@),
    ensures
        r matches Some(i) ==> i < list@.len() && list@[i as int].0 == channel && as_map(
            list@,
        ).dom().contains(channel) && as_map(list@)[channel] == list@[i as int].1,
        r is None ==> !has_key(list@, channel) && !as_map(list@).dom().contains(channel),
{
    let mut i: usize = 0;
    while i < list.len()
        invariant
            i <= list.len(),
            unique(list@),
            forall|k: int| 0 <= k < i ==> (#[trigger] list@[k]).0 != channel,
        decreases list.len() - i,
    {
        if list[i].0 == channel {
            proof {
                lookup(list@, i as int);
            }
            return Some(i);
        }
        i = i + 1;
    }
    None
}

/// Takes a channel off a list.
fn drop_channel<V>(list: &mut Vec<(u64, V)>, channel: u64)
    requires
        unique(old(list)@),
    ensures
        unique(final(list)@),
        as_map(final(list)@) == as_map(old(list)@).remove(channel),
{
    match find_channel(list, channel) {
        Some(i) => {
            proof {
                remove_is_remove(list@, i as int);
            }
            let _ = list.remove(i);
        },
        None => {
            assert(as_map(list@).remove(channel) =~= as_map(list@));
        },
    }
}

/// Puts a channel that is not listed on a list.
fn add_channel<V>(list: &mut Vec<(u64, V)>, channel: u64, value: V)
    requires
        unique(old(list)@),
        !as_map(old(list)@).dom().contains(channel),
    ensures
        unique(final(list)@),
        as_map(final(list)@) == as_map(old(list)@).insert(channel, value),
{
    proof {
        push_is_insert(list@, channel, value);
    }
    list.push((channel, value));
}

impl View for Conn {
    type V = ConnView;

    closed spec fn view(&self) -> ConnView {
        ConnView {
            server_id: self.server_id,
            peer_ip: self.peer_ip,
            default_frame_bytes: self.default_frame_bytes,
            offered: self.offered@,
            negotiated: self.negotiated,
            authenticated: self.authenticated,
            user: self.user_id@,
            scope: match self.op_scope {
                Some(ops) => Some(texts(ops@)),
                None => None,
            },
            channel_binding: self.channel_binding@,
            pending: match self.pending_challenge {
                Some((user, challenge)) => Some((user@, challenge@)),
                None => None,
            },
            transport_datagrams: self.transport_datagrams,
            attachments: as_map(self.attachments@),
            uploads: as_map(self.uploads@),
            forwards: as_map(self.forwards@),
        }
    }
}

fn just(action: Action) -> (r: Outcome)
    ensures
        r.open,
        r.actions@.len() == 1,
        r.actions@[0] == action,
{
    let mut actions: Vec<Action> = Vec::new();
    actions.push(action);
    Outcome { actions, open: true }
}

fn both(first: Action, second: Action) -> (r: Outcome)
    ensures
        r.open,
        r.actions@.len() == 2,
        r.actions@[0] == first,
        r.actions@[1] == second,
{
    let mut actions: Vec<Action> = Vec::new();
    actions.push(first);
    actions.push(second);
    Outcome { actions, open: true }
}

fn idle() -> (r: Outcome)
    ensures
        nothing(r),
{
    Outcome { actions: Vec::new(), open: true }
}

fn refuse(channel: u64, request_id: u64, code: ErrorCode, text: &str) -> (r: Outcome)
    ensures
        refused(r, channel, request_id, code, text@),
{
    just(Action::Send { channel, envelope: error_envelope(request_id, code, text, false) })
}

impl Conn {
    /// Whether no channel is bound twice.
    pub closed spec fn wf(&self) -> bool {
        unique(self.attachments@) && unique(self.uploads@) && unique(self.forwards@)
    }

    /// A connection that has just been made, to a server that can do some things
    /// beyond the basics.
    pub fn new(
        server_id: ServerId,
        peer_ip: IpAddr,
        default_frame_bytes: u32,
        offered: Vec<Capability>,
        transport_datagrams: bool,
        channel_binding: Vec<u8>,
    ) -> (r: Conn)
        ensures
            r.wf(),
            r@ == (ConnView {
                server_id,
                peer_ip,
                default_frame_bytes,
                offered: offered@,
                negotiated: None,
                authenticated: false,
                user: Seq::empty(),
                scope: None,
                channel_binding: channel_binding@,
                pending: None,
                transport_datagrams,
                attachments: Map::empty(),
                uploads: Map::empty(),
                forwards: Map::empty(),
            }),
    {
        let r = Conn {
            server_id,
            peer_ip,
            default_frame_bytes,
            offered,
            negotiated: None,
            authenticated: false,
            user_id: String::new(),
            op_scope: None,
            channel_binding,
            pending_challenge: None,
            transport_datagrams,
            attachments: Vec::new(),
            uploads: Vec::new(),
            forwards: Vec::new(),
        };
        proof {
            empty_is_empty(r.attachments@);
            empty_is_empty(r.uploads@);
            empty_is_empty(r.forwards@);
        }
        r
    }

    /// The largest frame that the client accepts.
    pub fn max_frame_bytes(&self) -> (r: u32)
        ensures
            r == self@.max_frame_bytes(),
    {
        match &self.negotiated {
            Some(n) => n.max_frame_bytes,
            None => self.default_frame_bytes,
        }
    }

    /// Whether the client's grant permits an operation.
    pub fn permits(&self, op: &str) -> (r: bool)
        ensures
            r == self@.permits(op@),
    {
        match &self.op_scope {
            Some(ops) => {
                proof {
                    among_is_contains(ops@, op@);
                }
                contains(ops, op)
            },
            None => true,
        }
    }

    /// The attachment that a channel carries.
    fn bound(&self, channel: u64) -> (r: Option<Binding>)
        requires
            self.wf(),
        ensures
            r is Some <==> self@.attachments.dom().contains(channel),
            r matches Some(b) ==> self@.attachments[channel] == b,
    {
        match find_channel(&self.attachments, channel) {
            Some(i) => Some(self.attachments[i].1),
            None => None,
        }
    }

    /// A channel was closed: its attachment ends, if it carries one.
    pub fn channel_closed(&mut self, channel: u64) -> (out: Outcome)
        requires
            old(self).wf(),
        ensures
            final(self).wf(),
            final(self)@ == (ConnView {
                attachments: old(self)@.attachments.remove(channel),
                ..old(self)@
            }),
            detached(old(self)@, channel, out),
    {
        match self.bound(channel) {
            Some(binding) => {
                drop_channel(&mut self.attachments, channel);
                both(
                    Action::Detach {
                        shell_id: binding.shell_id,
                        attachment_id: binding.attachment_id,
                    },
                    Action::Audit(
                        AuditEvent::ShellDetached {
                            user: self.user_id.clone(),
                            shell_id: binding.shell_id,
                        },
                    ),
                )
            },
            None => {
                assert(self@.attachments.remove(channel) =~= self@.attachments);
                idle()
            },
        }
    }

    /// The connection is gone: every attachment ends, and every shell runs on.
    pub fn detach_all(&mut self) -> (out: Outcome)
        requires
            old(self).wf(),
        ensures
            final(self).wf(),
            final(self)@ == (ConnView { attachments: Map::empty(), ..old(self)@ }),
            out.open,
            out.actions@.len() == 2 * old(self)@.attachments.len(),
            forall|k: int|
                0 <= k < old(self)@.attachments.len() ==> #[trigger] ends_some(
                    out.actions@,
                    k,
                    old(self)@,
                ),
            forall|channel: u64|
                old(self)@.attachments.dom().contains(channel) ==> #[trigger] ends_channel(
                    out.actions@,
                    channel,
                    old(self)@,
                ),
    {
        let mut actions: Vec<Action> = Vec::new();
        let ghost all = self.attachments@;
        let mut k: usize = 0;
        proof {
            same_size(all);
        }
        while k < self.attachments.len()
            invariant
                k <= self.attachments@.len(),
                self.attachments@ == all,
                self@ == old(self)@,
                actions@.len() == 2 * k,
                forall|j: int|
                    0 <= j < k ==> #[trigger] ends_attachment(
                        actions@,
                        j,
                        all[j].1,
                        old(self)@.user,
                    ),
            decreases self.attachments@.len() - k,
        {
            let binding: Binding = self.attachments[k].1;
            let ghost before = actions@;
            actions.push(
                Action::Detach {
                    shell_id: binding.shell_id,
                    attachment_id: binding.attachment_id,
                },
            );
            actions.push(
                Action::Audit(
                    AuditEvent::ShellDetached {
                        user: self.user_id.clone(),
                        shell_id: binding.shell_id,
                    },
                ),
            );
            proof {
                assert forall|j: int| 0 <= j < k + 1 implies #[trigger] ends_attachment(
                    actions@,
                    j,
                    all[j].1,
                    old(self)@.user,
                ) by {
                    if j < k {
                        assert(ends_attachment(before, j, all[j].1, old(self)@.user));
                        assert(actions@[2 * j] == before[2 * j]);
                        assert(actions@[2 * j + 1] == before[2 * j + 1]);
                    }
                }
            }
            k = k + 1;
        }
        proof {
            assert forall|k: int| 0 <= k < all.len() implies #[trigger] ends_some(
                actions@,
                k,
                old(self)@,
            ) by {
                lookup(all, k);
                assert(ends_attachment(actions@, k, all[k].1, old(self)@.user));
                assert(old(self)@.attachments.dom().contains(all[k].0));
            }
            assert forall|channel: u64|
                old(self)@.attachments.dom().contains(channel) implies #[trigger] ends_channel(
                actions@,
                channel,
                old(self)@,
            ) by {
                assert(has_key(all, channel));
                let p = position(all, channel);
                lookup(all, p);
                assert(ends_attachment(actions@, p, all[p].1, old(self)@.user));
            }
        }
        self.attachments = Vec::new();
        proof {
            empty_is_empty(self.attachments@);
        }
        Outcome { actions, open: true }
    }
}

/// Whether the `k`-th pair of actions ends an attachment and records that.
pub open spec fn ends_attachment(
    actions: Seq<Action>,
    k: int,
    binding: Binding,
    user: Seq<char>,
) -> bool {
    &&& 0 <= k
    &&& 2 * k + 1 < actions.len()
    &&& actions[2 * k] == (Action::Detach {
        shell_id: binding.shell_id,
        attachment_id: binding.attachment_id,
    })
    &&& audits(
        actions[2 * k + 1],
        AuditEvent::ShellDetached { user, shell_id: binding.shell_id },
    )
}

/// Whether the `k`-th pair of actions ends one of a connection's attachments.
pub open spec fn ends_some(actions: Seq<Action>, k: int, before: ConnView) -> bool {
    exists|channel: u64|
        {
            &&& #[trigger] before.attachments.dom().contains(channel)
            &&& ends_attachment(actions, k, before.attachments[channel], before.user)
        }
}

/// Whether some pair of actions ends the attachment of a channel.
pub open spec fn ends_channel(actions: Seq<Action>, channel: u64, before: ConnView) -> bool {
    exists|k: int|
        #[trigger] ends_attachment(actions, k, before.attachments[channel], before.user)
}

/// Whether the attachment of a channel ends, if it carries one.
pub open spec fn detached(before: ConnView, channel: u64, out: Outcome) -> bool {
    if before.attachments.dom().contains(channel) {
        &&& out.open
        &&& out.actions@.len() == 2
        &&& out.actions@[0] == (Action::Detach {
            shell_id: before.attachments[channel].shell_id,
            attachment_id: before.attachments[channel].attachment_id,
        })
        &&& audits(
            out.actions@[1],
            AuditEvent::ShellDetached {
                user: before.user,
                shell_id: before.attachments[channel].shell_id,
            },
        )
    } else {
        nothing(out)
    }
}

/// What a limiter remembers once a source logged in.
pub open spec fn cleared(limiter: LimiterView, ip: IpAddr) -> LimiterView {
    LimiterView { sources: limiter.sources.remove(ip), ..limiter }
}

/// Whether a failed login is recorded and answered.
pub open spec fn failure_reported(
    out: Outcome,
    ip: IpAddr,
    reason: RejectReason,
    request_id: u64,
    code: ErrorCode,
    text: Seq<char>,
) -> bool {
    &&& out.open
    &&& out.actions@.len() == 2
    &&& audits(out.actions@[0], AuditEvent::AuthenticationFailed { source_ip: ip, reason })
    &&& out.actions@[1] matches Action::Send { channel, envelope }
    &&& channel == 0
    &&& is_auth_result(
        envelope,
        request_id,
        false,
        Seq::empty(),
        0,
        Some(code),
        text,
        Seq::empty(),
    )
}

/// Whether a login is recorded and answered.
pub open spec fn success_reported(
    out: Outcome,
    ip: IpAddr,
    user: Seq<char>,
    method: AuthMethod,
    request_id: u64,
    expires_at_ms: i64,
    grant: Seq<u8>,
) -> bool {
    &&& out.open
    &&& out.actions@.len() == 2
    &&& audits(
        out.actions@[0],
        AuditEvent::AuthenticationSucceeded { user, source_ip: ip, method },
    )
    &&& out.actions@[1] matches Action::Send { channel, envelope }
    &&& channel == 0
    &&& is_auth_result(
        envelope,
        request_id,
        true,
        user,
        expires_at_ms,
        None,
        Seq::empty(),
        grant,
    )
}

/// Whether a login failed: the failure counts against its source, nothing else
/// changes, and the client learns no more than `text`.
pub open spec fn login_failed(
    state: ConnView,
    after: ConnView,
    limiter: LimiterView,
    limiter_after: LimiterView,
    request_id: u64,
    clock: Clock,
    text: Seq<char>,
    out: Outcome,
) -> bool {
    &&& after == state
    &&& limiter.failure_recorded(limiter_after, state.peer_ip, clock.tick_ms)
    &&& failure_reported(
        out,
        state.peer_ip,
        RejectReason::InvalidRequest,
        request_id,
        ErrorCode::ErrUnauthenticated,
        text,
    )
}

/// A time that lies a span after another, at most the latest that there is.
pub open spec fn after_ms(now_ms: i64, span: i64) -> i64 {
    if now_ms + span > i64::MAX {
        i64::MAX
    } else {
        (now_ms + span) as i64
    }
}

/// The claims of the grant that a login is answered with: for this daemon alone,
/// with no scope, and for a limited time.
pub open spec fn login_claims(
    user: Seq<char>,
    audience: Seq<char>,
    now_ms: i64,
    jti: Seq<u8>,
) -> ClaimsView {
    ClaimsView {
        sub: user,
        aud: audience,
        servers: Seq::empty(),
        ops: Seq::empty(),
        iat_ms: now_ms,
        exp_ms: after_ms(now_ms, GRANT_LIFETIME_MS),
        jti: hex_text(jti),
    }
}

/// Whether a login by key or password succeeded: the client is known, its source
/// is cleared, and it is handed a grant.
pub open spec fn login_succeeded(
    state: ConnView,
    after: ConnView,
    auth: AuthState,
    limiter: LimiterView,
    limiter_after: LimiterView,
    request_id: u64,
    user: Seq<char>,
    method: AuthMethod,
    clock: Clock,
    jti: Seq<u8>,
    out: Outcome,
) -> bool {
    let claims = login_claims(user, auth.audience@, clock.now_ms, jti);
    &&& ed25519_signature(auth.grant_signer.secret(), claims_payload(claims)).len() == 64
    &&& after == (ConnView { authenticated: true, user, ..state })
    &&& limiter_after == cleared(limiter, state.peer_ip)
    &&& success_reported(
        out,
        state.peer_ip,
        user,
        method,
        request_id,
        claims.exp_ms,
        encode_utf8(issued(auth.grant_signer.secret(), claims)),
    )
}

/// Whether an offered key, one line of OpenSSH text, is authorized for a user.
pub open spec fn offer_accepted(auth: AuthState, username: Seq<char>, public_key: Seq<u8>) -> bool {
    &&& auth.ssh_keys(username) matches Some(keys)
    &&& openssh_key(lossy_text(public_key)) matches Some(key)
    &&& listed(keys, key)
}

/// Whether a signature proves that a user holds an authorized key.
pub open spec fn answer_accepted(
    auth: AuthState,
    username: Seq<char>,
    channel_binding: Seq<u8>,
    challenge: Seq<u8>,
    signature: Seq<u8>,
) -> bool {
    &&& auth.ssh_keys(username) matches Some(keys)
    &&& response_checked(keys, channel_binding, challenge, signature) is Ok
}

/// Whether a grant that the signer issued before counts for what its claims are
/// worth.
pub open spec fn own_grants_count(auth: AuthState, method: Option<Credential>, now_ms: i64) -> bool {
    method matches Some(Credential::ConnectionGrant(bytes)) ==> forall|c: ClaimsView|
        bytes@ == encode_utf8(#[trigger] issued(auth.grant_signer.secret(), c)) && ed25519_signature(
            auth.grant_signer.secret(),
            claims_payload(c),
        ).len() == 64 ==> valid_utf8(bytes@) && grant_checked(
            auth.grant_verifier.public(),
            decode_utf8(bytes@),
            auth.audience@,
            now_ms,
        ) == claims_checked(c, auth.audience@, now_ms)
}

/// Whether only the limiter differs.
pub open spec fn same_but_limiter(auth: AuthState, after: AuthState) -> bool {
    &&& after.mode == auth.mode
    &&& after.password == auth.password
    &&& after.grant_signer == auth.grant_signer
    &&& after.grant_verifier == auth.grant_verifier
    &&& after.audience == auth.audience
}

/// What an attempt to log in leads to. A source that failed too often is turned
/// away first.
pub open spec fn login_outcome(
    before: ConnView,
    after: ConnView,
    auth: AuthState,
    auth_after: AuthState,
    request_id: u64,
    method: Option<Credential>,
    clock: Clock,
    challenge: Seq<u8>,
    jti: Seq<u8>,
    out: Outcome,
) -> bool {
    let ip = before.peer_ip;
    let limiter = auth.rate_limiter@.checked(ip, clock.tick_ms);
    let limiter_after = auth_after.rate_limiter@;
    if !auth.rate_limiter@.allows(ip, clock.tick_ms) {
        &&& after == before
        &&& limiter_after == limiter
        &&& failure_reported(
            out,
            ip,
            RejectReason::RateLimited,
            request_id,
            ErrorCode::ErrLimitExceeded,
            "too many attempts"@,
        )
    } else if auth.mode is DevInsecure {
        &&& after == (ConnView { authenticated: true, user: "dev"@, ..before })
        &&& limiter_after == cleared(limiter, ip)
        &&& success_reported(
            out,
            ip,
            "dev"@,
            AuthMethod::Development,
            request_id,
            0,
            Seq::empty(),
        )
    } else {
        match method {
            None => login_failed(
                before,
                after,
                limiter,
                limiter_after,
                request_id,
                clock,
                "no authentication method"@,
                out,
            ),
            Some(Credential::ConnectionGrant(bytes)) => if !valid_utf8(bytes@) {
                login_failed(
                    before,
                    after,
                    limiter,
                    limiter_after,
                    request_id,
                    clock,
                    "malformed grant"@,
                    out,
                )
            } else {
                match grant_checked(
                    auth.grant_verifier.public(),
                    decode_utf8(bytes@),
                    auth.audience@,
                    clock.now_ms,
                ) {
                    Err(_) => login_failed(
                        before,
                        after,
                        limiter,
                        limiter_after,
                        request_id,
                        clock,
                        "invalid grant"@,
                        out,
                    ),
                    Ok(claims) => {
                        &&& after == (ConnView {
                            authenticated: true,
                            user: claims.sub,
                            scope: if claims.ops.len() == 0 {
                                None
                            } else {
                                Some(claims.ops)
                            },
                            ..before
                        })
                        &&& limiter_after == cleared(limiter, ip)
                        &&& success_reported(
                            out,
                            ip,
                            claims.sub,
                            AuthMethod::ConnectionGrant,
                            request_id,
                            claims.exp_ms,
                            Seq::empty(),
                        )
                    },
                }
            },
            Some(Credential::SshChallengeRequest { username, public_key }) => if offer_accepted(
                auth,
                username@,
                public_key@,
            ) {
                &&& after == (ConnView { pending: Some((username@, challenge)), ..before })
                &&& limiter_after == limiter
                &&& out.open
                &&& out.actions@.len() == 1
                &&& out.actions@[0] matches Action::Send { channel, envelope }
                &&& channel == 0
                &&& is_auth_result(
                    envelope,
                    request_id,
                    false,
                    Seq::empty(),
                    0,
                    None,
                    Seq::empty(),
                    challenge,
                )
            } else {
                login_failed(
                    before,
                    after,
                    limiter,
                    limiter_after,
                    request_id,
                    clock,
                    "authentication failed"@,
                    out,
                )
            },
            Some(Credential::SshChallengeResponse { challenge: answered, signature }) =>
                match before.pending {
                    None => login_failed(
                        before,
                        after,
                        limiter,
                        limiter_after,
                        request_id,
                        clock,
                        "no challenge in progress"@,
                        out,
                    ),
                    Some((user, expected)) => {
                        let state = ConnView { pending: None, ..before };
                        if answered@ != expected {
                            login_failed(
                                state,
                                after,
                                limiter,
                                limiter_after,
                                request_id,
                                clock,
                                "challenge mismatch"@,
                                out,
                            )
                        } else if answer_accepted(
                            auth,
                            user,
                            before.channel_binding,
                            expected,
                            signature@,
                        ) {
                            login_succeeded(
                                state,
                                after,
                                auth,
                                limiter,
                                limiter_after,
                                request_id,
                                user,
                                AuthMethod::SshKey,
                                clock,
                                jti,
                                out,
                            )
                        } else {
                            login_failed(
                                state,
                                after,
                                limiter,
                                limiter_after,
                                request_id,
                                clock,
                                "authentication failed"@,
                                out,
                            )
                        }
                    },
                },
            Some(Credential::PasswordRequest { username, password }) =>
                if password_admitted(auth, username, password) {
                    &&& after == before
                    &&& limiter_after == limiter
                    &&& out.open
                    &&& out.actions@.len() == 1
                    &&& out.actions@[0] matches Action::VerifyPassword {
                        request_id: id,
                        username: u,
                        password: p,
                    }
                    &&& id == request_id
                    &&& u@ == username@
                    &&& p@ == password@
                } else {
                    login_failed(
                        before,
                        after,
                        limiter,
                        limiter_after,
                        request_id,
                        clock,
                        "authentication failed"@,
                        out,
                    )
                },
        }
    }
}

/// Whether a password login is worth checking.
pub open spec fn password_admitted(auth: AuthState, username: String, password: String) -> bool {
    &&& auth.password matches Some(p)
    &&& among(p.users@, username@)
    &&& 0 < encode_utf8(username@).len() <= crate::password::MAX_USERNAME_BYTES
    &&& 0 < encode_utf8(password@).len() <= crate::password::MAX_PASSWORD_BYTES
}

impl Conn {
    /// Turns a login away: the failure counts against its source.
    fn fail_auth(&self, auth: &mut AuthState, request_id: u64, clock: Clock, message: &str) -> (out:
        Outcome)
        requires
            old(auth).wf(),
        ensures
            final(auth).wf(),
            same_but_limiter(*old(auth), *final(auth)),
            login_failed(
                self@,
                self@,
                old(auth).rate_limiter@,
                final(auth).rate_limiter@,
                request_id,
                clock,
                message@,
                out,
            ),
    {
        auth.rate_limiter.record_failure(self.peer_ip, clock.tick_ms);
        both(
            Action::Audit(
                AuditEvent::AuthenticationFailed {
                    source_ip: self.peer_ip,
                    reason: RejectReason::InvalidRequest,
                },
            ),
            Action::Send {
                channel: 0,
                envelope: auth_failure(request_id, ErrorCode::ErrUnauthenticated, message),
            },
        )
    }

    /// Lets a client in that proved who it is by key or password, and hands it a
    /// grant to come back with.
    fn succeed_issuing_grant(
        &mut self,
        auth: &mut AuthState,
        request_id: u64,
        username: String,
        method: AuthMethod,
        clock: Clock,
        jti: [u8; 16],
    ) -> (out: Outcome)
        requires
            old(self).wf(),
            old(auth).wf(),
        ensures
            final(self).wf(),
            final(auth).wf(),
            same_but_limiter(*old(auth), *final(auth)),
            login_succeeded(
                old(self)@,
                final(self)@,
                *old(auth),
                old(auth).rate_limiter@,
                final(auth).rate_limiter@,
                request_id,
                username@,
                method,
                clock,
                jti@,
                out,
            ),
    {
        self.authenticated = true;
        self.user_id = username.clone();
        auth.rate_limiter.record_success(self.peer_ip);
        let exp_ms: i64 = if clock.now_ms > i64::MAX - GRANT_LIFETIME_MS {
            i64::MAX
        } else {
            clock.now_ms + GRANT_LIFETIME_MS
        };
        let claims = GrantClaims {
            sub: username.clone(),
            aud: auth.audience.clone(),
            servers: Vec::new(),
            ops: Vec::new(),
            iat_ms: clock.now_ms,
            exp_ms,
            jti: hex16(&jti),
        };
        proof {
            assert(texts(claims.servers@) =~= Seq::empty());
            assert(texts(claims.ops@) =~= Seq::empty());
            assert(claims@ == login_claims(username@, auth.audience@, clock.now_ms, jti@));
        }
        let grant: ConnectionGrant = auth.grant_signer.issue(&claims);
        let token: Vec<u8> = copy_bytes(grant.as_bytes());
        both(
            Action::Audit(
                AuditEvent::AuthenticationSucceeded {
                    user: username.clone(),
                    source_ip: self.peer_ip,
                    method,
                },
            ),
            Action::Send {
                channel: 0,
                envelope: auth_ok(request_id, username.as_str(), exp_ms, token),
            },
        )
    }

    /// An attempt to log in, with a fresh challenge and a fresh grant identifier
    /// at hand. What a signer of ours issued before lets its holder in again,
    /// with the scope that it names.
    #[verifier::rlimit(40)]
    pub fn handle_authenticate_with(
        &mut self,
        auth: &mut AuthState,
        request_id: u64,
        method: Option<Credential>,
        clock: Clock,
        challenge: [u8; 32],
        jti: [u8; 16],
    ) -> (out: Outcome)
        requires
            old(self).wf(),
            old(auth).wf(),
        ensures
            final(self).wf(),
            final(auth).wf(),
            same_but_limiter(*old(auth), *final(auth)),
            login_outcome(
                old(self)@,
                final(self)@,
                *old(auth),
                *final(auth),
                request_id,
                method,
                clock,
                challenge@,
                jti@,
                out,
            ),
            old(auth).rate_limiter@.allows(old(self)@.peer_ip, clock.tick_ms) && old(
                auth,
            ).mode !is DevInsecure ==> own_grants_count(*old(auth), method, clock.now_ms),
    {
        if !auth.rate_limiter.check(self.peer_ip, clock.tick_ms) {
            return both(
                Action::Audit(
                    AuditEvent::AuthenticationFailed {
                        source_ip: self.peer_ip,
                        reason: RejectReason::RateLimited,
                    },
                ),
                Action::Send {
                    channel: 0,
                    envelope: auth_failure(
                        request_id,
                        ErrorCode::ErrLimitExceeded,
                        "too many attempts",
                    ),
                },
            );
        }
        if let AuthMode::DevInsecure = &auth.mode {
            self.authenticated = true;
            self.user_id = "dev".to_owned();
            auth.rate_limiter.record_success(self.peer_ip);
            return both(
                Action::Audit(
                    AuditEvent::AuthenticationSucceeded {
                        user: self.user_id.clone(),
                        source_ip: self.peer_ip,
                        method: AuthMethod::Development,
                    },
                ),
                Action::Send { channel: 0, envelope: auth_ok(request_id, "dev", 0, Vec::new()) },
            );
        }
        match method {
            None => self.fail_auth(auth, request_id, clock, "no authentication method"),
            Some(Credential::ConnectionGrant(bytes)) => self.present_grant(
                auth,
                request_id,
                bytes,
                clock,
            ),
            Some(Credential::SshChallengeRequest { username, public_key }) => {
                let offered: String = utf8_lossy(public_key.as_slice());
                let authorized: bool = match auth.ssh_verifier(username.as_str()) {
                    Some(keys) => keys.is_authorized(offered.as_str()).is_ok(),
                    None => false,
                };
                if !authorized {
                    return self.fail_auth(auth, request_id, clock, "authentication failed");
                }
                self.pending_challenge = Some((username, copy_bytes(challenge.as_slice())));
                just(
                    Action::Send {
                        channel: 0,
                        envelope: respond(
                            request_id,
                            Message::AuthenticationResult(
                                AuthenticationResult {
                                    ok: false,
                                    user_id: String::new(),
                                    expires_at_ms: 0,
                                    error_code: None,
                                    error_message: String::new(),
                                    challenge: copy_bytes(challenge.as_slice()),
                                },
                            ),
                        ),
                    },
                )
            },
            Some(Credential::SshChallengeResponse { challenge: answered, signature }) => {
                let (username, expected): (String, Vec<u8>) = match self.pending_challenge.take() {
                    Some(pending) => pending,
                    None => {
                        return self.fail_auth(auth, request_id, clock, "no challenge in progress");
                    },
                };
                if !same_bytes(answered.as_slice(), expected.as_slice()) {
                    return self.fail_auth(auth, request_id, clock, "challenge mismatch");
                }
                let verified: bool = match auth.ssh_verifier(username.as_str()) {
                    Some(keys) => keys.verify_response(
                        self.channel_binding.as_slice(),
                        expected.as_slice(),
                        signature.as_slice(),
                    ).is_ok(),
                    None => false,
                };
                if verified {
                    self.succeed_issuing_grant(
                        auth,
                        request_id,
                        username,
                        AuthMethod::SshKey,
                        clock,
                        jti,
                    )
                } else {
                    self.fail_auth(auth, request_id, clock, "authentication failed")
                }
            },
            Some(Credential::PasswordRequest { username, password }) => {
                if auth.admits_password(username.as_str(), password.as_str()) {
                    just(Action::VerifyPassword { request_id, username, password })
                } else {
                    self.fail_auth(auth, request_id, clock, "authentication failed")
                }
            },
        }
    }

    /// A client presents a grant that was issued before.
    fn present_grant(
        &mut self,
        auth: &mut AuthState,
        request_id: u64,
        bytes: Vec<u8>,
        clock: Clock,
    ) -> (out: Outcome)
        requires
            old(self).wf(),
            old(auth).wf(),
        ensures
            final(self).wf(),
            final(auth).wf(),
            same_but_limiter(*old(auth), *final(auth)),
            ({
                let limiter = old(auth).rate_limiter@;
                let limiter_after = final(auth).rate_limiter@;
                if !valid_utf8(bytes@) {
                    login_failed(
                        old(self)@,
                        final(self)@,
                        limiter,
                        limiter_after,
                        request_id,
                        clock,
                        "malformed grant"@,
                        out,
                    )
                } else {
                    match grant_checked(
                        old(auth).grant_verifier.public(),
                        decode_utf8(bytes@),
                        old(auth).audience@,
                        clock.now_ms,
                    ) {
                        Err(_) => login_failed(
                            old(self)@,
                            final(self)@,
                            limiter,
                            limiter_after,
                            request_id,
                            clock,
                            "invalid grant"@,
                            out,
                        ),
                        Ok(claims) => {
                            &&& final(self)@ == (ConnView {
                                authenticated: true,
                                user: claims.sub,
                                scope: if claims.ops.len() == 0 {
                                    None
                                } else {
                                    Some(claims.ops)
                                },
                                ..old(self)@
                            })
                            &&& limiter_after == cleared(limiter, old(self)@.peer_ip)
                            &&& success_reported(
                                out,
                                old(self)@.peer_ip,
                                claims.sub,
                                AuthMethod::ConnectionGrant,
                                request_id,
                                claims.exp_ms,
                                Seq::empty(),
                            )
                        },
                    }
                }
            }),
            forall|c: ClaimsView|
                bytes@ == encode_utf8(#[trigger] issued(old(auth).grant_signer.secret(), c))
                    && ed25519_signature(
                    old(auth).grant_signer.secret(),
                    claims_payload(c),
                ).len() == 64 ==> valid_utf8(bytes@) && grant_checked(
                    old(auth).grant_verifier.public(),
                    decode_utf8(bytes@),
                    old(auth).audience@,
                    clock.now_ms,
                ) == claims_checked(c, old(auth).audience@, clock.now_ms),
    {
        let ghost secret = auth.grant_signer.secret();
        proof {
            assert forall|c: ClaimsView| bytes@ == encode_utf8(#[trigger] issued(secret, c)) implies valid_utf8(
                bytes@,
            ) && decode_utf8(bytes@) == issued(secret, c) by {
                grant_survives_the_wire(issued(secret, c));
            }
        }
        let grant: ConnectionGrant = match ConnectionGrant::from_wire(bytes.as_slice()) {
            Ok(grant) => grant,
            Err(_) => {
                return self.fail_auth(auth, request_id, clock, "malformed grant");
            },
        };
        match auth.grant_verifier.verify(&grant, auth.audience.as_str(), clock.now_ms) {
            Err(_) => self.fail_auth(auth, request_id, clock, "invalid grant"),
            Ok(claims) => {
                self.authenticated = true;
                self.user_id = claims.sub.clone();
                self.op_scope = if claims.ops.len() == 0 {
                    None
                } else {
                    Some(copy_list(&claims.ops))
                };
                auth.rate_limiter.record_success(self.peer_ip);
                both(
                    Action::Audit(
                        AuditEvent::AuthenticationSucceeded {
                            user: claims.sub.clone(),
                            source_ip: self.peer_ip,
                            method: AuthMethod::ConnectionGrant,
                        },
                    ),
                    Action::Send {
                        channel: 0,
                        envelope: auth_ok(
                            request_id,
                            claims.sub.as_str(),
                            claims.exp_ms,
                            Vec::new(),
                        ),
                    },
                )
            },
        }
    }

    /// A password was checked. A login that passed is answered with a grant of a fresh
    /// random identifier.
    pub fn password_checked(
        &mut self,
        auth: &mut AuthState,
        request_id: u64,
        username: String,
        accepted: bool,
        clock: Clock,
    ) -> (out: Outcome)
        requires
            old(self).wf(),
            old(auth).wf(),
        ensures
            final(self).wf(),
            final(auth).wf(),
            same_but_limiter(*old(auth), *final(auth)),
            accepted ==> exists|jti: Seq<u8>|
                jti.len() == 16 && #[trigger] login_succeeded(
                    old(self)@,
                    final(self)@,
                    *old(auth),
                    old(auth).rate_limiter@,
                    final(auth).rate_limiter@,
                    request_id,
                    username@,
                    AuthMethod::Password,
                    clock,
                    jti,
                    out,
                ),
            !accepted ==> login_failed(
                old(self)@,
                final(self)@,
                old(auth).rate_limiter@,
                final(auth).rate_limiter@,
                request_id,
                clock,
                "authentication failed"@,
                out,
            ),
    {
        let jti: [u8; 16] = random_16();
        assert(jti@.len() == 16);
        self.password_checked_with(auth, request_id, username, accepted, clock, jti)
    }

    /// A password was checked. A login that passed is answered with a grant
    /// of a given identifier.
    pub fn password_checked_with(
        &mut self,
        auth: &mut AuthState,
        request_id: u64,
        username: String,
        accepted: bool,
        clock: Clock,
        jti: [u8; 16],
    ) -> (out: Outcome)
        requires
            old(self).wf(),
            old(auth).wf(),
        ensures
            final(self).wf(),
            final(auth).wf(),
            same_but_limiter(*old(auth), *final(auth)),
            accepted ==> login_succeeded(
                old(self)@,
                final(self)@,
                *old(auth),
                old(auth).rate_limiter@,
                final(auth).rate_limiter@,
                request_id,
                username@,
                AuthMethod::Password,
                clock,
                jti@,
                out,
            ),
            !accepted ==> login_failed(
                old(self)@,
                final(self)@,
                old(auth).rate_limiter@,
                final(auth).rate_limiter@,
                request_id,
                clock,
                "authentication failed"@,
                out,
            ),
    {
        if accepted {
            self.succeed_issuing_grant(
                auth,
                request_id,
                username,
                AuthMethod::Password,
                clock,
                jti,
            )
        } else {
            self.fail_auth(auth, request_id, clock, "authentication failed")
        }
    }
}

/// Sixteen bytes in hexadecimal.
pub fn hex16(bytes: &[u8; 16]) -> (r: String)
    ensures
        r@ == hex_text(bytes@),
{
    hex(bytes.as_slice())
}

/// Whether a message may come before a login.
pub open spec fn before_login(message: Message) -> bool {
    message is ClientHello || message is Authenticate || message is Ping || message is Pong
        || message is Close
}

/// Whether one message is sent, and nothing else happens.
pub open spec fn answered(out: Outcome, channel: u64, envelope: Envelope) -> bool {
    &&& out.open
    &&& out.actions@.len() == 1
    &&& out.actions@[0] == (Action::Send { channel, envelope })
}

/// Whether the client's list of servers is this daemon alone.
pub open spec fn lists_this_server(out: Outcome, request_id: u64, server_id: ServerId) -> bool {
    &&& out.open
    &&& out.actions@.len() == 1
    &&& out.actions@[0] matches Action::Send { channel, envelope }
    &&& channel == 0
    &&& envelope.answers(request_id)
    &&& envelope.message matches Some(Message::ServerList { servers })
    &&& servers@.len() == 1
    &&& servers@[0].server_id@ == server_id.0@
    &&& servers@[0].display_name@ == "local"@
    &&& servers@[0].healthy
}

/// What a request to open a shell leads to.
pub open spec fn open_outcome(
    before: ConnView,
    request_id: u64,
    unix_account: Seq<char>,
    command: Seq<char>,
    cols: u32,
    rows: u32,
    key: Seq<u8>,
    out: Outcome,
) -> bool {
    if !before.permits("open"@) {
        refused_audited(
            out,
            0,
            request_id,
            ErrorCode::ErrForbidden,
            "grant does not permit open"@,
            AuditEvent::ShellOperationRejected {
                user: before.user,
                shell_id: None,
                operation: ShellOperation::Open,
                reason: RejectReason::Forbidden,
            },
        )
    } else if key.len() != 16 {
        refused(
            out,
            0,
            request_id,
            ErrorCode::ErrUnknownMessage,
            "idempotency_key must be 16 bytes"@,
        )
    } else {
        &&& out.open
        &&& out.actions@.len() == 1
        &&& out.actions@[0] matches Action::OpenShell { request_id: id, request }
        &&& id == request_id
        &&& request.user@ == before.user
        &&& opt_text(request.requested_account) == non_empty(unix_account)
        &&& opt_text(request.command) == non_empty(command)
        &&& request.args@.len() == 0
        &&& request.cols == low_bits(cols)
        &&& request.rows == low_bits(rows)
        &&& request.idempotency_key@ == key
    }
}

/// What a request to end a shell leads to.
pub open spec fn terminate_outcome(
    before: ConnView,
    request_id: u64,
    shell_id: Seq<u8>,
    out: Outcome,
) -> bool {
    if !before.permits("terminate"@) {
        refused_audited(
            out,
            0,
            request_id,
            ErrorCode::ErrForbidden,
            "grant does not permit terminate"@,
            AuditEvent::ShellOperationRejected {
                user: before.user,
                shell_id: None,
                operation: ShellOperation::Terminate,
                reason: RejectReason::Forbidden,
            },
        )
    } else if shell_id.len() != 16 {
        refused(out, 0, request_id, ErrorCode::ErrNotFound, "bad shell id"@)
    } else {
        &&& out.open
        &&& out.actions@.len() == 1
        &&& out.actions@[0] matches Action::CheckOwner { request_id: id, shell_id: s }
        &&& id == request_id
        &&& s.0@ == shell_id
    }
}

/// What a request to attach leads to.
pub open spec fn attach_outcome(
    before: ConnView,
    channel: u64,
    request_id: u64,
    shell_id: Seq<u8>,
    token: Seq<u8>,
    cols: u32,
    rows: u32,
    out: Outcome,
) -> bool {
    if !before.permits("attach"@) {
        refused_audited(
            out,
            channel,
            request_id,
            ErrorCode::ErrForbidden,
            "grant does not permit attach"@,
            AuditEvent::ShellOperationRejected {
                user: before.user,
                shell_id: None,
                operation: ShellOperation::Attach,
                reason: RejectReason::Forbidden,
            },
        )
    } else if before.busy(channel) {
        refused(
            out,
            channel,
            request_id,
            ErrorCode::ErrUnknownMessage,
            "channel already attached"@,
        )
    } else if shell_id.len() != 16 {
        refused(out, channel, request_id, ErrorCode::ErrNotFound, "bad shell id"@)
    } else {
        &&& out.open
        &&& out.actions@.len() == 1
        &&& out.actions@[0] matches Action::Attach {
            channel: c,
            request_id: id,
            user,
            shell_id: s,
            resume_token,
            cols: w,
            rows: h,
        }
        &&& c == channel
        &&& id == request_id
        &&& user@ == before.user
        &&& s.0@ == shell_id
        &&& resume_token@ == token
        &&& w == low_bits(cols)
        &&& h == low_bits(rows)
    }
}

/// The smaller of two numbers.
pub open spec fn least(a: u32, b: u32) -> u32 {
    if a < b {
        a
    } else {
        b
    }
}

/// What a request for scrollback leads to. No more is asked for than fits into
/// half of the largest frame that the client accepts.
pub open spec fn history_outcome(
    before: ConnView,
    channel: u64,
    request_id: u64,
    before_line_id: u64,
    maximum_lines: u32,
    maximum_bytes: u32,
    out: Outcome,
) -> bool {
    if !before.attachments.dom().contains(channel) {
        refused(
            out,
            channel,
            request_id,
            ErrorCode::ErrNotFound,
            "no attachment on channel"@,
        )
    } else {
        &&& out.open
        &&& out.actions@.len() == 1
        &&& out.actions@[0] == (Action::ReadHistory {
            channel,
            request_id,
            shell_id: before.attachments[channel].shell_id,
            before_line_id,
            maximum_lines: least(maximum_lines, HISTORY_LINES_MAX),
            maximum_bytes: least(maximum_bytes, before.max_frame_bytes() / 2),
        })
    }
}

/// What a declaration of a file leads to.
pub open spec fn upload_outcome(
    before: ConnView,
    channel: u64,
    request_id: u64,
    shell_id: Seq<u8>,
    original_name: Seq<char>,
    total_bytes: u64,
    sha256: Seq<u8>,
    out: Outcome,
) -> bool {
    if !before.can(Capability::FileTransfer) {
        refused(
            out,
            channel,
            request_id,
            ErrorCode::ErrUnknownMessage,
            "unexpected message for this channel"@,
        )
    } else if !before.permits("upload"@) {
        refused_audited(
            out,
            channel,
            request_id,
            ErrorCode::ErrForbidden,
            "grant does not permit upload"@,
            AuditEvent::UploadRejected {
                user: before.user,
                shell_id: None,
                reason: RejectReason::Forbidden,
            },
        )
    } else if before.busy(channel) {
        refused(
            out,
            channel,
            request_id,
            ErrorCode::ErrUnknownMessage,
            "channel already in use"@,
        )
    } else if shell_id.len() != 16 {
        refused(out, channel, request_id, ErrorCode::ErrNotFound, "bad shell id"@)
    } else if before.uploads.len() >= MAX_UPLOADS_PER_CONNECTION {
        refused_audited(
            out,
            channel,
            request_id,
            ErrorCode::ErrLimitExceeded,
            "too many uploads on this connection"@,
            AuditEvent::UploadRejected {
                user: before.user,
                shell_id: None,
                reason: RejectReason::LimitExceeded,
            },
        )
    } else {
        &&& out.open
        &&& out.actions@.len() == 1
        &&& out.actions@[0] matches Action::CheckUploadOwner {
            channel: c,
            request_id: id,
            user,
            shell_id: s,
            original_name: name,
            total_bytes: size,
            sha256: digest,
        }
        &&& c == channel
        &&& id == request_id
        &&& user@ == before.user
        &&& s.0@ == shell_id
        &&& name@ == original_name
        &&& size == total_bytes
        &&& digest@ == sha256
    }
}

/// What a request to forward a connection leads to.
pub open spec fn forward_outcome(
    before: ConnView,
    after: ConnView,
    allowed: Set<Seq<char>>,
    channel: u64,
    request_id: u64,
    host: Seq<char>,
    port: u32,
    out: Outcome,
) -> bool {
    if before.can(Capability::TcpForward) && before.permits("forward"@) && allowed.contains(
        before.user,
    ) && !before.busy(channel) && 0 < port <= 0xffff && before.forwards.len()
        < MAX_PER_CONNECTION {
        &&& after == (ConnView {
            forwards: before.forwards.insert(channel, request_id),
            ..before
        })
        &&& out.open
        &&& out.actions@.len() == 1
        &&& out.actions@[0] matches Action::OpenForward {
            channel: c,
            request_id: id,
            user,
            host: h,
            port: p,
        }
        &&& c == channel
        &&& id == request_id
        &&& user@ == before.user
        &&& h@ == host
        &&& p == port
    } else {
        &&& after == before
        &&& if !before.can(Capability::TcpForward) {
            refused(
                out,
                channel,
                request_id,
                ErrorCode::ErrUnknownMessage,
                "unexpected message for this channel"@,
            )
        } else if !before.permits("forward"@) {
            refused(
                out,
                channel,
                request_id,
                ErrorCode::ErrForbidden,
                "grant does not permit forward"@,
            )
        } else if !allowed.contains(before.user) {
            refused(
                out,
                channel,
                request_id,
                ErrorCode::ErrForbidden,
                "user may not forward"@,
            )
        } else if before.busy(channel) {
            refused(
                out,
                channel,
                request_id,
                ErrorCode::ErrUnknownMessage,
                "channel already in use"@,
            )
        } else if port == 0 || port > 0xffff {
            refused(
                out,
                channel,
                request_id,
                ErrorCode::ErrInvalidArgument,
                "invalid destination port"@,
            )
        } else {
            refused(
                out,
                channel,
                request_id,
                ErrorCode::ErrLimitExceeded,
                "too many forwarded connections"@,
            )
        }
    }
}

/// What a message leads to, a login apart. `allowed` are the users that may
/// forward connections.
pub open spec fn message_outcome(
    before: ConnView,
    after: ConnView,
    allowed: Set<Seq<char>>,
    channel: u64,
    envelope: Envelope,
    message: Message,
    out: Outcome,
) -> bool {
    let request_id = envelope.request_id;
    let unexpected = refused(
        out,
        channel,
        request_id,
        ErrorCode::ErrUnknownMessage,
        "unexpected message for this channel"@,
    );
    match message {
        Message::ClientHello(hello) => {
            &&& after == before
            &&& if channel == 0 {
                &&& out.open
                &&& out.actions@.len() == 1
                &&& out.actions@[0] matches Action::Negotiate {
                    request_id: id,
                    hello: heard,
                    offered,
                    max_frame_bytes,
                    max_datagram_bytes,
                    transport_datagrams,
                }
                &&& id == request_id
                &&& heard == hello
                &&& offered@ == before.offered
                &&& max_frame_bytes == before.default_frame_bytes
                &&& max_datagram_bytes == DATAGRAM_BYTES_MAX
                &&& transport_datagrams == before.transport_datagrams
            } else {
                unexpected
            }
        },
        Message::Authenticate { .. } => {
            &&& after == before
            &&& if channel == 0 {
                refused(out, 0, request_id, ErrorCode::ErrUnknownMessage, "hello first"@)
            } else {
                unexpected
            }
        },
        Message::Ping { nonce } => {
            &&& after == before
            &&& out.open
            &&& out.actions@.len() == 1
            &&& out.actions@[0] matches Action::Send { channel: c, envelope: e }
            &&& c == channel
            &&& e.answers(request_id)
            &&& e.message == Some(Message::Pong { nonce })
        },
        Message::Close => {
            &&& after == before
            &&& if channel == 0 {
                !out.open && out.actions@.len() == 0
            } else {
                unexpected
            }
        },
        Message::ListServers => {
            &&& after == before
            &&& if channel == 0 {
                lists_this_server(out, request_id, before.server_id)
            } else {
                unexpected
            }
        },
        Message::ListShells => {
            &&& after == before
            &&& if channel != 0 {
                unexpected
            } else if !before.permits("list"@) {
                refused(
                    out,
                    0,
                    request_id,
                    ErrorCode::ErrForbidden,
                    "grant does not permit list"@,
                )
            } else {
                &&& out.open
                &&& out.actions@.len() == 1
                &&& out.actions@[0] == (Action::ListShells { request_id })
            }
        },
        Message::OpenShell { unix_account, command, initial_cols, initial_rows, idempotency_key } => {
            &&& after == before
            &&& if channel == 0 {
                open_outcome(
                    before,
                    request_id,
                    unix_account@,
                    command@,
                    initial_cols,
                    initial_rows,
                    idempotency_key@,
                    out,
                )
            } else {
                unexpected
            }
        },
        Message::TerminateShell => {
            &&& after == before
            &&& if channel == 0 {
                terminate_outcome(before, request_id, envelope.shell_id@, out)
            } else {
                unexpected
            }
        },
        Message::AttachShell { resume_token, cols, rows, .. } => {
            &&& after == before
            &&& if channel != 0 {
                attach_outcome(
                    before,
                    channel,
                    request_id,
                    envelope.shell_id@,
                    resume_token@,
                    cols,
                    rows,
                    out,
                )
            } else {
                unexpected
            }
        },
        Message::TerminalInput { data } => {
            &&& after == before
            &&& if channel == 0 {
                unexpected
            } else if before.attachments.dom().contains(channel) {
                &&& out.open
                &&& out.actions@.len() == 1
                &&& out.actions@[0] == (Action::WriteInput {
                    channel,
                    request_id,
                    shell_id: before.attachments[channel].shell_id,
                    data,
                })
            } else {
                nothing(out)
            }
        },
        Message::TerminalResize { cols, rows } => {
            &&& after == before
            &&& if channel == 0 {
                unexpected
            } else if before.attachments.dom().contains(channel) {
                &&& out.open
                &&& out.actions@.len() == 1
                &&& out.actions@[0] == (Action::Resize {
                    shell_id: before.attachments[channel].shell_id,
                    cols: low_bits(cols),
                    rows: low_bits(rows),
                })
            } else {
                nothing(out)
            }
        },
        Message::RequestHistory { before_line_id, maximum_lines, maximum_bytes } => {
            &&& after == before
            &&& if channel != 0 {
                history_outcome(
                    before,
                    channel,
                    request_id,
                    before_line_id,
                    maximum_lines,
                    maximum_bytes,
                    out,
                )
            } else {
                unexpected
            }
        },
        Message::DetachShell => if channel != 0 {
            &&& after == (ConnView { attachments: before.attachments.remove(channel), ..before })
            &&& detached(before, channel, out)
        } else {
            &&& after == before
            &&& unexpected
        },
        Message::BeginUpload { original_name, total_bytes, sha256 } => {
            &&& after == before
            &&& if channel != 0 {
                upload_outcome(
                    before,
                    channel,
                    request_id,
                    envelope.shell_id@,
                    original_name@,
                    total_bytes,
                    sha256@,
                    out,
                )
            } else {
                unexpected
            }
        },
        Message::UploadChunk { .. } | Message::FinishUpload { .. } | Message::AbortUpload { .. } => {
            &&& after == before
            &&& if before.uploads.dom().contains(channel) {
                &&& out.open
                &&& out.actions@.len() == 1
                &&& out.actions@[0] == (Action::UploadFrame { channel, envelope })
            } else {
                unexpected
            }
        },
        Message::OpenTcpForward { host, port } => if channel != 0 {
            forward_outcome(before, after, allowed, channel, request_id, host@, port, out)
        } else {
            &&& after == before
            &&& unexpected
        },
        Message::TcpForwardData { .. } | Message::TcpForwardEof | Message::TcpForwardAck => {
            &&& after == before
            &&& if before.forwards.dom().contains(channel) {
                &&& out.open
                &&& out.actions@.len() == 1
                &&& out.actions@[0] == (Action::ForwardFrame { channel, envelope })
            } else {
                unexpected
            }
        },
        _ => {
            &&& after == before
            &&& unexpected
        },
    }
}

/// What a message leads to. Before a login nothing but the handshake is let
/// through.
pub open spec fn dispatched(
    before: ConnView,
    after: ConnView,
    auth: AuthState,
    auth_after: AuthState,
    allowed: Set<Seq<char>>,
    channel: u64,
    envelope: Envelope,
    clock: Clock,
    challenge: Seq<u8>,
    jti: Seq<u8>,
    out: Outcome,
) -> bool {
    match envelope.message {
        None => {
            &&& after == before
            &&& auth_after.rate_limiter@ == auth.rate_limiter@
            &&& !out.open
            &&& out.actions@.len() == 1
            &&& reports(
                out.actions@[0],
                channel,
                envelope.request_id,
                ErrorCode::ErrUnknownMessage,
                "empty envelope"@,
            )
        },
        Some(message) => if !before.authenticated && !before_login(message) {
            &&& after == before
            &&& auth_after.rate_limiter@ == auth.rate_limiter@
            &&& refused(
                out,
                channel,
                envelope.request_id,
                ErrorCode::ErrUnauthenticated,
                "authenticate first"@,
            )
        } else if channel == 0 && message is Authenticate && before.negotiated is Some {
            login_outcome(
                before,
                after,
                auth,
                auth_after,
                envelope.request_id,
                message->method,
                clock,
                challenge,
                jti,
                out,
            )
        } else {
            &&& auth_after.rate_limiter@ == auth.rate_limiter@
            &&& message_outcome(before, after, allowed, channel, envelope, message, out)
        },
    }
}

fn unexpected(channel: u64, request_id: u64) -> (out: Outcome)
    ensures
        refused(
            out,
            channel,
            request_id,
            ErrorCode::ErrUnknownMessage,
            "unexpected message for this channel"@,
        ),
{
    refuse(
        channel,
        request_id,
        ErrorCode::ErrUnknownMessage,
        "unexpected message for this channel",
    )
}

impl Conn {
    fn rejected(&self, operation: ShellOperation) -> (r: Action)
        ensures
            audits(
                r,
                AuditEvent::ShellOperationRejected {
                    user: self@.user,
                    shell_id: None,
                    operation,
                    reason: RejectReason::Forbidden,
                },
            ),
    {
        Action::Audit(
            AuditEvent::ShellOperationRejected {
                user: self.user_id.clone(),
                shell_id: None,
                operation,
                reason: RejectReason::Forbidden,
            },
        )
    }

    fn list_servers(&self, request_id: u64) -> (out: Outcome)
        ensures
            lists_this_server(out, request_id, self@.server_id),
    {
        let mut servers: Vec<ServerInfo> = Vec::new();
        servers.push(
            ServerInfo {
                server_id: self.server_id.to_wire(),
                display_name: "local".to_owned(),
                healthy: true,
            },
        );
        just(
            Action::Send {
                channel: 0,
                envelope: respond(request_id, Message::ServerList { servers }),
            },
        )
    }

    fn open_shell(
        &self,
        request_id: u64,
        unix_account: &String,
        command: &String,
        cols: u32,
        rows: u32,
        key: &[u8],
    ) -> (out: Outcome)
        ensures
            open_outcome(
                self@,
                request_id,
                unix_account@,
                command@,
                cols,
                rows,
                key@,
                out,
            ),
    {
        if !self.permits("open") {
            return both(
                self.rejected(ShellOperation::Open),
                Action::Send {
                    channel: 0,
                    envelope: error_envelope(
                        request_id,
                        ErrorCode::ErrForbidden,
                        "grant does not permit open",
                        false,
                    ),
                },
            );
        }
        let idempotency_key: [u8; 16] = match sixteen(key) {
            Some(key) => key,
            None => {
                return refuse(
                    0,
                    request_id,
                    ErrorCode::ErrUnknownMessage,
                    "idempotency_key must be 16 bytes",
                );
            },
        };
        just(
            Action::OpenShell {
                request_id,
                request: OpenShellRequest {
                    user: self.user_id.clone(),
                    requested_account: text_option(unix_account),
                    command: text_option(command),
                    args: Vec::new(),
                    cols: dimension(cols),
                    rows: dimension(rows),
                    idempotency_key,
                },
            },
        )
    }

    fn terminate_shell(&self, request_id: u64, shell_id: &[u8]) -> (out: Outcome)
        ensures
            terminate_outcome(self@, request_id, shell_id@, out),
    {
        if !self.permits("terminate") {
            return both(
                self.rejected(ShellOperation::Terminate),
                Action::Send {
                    channel: 0,
                    envelope: error_envelope(
                        request_id,
                        ErrorCode::ErrForbidden,
                        "grant does not permit terminate",
                        false,
                    ),
                },
            );
        }
        match ShellId::from_wire(shell_id) {
            Some(shell_id) => just(Action::CheckOwner { request_id, shell_id }),
            None => refuse(0, request_id, ErrorCode::ErrNotFound, "bad shell id"),
        }
    }

    /// Whether a channel carries anything.
    pub fn is_busy(&self, channel: u64) -> (r: bool)
        requires
            self.wf(),
        ensures
            r == self@.busy(channel),
    {
        find_channel(&self.attachments, channel).is_some() || find_channel(
            &self.uploads,
            channel,
        ).is_some() || find_channel(&self.forwards, channel).is_some()
    }

    /// Whether a capability was agreed on.
    fn is_able(&self, capability: Capability) -> (r: bool)
        ensures
            r == self@.can(capability),
    {
        match &self.negotiated {
            None => false,
            Some(n) => {
                let mut i: usize = 0;
                while i < n.capabilities.len()
                    invariant
                        i <= n.capabilities.len(),
                        self@.negotiated == Some(*n),
                        forall|k: int| 0 <= k < i ==> #[trigger] n.capabilities@[k] != capability,
                    decreases n.capabilities.len() - i,
                {
                    if n.capabilities[i] == capability {
                        assert(n.capabilities@.contains(n.capabilities@[i as int]));
                        return true;
                    }
                    i = i + 1;
                }
                false
            },
        }
    }

    /// A request to attach.
    pub fn attach(
        &self,
        channel: u64,
        request_id: u64,
        shell_id: &[u8],
        resume_token: Vec<u8>,
        cols: u32,
        rows: u32,
    ) -> (out: Outcome)
        requires
            self.wf(),
        ensures
            attach_outcome(
                self@,
                channel,
                request_id,
                shell_id@,
                resume_token@,
                cols,
                rows,
                out,
            ),
    {
        if !self.permits("attach") {
            return both(
                self.rejected(ShellOperation::Attach),
                Action::Send {
                    channel,
                    envelope: error_envelope(
                        request_id,
                        ErrorCode::ErrForbidden,
                        "grant does not permit attach",
                        false,
                    ),
                },
            );
        }
        if self.is_busy(channel) {
            return refuse(
                channel,
                request_id,
                ErrorCode::ErrUnknownMessage,
                "channel already attached",
            );
        }
        match ShellId::from_wire(shell_id) {
            Some(shell_id) => just(
                Action::Attach {
                    channel,
                    request_id,
                    user: self.user_id.clone(),
                    shell_id,
                    resume_token,
                    cols: dimension(cols),
                    rows: dimension(rows),
                },
            ),
            None => refuse(channel, request_id, ErrorCode::ErrNotFound, "bad shell id"),
        }
    }

    fn request_history(
        &self,
        channel: u64,
        request_id: u64,
        before_line_id: u64,
        maximum_lines: u32,
        maximum_bytes: u32,
    ) -> (out: Outcome)
        requires
            self.wf(),
        ensures
            history_outcome(
                self@,
                channel,
                request_id,
                before_line_id,
                maximum_lines,
                maximum_bytes,
                out,
            ),
    {
        match self.bound(channel) {
            None => refuse(
                channel,
                request_id,
                ErrorCode::ErrNotFound,
                "no attachment on channel",
            ),
            Some(binding) => {
                let half: u32 = self.max_frame_bytes() / 2;
                just(
                    Action::ReadHistory {
                        channel,
                        request_id,
                        shell_id: binding.shell_id,
                        before_line_id,
                        maximum_lines: if maximum_lines < HISTORY_LINES_MAX {
                            maximum_lines
                        } else {
                            HISTORY_LINES_MAX
                        },
                        maximum_bytes: if maximum_bytes < half {
                            maximum_bytes
                        } else {
                            half
                        },
                    },
                )
            },
        }
    }

    fn begin_upload(
        &self,
        channel: u64,
        request_id: u64,
        shell_id: &[u8],
        original_name: String,
        total_bytes: u64,
        sha256: Vec<u8>,
    ) -> (out: Outcome)
        requires
            self.wf(),
        ensures
            upload_outcome(
                self@,
                channel,
                request_id,
                shell_id@,
                original_name@,
                total_bytes,
                sha256@,
                out,
            ),
    {
        if !self.is_able(Capability::FileTransfer) {
            return unexpected(channel, request_id);
        }
        if !self.permits("upload") {
            return self.refuse_upload(
                channel,
                request_id,
                None,
                RejectReason::Forbidden,
                ErrorCode::ErrForbidden,
                "grant does not permit upload",
            );
        }
        if self.is_busy(channel) {
            return refuse(
                channel,
                request_id,
                ErrorCode::ErrUnknownMessage,
                "channel already in use",
            );
        }
        let shell_id: ShellId = match ShellId::from_wire(shell_id) {
            Some(shell_id) => shell_id,
            None => {
                return refuse(channel, request_id, ErrorCode::ErrNotFound, "bad shell id");
            },
        };
        proof {
            same_size(self.uploads@);
        }
        if self.uploads.len() >= MAX_UPLOADS_PER_CONNECTION {
            return self.refuse_upload(
                channel,
                request_id,
                None,
                RejectReason::LimitExceeded,
                ErrorCode::ErrLimitExceeded,
                "too many uploads on this connection",
            );
        }
        just(
            Action::CheckUploadOwner {
                channel,
                request_id,
                user: self.user_id.clone(),
                shell_id,
                original_name,
                total_bytes,
                sha256,
            },
        )
    }

    fn refuse_upload(
        &self,
        channel: u64,
        request_id: u64,
        shell_id: Option<ShellId>,
        reason: RejectReason,
        code: ErrorCode,
        text: &str,
    ) -> (out: Outcome)
        ensures
            refused_audited(
                out,
                channel,
                request_id,
                code,
                text@,
                AuditEvent::UploadRejected { user: self@.user, shell_id, reason },
            ),
    {
        both(
            Action::Audit(
                AuditEvent::UploadRejected { user: self.user_id.clone(), shell_id, reason },
            ),
            Action::Send { channel, envelope: error_envelope(request_id, code, text, false) },
        )
    }

    fn open_forward(
        &mut self,
        service: &ForwardService,
        channel: u64,
        request_id: u64,
        host: String,
        port: u32,
    ) -> (out: Outcome)
        requires
            old(self).wf(),
        ensures
            final(self).wf(),
            forward_outcome(
                old(self)@,
                final(self)@,
                service.users(),
                channel,
                request_id,
                host@,
                port,
                out,
            ),
    {
        proof {
            same_size(self.forwards@);
        }
        if !self.is_able(Capability::TcpForward) {
            return unexpected(channel, request_id);
        }
        if !self.permits("forward") {
            return refuse(
                channel,
                request_id,
                ErrorCode::ErrForbidden,
                "grant does not permit forward",
            );
        }
        if !service.permits(self.user_id.as_str()) {
            return refuse(channel, request_id, ErrorCode::ErrForbidden, "user may not forward");
        }
        if self.is_busy(channel) {
            return refuse(
                channel,
                request_id,
                ErrorCode::ErrUnknownMessage,
                "channel already in use",
            );
        }
        if port == 0 || port > 0xffff {
            return refuse(
                channel,
                request_id,
                ErrorCode::ErrInvalidArgument,
                "invalid destination port",
            );
        }
        if self.forwards.len() >= MAX_PER_CONNECTION {
            return refuse(
                channel,
                request_id,
                ErrorCode::ErrLimitExceeded,
                "too many forwarded connections",
            );
        }
        add_channel(&mut self.forwards, channel, request_id);
        just(
            Action::OpenForward {
                channel,
                request_id,
                user: self.user_id.clone(),
                host,
                port: port as u16,
            },
        )
    }

    /// What a message leads to, with a fresh challenge and a fresh grant
    /// identifier at hand.
    #[verifier::rlimit(60)]
    pub fn dispatch_with(
        &mut self,
        auth: &mut AuthState,
        service: &ForwardService,
        channel: u64,
        envelope: Envelope,
        clock: Clock,
        challenge: [u8; 32],
        jti: [u8; 16],
    ) -> (out: Outcome)
        requires
            old(self).wf(),
            old(auth).wf(),
        ensures
            final(self).wf(),
            final(auth).wf(),
            same_but_limiter(*old(auth), *final(auth)),
            dispatched(
                old(self)@,
                final(self)@,
                *old(auth),
                *final(auth),
                service.users(),
                channel,
                envelope,
                clock,
                challenge@,
                jti@,
                out,
            ),
            channel == 0 && old(self)@.negotiated is Some && old(auth).rate_limiter@.allows(
                old(self)@.peer_ip,
                clock.tick_ms,
            ) && old(auth).mode !is DevInsecure ==> (envelope.message matches Some(
                Message::Authenticate { method },
            ) ==> own_grants_count(*old(auth), method, clock.now_ms)),
    {
        let request_id: u64 = envelope.request_id;
        let early: bool = match &envelope.message {
            None => {
                let mut out: Outcome = refuse(
                    channel,
                    request_id,
                    ErrorCode::ErrUnknownMessage,
                    "empty envelope",
                );
                out.open = false;
                return out;
            },
            Some(Message::ClientHello(_)) => true,
            Some(Message::Authenticate { .. }) => true,
            Some(Message::Ping { .. }) => true,
            Some(Message::Pong { .. }) => true,
            Some(Message::Close) => true,
            Some(_) => false,
        };
        if !self.authenticated && !early {
            return refuse(
                channel,
                request_id,
                ErrorCode::ErrUnauthenticated,
                "authenticate first",
            );
        }
        if channel == 0 {
            self.control(auth, envelope, clock, challenge, jti)
        } else {
            self.stream(service, channel, envelope)
        }
    }

    /// A message on the control channel.
    #[verifier::rlimit(60)]
    fn control(
        &mut self,
        auth: &mut AuthState,
        envelope: Envelope,
        clock: Clock,
        challenge: [u8; 32],
        jti: [u8; 16],
    ) -> (out: Outcome)
        requires
            old(self).wf(),
            old(auth).wf(),
            envelope.message is Some,
        ensures
            final(self).wf(),
            final(auth).wf(),
            same_but_limiter(*old(auth), *final(auth)),
            ({
                let message = envelope.message->0;
                if message is Authenticate && old(self)@.negotiated is Some {
                    &&& login_outcome(
                        old(self)@,
                        final(self)@,
                        *old(auth),
                        *final(auth),
                        envelope.request_id,
                        message->method,
                        clock,
                        challenge@,
                        jti@,
                        out,
                    )
                    &&& old(auth).rate_limiter@.allows(old(self)@.peer_ip, clock.tick_ms) && old(
                        auth,
                    ).mode !is DevInsecure ==> own_grants_count(
                        *old(auth),
                        message->method,
                        clock.now_ms,
                    )
                } else {
                    &&& final(auth).rate_limiter@ == old(auth).rate_limiter@
                    &&& forall|allowed: Set<Seq<char>>|
                        #[trigger] message_outcome(
                            old(self)@,
                            final(self)@,
                            allowed,
                            0,
                            envelope,
                            message,
                            out,
                        )
                }
            }),
    {
        let request_id: u64 = envelope.request_id;
        match envelope.message {
            Some(Message::ClientHello(hello)) => just(
                Action::Negotiate {
                    request_id,
                    hello,
                    offered: copy_capabilities(&self.offered),
                    max_frame_bytes: self.default_frame_bytes,
                    max_datagram_bytes: DATAGRAM_BYTES_MAX,
                    transport_datagrams: self.transport_datagrams,
                },
            ),
            Some(Message::Authenticate { method }) => {
                if self.negotiated.is_none() {
                    refuse(0, request_id, ErrorCode::ErrUnknownMessage, "hello first")
                } else {
                    self.handle_authenticate_with(auth, request_id, method, clock, challenge, jti)
                }
            },
            Some(Message::Ping { nonce }) => just(
                Action::Send {
                    channel: 0,
                    envelope: respond(request_id, Message::Pong { nonce }),
                },
            ),
            Some(Message::Close) => Outcome { actions: Vec::new(), open: false },
            Some(Message::ListServers) => self.list_servers(request_id),
            Some(Message::ListShells) => {
                if self.permits("list") {
                    just(Action::ListShells { request_id })
                } else {
                    refuse(
                        0,
                        request_id,
                        ErrorCode::ErrForbidden,
                        "grant does not permit list",
                    )
                }
            },
            Some(
                Message::OpenShell {
                    unix_account,
                    command,
                    initial_cols,
                    initial_rows,
                    idempotency_key,
                },
            ) => self.open_shell(
                request_id,
                &unix_account,
                &command,
                initial_cols,
                initial_rows,
                idempotency_key.as_slice(),
            ),
            Some(Message::TerminateShell) => self.terminate_shell(
                request_id,
                envelope.shell_id.as_slice(),
            ),
            Some(Message::UploadChunk { .. })
            | Some(Message::FinishUpload { .. })
            | Some(Message::AbortUpload { .. }) => {
                if find_channel(&self.uploads, 0).is_some() {
                    just(Action::UploadFrame { channel: 0, envelope })
                } else {
                    unexpected(0, request_id)
                }
            },
            Some(Message::TcpForwardData { .. })
            | Some(Message::TcpForwardEof)
            | Some(Message::TcpForwardAck) => {
                if find_channel(&self.forwards, 0).is_some() {
                    just(Action::ForwardFrame { channel: 0, envelope })
                } else {
                    unexpected(0, request_id)
                }
            },
            _ => unexpected(0, request_id),
        }
    }

    /// A message on a channel of the client's.
    #[verifier::rlimit(60)]
    fn stream(&mut self, service: &ForwardService, channel: u64, envelope: Envelope) -> (out: Outcome)
        requires
            old(self).wf(),
            envelope.message is Some,
            channel != 0,
        ensures
            final(self).wf(),
            message_outcome(
                old(self)@,
                final(self)@,
                service.users(),
                channel,
                envelope,
                envelope.message->0,
                out,
            ),
    {
        let request_id: u64 = envelope.request_id;
        let for_upload: bool = match &envelope.message {
            Some(Message::UploadChunk { .. }) => true,
            Some(Message::FinishUpload { .. }) => true,
            Some(Message::AbortUpload { .. }) => true,
            _ => false,
        };
        if for_upload {
            return if find_channel(&self.uploads, channel).is_some() {
                just(Action::UploadFrame { channel, envelope })
            } else {
                unexpected(channel, request_id)
            };
        }
        let for_forward: bool = match &envelope.message {
            Some(Message::TcpForwardData { .. }) => true,
            Some(Message::TcpForwardEof) => true,
            Some(Message::TcpForwardAck) => true,
            _ => false,
        };
        if for_forward {
            return if find_channel(&self.forwards, channel).is_some() {
                just(Action::ForwardFrame { channel, envelope })
            } else {
                unexpected(channel, request_id)
            };
        }
        match envelope.message {
            Some(Message::Ping { nonce }) => just(
                Action::Send { channel, envelope: respond(request_id, Message::Pong { nonce }) },
            ),
            Some(Message::AttachShell { resume_token, cols, rows, .. }) => self.attach(
                channel,
                request_id,
                envelope.shell_id.as_slice(),
                resume_token,
                cols,
                rows,
            ),
            Some(Message::TerminalInput { data }) => match self.bound(channel) {
                Some(binding) => just(
                    Action::WriteInput {
                        channel,
                        request_id,
                        shell_id: binding.shell_id,
                        data,
                    },
                ),
                None => idle(),
            },
            Some(Message::TerminalResize { cols, rows }) => match self.bound(channel) {
                Some(binding) => just(
                    Action::Resize {
                        shell_id: binding.shell_id,
                        cols: dimension(cols),
                        rows: dimension(rows),
                    },
                ),
                None => idle(),
            },
            Some(Message::RequestHistory { before_line_id, maximum_lines, maximum_bytes }) =>
                self.request_history(
                    channel,
                    request_id,
                    before_line_id,
                    maximum_lines,
                    maximum_bytes,
                ),
            Some(Message::DetachShell) => self.channel_closed(channel),
            Some(Message::BeginUpload { original_name, total_bytes, sha256 }) => self.begin_upload(
                channel,
                request_id,
                envelope.shell_id.as_slice(),
                original_name,
                total_bytes,
                sha256,
            ),
            Some(Message::OpenTcpForward { host, port }) => self.open_forward(
                service,
                channel,
                request_id,
                host,
                port,
            ),
            _ => unexpected(channel, request_id),
        }
    }

    /// What a message leads to. A challenge, and the identifier of a grant, are
    /// drawn at random.
    pub fn dispatch(
        &mut self,
        auth: &mut AuthState,
        service: &ForwardService,
        channel: u64,
        envelope: Envelope,
        clock: Clock,
    ) -> (out: Outcome)
        requires
            old(self).wf(),
            old(auth).wf(),
        ensures
            final(self).wf(),
            final(auth).wf(),
            same_but_limiter(*old(auth), *final(auth)),
            exists|challenge: Seq<u8>, jti: Seq<u8>|
                challenge.len() == 32 && jti.len() == 16 && #[trigger] dispatched(
                    old(self)@,
                    final(self)@,
                    *old(auth),
                    *final(auth),
                    service.users(),
                    channel,
                    envelope,
                    clock,
                    challenge,
                    jti,
                    out,
                ),
            channel == 0 && old(self)@.negotiated is Some && old(auth).rate_limiter@.allows(
                old(self)@.peer_ip,
                clock.tick_ms,
            ) && old(auth).mode !is DevInsecure ==> (envelope.message matches Some(
                Message::Authenticate { method },
            ) ==> own_grants_count(*old(auth), method, clock.now_ms)),
    {
        let challenge: [u8; 32] = new_challenge();
        let jti: [u8; 16] = random_16();
        let out: Outcome = self.dispatch_with(
            auth,
            service,
            channel,
            envelope,
            clock,
            challenge,
            jti,
        );
        assert(challenge@.len() == 32 && jti@.len() == 16);
        out
    }
}

/// A shell as the client sees it.
pub open spec fn shown(info: ShellInfo, server_id: ServerId, shell: ListedShell) -> bool {
    &&& info.server_id@ == server_id.0@
    &&& info.shell_id@ == shell.shell_id.0@
    &&& info.state == shell.state
    &&& info.title@.len() == 0
    &&& info.created_at_ms == shell.created_at_ms
    &&& info.last_attached_at_ms == shell.last_attached_at_ms
}

/// Whether a list shows the shells that a user owns, in order, and no others.
pub open spec fn shows_own(
    infos: Seq<ShellInfo>,
    server_id: ServerId,
    user: Seq<char>,
    shells: Seq<ListedShell>,
) -> bool
    decreases shells.len(),
{
    if shells.len() == 0 {
        infos.len() == 0
    } else if shells.last().owner@ == user {
        &&& infos.len() > 0
        &&& shown(infos.last(), server_id, shells.last())
        &&& shows_own(infos.drop_last(), server_id, user, shells.drop_last())
    } else {
        shows_own(infos, server_id, user, shells.drop_last())
    }
}

/// A client sees only shells of its own.
pub proof fn only_own_shells_are_shown(
    infos: Seq<ShellInfo>,
    server_id: ServerId,
    user: Seq<char>,
    shells: Seq<ListedShell>,
    i: int,
)
    requires
        shows_own(infos, server_id, user, shells),
        0 <= i < infos.len(),
    ensures
        exists|k: int|
            0 <= k < shells.len() && (#[trigger] shells[k]).owner@ == user && shown(
                infos[i],
                server_id,
                shells[k],
            ),
    decreases shells.len(),
{
    let last = shells.len() - 1;
    if shells.last().owner@ == user && i == infos.len() - 1 {
        assert(shells[last].owner@ == user);
    } else {
        let rest = if shells.last().owner@ == user {
            infos.drop_last()
        } else {
            infos
        };
        only_own_shells_are_shown(rest, server_id, user, shells.drop_last(), i);
        let k = choose|k: int|
            0 <= k < shells.drop_last().len() && (#[trigger] shells.drop_last()[k]).owner@ == user
                && shown(rest[i], server_id, shells.drop_last()[k]);
        assert(shells[k].owner@ == user);
    }
}

impl Conn {
    /// The handshake is negotiated, or failed.
    pub fn negotiated(&mut self, request_id: u64, result: Result<Negotiated, String>) -> (out: Outcome)
        requires
            old(self).wf(),
        ensures
            final(self).wf(),
            match result {
                Ok(n) => {
                    &&& final(self)@ == (ConnView { negotiated: final(self)@.negotiated, ..old(self)@ })
                    &&& final(self)@.negotiated matches Some(m)
                    &&& m == n
                    &&& out.open
                    &&& out.actions@.len() == 1
                    &&& out.actions@[0] matches Action::Send { channel, envelope }
                    &&& channel == 0
                    &&& envelope.answers(request_id)
                    &&& envelope.message matches Some(
                        Message::ServerHello { negotiated, keepalive_interval_ms },
                    )
                    &&& negotiated.protocol_minor == n.protocol_minor
                    &&& negotiated.max_frame_bytes == n.max_frame_bytes
                    &&& negotiated.capabilities@ == n.capabilities@
                    &&& keepalive_interval_ms == KEEPALIVE_INTERVAL_MS
                },
                Err(text) => {
                    &&& final(self)@ == old(self)@
                    &&& !out.open
                    &&& out.actions@.len() == 1
                    &&& reports(out.actions@[0], 0, request_id, ErrorCode::ErrVersion, text@)
                },
            },
    {
        match result {
            Ok(n) => {
                let reply = Negotiated {
                    protocol_minor: n.protocol_minor,
                    max_frame_bytes: n.max_frame_bytes,
                    capabilities: copy_capabilities(&n.capabilities),
                };
                self.negotiated = Some(n);
                just(
                    Action::Send {
                        channel: 0,
                        envelope: respond(
                            request_id,
                            Message::ServerHello {
                                negotiated: reply,
                                keepalive_interval_ms: KEEPALIVE_INTERVAL_MS,
                            },
                        ),
                    },
                )
            },
            Err(text) => {
                let mut out: Outcome = refuse(0, request_id, ErrorCode::ErrVersion, text.as_str());
                out.open = false;
                out
            },
        }
    }

    /// The shells are listed: the client sees its own.
    pub fn shells_listed(&self, request_id: u64, shells: &Vec<ListedShell>) -> (out: Outcome)
        ensures
            out.open,
            out.actions@.len() == 1,
            out.actions@[0] matches Action::Send { channel, envelope } && channel == 0
                && envelope.answers(request_id) && (envelope.message matches Some(
                Message::ShellList { shells: infos },
            ) && shows_own(infos@, self@.server_id, self@.user, shells@)),
    {
        let mut infos: Vec<ShellInfo> = Vec::new();
        let mut i: usize = 0;
        while i < shells.len()
            invariant
                i <= shells.len(),
                shows_own(infos@, self@.server_id, self@.user, shells@.take(i as int)),
            decreases shells.len() - i,
        {
            let ghost before = infos@;
            let shell: &ListedShell = &shells[i];
            if same(shell.owner.as_str(), self.user_id.as_str()) {
                infos.push(
                    ShellInfo {
                        server_id: self.server_id.to_wire(),
                        shell_id: shell.shell_id.to_wire(),
                        state: shell.state,
                        title: String::new(),
                        created_at_ms: shell.created_at_ms,
                        last_attached_at_ms: shell.last_attached_at_ms,
                    },
                );
                assert(infos@.drop_last() =~= before);
            }
            i = i + 1;
            assert(shells@.take(i as int).drop_last() =~= shells@.take(i - 1));
        }
        assert(shells@.take(i as int) =~= shells@);
        just(
            Action::Send {
                channel: 0,
                envelope: respond(request_id, Message::ShellList { shells: infos }),
            },
        )
    }

    /// A shell is opened, or was refused.
    pub fn shell_opened(
        &self,
        request_id: u64,
        account: Option<String>,
        result: Result<OpenedShell, SessionError>,
    ) -> (out: Outcome)
        ensures
            out.open,
            out.actions@.len() == 2,
            match result {
                Ok(opened) => {
                    &&& audits(
                        out.actions@[0],
                        AuditEvent::ShellOpened {
                            user: self@.user,
                            shell_id: opened.shell_id,
                            account: opt_text(account),
                            reused: opened.reused,
                        },
                    )
                    &&& out.actions@[1] matches Action::Send { channel, envelope }
                    &&& channel == 0
                    &&& envelope.request_id == request_id
                    &&& envelope.server_id@ == self@.server_id.0@
                    &&& envelope.shell_id@ == opened.shell_id.0@
                    &&& envelope.message matches Some(
                        Message::ShellOpened { resume_token, expires_at_ms },
                    )
                    &&& resume_token@ == opened.resume_token@
                    &&& expires_at_ms == 0
                },
                Err(e) => {
                    &&& audits(
                        out.actions@[0],
                        AuditEvent::ShellOperationRejected {
                            user: self@.user,
                            shell_id: None,
                            operation: ShellOperation::Open,
                            reason: reject_reason_of(e.kind),
                        },
                    )
                    &&& out.actions@[1] matches Action::Send { channel, envelope }
                    &&& channel == 0
                    &&& envelope.is_session_error(request_id, e)
                },
            },
    {
        match result {
            Ok(opened) => {
                let mut envelope: Envelope = respond(
                    request_id,
                    Message::ShellOpened { resume_token: opened.resume_token, expires_at_ms: 0 },
                );
                envelope.server_id = self.server_id.to_wire();
                envelope.shell_id = opened.shell_id.to_wire();
                both(
                    Action::Audit(
                        AuditEvent::ShellOpened {
                            user: self.user_id.clone(),
                            shell_id: opened.shell_id,
                            account,
                            reused: opened.reused,
                        },
                    ),
                    Action::Send { channel: 0, envelope },
                )
            },
            Err(e) => both(
                Action::Audit(
                    AuditEvent::ShellOperationRejected {
                        user: self.user_id.clone(),
                        shell_id: None,
                        operation: ShellOperation::Open,
                        reason: reject_reason(&e),
                    },
                ),
                Action::Send { channel: 0, envelope: session_error(request_id, &e) },
            ),
        }
    }

    /// It is known who owns a shell that shall be ended; `None` where there is
    /// no such shell. Only its owner may end it, and nobody else learns that it
    /// exists.
    pub fn owner_checked(&self, request_id: u64, shell_id: ShellId, owner: Option<&str>) -> (out:
        Outcome)
        ensures
            if owner matches Some(o) && o@ == self@.user {
                &&& out.open
                &&& out.actions@.len() == 1
                &&& out.actions@[0] == (Action::Terminate { request_id, shell_id })
            } else {
                refused_audited(
                    out,
                    0,
                    request_id,
                    ErrorCode::ErrNotFound,
                    "no such shell"@,
                    AuditEvent::ShellOperationRejected {
                        user: self@.user,
                        shell_id: Some(shell_id),
                        operation: ShellOperation::Terminate,
                        reason: RejectReason::NotFound,
                    },
                )
            },
    {
        let own: bool = match owner {
            Some(o) => same(o, self.user_id.as_str()),
            None => false,
        };
        if own {
            just(Action::Terminate { request_id, shell_id })
        } else {
            both(
                Action::Audit(
                    AuditEvent::ShellOperationRejected {
                        user: self.user_id.clone(),
                        shell_id: Some(shell_id),
                        operation: ShellOperation::Terminate,
                        reason: RejectReason::NotFound,
                    },
                ),
                Action::Send {
                    channel: 0,
                    envelope: error_envelope(
                        request_id,
                        ErrorCode::ErrNotFound,
                        "no such shell",
                        false,
                    ),
                },
            )
        }
    }

    /// A shell is ended, or could not be.
    pub fn shell_terminated(
        &self,
        request_id: u64,
        shell_id: ShellId,
        result: Result<ShellExit, SessionError>,
    ) -> (out: Outcome)
        ensures
            out.open,
            out.actions@.len() == 2,
            match result {
                Ok(exit) => {
                    &&& audits(
                        out.actions@[0],
                        AuditEvent::ShellTerminated {
                            user: self@.user,
                            shell_id,
                            exit_code: exit.exit_code,
                        },
                    )
                    &&& out.actions@[1] matches Action::Send { channel, envelope }
                    &&& channel == 0
                    &&& envelope.request_id == request_id
                    &&& envelope.server_id@.len() == 0
                    &&& envelope.shell_id@ == shell_id.0@
                    &&& envelope.message matches Some(
                        Message::ShellExited { exit_code, signaled, signal },
                    )
                    &&& exit_code == signed_code(exit.exit_code)
                    &&& signaled == (!exit.success && exit.exit_code == 0)
                    &&& signal@.len() == 0
                },
                Err(e) => {
                    &&& audits(
                        out.actions@[0],
                        AuditEvent::ShellOperationRejected {
                            user: self@.user,
                            shell_id: Some(shell_id),
                            operation: ShellOperation::Terminate,
                            reason: reject_reason_of(e.kind),
                        },
                    )
                    &&& out.actions@[1] matches Action::Send { channel, envelope }
                    &&& channel == 0
                    &&& envelope.is_session_error(request_id, e)
                },
            },
    {
        match result {
            Ok(exit) => {
                let mut envelope: Envelope = respond(
                    request_id,
                    Message::ShellExited {
                        exit_code: exit_code_wire(exit.exit_code),
                        signaled: !exit.success && exit.exit_code == 0,
                        signal: String::new(),
                    },
                );
                envelope.shell_id = shell_id.to_wire();
                both(
                    Action::Audit(
                        AuditEvent::ShellTerminated {
                            user: self.user_id.clone(),
                            shell_id,
                            exit_code: exit.exit_code,
                        },
                    ),
                    Action::Send { channel: 0, envelope },
                )
            },
            Err(e) => both(
                Action::Audit(
                    AuditEvent::ShellOperationRejected {
                        user: self.user_id.clone(),
                        shell_id: Some(shell_id),
                        operation: ShellOperation::Terminate,
                        reason: reject_reason(&e),
                    },
                ),
                Action::Send { channel: 0, envelope: session_error(request_id, &e) },
            ),
        }
    }

    /// A shell is attached, or was refused. The client is told what its screen
    /// shows, and gets a new resume token for the one that it used up.
    pub fn attached(
        &mut self,
        channel: u64,
        request_id: u64,
        shell_id: ShellId,
        reply: AttachReply,
    ) -> (out: Outcome)
        requires
            old(self).wf(),
            !old(self)@.busy(channel),
        ensures
            final(self).wf(),
            match reply {
                AttachReply::MalformedToken => {
                    &&& final(self)@ == old(self)@
                    &&& refused(
                        out,
                        channel,
                        request_id,
                        ErrorCode::ErrTokenExpired,
                        "malformed resume token"@,
                    )
                },
                AttachReply::Refused(e) => {
                    &&& final(self)@ == old(self)@
                    &&& out.open
                    &&& out.actions@.len() == 2
                    &&& audits(
                        out.actions@[0],
                        AuditEvent::ShellOperationRejected {
                            user: old(self)@.user,
                            shell_id: Some(shell_id),
                            operation: ShellOperation::Attach,
                            reason: reject_reason_of(e.kind),
                        },
                    )
                    &&& out.actions@[1] matches Action::Send { channel: c, envelope }
                    &&& c == channel
                    &&& envelope.is_session_error(request_id, e)
                },
                AttachReply::Attached(a) => {
                    &&& final(self)@ == (ConnView {
                        attachments: old(self)@.attachments.insert(
                            channel,
                            Binding { shell_id, attachment_id: a.attachment_id },
                        ),
                        ..old(self)@
                    })
                    &&& out.open
                    &&& out.actions@.len() == 2
                    &&& audits(
                        out.actions@[0],
                        AuditEvent::ShellAttached { user: old(self)@.user, shell_id },
                    )
                    &&& out.actions@[1] matches Action::Send { channel: c, envelope }
                    &&& c == channel
                    &&& envelope.request_id == request_id
                    &&& envelope.server_id@ == old(self)@.server_id.0@
                    &&& envelope.shell_id@ == shell_id.0@
                    &&& envelope.message == Some(
                        Message::ShellAttached {
                            screen_snapshot: a.snapshot,
                            screen_revision: a.screen_revision,
                            rotated_resume_token: a.rotated_resume_token,
                            oldest_history_line_id: a.oldest_history_line_id,
                            newest_history_line_id: a.newest_history_line_id,
                        },
                    )
                },
            },
    {
        match reply {
            AttachReply::MalformedToken => refuse(
                channel,
                request_id,
                ErrorCode::ErrTokenExpired,
                "malformed resume token",
            ),
            AttachReply::Refused(e) => both(
                Action::Audit(
                    AuditEvent::ShellOperationRejected {
                        user: self.user_id.clone(),
                        shell_id: Some(shell_id),
                        operation: ShellOperation::Attach,
                        reason: reject_reason(&e),
                    },
                ),
                Action::Send { channel, envelope: session_error(request_id, &e) },
            ),
            AttachReply::Attached(a) => {
                add_channel(
                    &mut self.attachments,
                    channel,
                    Binding { shell_id, attachment_id: a.attachment_id },
                );
                let mut envelope: Envelope = respond(
                    request_id,
                    Message::ShellAttached {
                        screen_snapshot: a.snapshot,
                        screen_revision: a.screen_revision,
                        rotated_resume_token: a.rotated_resume_token,
                        oldest_history_line_id: a.oldest_history_line_id,
                        newest_history_line_id: a.newest_history_line_id,
                    },
                );
                envelope.server_id = self.server_id.to_wire();
                envelope.shell_id = shell_id.to_wire();
                both(
                    Action::Audit(
                        AuditEvent::ShellAttached { user: self.user_id.clone(), shell_id },
                    ),
                    Action::Send { channel, envelope },
                )
            },
        }
    }

    /// Input is written; `Some` where the shell manager refused it.
    pub fn input_written(&self, channel: u64, request_id: u64, error: Option<SessionError>) -> (out:
        Outcome)
        ensures
            match error {
                None => nothing(out),
                Some(e) => {
                    &&& out.open
                    &&& out.actions@.len() == 1
                    &&& out.actions@[0] matches Action::Send { channel: c, envelope }
                    &&& c == channel
                    &&& envelope.is_session_error(request_id, e)
                },
            },
    {
        match error {
            None => idle(),
            Some(e) => just(Action::Send { channel, envelope: session_error(request_id, &e) }),
        }
    }

    /// Scrollback is read, together with the oldest line that there is, where
    /// that is known.
    pub fn history_read(
        &self,
        channel: u64,
        request_id: u64,
        result: Result<(HistoryRange, Option<u64>), SessionError>,
    ) -> (out: Outcome)
        ensures
            out.open,
            match result {
                Ok((range, oldest)) => {
                    &&& out.actions@.len() == 2
                    &&& out.actions@[0] matches Action::Send { channel: c, envelope }
                    &&& c == channel
                    &&& envelope.answers(request_id)
                    &&& envelope.message == Some(
                        Message::HistoryChunk {
                            first_line_id: range.first_line_id,
                            lines: range.lines,
                            truncated_by_eviction: range.truncated_by_eviction,
                        },
                    )
                    &&& out.actions@[1] matches Action::Send { channel: d, envelope: end }
                    &&& d == channel
                    &&& end.answers(request_id)
                    &&& end.message == Some(
                        Message::HistoryEnd {
                            oldest_available_line_id: match oldest {
                                Some(line) => line,
                                None => 0,
                            },
                        },
                    )
                },
                Err(e) => {
                    &&& out.actions@.len() == 1
                    &&& out.actions@[0] matches Action::Send { channel: c, envelope }
                    &&& c == channel
                    &&& envelope.is_session_error(request_id, e)
                },
            },
    {
        match result {
            Ok((range, oldest)) => both(
                Action::Send {
                    channel,
                    envelope: respond(
                        request_id,
                        Message::HistoryChunk {
                            first_line_id: range.first_line_id,
                            lines: range.lines,
                            truncated_by_eviction: range.truncated_by_eviction,
                        },
                    ),
                },
                Action::Send {
                    channel,
                    envelope: respond(
                        request_id,
                        Message::HistoryEnd {
                            oldest_available_line_id: match oldest {
                                Some(line) => line,
                                None => 0,
                            },
                        },
                    ),
                },
            ),
            Err(e) => just(Action::Send { channel, envelope: session_error(request_id, &e) }),
        }
    }

    /// It is known who owns the shell that a file shall be uploaded to; `None`
    /// where there is no such shell. What is not the client's own is refused
    /// alike, whether it exists or not.
    pub fn upload_owner_checked(
        &self,
        channel: u64,
        request_id: u64,
        shell_id: ShellId,
        owner: Option<&str>,
        original_name: String,
        total_bytes: u64,
        sha256: Vec<u8>,
    ) -> (out: Outcome)
        ensures
            if owner matches Some(o) && o@ == self@.user {
                &&& out.open
                &&& out.actions@.len() == 1
                &&& out.actions@[0] matches Action::BeginUpload {
                    channel: c,
                    request_id: id,
                    user,
                    shell_id: s,
                    original_name: name,
                    total_bytes: size,
                    sha256: digest,
                }
                &&& c == channel
                &&& id == request_id
                &&& user@ == self@.user
                &&& s == shell_id
                &&& name == original_name
                &&& size == total_bytes
                &&& digest == sha256
            } else {
                refused_audited(
                    out,
                    channel,
                    request_id,
                    ErrorCode::ErrForbidden,
                    "upload denied"@,
                    AuditEvent::UploadRejected {
                        user: self@.user,
                        shell_id: Some(shell_id),
                        reason: RejectReason::Forbidden,
                    },
                )
            },
    {
        let own: bool = match owner {
            Some(o) => same(o, self.user_id.as_str()),
            None => false,
        };
        if own {
            just(
                Action::BeginUpload {
                    channel,
                    request_id,
                    user: self.user_id.clone(),
                    shell_id,
                    original_name,
                    total_bytes,
                    sha256,
                },
            )
        } else {
            self.refuse_upload(
                channel,
                request_id,
                Some(shell_id),
                RejectReason::Forbidden,
                ErrorCode::ErrForbidden,
                "upload denied",
            )
        }
    }

    /// An upload began, with its identifier and the largest chunk that it takes,
    /// or was refused.
    pub fn upload_begun(
        &mut self,
        channel: u64,
        request_id: u64,
        shell_id: ShellId,
        original_name: String,
        total_bytes: u64,
        result: Result<(Vec<u8>, u32), UploadError>,
    ) -> (out: Outcome)
        requires
            old(self).wf(),
            !old(self)@.busy(channel),
        ensures
            final(self).wf(),
            match result {
                Ok((upload_id, maximum_chunk_bytes)) => {
                    &&& final(self)@ == (ConnView {
                        uploads: old(self)@.uploads.insert(channel, shell_id),
                        ..old(self)@
                    })
                    &&& out.open
                    &&& out.actions@.len() == 2
                    &&& audits(
                        out.actions@[0],
                        AuditEvent::UploadStarted {
                            user: old(self)@.user,
                            shell_id,
                            original_name: original_name@,
                            bytes: total_bytes,
                        },
                    )
                    &&& out.actions@[1] matches Action::Send { channel: c, envelope }
                    &&& c == channel
                    &&& envelope.answers(request_id)
                    &&& envelope.message == Some(
                        Message::UploadAccepted { upload_id, maximum_chunk_bytes },
                    )
                },
                Err(e) => {
                    &&& final(self)@ == old(self)@
                    &&& refused_audited(
                        out,
                        channel,
                        request_id,
                        upload_code(e),
                        "upload refused"@,
                        AuditEvent::UploadRejected {
                            user: old(self)@.user,
                            shell_id: Some(shell_id),
                            reason: upload_reason(e),
                        },
                    )
                },
            },
    {
        match result {
            Ok((upload_id, maximum_chunk_bytes)) => {
                add_channel(&mut self.uploads, channel, shell_id);
                both(
                    Action::Audit(
                        AuditEvent::UploadStarted {
                            user: self.user_id.clone(),
                            shell_id,
                            original_name,
                            bytes: total_bytes,
                        },
                    ),
                    Action::Send {
                        channel,
                        envelope: respond(
                            request_id,
                            Message::UploadAccepted { upload_id, maximum_chunk_bytes },
                        ),
                    },
                )
            },
            Err(e) => {
                let (code, reason): (ErrorCode, RejectReason) = match e {
                    UploadError::LimitExceeded => (
                        ErrorCode::ErrLimitExceeded,
                        RejectReason::LimitExceeded,
                    ),
                    UploadError::Validation(UploadValidationError::FileTooLarge) => (
                        ErrorCode::ErrLimitExceeded,
                        RejectReason::LimitExceeded,
                    ),
                    UploadError::Validation(_) => (
                        ErrorCode::ErrInvalidArgument,
                        RejectReason::InvalidRequest,
                    ),
                    UploadError::MissingAccount => (
                        ErrorCode::ErrForbidden,
                        RejectReason::Forbidden,
                    ),
                    UploadError::MalformedBackendResponse => (
                        ErrorCode::ErrInternal,
                        RejectReason::Internal,
                    ),
                };
                self.refuse_upload(
                    channel,
                    request_id,
                    Some(shell_id),
                    reason,
                    code,
                    "upload refused",
                )
            },
        }
    }

    /// The upload of a channel ended.
    pub fn upload_ended(&mut self, channel: u64, end: UploadEnd) -> (out: Outcome)
        requires
            old(self).wf(),
        ensures
            final(self).wf(),
            final(self)@ == (ConnView {
                uploads: old(self)@.uploads.remove(channel),
                ..old(self)@
            }),
            upload_end_outcome(old(self)@, channel, end, out),
    {
        let shell_id: ShellId = match find_channel(&self.uploads, channel) {
            Some(i) => self.uploads[i].1,
            None => {
                assert(self@.uploads.remove(channel) =~= self@.uploads);
                return idle();
            },
        };
        drop_channel(&mut self.uploads, channel);
        match end {
            UploadEnd::Finished { request_id, upload, stored_basename, duration_ms } => both(
                Action::Audit(
                    AuditEvent::UploadCompleted {
                        user: self.user_id.clone(),
                        shell_id,
                        stored_basename,
                        bytes: upload.bytes_written,
                        duration_ms,
                    },
                ),
                Action::Send {
                    channel,
                    envelope: respond(
                        request_id,
                        Message::UploadFinished {
                            upload_id: copy_bytes(upload.upload_id.as_slice()),
                            remote_path: upload.remote_path,
                            bytes_written: upload.bytes_written,
                            sha256: copy_bytes(upload.sha256.as_slice()),
                        },
                    ),
                },
            ),
            UploadEnd::Cancelled => just(
                Action::Audit(
                    AuditEvent::UploadEnded {
                        user: self.user_id.clone(),
                        shell_id,
                        outcome: UploadOutcome::Cancelled,
                    },
                ),
            ),
            UploadEnd::TimedOut => just(
                Action::Audit(
                    AuditEvent::UploadEnded {
                        user: self.user_id.clone(),
                        shell_id,
                        outcome: UploadOutcome::TimedOut,
                    },
                ),
            ),
            UploadEnd::Failed { request_id } => both(
                Action::Audit(
                    AuditEvent::UploadEnded {
                        user: self.user_id.clone(),
                        shell_id,
                        outcome: UploadOutcome::Failed,
                    },
                ),
                Action::Send {
                    channel,
                    envelope: error_envelope(
                        request_id,
                        ErrorCode::ErrInvalidArgument,
                        "upload failed",
                        false,
                    ),
                },
            ),
        }
    }

    /// There is no place for a connection that was to be forwarded.
    pub fn forward_refused(&mut self, channel: u64) -> (out: Outcome)
        requires
            old(self).wf(),
        ensures
            final(self).wf(),
            final(self)@ == (ConnView {
                forwards: old(self)@.forwards.remove(channel),
                ..old(self)@
            }),
            old(self)@.forwards.dom().contains(channel) ==> refused(
                out,
                channel,
                old(self)@.forwards[channel],
                ErrorCode::ErrLimitExceeded,
                "too many forwarded connections"@,
            ),
            !old(self)@.forwards.dom().contains(channel) ==> nothing(out),
    {
        let request_id: u64 = match find_channel(&self.forwards, channel) {
            Some(i) => self.forwards[i].1,
            None => {
                assert(self@.forwards.remove(channel) =~= self@.forwards);
                return idle();
            },
        };
        drop_channel(&mut self.forwards, channel);
        refuse(
            channel,
            request_id,
            ErrorCode::ErrLimitExceeded,
            "too many forwarded connections",
        )
    }

    /// The forwarded connection of a channel ended.
    pub fn forward_ended(&mut self, channel: u64)
        requires
            old(self).wf(),
        ensures
            final(self).wf(),
            final(self)@ == (ConnView {
                forwards: old(self)@.forwards.remove(channel),
                ..old(self)@
            }),
    {
        drop_channel(&mut self.forwards, channel);
    }
}

/// How an upload ended.
#[derive(Debug, Clone, PartialEq, Eq)]
pub enum UploadEnd {
    Finished {
        request_id: u64,
        upload: FinishedUpload,
        stored_basename: String,
        duration_ms: u64,
    },
    Cancelled,
    TimedOut,
    Failed { request_id: u64 },
}

/// What the end of an upload leads to.
pub open spec fn upload_end_outcome(
    before: ConnView,
    channel: u64,
    end: UploadEnd,
    out: Outcome,
) -> bool {
    let user = before.user;
    let shell_id = before.uploads[channel];
    if !before.uploads.dom().contains(channel) {
        nothing(out)
    } else {
        match end {
            UploadEnd::Finished { request_id, upload, stored_basename, duration_ms } => {
                &&& out.open
                &&& out.actions@.len() == 2
                &&& audits(
                    out.actions@[0],
                    AuditEvent::UploadCompleted {
                        user,
                        shell_id,
                        stored_basename: stored_basename@,
                        bytes: upload.bytes_written,
                        duration_ms,
                    },
                )
                &&& out.actions@[1] matches Action::Send { channel: c, envelope }
                &&& c == channel
                &&& envelope.answers(request_id)
                &&& envelope.message matches Some(
                    Message::UploadFinished { upload_id, remote_path, bytes_written, sha256 },
                )
                &&& upload_id@ == upload.upload_id@
                &&& remote_path == upload.remote_path
                &&& bytes_written == upload.bytes_written
                &&& sha256@ == upload.sha256@
            },
            UploadEnd::Cancelled => {
                &&& out.open
                &&& out.actions@.len() == 1
                &&& audits(
                    out.actions@[0],
                    AuditEvent::UploadEnded { user, shell_id, outcome: UploadOutcome::Cancelled },
                )
            },
            UploadEnd::TimedOut => {
                &&& out.open
                &&& out.actions@.len() == 1
                &&& audits(
                    out.actions@[0],
                    AuditEvent::UploadEnded { user, shell_id, outcome: UploadOutcome::TimedOut },
                )
            },
            UploadEnd::Failed { request_id } => refused_audited(
                out,
                channel,
                request_id,
                ErrorCode::ErrInvalidArgument,
                "upload failed"@,
                AuditEvent::UploadEnded { user, shell_id, outcome: UploadOutcome::Failed },
            ),
        }
    }
}

/// The code that a refused upload is answered with.
pub open spec fn upload_code(e: UploadError) -> ErrorCode {
    match e {
        UploadError::LimitExceeded => ErrorCode::ErrLimitExceeded,
        UploadError::Validation(UploadValidationError::FileTooLarge) => ErrorCode::ErrLimitExceeded,
        UploadError::Validation(_) => ErrorCode::ErrInvalidArgument,
        UploadError::MissingAccount => ErrorCode::ErrForbidden,
        UploadError::MalformedBackendResponse => ErrorCode::ErrInternal,
    }
}

/// Why a refused upload is recorded.
pub open spec fn upload_reason(e: UploadError) -> RejectReason {
    match e {
        UploadError::LimitExceeded => RejectReason::LimitExceeded,
        UploadError::Validation(UploadValidationError::FileTooLarge) => RejectReason::LimitExceeded,
        UploadError::Validation(_) => RejectReason::InvalidRequest,
        UploadError::MissingAccount => RejectReason::Forbidden,
        UploadError::MalformedBackendResponse => RejectReason::Internal,
    }
}

fn copy_capabilities(list: &Vec<Capability>) -> (r: Vec<Capability>)
    ensures
        r@ == list@,
{
    let mut out: Vec<Capability> = Vec::new();
    let mut i: usize = 0;
    while i < list.len()
        invariant
            i <= list.len(),
            out@ == list@.take(i as int),
        decreases list.len() - i,
    {
        out.push(list[i]);
        i = i + 1;
        assert(out@ =~= list@.take(i as int));
    }
    assert(list@.take(i as int) =~= list@);
    out
}

/// What an attached shell does, as the client is told. An output or an end comes
/// unasked.
pub fn attachment_event(event: AttachmentEvent) -> (r: Envelope)
    ensures
        r.answers(0),
        match event {
            AttachmentEvent::Output(data) => r.message == Some(Message::TerminalOutput { data }),
            AttachmentEvent::Exited(exit) => r.message matches Some(
                Message::ShellExited { exit_code, signaled, signal },
            ) && exit_code == signed_code(exit.exit_code) && signaled == !exit.success
                && signal@.len() == 0,
        },
{
    match event {
        AttachmentEvent::Output(data) => respond(0, Message::TerminalOutput { data }),
        AttachmentEvent::Exited(exit) => respond(
            0,
            Message::ShellExited {
                exit_code: exit_code_wire(exit.exit_code),
                signaled: !exit.success,
                signal: String::new(),
            },
        ),
    }
}

/// What the client is told when no more events follow: nothing after the
/// shell's end, and otherwise that it was too slow and may attach again.
pub fn attachment_closed(exited: bool) -> (r: Option<Envelope>)
    ensures
        exited ==> r is None,
        !exited ==> (r matches Some(e) && e.is_error(
            0,
            ErrorCode::ErrTooSlow,
            "attachment dropped: output overran the slow-consumer bound"@,
            true,
        )),
{
    if exited {
        None
    } else {
        Some(
            error_envelope(
                0,
                ErrorCode::ErrTooSlow,
                "attachment dropped: output overran the slow-consumer bound",
                true,
            ),
        )
    }
}

/// Before a login, no request does anything but the handshake: it is answered
/// that the client must log in, and nothing changes.
pub proof fn nothing_before_login(
    before: ConnView,
    after: ConnView,
    auth: AuthState,
    auth_after: AuthState,
    allowed: Set<Seq<char>>,
    channel: u64,
    envelope: Envelope,
    clock: Clock,
    challenge: Seq<u8>,
    jti: Seq<u8>,
    out: Outcome,
)
    requires
        dispatched(
            before,
            after,
            auth,
            auth_after,
            allowed,
            channel,
            envelope,
            clock,
            challenge,
            jti,
            out,
        ),
        !before.authenticated,
        envelope.message matches Some(m) && !before_login(m),
    ensures
        after == before,
        refused(
            out,
            channel,
            envelope.request_id,
            ErrorCode::ErrUnauthenticated,
            "authenticate first"@,
        ),
{
}

/// Only a login makes a client known, and only through the handshake's own
/// message on the control channel.
pub proof fn only_logins_authenticate(
    before: ConnView,
    after: ConnView,
    auth: AuthState,
    auth_after: AuthState,
    allowed: Set<Seq<char>>,
    channel: u64,
    envelope: Envelope,
    clock: Clock,
    challenge: Seq<u8>,
    jti: Seq<u8>,
    out: Outcome,
)
    requires
        dispatched(
            before,
            after,
            auth,
            auth_after,
            allowed,
            channel,
            envelope,
            clock,
            challenge,
            jti,
            out,
        ),
        after.authenticated != before.authenticated || after.user != before.user || after.scope
            != before.scope,
    ensures
        channel == 0,
        envelope.message matches Some(m) && m is Authenticate,
        before.negotiated is Some,
        auth.rate_limiter@.allows(before.peer_ip, clock.tick_ms),
        after.authenticated,
{
}

/// A grant that names its operations lets its holder do no other: each is
/// refused as forbidden, and nothing is asked of the shell manager.
pub proof fn scope_is_enforced(
    before: ConnView,
    after: ConnView,
    allowed: Set<Seq<char>>,
    channel: u64,
    envelope: Envelope,
    message: Message,
    out: Outcome,
)
    requires
        message_outcome(before, after, allowed, channel, envelope, message, out),
    ensures
        message is OpenShell && channel == 0 && !before.permits("open"@) ==> out.actions@.len() == 2
            && reports(
            out.actions@[1],
            0,
            envelope.request_id,
            ErrorCode::ErrForbidden,
            "grant does not permit open"@,
        ),
        message is TerminateShell && channel == 0 && !before.permits("terminate"@)
            ==> out.actions@.len() == 2 && reports(
            out.actions@[1],
            0,
            envelope.request_id,
            ErrorCode::ErrForbidden,
            "grant does not permit terminate"@,
        ),
        message is AttachShell && channel != 0 && !before.permits("attach"@)
            ==> out.actions@.len() == 2 && reports(
            out.actions@[1],
            channel,
            envelope.request_id,
            ErrorCode::ErrForbidden,
            "grant does not permit attach"@,
        ),
        message is ListShells && channel == 0 && !before.permits("list"@) ==> out.actions@.len()
            == 1 && reports(
            out.actions@[0],
            0,
            envelope.request_id,
            ErrorCode::ErrForbidden,
            "grant does not permit list"@,
        ),
        message is BeginUpload && channel != 0 && before.can(Capability::FileTransfer)
            && !before.permits("upload"@) ==> out.actions@.len() == 2 && reports(
            out.actions@[1],
            channel,
            envelope.request_id,
            ErrorCode::ErrForbidden,
            "grant does not permit upload"@,
        ),
        message is OpenTcpForward && channel != 0 && before.can(Capability::TcpForward)
            && !before.permits("forward"@) ==> out.actions@.len() == 1 && reports(
            out.actions@[0],
            channel,
            envelope.request_id,
            ErrorCode::ErrForbidden,
            "grant does not permit forward"@,
        ),
        after.attachments.submap_of(before.attachments),
{
}

/// Whether an action that is done for a user names a given one.
pub open spec fn acts_for(action: Action, name: Seq<char>) -> bool {
    match action {
        Action::OpenShell { request, .. } => request.user@ == name,
        Action::Attach { user, .. } => user@ == name,
        Action::CheckUploadOwner { user, .. } => user@ == name,
        Action::BeginUpload { user, .. } => user@ == name,
        Action::OpenForward { user, .. } => user@ == name,
        _ => true,
    }
}

/// Whatever a message leads to is done for the user who logged in on the
/// connection, and for nobody else.
pub proof fn requests_name_their_user(
    before: ConnView,
    after: ConnView,
    allowed: Set<Seq<char>>,
    channel: u64,
    envelope: Envelope,
    message: Message,
    out: Outcome,
)
    requires
        message_outcome(before, after, allowed, channel, envelope, message, out),
    ensures
        forall|i: int| 0 <= i < out.actions@.len() ==> acts_for(#[trigger] out.actions@[i], before.user),
{
}

/// The grant that a login is answered with lets its holder in again, for as long
/// as it lasts.
pub proof fn login_grants_last(user: Seq<char>, audience: Seq<char>, issued_ms: i64, now_ms: i64, jti: Seq<u8>)
    requires
        issued_ms - CLOCK_SKEW_MS <= now_ms < after_ms(issued_ms, GRANT_LIFETIME_MS),
    ensures
        claims_checked(login_claims(user, audience, issued_ms, jti), audience, now_ms) == Ok::<
            ClaimsView,
            GrantErrorView,
        >(login_claims(user, audience, issued_ms, jti)),
{
}

} // verus!
