//! Laws of shells and terminals: what a client asks for is what the shell manager is
//! asked for, and what the manager says is what the client is told.

use vstd::prelude::*;

use crate::auth::AuthState;
use crate::conn::{
    attachment_closed, attachment_event, reject_reason, Action, AttachReply, Binding, Clock, Conn,
    ConnView, ListedShell, Outcome,
};
use crate::forward::ForwardService;
use crate::ids::ShellId;
use crate::observability::{AuditEvent, RejectReason, ShellOperation};
use crate::protocol::{
    Attachment, AttachmentEvent, Capability, Envelope, ErrorCode, HistoryRange, Message, Negotiated,
    OpenShellRequest, OpenedShell, SessionError, SessionErrorKind, ShellExit, ShellInfo, ShellState,
};

verus! {

/// Whether a request is answered with an error and nothing else is done.
pub open spec fn only_error(
    out: Outcome,
    channel: u64,
    request_id: u64,
    code: ErrorCode,
    text: Seq<char>,
) -> bool {
    &&& out.open
    &&& out.actions@.len() == 1
    &&& is_error(out.actions@[0], channel, request_id, code, text, false)
}

/// Whether an action answers a request with an error.
pub open spec fn is_error(
    action: Action,
    channel: u64,
    request_id: u64,
    code: ErrorCode,
    text: Seq<char>,
    retryable: bool,
) -> bool {
    &&& action matches Action::Send { channel: c, envelope }
    &&& c == channel
    &&& envelope.request_id == request_id
    &&& envelope.server_id@.len() == 0
    &&& envelope.shell_id@.len() == 0
    &&& envelope.message matches Some(Message::Error { code: k, human_message, retryable: r })
    &&& k == code
    &&& human_message@ == text
    &&& r == retryable
}

/// A shell is asked for with what the client gave: its user, the account and the command
/// unless they are empty, the size, and the key, byte for byte.
pub proof fn shells_are_opened_as_asked(
    conn: &mut Conn,
    auth: &mut AuthState,
    service: &ForwardService,
    channel: u64,
    envelope: Envelope,
    clock: Clock,
    out: Outcome,
    unix_account: String,
    command: String,
    initial_cols: u32,
    initial_rows: u32,
    idempotency_key: Vec<u8>,
)
    requires
        call_ensures(Conn::dispatch, (conn, auth, service, channel, envelope, clock), out),
        old(conn)@.authenticated,
        channel == 0,
        envelope.message == Some(
            Message::OpenShell {
                unix_account,
                command,
                initial_cols,
                initial_rows,
                idempotency_key,
            },
        ),
        old(conn)@.scope matches Some(ops) ==> ops.contains("open"@),
    ensures
        final(conn)@ == old(conn)@,
        final(auth).rate_limiter@ == old(auth).rate_limiter@,
        idempotency_key@.len() != 16 ==> only_error(
            out,
            0,
            envelope.request_id,
            ErrorCode::ErrUnknownMessage,
            "idempotency_key must be 16 bytes"@,
        ),
        idempotency_key@.len() == 16 ==> {
            &&& out.open
            &&& out.actions@.len() == 1
            &&& out.actions@[0] matches Action::OpenShell { request_id, request }
            &&& request_id == envelope.request_id
            &&& request.user@ == old(conn)@.user
            &&& unix_account@.len() == 0 <==> request.requested_account is None
            &&& request.requested_account matches Some(account) ==> account@ == unix_account@
            &&& command@.len() == 0 <==> request.command is None
            &&& request.command matches Some(c) ==> c@ == command@
            &&& request.args@.len() == 0
            &&& initial_cols <= 0xffff ==> request.cols == initial_cols
            &&& initial_rows <= 0xffff ==> request.rows == initial_rows
            &&& request.cols as int == initial_cols as int % 0x1_0000
            &&& request.rows as int == initial_rows as int % 0x1_0000
            &&& request.idempotency_key@ == idempotency_key@
        },
{
}

/// A client sees every shell of its own that the manager lists, whatever its state, once
/// for each time that it is listed, in the manager's order, with what the manager says
/// of it; and no other.
pub proof fn own_shells_are_listed(
    conn: &Conn,
    request_id: u64,
    shells: &Vec<ListedShell>,
    out: Outcome,
)
    requires
        call_ensures(Conn::shells_listed, (conn, request_id, shells), out),
    ensures
        out.open,
        out.actions@.len() == 1,
        ({
            &&& out.actions@[0] matches Action::Send { channel, envelope }
            &&& channel == 0
            &&& envelope.request_id == request_id
            &&& envelope.message matches Some(Message::ShellList { shells: infos })
            &&& infos@.len() == own(shells@, conn@.user).len()
            &&& forall|i: int|
                #![trigger infos@[i]]
                0 <= i < infos@.len() ==> {
                    let listed = shells@[own(shells@, conn@.user)[i]];
                    &&& listed.owner@ == conn@.user
                    &&& infos@[i].server_id@ == conn@.server_id.0@
                    &&& infos@[i].shell_id@ == listed.shell_id.0@
                    &&& infos@[i].state == listed.state
                    &&& infos@[i].title@.len() == 0
                    &&& infos@[i].created_at_ms == listed.created_at_ms
                    &&& infos@[i].last_attached_at_ms == listed.last_attached_at_ms
                }
            &&& forall|k: int|
                0 <= k < shells@.len() && (#[trigger] shells@[k]).owner@ == conn@.user ==> exists|
                    i: int,
                |
                    0 <= i < infos@.len() && (#[trigger] infos@[i]).shell_id@
                        == shells@[k].shell_id.0@ && infos@[i].state == shells@[k].state
        }),
{
    let infos = out.actions@[0]->Send_envelope.message->0->ShellList_shells;
    own_is_complete(shells@, conn@.user);
    listed_are_own(infos@, conn, shells@);
    assert forall|k: int|
        0 <= k < shells@.len() && (#[trigger] shells@[k]).owner@ == conn@.user implies exists|
        i: int,
    |
        0 <= i < infos@.len() && (#[trigger] infos@[i]).shell_id@ == shells@[k].shell_id.0@
            && infos@[i].state == shells@[k].state by {
        let i = choose|i: int|
            0 <= i < own(shells@, conn@.user).len() && #[trigger] own(shells@, conn@.user)[i] == k;
        assert(infos@[i].shell_id@ == shells@[k].shell_id.0@);
    }
}

/// Which of some shells a user owns, in order.
pub open spec fn own(shells: Seq<ListedShell>, user: Seq<char>) -> Seq<int>
    decreases shells.len(),
{
    if shells.len() == 0 {
        Seq::empty()
    } else {
        let before = own(shells.drop_last(), user);
        if shells.last().owner@ == user {
            before.push(shells.len() - 1)
        } else {
            before
        }
    }
}

/// The shells that a user owns are listed in order, all of them and no others.
pub proof fn own_is_complete(shells: Seq<ListedShell>, user: Seq<char>)
    ensures
        forall|i: int|
            0 <= i < own(shells, user).len() ==> 0 <= #[trigger] own(shells, user)[i] < shells.len()
                && shells[own(shells, user)[i]].owner@ == user,
        forall|k: int|
            0 <= k < shells.len() && (#[trigger] shells[k]).owner@ == user ==> exists|i: int|
                0 <= i < own(shells, user).len() && #[trigger] own(shells, user)[i] == k,
        forall|i: int, j: int|
            0 <= i < j < own(shells, user).len() ==> #[trigger] own(shells, user)[i]
                < #[trigger] own(shells, user)[j],
    decreases shells.len(),
{
    if shells.len() > 0 {
        let shorter = shells.drop_last();
        own_is_complete(shorter, user);
        let before = own(shorter, user);
        let all = own(shells, user);
        assert forall|i: int| 0 <= i < all.len() implies 0 <= #[trigger] all[i] < shells.len()
            && shells[all[i]].owner@ == user by {
            if i < before.len() {
                assert(all[i] == before[i]);
                assert(shorter[before[i]] == shells[before[i]]);
            }
        }
        assert forall|k: int|
            0 <= k < shells.len() && (#[trigger] shells[k]).owner@ == user implies exists|i: int|
            0 <= i < all.len() && #[trigger] all[i] == k by {
            if k == shells.len() - 1 {
                assert(all[all.len() - 1] == k);
            } else {
                assert(shorter[k].owner@ == user);
                let i = choose|i: int| 0 <= i < before.len() && #[trigger] before[i] == k;
                assert(all[i] == k);
            }
        }
        assert forall|i: int, j: int| 0 <= i < j < all.len() implies #[trigger] all[i]
            < #[trigger] all[j] by {
            assert(all[i] == before[i]);
            if j < before.len() {
                assert(all[j] == before[j]);
            }
        }
    }
}

proof fn listed_are_own(infos: Seq<ShellInfo>, conn: &Conn, shells: Seq<ListedShell>)
    requires
        crate::conn::shows_own(infos, conn@.server_id, conn@.user, shells),
    ensures
        infos.len() == own(shells, conn@.user).len(),
        forall|i: int|
            #![trigger infos[i]]
            0 <= i < infos.len() ==> {
                let listed = shells[own(shells, conn@.user)[i]];
                &&& infos[i].server_id@ == conn@.server_id.0@
                &&& infos[i].shell_id@ == listed.shell_id.0@
                &&& infos[i].state == listed.state
                &&& infos[i].title@.len() == 0
                &&& infos[i].created_at_ms == listed.created_at_ms
                &&& infos[i].last_attached_at_ms == listed.last_attached_at_ms
            },
    decreases shells.len(),
{
    if shells.len() > 0 {
        let shorter = shells.drop_last();
        let mine = shells.last().owner@ == conn@.user;
        let rest = if mine {
            infos.drop_last()
        } else {
            infos
        };
        listed_are_own(rest, conn, shorter);
        own_is_complete(shorter, conn@.user);
        assert forall|i: int| 0 <= i < rest.len() implies infos[i] == rest[i]
            && shells[own(shells, conn@.user)[i]] == shorter[own(shorter, conn@.user)[i]] by {
            assert(own(shells, conn@.user)[i] == own(shorter, conn@.user)[i]);
        }
    }
}

/// A client that may list asks the manager, and for nothing else.
pub proof fn lists_are_asked_for(
    conn: &mut Conn,
    auth: &mut AuthState,
    service: &ForwardService,
    channel: u64,
    envelope: Envelope,
    clock: Clock,
    out: Outcome,
)
    requires
        call_ensures(Conn::dispatch, (conn, auth, service, channel, envelope, clock), out),
        old(conn)@.authenticated,
        channel == 0,
        envelope.message matches Some(Message::ListShells),
        old(conn)@.scope matches Some(ops) ==> ops.contains("list"@),
    ensures
        final(conn)@ == old(conn)@,
        final(auth).rate_limiter@ == old(auth).rate_limiter@,
        out.open,
        out.actions@.len() == 1,
        out.actions@[0] == (Action::ListShells { request_id: envelope.request_id }),
{
}

/// A daemon's list of servers is itself.
pub proof fn a_daemon_lists_itself(
    conn: &mut Conn,
    auth: &mut AuthState,
    service: &ForwardService,
    channel: u64,
    envelope: Envelope,
    clock: Clock,
    out: Outcome,
)
    requires
        call_ensures(Conn::dispatch, (conn, auth, service, channel, envelope, clock), out),
        old(conn)@.authenticated,
        channel == 0,
        envelope.message matches Some(Message::ListServers),
    ensures
        final(conn)@ == old(conn)@,
        final(auth).rate_limiter@ == old(auth).rate_limiter@,
        out.open,
        out.actions@.len() == 1,
        ({
            &&& out.actions@[0] matches Action::Send { channel: c, envelope: e }
            &&& c == 0
            &&& e.request_id == envelope.request_id
            &&& e.message matches Some(Message::ServerList { servers })
            &&& servers@.len() == 1
            &&& servers@[0].server_id@ == old(conn)@.server_id.0@
            &&& servers@[0].healthy
        }),
{
}

/// A shell is ended in two steps: it is asked who owns the shell that the client named,
/// and only its owner gets it ended; for everybody else there is no such shell.
pub proof fn only_owners_end_shells(
    conn: &mut Conn,
    auth: &mut AuthState,
    service: &ForwardService,
    channel: u64,
    envelope: Envelope,
    clock: Clock,
    out: Outcome,
    after: &Conn,
    shell_id: ShellId,
    owner: Option<&str>,
    next: Outcome,
)
    requires
        call_ensures(Conn::dispatch, (conn, auth, service, channel, envelope, clock), out),
        old(conn)@.authenticated,
        channel == 0,
        envelope.message matches Some(Message::TerminateShell),
        old(conn)@.scope matches Some(ops) ==> ops.contains("terminate"@),
        call_ensures(Conn::owner_checked, (after, envelope.request_id, shell_id, owner), next),
        after@ == final(conn)@,
    ensures
        final(conn)@ == old(conn)@,
        final(auth).rate_limiter@ == old(auth).rate_limiter@,
        envelope.shell_id@.len() != 16 ==> only_error(
            out,
            0,
            envelope.request_id,
            ErrorCode::ErrNotFound,
            "bad shell id"@,
        ),
        envelope.shell_id@.len() == 16 ==> {
            &&& out.open
            &&& out.actions@.len() == 1
            &&& out.actions@[0] matches Action::CheckOwner { request_id, shell_id: asked }
            &&& request_id == envelope.request_id
            &&& asked.0@ == envelope.shell_id@
        },
        next.open,
        (owner matches Some(o) && o@ == old(conn)@.user) ==> next.actions@.len() == 1
            && next.actions@[0] == (Action::Terminate {
            request_id: envelope.request_id,
            shell_id,
        }),
        !(owner matches Some(o) && o@ == old(conn)@.user) ==> {
            &&& next.actions@.len() == 2
            &&& next.actions@[0] matches Action::Audit(
                AuditEvent::ShellOperationRejected {
                    user,
                    shell_id: Some(named),
                    operation: ShellOperation::Terminate,
                    reason: RejectReason::NotFound,
                },
            )
            &&& user@ == old(conn)@.user
            &&& named == shell_id
            &&& is_error(
                next.actions@[1],
                0,
                envelope.request_id,
                ErrorCode::ErrNotFound,
                "no such shell"@,
                false,
            )
        },
{
}

/// What the manager refuses is told with the code that its kind calls for, and with its
/// own words.
pub open spec fn tells_refusal(
    action: Action,
    channel: u64,
    request_id: u64,
    error: SessionError,
) -> bool {
    let (code, retryable) = match error.kind {
        SessionErrorKind::ShellNotFound => (ErrorCode::ErrNotFound, false),
        SessionErrorKind::NotRunning => (ErrorCode::ErrNotFound, false),
        SessionErrorKind::LimitExceeded => (ErrorCode::ErrLimitExceeded, true),
        SessionErrorKind::Forbidden => (ErrorCode::ErrForbidden, false),
        SessionErrorKind::InvalidToken => (ErrorCode::ErrTokenExpired, false),
        SessionErrorKind::TokenReplayed => (ErrorCode::ErrTokenReplayed, false),
        SessionErrorKind::Pty => (ErrorCode::ErrInternal, true),
        SessionErrorKind::Internal => (ErrorCode::ErrInternal, true),
    };
    is_error(action, channel, request_id, code, error.text@, retryable)
}

/// Why a refusal of the manager is recorded.
pub open spec fn refusal_reason(kind: SessionErrorKind) -> RejectReason {
    match kind {
        SessionErrorKind::ShellNotFound => RejectReason::NotFound,
        SessionErrorKind::NotRunning => RejectReason::NotRunning,
        SessionErrorKind::LimitExceeded => RejectReason::LimitExceeded,
        SessionErrorKind::Forbidden => RejectReason::Forbidden,
        SessionErrorKind::InvalidToken => RejectReason::InvalidToken,
        SessionErrorKind::TokenReplayed => RejectReason::TokenReplayed,
        SessionErrorKind::Pty => RejectReason::Internal,
        SessionErrorKind::Internal => RejectReason::Internal,
    }
}

/// The client is told of the shell that was opened, and of no other, with the token to
/// come back with; or why there is none.
pub proof fn opened_shells_are_told(
    conn: &Conn,
    request_id: u64,
    account: Option<String>,
    result: Result<OpenedShell, SessionError>,
    out: Outcome,
)
    requires
        call_ensures(Conn::shell_opened, (conn, request_id, account, result), out),
    ensures
        out.open,
        out.actions@.len() == 2,
        result matches Ok(opened) ==> {
            &&& out.actions@[0] matches Action::Audit(
                AuditEvent::ShellOpened { user, shell_id, account: recorded, reused },
            )
            &&& user@ == conn@.user
            &&& shell_id == opened.shell_id
            &&& recorded is Some <==> account is Some
            &&& recorded is Some ==> recorded->0@ == account->0@
            &&& reused == opened.reused
            &&& out.actions@[1] matches Action::Send { channel, envelope }
            &&& channel == 0
            &&& envelope.request_id == request_id
            &&& envelope.server_id@ == conn@.server_id.0@
            &&& envelope.shell_id@ == opened.shell_id.0@
            &&& envelope.message matches Some(Message::ShellOpened { resume_token, expires_at_ms })
            &&& resume_token@ == opened.resume_token@
            &&& expires_at_ms == 0
        },
        result matches Err(error) ==> {
            &&& out.actions@[0] matches Action::Audit(
                AuditEvent::ShellOperationRejected {
                    user,
                    shell_id: None,
                    operation: ShellOperation::Open,
                    reason,
                },
            )
            &&& user@ == conn@.user
            &&& reason == refusal_reason(error.kind)
            &&& tells_refusal(out.actions@[1], 0, request_id, error)
        },
{
}

/// The client is told how the shell that it ended came to its end, or why it did not.
pub proof fn ended_shells_are_told(
    conn: &Conn,
    request_id: u64,
    shell_id: ShellId,
    result: Result<ShellExit, SessionError>,
    out: Outcome,
)
    requires
        call_ensures(Conn::shell_terminated, (conn, request_id, shell_id, result), out),
    ensures
        out.open,
        out.actions@.len() == 2,
        result matches Ok(exit) ==> {
            &&& out.actions@[0] matches Action::Audit(
                AuditEvent::ShellTerminated { user, shell_id: recorded, exit_code },
            )
            &&& user@ == conn@.user
            &&& recorded == shell_id
            &&& exit_code == exit.exit_code
            &&& out.actions@[1] matches Action::Send { channel, envelope }
            &&& channel == 0
            &&& envelope.request_id == request_id
            &&& envelope.shell_id@ == shell_id.0@
            &&& envelope.message matches Some(
                Message::ShellExited { exit_code: code, signaled, signal },
            )
            &&& exit.exit_code <= 0x7fff_ffff ==> code == exit.exit_code
            &&& exit.exit_code > 0x7fff_ffff ==> code == exit.exit_code - 0x1_0000_0000
            &&& signaled <==> !exit.success && exit.exit_code == 0
            &&& signal@.len() == 0
        },
        result matches Err(error) ==> {
            &&& out.actions@[0] matches Action::Audit(
                AuditEvent::ShellOperationRejected {
                    user,
                    shell_id: Some(named),
                    operation: ShellOperation::Terminate,
                    reason,
                },
            )
            &&& user@ == conn@.user
            &&& named == shell_id
            &&& reason == refusal_reason(error.kind)
            &&& tells_refusal(out.actions@[1], 0, request_id, error)
        },
{
}

/// A client that may attach gets the manager asked for the shell that it named, with its
/// token and the size that it gave, for itself.
pub proof fn shells_are_attached_as_asked(
    conn: &mut Conn,
    auth: &mut AuthState,
    service: &ForwardService,
    channel: u64,
    envelope: Envelope,
    clock: Clock,
    out: Outcome,
    resume_token: Vec<u8>,
    cols: u32,
    rows: u32,
    last_seen_revision: u64,
    last_history_line_id: u64,
)
    requires
        call_ensures(Conn::dispatch, (conn, auth, service, channel, envelope, clock), out),
        old(conn)@.authenticated,
        channel != 0,
        envelope.message == Some(
            Message::AttachShell {
                resume_token,
                cols,
                rows,
                last_seen_revision,
                last_history_line_id,
            },
        ),
        old(conn)@.scope matches Some(ops) ==> ops.contains("attach"@),
    ensures
        final(conn)@ == old(conn)@,
        final(auth).rate_limiter@ == old(auth).rate_limiter@,
        ({
            let free = !old(conn)@.attachments.dom().contains(channel)
                && !old(conn)@.uploads.dom().contains(channel)
                && !old(conn)@.forwards.dom().contains(channel);
            &&& !free ==> only_error(
                out,
                channel,
                envelope.request_id,
                ErrorCode::ErrUnknownMessage,
                "channel already attached"@,
            )
            &&& free && envelope.shell_id@.len() != 16 ==> only_error(
                out,
                channel,
                envelope.request_id,
                ErrorCode::ErrNotFound,
                "bad shell id"@,
            )
            &&& free && envelope.shell_id@.len() == 16 ==> {
                &&& out.open
                &&& out.actions@.len() == 1
                &&& out.actions@[0] matches Action::Attach {
                    channel: c,
                    request_id,
                    user,
                    shell_id,
                    resume_token: token,
                    cols: w,
                    rows: h,
                }
                &&& c == channel
                &&& request_id == envelope.request_id
                &&& user@ == old(conn)@.user
                &&& shell_id.0@ == envelope.shell_id@
                &&& token@ == resume_token@
                &&& cols <= 0xffff ==> w == cols
                &&& rows <= 0xffff ==> h == rows
                &&& w as int == cols as int % 0x1_0000
                &&& h as int == rows as int % 0x1_0000
            }
        }),
{
}

/// Once the manager attached a shell, the channel carries it, and no other channel is
/// touched; the client is shown the screen, and gets the new token.
pub proof fn attached_channels_carry_their_shell(
    conn: &mut Conn,
    channel: u64,
    request_id: u64,
    shell_id: ShellId,
    reply: AttachReply,
    out: Outcome,
)
    requires
        call_ensures(Conn::attached, (conn, channel, request_id, shell_id, reply), out),
    ensures
        out.open,
        reply matches AttachReply::Attached(a) ==> {
            &&& final(conn)@.attachments.dom().contains(channel)
            &&& final(conn)@.attachments[channel].shell_id == shell_id
            &&& final(conn)@.attachments[channel].attachment_id == a.attachment_id
            &&& forall|other: u64|
                other != channel ==> (final(conn)@.attachments.dom().contains(other) <==> #[trigger]
                old(conn)@.attachments.dom().contains(other))
            &&& forall|other: u64|
                other != channel && #[trigger] old(conn)@.attachments.dom().contains(other)
                    ==> final(conn)@.attachments[other] == old(conn)@.attachments[other]
            &&& final(conn)@.user == old(conn)@.user
            &&& out.actions@.len() == 2
            &&& out.actions@[0] matches Action::Audit(
                AuditEvent::ShellAttached { user, shell_id: recorded },
            )
            &&& user@ == old(conn)@.user
            &&& recorded == shell_id
            &&& out.actions@[1] matches Action::Send { channel: c, envelope }
            &&& c == channel
            &&& envelope.request_id == request_id
            &&& envelope.server_id@ == old(conn)@.server_id.0@
            &&& envelope.shell_id@ == shell_id.0@
            &&& envelope.message matches Some(
                Message::ShellAttached {
                    screen_snapshot,
                    screen_revision,
                    rotated_resume_token,
                    oldest_history_line_id,
                    newest_history_line_id,
                },
            )
            &&& screen_snapshot@ == a.snapshot@
            &&& screen_revision == a.screen_revision
            &&& rotated_resume_token@ == a.rotated_resume_token@
            &&& oldest_history_line_id == a.oldest_history_line_id
            &&& newest_history_line_id == a.newest_history_line_id
        },
        !(reply is Attached) ==> final(conn)@ == old(conn)@,
        reply is MalformedToken ==> only_error(
            out,
            channel,
            request_id,
            ErrorCode::ErrTokenExpired,
            "malformed resume token"@,
        ),
        reply matches AttachReply::Refused(error) ==> {
            &&& out.actions@.len() == 2
            &&& out.actions@[0] matches Action::Audit(
                AuditEvent::ShellOperationRejected {
                    user,
                    shell_id: Some(named),
                    operation: ShellOperation::Attach,
                    reason,
                },
            )
            &&& user@ == old(conn)@.user
            &&& named == shell_id
            &&& reason == refusal_reason(error.kind)
            &&& tells_refusal(out.actions@[1], channel, request_id, error)
        },
{
}

/// Input goes to the shell that the channel carries, byte for byte; on a channel that
/// carries none it goes nowhere.
pub proof fn input_reaches_the_attached_shell(
    conn: &mut Conn,
    auth: &mut AuthState,
    service: &ForwardService,
    channel: u64,
    envelope: Envelope,
    clock: Clock,
    out: Outcome,
    data: Vec<u8>,
)
    requires
        call_ensures(Conn::dispatch, (conn, auth, service, channel, envelope, clock), out),
        old(conn)@.authenticated,
        channel != 0,
        envelope.message == Some(Message::TerminalInput { data }),
    ensures
        final(conn)@ == old(conn)@,
        final(auth).rate_limiter@ == old(auth).rate_limiter@,
        out.open,
        old(conn)@.attachments.dom().contains(channel) ==> {
            &&& out.actions@.len() == 1
            &&& out.actions@[0] matches Action::WriteInput {
                channel: c,
                request_id,
                shell_id,
                data: written,
            }
            &&& c == channel
            &&& request_id == envelope.request_id
            &&& shell_id == old(conn)@.attachments[channel].shell_id
            &&& written@ == data@
        },
        !old(conn)@.attachments.dom().contains(channel) ==> out.actions@.len() == 0,
{
}

/// A terminal is resized to the width and the height that the client gave, each as it
/// is, on the shell that the channel carries.
pub proof fn terminals_are_resized_as_asked(
    conn: &mut Conn,
    auth: &mut AuthState,
    service: &ForwardService,
    channel: u64,
    envelope: Envelope,
    clock: Clock,
    out: Outcome,
    cols: u32,
    rows: u32,
)
    requires
        call_ensures(Conn::dispatch, (conn, auth, service, channel, envelope, clock), out),
        old(conn)@.authenticated,
        channel != 0,
        envelope.message == Some(Message::TerminalResize { cols, rows }),
    ensures
        final(conn)@ == old(conn)@,
        final(auth).rate_limiter@ == old(auth).rate_limiter@,
        out.open,
        old(conn)@.attachments.dom().contains(channel) ==> {
            &&& out.actions@.len() == 1
            &&& out.actions@[0] matches Action::Resize { shell_id, cols: w, rows: h }
            &&& shell_id == old(conn)@.attachments[channel].shell_id
            &&& cols <= 0xffff ==> w == cols
            &&& rows <= 0xffff ==> h == rows
            &&& w as int == cols as int % 0x1_0000
            &&& h as int == rows as int % 0x1_0000
        },
        !old(conn)@.attachments.dom().contains(channel) ==> out.actions@.len() == 0,
{
}

/// A resize to the size that a shell was attached with asks the manager for the size
/// that the attachment asked for.
pub proof fn resizing_to_the_same_size_changes_nothing(
    conn: &mut Conn,
    auth: &mut AuthState,
    service: &ForwardService,
    channel: u64,
    attach: Envelope,
    attach_clock: Clock,
    attach_out: Outcome,
    later: &mut Conn,
    later_auth: &mut AuthState,
    resize: Envelope,
    resize_clock: Clock,
    resize_out: Outcome,
    cols: u32,
    rows: u32,
)
    requires
        call_ensures(Conn::dispatch, (conn, auth, service, channel, attach, attach_clock), attach_out),
        call_ensures(
            Conn::dispatch,
            (later, later_auth, service, channel, resize, resize_clock),
            resize_out,
        ),
        old(conn)@.authenticated,
        old(later)@.authenticated,
        channel != 0,
        attach.message matches Some(Message::AttachShell { cols: w, rows: h, .. }) && w == cols && h
            == rows,
        resize.message == Some(Message::TerminalResize { cols, rows }),
        attach_out.actions@.len() == 1,
        attach_out.actions@[0] is Attach,
        old(later)@.attachments.dom().contains(channel),
        old(later)@.attachments[channel].shell_id == attach_out.actions@[0]->Attach_shell_id,
    ensures
        resize_out.actions@.len() == 1,
        resize_out.actions@[0] == (Action::Resize {
            shell_id: attach_out.actions@[0]->Attach_shell_id,
            cols: attach_out.actions@[0]->Attach_cols,
            rows: attach_out.actions@[0]->Attach_rows,
        }),
{
}

/// Scrollback is read from the line that the client named back, no more lines than it
/// asked for and no more than ten thousand, and no more bytes than it asked for and than
/// half of the largest frame that it accepts.
pub proof fn history_is_read_as_asked(
    conn: &mut Conn,
    auth: &mut AuthState,
    service: &ForwardService,
    channel: u64,
    envelope: Envelope,
    clock: Clock,
    out: Outcome,
    before_line_id: u64,
    maximum_lines: u32,
    maximum_bytes: u32,
    frame: u32,
)
    requires
        call_ensures(Conn::dispatch, (conn, auth, service, channel, envelope, clock), out),
        old(conn)@.authenticated,
        channel != 0,
        envelope.message == Some(
            Message::RequestHistory { before_line_id, maximum_lines, maximum_bytes },
        ),
        old(conn)@.negotiated matches Some(n) && n.max_frame_bytes == frame,
    ensures
        final(conn)@ == old(conn)@,
        final(auth).rate_limiter@ == old(auth).rate_limiter@,
        !old(conn)@.attachments.dom().contains(channel) ==> only_error(
            out,
            channel,
            envelope.request_id,
            ErrorCode::ErrNotFound,
            "no attachment on channel"@,
        ),
        old(conn)@.attachments.dom().contains(channel) ==> {
            &&& out.open
            &&& out.actions@.len() == 1
            &&& out.actions@[0] matches Action::ReadHistory {
                channel: c,
                request_id,
                shell_id,
                before_line_id: before,
                maximum_lines: lines,
                maximum_bytes: bytes,
            }
            &&& c == channel
            &&& request_id == envelope.request_id
            &&& shell_id == old(conn)@.attachments[channel].shell_id
            &&& before == before_line_id
            &&& lines <= maximum_lines && lines <= 10_000
            &&& lines == maximum_lines || lines == 10_000
            &&& bytes <= maximum_bytes && 2 * bytes <= frame
            &&& bytes == maximum_bytes || bytes == frame / 2
        },
{
}

/// The scrollback that the manager read is what the client gets, and then the end, with
/// the oldest line that there is.
pub proof fn history_is_told_as_read(
    conn: &Conn,
    channel: u64,
    request_id: u64,
    result: Result<(HistoryRange, Option<u64>), SessionError>,
    out: Outcome,
)
    requires
        call_ensures(Conn::history_read, (conn, channel, request_id, result), out),
    ensures
        out.open,
        result matches Ok((range, oldest)) ==> {
            &&& out.actions@.len() == 2
            &&& out.actions@[0] matches Action::Send { channel: c, envelope: chunk }
            &&& c == channel
            &&& chunk.request_id == request_id
            &&& chunk.message matches Some(
                Message::HistoryChunk { first_line_id, lines, truncated_by_eviction },
            )
            &&& first_line_id == range.first_line_id
            &&& lines == range.lines
            &&& truncated_by_eviction == range.truncated_by_eviction
            &&& out.actions@[1] matches Action::Send { channel: d, envelope: end }
            &&& d == channel
            &&& end.request_id == request_id
            &&& end.message matches Some(Message::HistoryEnd { oldest_available_line_id })
            &&& oldest matches Some(line) ==> oldest_available_line_id == line
            &&& oldest is None ==> oldest_available_line_id == 0
        },
        result matches Err(error) ==> out.actions@.len() == 1 && tells_refusal(
            out.actions@[0],
            channel,
            request_id,
            error,
        ),
{
}

/// Written input is answered with nothing, and refused input with the refusal.
pub proof fn refused_input_is_told(
    conn: &Conn,
    channel: u64,
    request_id: u64,
    error: Option<SessionError>,
    out: Outcome,
)
    requires
        call_ensures(Conn::input_written, (conn, channel, request_id, error), out),
    ensures
        out.open,
        error is None ==> out.actions@.len() == 0,
        error matches Some(e) ==> out.actions@.len() == 1 && tells_refusal(
            out.actions@[0],
            channel,
            request_id,
            e,
        ),
{
}

/// Output is passed on byte for byte, and an end with its code; both come unasked.
pub proof fn output_is_passed_on(event: AttachmentEvent, r: Envelope)
    requires
        call_ensures(attachment_event, (event,), r),
    ensures
        r.request_id == 0,
        r.server_id@.len() == 0,
        r.shell_id@.len() == 0,
        event matches AttachmentEvent::Output(bytes) ==> (r.message matches Some(
            Message::TerminalOutput { data },
        ) && data@ == bytes@),
        event matches AttachmentEvent::Exited(exit) ==> {
            &&& r.message matches Some(Message::ShellExited { exit_code, signaled, signal })
            &&& exit.exit_code <= 0x7fff_ffff ==> exit_code == exit.exit_code
            &&& exit.exit_code > 0x7fff_ffff ==> exit_code == exit.exit_code - 0x1_0000_0000
            &&& signaled == !exit.success
            &&& signal@.len() == 0
        },
{
}

/// An attachment that ends without its shell was dropped because the client was too
/// slow, and the client may attach again.
pub proof fn slow_clients_are_told(exited: bool, r: Option<Envelope>)
    requires
        call_ensures(attachment_closed, (exited,), r),
    ensures
        r is None <==> exited,
        r matches Some(e) ==> {
            &&& e.request_id == 0
            &&& e.message matches Some(Message::Error { code, human_message, retryable })
            &&& code == ErrorCode::ErrTooSlow
            &&& human_message@ == "attachment dropped: output overran the slow-consumer bound"@
            &&& retryable
        },
{
}

/// Detaching ends the attachment of the channel and no other; the shell runs on.
pub proof fn detaching_leaves_the_shell(
    conn: &mut Conn,
    auth: &mut AuthState,
    service: &ForwardService,
    channel: u64,
    envelope: Envelope,
    clock: Clock,
    out: Outcome,
)
    requires
        call_ensures(Conn::dispatch, (conn, auth, service, channel, envelope, clock), out),
        old(conn)@.authenticated,
        channel != 0,
        envelope.message matches Some(Message::DetachShell),
    ensures
        !final(conn)@.attachments.dom().contains(channel),
        forall|other: u64|
            other != channel && #[trigger] old(conn)@.attachments.dom().contains(other)
                ==> final(conn)@.attachments.dom().contains(other)
                && final(conn)@.attachments[other] == old(conn)@.attachments[other],
        final(conn)@.uploads == old(conn)@.uploads,
        final(conn)@.forwards == old(conn)@.forwards,
        out.open,
        old(conn)@.attachments.dom().contains(channel) ==> {
            &&& out.actions@.len() == 2
            &&& out.actions@[0] == (Action::Detach {
                shell_id: old(conn)@.attachments[channel].shell_id,
                attachment_id: old(conn)@.attachments[channel].attachment_id,
            })
            &&& out.actions@[1] matches Action::Audit(AuditEvent::ShellDetached { user, shell_id })
            &&& user@ == old(conn)@.user
            &&& shell_id == old(conn)@.attachments[channel].shell_id
        },
        !old(conn)@.attachments.dom().contains(channel) ==> out.actions@.len() == 0,
{
}

/// A channel that is closed ends its attachment, as detaching does.
pub proof fn closed_channels_detach(conn: &mut Conn, channel: u64, out: Outcome)
    requires
        call_ensures(Conn::channel_closed, (conn, channel), out),
    ensures
        !final(conn)@.attachments.dom().contains(channel),
        forall|other: u64|
            other != channel && #[trigger] old(conn)@.attachments.dom().contains(other)
                ==> final(conn)@.attachments.dom().contains(other)
                && final(conn)@.attachments[other] == old(conn)@.attachments[other],
        out.open,
        old(conn)@.attachments.dom().contains(channel) ==> out.actions@.len() == 2
            && out.actions@[0] == (Action::Detach {
            shell_id: old(conn)@.attachments[channel].shell_id,
            attachment_id: old(conn)@.attachments[channel].attachment_id,
        }),
        old(conn)@.attachments.dom().contains(channel) ==> {
            &&& out.actions@[1] matches Action::Audit(AuditEvent::ShellDetached { user, shell_id })
            &&& user@ == old(conn)@.user
            &&& shell_id == old(conn)@.attachments[channel].shell_id
        },
        !old(conn)@.attachments.dom().contains(channel) ==> out.actions@.len() == 0,
        final(conn)@.uploads == old(conn)@.uploads,
        final(conn)@.forwards == old(conn)@.forwards,
        same_session(final(conn)@, old(conn)@),
{
}

/// Whether two states are of one session: of one client, that logged in as one user.
pub open spec fn same_session(after: ConnView, before: ConnView) -> bool {
    &&& after.server_id == before.server_id
    &&& after.peer_ip == before.peer_ip
    &&& after.default_frame_bytes == before.default_frame_bytes
    &&& after.offered == before.offered
    &&& after.authenticated == before.authenticated
    &&& after.user == before.user
    &&& after.scope == before.scope
    &&& after.channel_binding == before.channel_binding
    &&& after.transport_datagrams == before.transport_datagrams
}

/// When the connection is lost every attachment ends, each once, and no shell does.
pub proof fn lost_connections_detach_everything(conn: &mut Conn, out: Outcome, channel: u64)
    requires
        call_ensures(Conn::detach_all, (conn,), out),
        old(conn)@.attachments.dom().contains(channel),
    ensures
        final(conn)@.attachments.dom().is_empty(),
        out.actions@.len() == 2 * old(conn)@.attachments.len(),
        exists|i: int|
            0 <= i < out.actions@.len() && #[trigger] out.actions@[i] == (Action::Detach {
                shell_id: old(conn)@.attachments[channel].shell_id,
                attachment_id: old(conn)@.attachments[channel].attachment_id,
            }),
        forall|i: int|
            0 <= i < out.actions@.len() ==> !(#[trigger] out.actions@[i] is Terminate) && !(
            out.actions@[i] is Send),
        exists|i: int|
            0 <= i < out.actions@.len() && {
                &&& #[trigger] out.actions@[i] matches Action::Audit(
                    AuditEvent::ShellDetached { user, shell_id },
                )
                &&& user@ == old(conn)@.user
                &&& shell_id == old(conn)@.attachments[channel].shell_id
            },
        out.open,
        final(conn)@.uploads == old(conn)@.uploads,
        final(conn)@.forwards == old(conn)@.forwards,
        same_session(final(conn)@, old(conn)@),
{
    assert(crate::conn::ends_channel(out.actions@, channel, old(conn)@));
    let k = choose|k: int|
        #[trigger] crate::conn::ends_attachment(
            out.actions@,
            k,
            old(conn)@.attachments[channel],
            old(conn)@.user,
        );
    assert(out.actions@[2 * k] is Detach);
    assert(out.actions@[2 * k + 1] is Audit);
    assert forall|i: int| 0 <= i < out.actions@.len() implies !(#[trigger] out.actions@[i] is Terminate)
        && !(out.actions@[i] is Send) by {
        let h = i / 2;
        assert(crate::conn::ends_some(out.actions@, h, old(conn)@));
        assert(i == 2 * h || i == 2 * h + 1);
    }
}

/// A ping is answered on the channel that it came on, with its own number.
pub proof fn pings_are_answered(
    conn: &mut Conn,
    auth: &mut AuthState,
    service: &ForwardService,
    channel: u64,
    envelope: Envelope,
    clock: Clock,
    out: Outcome,
    nonce: u64,
)
    requires
        call_ensures(Conn::dispatch, (conn, auth, service, channel, envelope, clock), out),
        envelope.message == Some(Message::Ping { nonce }),
    ensures
        final(conn)@ == old(conn)@,
        final(auth).rate_limiter@ == old(auth).rate_limiter@,
        out.open,
        out.actions@.len() == 1,
        ({
            &&& out.actions@[0] matches Action::Send { channel: c, envelope: e }
            &&& c == channel
            &&& e.request_id == envelope.request_id
            &&& e.message == Some(Message::Pong { nonce })
        }),
{
}

/// A client that says goodbye on the control channel is let go, and an empty message
/// ends the connection; nothing else of a client's does.
pub proof fn connections_end_when_asked(
    conn: &mut Conn,
    auth: &mut AuthState,
    service: &ForwardService,
    channel: u64,
    envelope: Envelope,
    clock: Clock,
    out: Outcome,
)
    requires
        call_ensures(Conn::dispatch, (conn, auth, service, channel, envelope, clock), out),
    ensures
        !out.open <==> envelope.message is None || (channel == 0 && envelope.message == Some(
            Message::Close,
        )),
        envelope.message is None ==> out.actions@.len() == 1 && is_error(
            out.actions@[0],
            channel,
            envelope.request_id,
            ErrorCode::ErrUnknownMessage,
            "empty envelope"@,
            false,
        ),
        channel == 0 && envelope.message == Some(Message::Close) ==> out.actions@.len() == 0,
{
}

/// Before a login, whatever a client asks for is refused: nothing is asked of the shell
/// manager, and nothing changes.
pub proof fn requests_need_a_login(
    conn: &mut Conn,
    auth: &mut AuthState,
    service: &ForwardService,
    channel: u64,
    envelope: Envelope,
    clock: Clock,
    out: Outcome,
)
    requires
        call_ensures(Conn::dispatch, (conn, auth, service, channel, envelope, clock), out),
        !old(conn)@.authenticated,
        envelope.message matches Some(m) && !(m is ClientHello) && !(m is Authenticate) && !(
        m is Ping) && !(m is Pong) && !(m is Close),
    ensures
        final(conn)@ == old(conn)@,
        final(auth).rate_limiter@ == old(auth).rate_limiter@,
        only_error(
            out,
            channel,
            envelope.request_id,
            ErrorCode::ErrUnauthenticated,
            "authenticate first"@,
        ),
{
}

/// What a grant does not name is forbidden: nothing is asked of the manager or the
/// network, and nothing changes.
pub proof fn scopes_are_kept(
    conn: &mut Conn,
    auth: &mut AuthState,
    service: &ForwardService,
    channel: u64,
    envelope: Envelope,
    clock: Clock,
    out: Outcome,
    ops: Seq<Seq<char>>,
    message: Message,
    capabilities: Seq<Capability>,
)
    requires
        call_ensures(Conn::dispatch, (conn, auth, service, channel, envelope, clock), out),
        old(conn)@.authenticated,
        old(conn)@.scope == Some(ops),
        envelope.message == Some(message),
        old(conn)@.negotiated matches Some(n) ==> capabilities == n.capabilities@,
        old(conn)@.negotiated is None ==> capabilities.len() == 0,
        ({
            ||| channel == 0 && message is OpenShell && !ops.contains("open"@)
            ||| channel == 0 && message is TerminateShell && !ops.contains("terminate"@)
            ||| channel == 0 && message is ListShells && !ops.contains("list"@)
            ||| channel != 0 && message is AttachShell && !ops.contains("attach"@)
            ||| channel != 0 && message is OpenTcpForward && !ops.contains("forward"@)
                && capabilities.contains(Capability::TcpForward)
            ||| channel != 0 && message is BeginUpload && !ops.contains("upload"@)
                && capabilities.contains(Capability::FileTransfer)
        }),
    ensures
        final(conn)@ == old(conn)@,
        final(auth).rate_limiter@ == old(auth).rate_limiter@,
        out.open,
        0 < out.actions@.len() <= 2,
        ({
            &&& out.actions@.last() matches Action::Send { channel: c, envelope: e }
            &&& c == channel
            &&& e.request_id == envelope.request_id
            &&& e.message matches Some(Message::Error { code, retryable, .. })
            &&& code == ErrorCode::ErrForbidden
            &&& !retryable
        }),
        out.actions@.len() == 2 ==> out.actions@[0] is Audit,
{
}

/// The handshake hands over what the client said, what the daemon offers, and the
/// daemon's limits: its frame size, and datagrams of twelve hundred bytes.
pub proof fn hellos_are_negotiated(
    conn: &mut Conn,
    auth: &mut AuthState,
    service: &ForwardService,
    channel: u64,
    envelope: Envelope,
    clock: Clock,
    out: Outcome,
    hello: crate::protocol::ClientHello,
)
    requires
        call_ensures(Conn::dispatch, (conn, auth, service, channel, envelope, clock), out),
        channel == 0,
        envelope.message == Some(Message::ClientHello(hello)),
    ensures
        final(conn)@ == old(conn)@,
        final(auth).rate_limiter@ == old(auth).rate_limiter@,
        out.open,
        out.actions@.len() == 1,
        ({
            &&& out.actions@[0] matches Action::Negotiate {
                request_id,
                hello: heard,
                offered,
                max_frame_bytes,
                max_datagram_bytes,
                transport_datagrams,
            }
            &&& request_id == envelope.request_id
            &&& heard == hello
            &&& offered@ == old(conn)@.offered
            &&& max_frame_bytes == old(conn)@.default_frame_bytes
            &&& max_datagram_bytes == 1_200
            &&& transport_datagrams == old(conn)@.transport_datagrams
        }),
{
}

/// What was agreed on is what the client is told and what holds from then on; a client
/// with which nothing can be agreed on is sent away.
pub proof fn agreements_hold(
    conn: &mut Conn,
    request_id: u64,
    result: Result<Negotiated, String>,
    out: Outcome,
    later: &Conn,
    frame: u32,
)
    requires
        call_ensures(Conn::negotiated, (conn, request_id, result), out),
        later@ == final(conn)@,
        call_ensures(Conn::max_frame_bytes, (later,), frame),
    ensures
        out.actions@.len() == 1,
        result matches Ok(n) ==> {
            &&& out.open
            &&& frame == n.max_frame_bytes
            &&& final(conn)@.negotiated == Some(n)
            &&& final(conn)@.authenticated == old(conn)@.authenticated
            &&& out.actions@[0] matches Action::Send { channel, envelope }
            &&& channel == 0
            &&& envelope.request_id == request_id
            &&& envelope.message matches Some(
                Message::ServerHello { negotiated, keepalive_interval_ms },
            )
            &&& negotiated.protocol_minor == n.protocol_minor
            &&& negotiated.max_frame_bytes == n.max_frame_bytes
            &&& negotiated.capabilities@ == n.capabilities@
            &&& keepalive_interval_ms == 15_000
        },
        result matches Err(text) ==> {
            &&& !out.open
            &&& final(conn)@ == old(conn)@
            &&& is_error(out.actions@[0], 0, request_id, ErrorCode::ErrVersion, text@, false)
        },
{
}

/// Messages that have no place on a channel are refused, and nothing changes.
pub proof fn misplaced_messages_are_refused(
    conn: &mut Conn,
    auth: &mut AuthState,
    service: &ForwardService,
    channel: u64,
    envelope: Envelope,
    clock: Clock,
    out: Outcome,
    message: Message,
)
    requires
        call_ensures(Conn::dispatch, (conn, auth, service, channel, envelope, clock), out),
        old(conn)@.authenticated,
        envelope.message == Some(message),
        ({
            ||| channel == 0 && (message is AttachShell || message is TerminalInput
                || message is TerminalResize || message is RequestHistory || message is DetachShell
                || message is BeginUpload || message is OpenTcpForward)
            ||| channel != 0 && (message is ClientHello || message is Authenticate
                || message is Close || message is ListServers || message is ListShells
                || message is OpenShell || message is TerminateShell)
            ||| message is Pong || message is ServerHello || message is AuthenticationResult
                || message is Error || message is ShellList || message is ShellOpened
                || message is ShellAttached || message is TerminalOutput || message is HistoryChunk
                || message is UploadAccepted || message is TcpForwardOpened
            ||| (message is UploadChunk || message is FinishUpload || message is AbortUpload)
                && !old(conn)@.uploads.dom().contains(channel)
            ||| (message is TcpForwardData || message is TcpForwardEof || message is TcpForwardAck)
                && !old(conn)@.forwards.dom().contains(channel)
        }),
    ensures
        final(conn)@ == old(conn)@,
        final(auth).rate_limiter@ == old(auth).rate_limiter@,
        only_error(
            out,
            channel,
            envelope.request_id,
            ErrorCode::ErrUnknownMessage,
            "unexpected message for this channel"@,
        ),
{
}

/// A new connection has said nothing, is nobody's, and carries nothing.
pub proof fn connections_start_afresh(
    server_id: crate::ids::ServerId,
    peer_ip: crate::net::IpAddr,
    default_frame_bytes: u32,
    offered: Vec<Capability>,
    transport_datagrams: bool,
    channel_binding: Vec<u8>,
    r: Conn,
    channel: u64,
    busy: bool,
    frame: u32,
)
    requires
        call_ensures(
            Conn::new,
            (
                server_id,
                peer_ip,
                default_frame_bytes,
                offered,
                transport_datagrams,
                channel_binding,
            ),
            r,
        ),
        call_ensures(Conn::is_busy, (&r, channel), busy),
        call_ensures(Conn::max_frame_bytes, (&r,), frame),
    ensures
        !busy,
        frame == default_frame_bytes,
        !r@.authenticated,
        r@.user.len() == 0,
        r@.scope is None,
        r@.pending is None,
        r@.negotiated is None,
        r@.server_id == server_id,
        r@.peer_ip == peer_ip,
        r@.offered == offered@,
        r@.transport_datagrams == transport_datagrams,
        r@.channel_binding == channel_binding@,
{
}

/// A channel is busy exactly while it carries an attachment, an upload or a forwarded
/// connection.
pub proof fn channels_carry_one_thing(conn: &Conn, channel: u64, busy: bool)
    requires
        call_ensures(Conn::is_busy, (conn, channel), busy),
    ensures
        busy <==> conn@.attachments.dom().contains(channel) || conn@.uploads.dom().contains(channel)
            || conn@.forwards.dom().contains(channel),
{
}

/// Why the shell manager refused something is recorded as what it was.
pub proof fn refusals_are_recorded_as_they_are(error: &SessionError, r: RejectReason)
    requires
        call_ensures(reject_reason, (error,), r),
    ensures
        error.kind == SessionErrorKind::ShellNotFound ==> r == RejectReason::NotFound,
        error.kind == SessionErrorKind::NotRunning ==> r == RejectReason::NotRunning,
        error.kind == SessionErrorKind::LimitExceeded ==> r == RejectReason::LimitExceeded,
        error.kind == SessionErrorKind::Forbidden ==> r == RejectReason::Forbidden,
        error.kind == SessionErrorKind::InvalidToken ==> r == RejectReason::InvalidToken,
        error.kind == SessionErrorKind::TokenReplayed ==> r == RejectReason::TokenReplayed,
        error.kind == SessionErrorKind::Pty ==> r == RejectReason::Internal,
        error.kind == SessionErrorKind::Internal ==> r == RejectReason::Internal,
{
}

/// Whether an action records that an operation of a user was refused by the scope of
/// their grant.
pub open spec fn records_scope(
    action: Action,
    user: Seq<char>,
    operation: ShellOperation,
) -> bool {
    &&& action matches Action::Audit(
        AuditEvent::ShellOperationRejected { user: u, shell_id, operation: o, reason },
    )
    &&& u@ == user
    &&& shell_id is None
    &&& o == operation
    &&& reason == RejectReason::Forbidden
}

/// What a grant does not permit is refused by its name, and recorded as what it was.
pub proof fn refused_scopes_are_told(
    conn: &mut Conn,
    auth: &mut AuthState,
    service: &ForwardService,
    channel: u64,
    envelope: Envelope,
    clock: Clock,
    out: Outcome,
    ops: Seq<Seq<char>>,
    message: Message,
)
    requires
        call_ensures(Conn::dispatch, (conn, auth, service, channel, envelope, clock), out),
        old(conn)@.authenticated,
        old(conn)@.scope == Some(ops),
        envelope.message == Some(message),
    ensures
        channel == 0 && message is OpenShell && !ops.contains("open"@) ==> out.actions@.len() == 2
            && records_scope(out.actions@[0], old(conn)@.user, ShellOperation::Open) && is_error(
            out.actions@[1],
            channel,
            envelope.request_id,
            ErrorCode::ErrForbidden,
            "grant does not permit open"@,
            false,
        ),
        channel == 0 && message is TerminateShell && !ops.contains("terminate"@)
            ==> out.actions@.len() == 2 && records_scope(
            out.actions@[0],
            old(conn)@.user,
            ShellOperation::Terminate,
        ) && is_error(
            out.actions@[1],
            channel,
            envelope.request_id,
            ErrorCode::ErrForbidden,
            "grant does not permit terminate"@,
            false,
        ),
        channel != 0 && message is AttachShell && !ops.contains("attach"@) ==> out.actions@.len()
            == 2 && records_scope(out.actions@[0], old(conn)@.user, ShellOperation::Attach)
            && is_error(
            out.actions@[1],
            channel,
            envelope.request_id,
            ErrorCode::ErrForbidden,
            "grant does not permit attach"@,
            false,
        ),
        channel == 0 && message is ListShells && !ops.contains("list"@) ==> only_error(
            out,
            channel,
            envelope.request_id,
            ErrorCode::ErrForbidden,
            "grant does not permit list"@,
        ),
{
}

/// Messages of a client, whatever they ask, leave what the connection was opened with;
/// and none but a login changes who the client is.
pub proof fn messages_keep_the_session(
    conn: &mut Conn,
    auth: &mut AuthState,
    service: &ForwardService,
    channel: u64,
    envelope: Envelope,
    clock: Clock,
    out: Outcome,
)
    requires
        call_ensures(Conn::dispatch, (conn, auth, service, channel, envelope, clock), out),
    ensures
        final(conn)@.server_id == old(conn)@.server_id,
        final(conn)@.peer_ip == old(conn)@.peer_ip,
        final(conn)@.default_frame_bytes == old(conn)@.default_frame_bytes,
        final(conn)@.offered == old(conn)@.offered,
        final(conn)@.channel_binding == old(conn)@.channel_binding,
        final(conn)@.transport_datagrams == old(conn)@.transport_datagrams,
        final(conn)@.negotiated == old(conn)@.negotiated,
        final(conn)@.uploads == old(conn)@.uploads,
        !(envelope.message matches Some(Message::Authenticate { .. })) ==> same_session(
            final(conn)@,
            old(conn)@,
        ),
{
}

/// An answer to an attachment leaves the session as it is.
pub proof fn attaching_keeps_the_session(
    conn: &mut Conn,
    channel: u64,
    request_id: u64,
    shell_id: ShellId,
    reply: AttachReply,
    out: Outcome,
)
    requires
        call_ensures(Conn::attached, (conn, channel, request_id, shell_id, reply), out),
    ensures
        same_session(final(conn)@, old(conn)@),
        final(conn)@.negotiated == old(conn)@.negotiated,
        final(conn)@.pending == old(conn)@.pending,
        final(conn)@.uploads == old(conn)@.uploads,
        final(conn)@.forwards == old(conn)@.forwards,
{
}

/// An agreement leaves the session as it is.
pub proof fn negotiating_keeps_the_session(
    conn: &mut Conn,
    request_id: u64,
    result: Result<Negotiated, String>,
    out: Outcome,
)
    requires
        call_ensures(Conn::negotiated, (conn, request_id, result), out),
    ensures
        same_session(final(conn)@, old(conn)@),
        final(conn)@.pending == old(conn)@.pending,
        final(conn)@.attachments == old(conn)@.attachments,
        final(conn)@.uploads == old(conn)@.uploads,
        final(conn)@.forwards == old(conn)@.forwards,
{
}

} // verus!
