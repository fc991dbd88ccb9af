//! Laws of forwarded connections and of uploads.

use vstd::prelude::*;
use vstd::utf8::*;

use crate::auth::AuthState;
use crate::conn::{Action, Clock, Conn, Outcome, UploadEnd};
use crate::forward::{
    ack_overdue, Downstream, FlowInput, Forward, ForwardAction, ForwardEvent, ForwardService,
    InvalidForwardUsers, Permit,
};
use crate::ids::ShellId;
use crate::laws::shells::{is_error, only_error, same_session};
use crate::observability::{AuditEvent, RejectReason, UploadOutcome};
use crate::protocol::{Capability, Envelope, ErrorCode, Message};
use crate::text::texts;
use crate::uploads::{
    check_upload_id, finish, Backend, FinishedUpload, UploadDeclaration, UploadError, UploadPermit,
    UploadPlan, UploadReply, UploadService, UploadValidationError,
};

verus! {

/// Whether one action sends a message that belongs to a request and to nothing else.
pub open spec fn sends_message(action: ForwardAction, request_id: u64, message: Message) -> bool {
    &&& action matches ForwardAction::Send(e)
    &&& e.request_id == request_id
    &&& e.server_id@.len() == 0
    &&& e.shell_id@.len() == 0
    &&& e.message == Some(message)
}

/// Whether a step fails: it sends one error with fixed words, and ends.
pub open spec fn gives_up(
    actions: Seq<ForwardAction>,
    request_id: u64,
    code: ErrorCode,
    text: Seq<char>,
) -> bool {
    &&& actions.len() == 2
    &&& actions[0] matches ForwardAction::Send(e)
    &&& e.request_id == request_id
    &&& e.server_id@.len() == 0
    &&& e.shell_id@.len() == 0
    &&& e.message matches Some(Message::Error { code: c, human_message, retryable })
    &&& c == code
    &&& human_message@ == text
    &&& !retryable
    &&& actions[1] is End
}

/// A frame belongs to no request, no server and no shell.
pub open spec fn is_bare(env: Envelope) -> bool {
    env.request_id == 0 && env.server_id@.len() == 0 && env.shell_id@.len() == 0
}

/// While a connection is opened no frame is taken and nothing is owed.
pub proof fn connections_open_closed(request_id: u64, now_ms: u64, r: Forward)
    requires
        call_ensures(Forward::opening, (request_id, now_ms), r),
    ensures
        r.request_id == request_id,
        !r.input_ready,
        !r.ack_expected,
        r.writing is None,
        !r.upstream_done,
        r.downstream is Reading,
        r.last_activity_ms == now_ms,
{
}

/// Once the destination is reached the peer is told where, and may send.
pub proof fn reached_destinations_are_told(
    flow: &mut Forward,
    bound_ip: String,
    bound_port: u16,
    now_ms: u64,
    actions: Vec<ForwardAction>,
)
    requires
        call_ensures(
            Forward::step,
            (flow, ForwardEvent::Connected { bound_ip, bound_port }, now_ms),
            actions,
        ),
        old(flow).writing is None,
        !old(flow).upstream_done,
    ensures
        actions@.len() == 1,
        ({
            &&& actions@[0] matches ForwardAction::Send(e)
            &&& e.request_id == old(flow).request_id
            &&& e.message matches Some(Message::TcpForwardOpened { bound_ip: ip, bound_port: port })
            &&& ip@ == bound_ip@
            &&& port == bound_port
        }),
        final(flow).input_ready,
        !final(flow).upstream_done,
        final(flow).downstream == old(flow).downstream,
        final(flow).request_id == old(flow).request_id,
        final(flow).last_activity_ms == now_ms,
{
}

/// The peer's bytes are written to the destination as they came, where the peer may
/// send and sent no more than fit; no other frame is taken until they are written.
pub proof fn data_is_written_as_sent(
    flow: &mut Forward,
    env: Envelope,
    data: Vec<u8>,
    now_ms: u64,
    actions: Vec<ForwardAction>,
)
    requires
        call_ensures(Forward::step, (flow, ForwardEvent::Frame(env), now_ms), actions),
        env.message == Some(Message::TcpForwardData { data }),
    ensures
        final(flow).upstream_done == old(flow).upstream_done,
        final(flow).downstream == old(flow).downstream,
        final(flow).ack_expected == old(flow).ack_expected,
        is_bare(env) && old(flow).input_ready && 0 < data@.len() <= 8_192 ==> {
            &&& actions@.len() == 1
            &&& actions@[0] matches ForwardAction::Write(bytes)
            &&& bytes@ == data@
            &&& final(flow).writing == Some(false)
            &&& !final(flow).input_ready
            &&& final(flow).last_activity_ms == now_ms
        },
        !(is_bare(env) && old(flow).input_ready && 0 < data@.len() <= 8_192) ==> gives_up(
            actions@,
            old(flow).request_id,
            ErrorCode::ErrInvalidArgument,
            "invalid forwarding frame"@,
        ),
{
}

/// The peer's end is passed on, where the peer may send; no other frame follows it.
pub proof fn ends_are_passed_on(
    flow: &mut Forward,
    env: Envelope,
    now_ms: u64,
    actions: Vec<ForwardAction>,
)
    requires
        call_ensures(Forward::step, (flow, ForwardEvent::Frame(env), now_ms), actions),
        env.message == Some(Message::TcpForwardEof),
    ensures
        final(flow).upstream_done == old(flow).upstream_done,
        final(flow).downstream == old(flow).downstream,
        is_bare(env) && old(flow).input_ready ==> {
            &&& actions@.len() == 1
            &&& actions@[0] is ShutDown
            &&& final(flow).writing == Some(true)
            &&& !final(flow).input_ready
        },
        !(is_bare(env) && old(flow).input_ready) ==> gives_up(
            actions@,
            old(flow).request_id,
            ErrorCode::ErrInvalidArgument,
            "invalid forwarding frame"@,
        ),
{
}

/// An acknowledgement is taken exactly while one is owed. It lets the next bytes be read,
/// or, after the end, closes that direction; the connection ends only where the other
/// direction is closed too.
pub proof fn acknowledgements_release_the_next_read(
    flow: &mut Forward,
    env: Envelope,
    now_ms: u64,
    actions: Vec<ForwardAction>,
    eof: bool,
    sent_ms: u64,
)
    requires
        call_ensures(Forward::step, (flow, ForwardEvent::Frame(env), now_ms), actions),
        env.message == Some(Message::TcpForwardAck),
        old(flow).downstream == (Downstream::AwaitingAck { eof, sent_ms }),
    ensures
        final(flow).upstream_done == old(flow).upstream_done,
        final(flow).writing == old(flow).writing,
        final(flow).input_ready == old(flow).input_ready,
        is_bare(env) && old(flow).ack_expected ==> {
            &&& !final(flow).ack_expected
            &&& !eof ==> final(flow).downstream is Reading && actions@.len() == 0
            &&& eof ==> final(flow).downstream is Done
            &&& eof && old(flow).upstream_done ==> actions@.len() == 1 && actions@[0] is End
            &&& eof && !old(flow).upstream_done ==> actions@.len() == 0
        },
        !(is_bare(env) && old(flow).ack_expected) ==> gives_up(
            actions@,
            old(flow).request_id,
            ErrorCode::ErrInvalidArgument,
            "invalid forwarding frame"@,
        ),
{
}

/// What is written is acknowledged. After data the peer may send again. After the end
/// it may not, and the connection stays open for as long as the destination's own end
/// was not sent and acknowledged: what the destination still says is not lost.
pub proof fn half_closes_keep_the_answer(
    flow: &mut Forward,
    now_ms: u64,
    actions: Vec<ForwardAction>,
    eof: bool,
)
    requires
        call_ensures(Forward::step, (flow, ForwardEvent::Written, now_ms), actions),
        old(flow).writing == Some(eof),
    ensures
        actions@.len() >= 1,
        sends_message(actions@[0], 0, Message::TcpForwardAck),
        final(flow).writing is None,
        final(flow).downstream == old(flow).downstream,
        final(flow).ack_expected == old(flow).ack_expected,
        final(flow).upstream_done == eof,
        final(flow).input_ready == !eof,
        !eof || !(old(flow).downstream is Done) ==> actions@.len() == 1,
        eof && old(flow).downstream is Done ==> actions@.len() == 2 && actions@[1] is End,
{
}

/// The destination's bytes are sent to the peer as they were read, whether or not the
/// peer has ended its own direction; nothing else is read until they are acknowledged.
/// An empty read is the end.
pub proof fn answers_are_sent_as_read(
    flow: &mut Forward,
    bytes: Vec<u8>,
    now_ms: u64,
    actions: Vec<ForwardAction>,
)
    requires
        call_ensures(Forward::step, (flow, ForwardEvent::Read(bytes), now_ms), actions),
    ensures
        final(flow).upstream_done == old(flow).upstream_done,
        final(flow).writing == old(flow).writing,
        final(flow).input_ready == old(flow).input_ready,
        old(flow).downstream is Reading ==> {
            &&& actions@.len() == 1
            &&& actions@[0] matches ForwardAction::Send(e)
            &&& is_bare(e)
            &&& bytes@.len() > 0 ==> (e.message matches Some(Message::TcpForwardData { data })
                && data@ == bytes@)
            &&& bytes@.len() == 0 ==> e.message == Some(Message::TcpForwardEof)
            &&& final(flow).ack_expected
            &&& final(flow).downstream == (Downstream::AwaitingAck {
                eof: bytes@.len() == 0,
                sent_ms: now_ms,
            })
            &&& final(flow).last_activity_ms == now_ms
        },
        !(old(flow).downstream is Reading) ==> actions@.len() == 0 && *final(flow) == *old(flow),
{
}

/// A connection that nothing went wrong with ends only once both directions are closed:
/// the peer's end was written, and the destination's end was sent and acknowledged.
pub proof fn connections_end_when_both_ways_do(
    flow: &mut Forward,
    event: ForwardEvent,
    now_ms: u64,
    actions: Vec<ForwardAction>,
    i: int,
)
    requires
        call_ensures(Forward::step, (flow, event, now_ms), actions),
        0 <= i < actions@.len(),
        actions@[i] is End,
        !(event is Failed),
        !(event is Tick),
        event matches ForwardEvent::Frame(env) ==> is_bare(env) && ({
            ||| env.message matches Some(Message::TcpForwardData { data }) && 0 < data@.len()
                <= 8_192 && old(flow).input_ready
            ||| env.message == Some(Message::TcpForwardEof) && old(flow).input_ready
            ||| env.message == Some(Message::TcpForwardAck) && old(flow).ack_expected
        }),
    ensures
        final(flow).upstream_done,
        final(flow).downstream is Done,
        i == actions@.len() - 1,
{
}

/// A connection fails with the same words whatever went wrong, and it fails by itself
/// exactly where no bytes moved for five minutes, or an acknowledgement is owed for
/// thirty seconds.
pub proof fn connections_time_out(
    flow: &mut Forward,
    event: ForwardEvent,
    now_ms: u64,
    actions: Vec<ForwardAction>,
)
    requires
        call_ensures(Forward::step, (flow, event, now_ms), actions),
        event is Failed || event is Tick,
    ensures
        *final(flow) == *old(flow),
        ({
            let over = now_ms >= old(flow).last_activity_ms + 300_000 || (
            old(flow).downstream matches Downstream::AwaitingAck { sent_ms, .. } && now_ms
                >= sent_ms + 30_000);
            &&& event is Failed || over ==> gives_up(
                actions@,
                old(flow).request_id,
                ErrorCode::ErrServerUnavailable,
                "TCP forwarding failed or timed out"@,
            )
            &&& event is Tick && !over ==> actions@.len() == 0
        }),
{
}

/// An acknowledgement may take thirty seconds.
pub proof fn acknowledgements_may_take_thirty_seconds(sent_ms: u64, now_ms: u64, r: bool)
    requires
        call_ensures(ack_overdue, (sent_ms, now_ms), r),
    ensures
        r <==> now_ms - sent_ms >= 30_000,
{
}

/// Any other frame ends the connection.
pub proof fn other_frames_are_refused(
    flow: &mut Forward,
    env: Envelope,
    now_ms: u64,
    actions: Vec<ForwardAction>,
)
    requires
        call_ensures(Forward::step, (flow, ForwardEvent::Frame(env), now_ms), actions),
        !(env.message matches Some(Message::TcpForwardData { .. })),
        env.message != Some(Message::TcpForwardEof),
        env.message != Some(Message::TcpForwardAck),
    ensures
        gives_up(
            actions@,
            old(flow).request_id,
            ErrorCode::ErrInvalidArgument,
            "invalid forwarding frame"@,
        ),
{
}

/// A forwarding service is for the users that it was made for, up to two hundred and
/// fifty-six, none with an empty name or one of more than a hundred and twenty-eight
/// bytes.
pub proof fn forwarding_is_for_the_listed(
    users: Vec<String>,
    r: Result<ForwardService, InvalidForwardUsers>,
    user: &str,
    may: bool,
)
    requires
        call_ensures(ForwardService::new, (users,), r),
        r matches Ok(service) ==> call_ensures(ForwardService::permits, (&service, user), may),
    ensures
        r is Ok <==> texts(users@).to_set().len() <= 256 && forall|i: int|
            0 <= i < users@.len() ==> 0 < encode_utf8((#[trigger] users@[i])@).len() <= 128,
        r is Ok ==> (may <==> exists|i: int| 0 <= i < users@.len() && (#[trigger] users@[i])@
            == user@),
        r matches Ok(service) ==> service.total() == 0,
{
    if r is Ok {
        let all = texts(users@);
        if may {
            let i = choose|i: int| 0 <= i < all.len() && all[i] == user@;
            assert(users@[i]@ == user@);
        }
        if exists|i: int| 0 <= i < users@.len() && (#[trigger] users@[i])@ == user@ {
            let i = choose|i: int| 0 <= i < users@.len() && (#[trigger] users@[i])@ == user@;
            assert(all[i] == user@);
        }
    }
}

/// A user has up to sixty-four forwarded connections, all users together have up to two
/// hundred and fifty-six, and a connection that ends makes room for another.
pub proof fn forwarding_places_are_limited(
    service: &mut ForwardService,
    user: &str,
    r: Option<Permit>,
    had: nat,
)
    requires
        call_ensures(ForwardService::acquire, (service, user), r),
        old(service).active().dom().contains(user@) ==> had == old(service).active()[user@],
        !old(service).active().dom().contains(user@) ==> had == 0,
    ensures
        r is Some <==> old(service).total() < 256 && had < 64,
        r is None ==> *final(service) == *old(service),
        r matches Some(permit) ==> {
            &&& permit.user() == user@
            &&& final(service).total() == old(service).total() + 1
            &&& final(service).active().dom().contains(user@)
            &&& final(service).active()[user@] == had + 1
            &&& forall|other: Seq<char>|
                other != user@ && #[trigger] old(service).active().dom().contains(other) ==> final(
                service).active().dom().contains(other) && final(service).active()[other] == old(
                service).active()[other]
        },
{
}

/// A place that is given back is free again, and nobody else's is touched.
pub proof fn forwarding_places_come_back(service: &mut ForwardService, permit: Permit, had: nat)
    requires
        call_ensures(ForwardService::release, (service, permit), ()),
        old(service).active().dom().contains(permit.user()),
        had == old(service).active()[permit.user()],
        had > 0,
    ensures
        final(service).total() == old(service).total() - 1,
        had > 1 ==> final(service).active().dom().contains(permit.user()) && final(
        service).active()[permit.user()] == had - 1,
        had == 1 ==> !final(service).active().dom().contains(permit.user()),
        forall|other: Seq<char>|
            other != permit.user() && #[trigger] old(service).active().dom().contains(other)
                ==> final(service).active().dom().contains(other) && final(service).active()[other]
                == old(service).active()[other],
        final(service).users() == old(service).users(),
{
}

/// A connection is forwarded to the host and the port that the client named, for the
/// client's user, where that was agreed on and is permitted: at most thirty-two on one
/// connection, each on a channel of its own. Everything else is refused, for the first
/// reason that there is.
pub proof fn connections_are_forwarded_as_asked(
    conn: &mut Conn,
    auth: &mut AuthState,
    service: &ForwardService,
    channel: u64,
    envelope: Envelope,
    clock: Clock,
    out: Outcome,
    host: String,
    port: u32,
)
    requires
        call_ensures(Conn::dispatch, (conn, auth, service, channel, envelope, clock), out),
        old(conn)@.authenticated,
        channel != 0,
        envelope.message == Some(Message::OpenTcpForward { host, port }),
    ensures
        final(conn)@.attachments == old(conn)@.attachments,
        final(conn)@.uploads == old(conn)@.uploads,
        final(conn)@.user == old(conn)@.user,
        out.open,
        out.actions@.len() == 1,
        ({
            let able = old(conn)@.negotiated matches Some(n) && n.capabilities@.contains(
                Capability::TcpForward,
            );
            let permitted = old(conn)@.scope matches Some(ops) ==> ops.contains("forward"@);
            let listed = service.users().contains(old(conn)@.user);
            let free = !old(conn)@.attachments.dom().contains(channel)
                && !old(conn)@.uploads.dom().contains(channel)
                && !old(conn)@.forwards.dom().contains(channel);
            let valid = 0 < port <= 65_535;
            let room = old(conn)@.forwards.len() < 32;
            &&& able && permitted && listed && free && valid && room ==> {
                &&& out.actions@[0] matches Action::OpenForward {
                    channel: c,
                    request_id,
                    user,
                    host: h,
                    port: p,
                }
                &&& c == channel
                &&& request_id == envelope.request_id
                &&& user@ == old(conn)@.user
                &&& h@ == host@
                &&& p == port
                &&& final(conn)@.forwards.dom().contains(channel)
                &&& final(conn)@.forwards[channel] == envelope.request_id
                &&& forall|other: u64|
                    other != channel ==> (final(conn)@.forwards.dom().contains(other)
                        <==> #[trigger] old(conn)@.forwards.dom().contains(other))
            }
            &&& !(able && permitted && listed && free && valid && room) ==> final(conn)@ == old(
            conn)@
            &&& !able ==> only_error(
                out,
                channel,
                envelope.request_id,
                ErrorCode::ErrUnknownMessage,
                "unexpected message for this channel"@,
            )
            &&& able && !permitted ==> only_error(
                out,
                channel,
                envelope.request_id,
                ErrorCode::ErrForbidden,
                "grant does not permit forward"@,
            )
            &&& able && permitted && !listed ==> only_error(
                out,
                channel,
                envelope.request_id,
                ErrorCode::ErrForbidden,
                "user may not forward"@,
            )
            &&& able && permitted && listed && !free ==> only_error(
                out,
                channel,
                envelope.request_id,
                ErrorCode::ErrUnknownMessage,
                "channel already in use"@,
            )
            &&& able && permitted && listed && free && !valid ==> only_error(
                out,
                channel,
                envelope.request_id,
                ErrorCode::ErrInvalidArgument,
                "invalid destination port"@,
            )
            &&& able && permitted && listed && free && valid && !room ==> only_error(
                out,
                channel,
                envelope.request_id,
                ErrorCode::ErrLimitExceeded,
                "too many forwarded connections"@,
            )
        }),
{
}

/// A frame goes to what its channel carries, as it is.
pub proof fn frames_stay_on_their_channel(
    conn: &mut Conn,
    auth: &mut AuthState,
    service: &ForwardService,
    channel: u64,
    envelope: Envelope,
    clock: Clock,
    out: Outcome,
    message: Message,
)
    requires
        call_ensures(Conn::dispatch, (conn, auth, service, channel, envelope, clock), out),
        old(conn)@.authenticated,
        envelope.message == Some(message),
    ensures
        (message is TcpForwardData || message is TcpForwardEof || message is TcpForwardAck)
            && old(conn)@.forwards.dom().contains(channel)
                ==> final(conn)@ == old(conn)@ && out.open
            && out.actions@.len() == 1 && out.actions@[0] == (Action::ForwardFrame {
            channel,
            envelope,
        }),
        (message is UploadChunk || message is FinishUpload || message is AbortUpload)
            && old(conn)@.uploads.dom().contains(channel) ==> final(conn)@ == old(conn)@ && out.open
            && out.actions@.len() == 1 && out.actions@[0] == (Action::UploadFrame {
            channel,
            envelope,
        }),
{
}

/// A forwarded connection that finds no place is refused under its own request, and its
/// channel is free again; so is the channel of one that ended.
pub proof fn forwards_leave_their_channel(
    conn: &mut Conn,
    channel: u64,
    out: Outcome,
    later: &mut Conn,
)
    requires
        call_ensures(Conn::forward_refused, (conn, channel), out),
        call_ensures(Conn::forward_ended, (later, channel), ()),
    ensures
        !final(conn)@.forwards.dom().contains(channel),
        !final(later)@.forwards.dom().contains(channel),
        forall|other: u64|
            other != channel && #[trigger] old(conn)@.forwards.dom().contains(other) ==> final(
            conn)@.forwards.dom().contains(other) && final(conn)@.forwards[other] == old(
            conn)@.forwards[other],
        forall|other: u64|
            other != channel && #[trigger] old(later)@.forwards.dom().contains(other) ==> final(
            later)@.forwards.dom().contains(other),
        final(conn)@.attachments == old(conn)@.attachments,
        final(later)@.attachments == old(later)@.attachments,
        old(conn)@.forwards.dom().contains(channel) ==> only_error(
            out,
            channel,
            old(conn)@.forwards[channel],
            ErrorCode::ErrLimitExceeded,
            "too many forwarded connections"@,
        ),
        !old(conn)@.forwards.dom().contains(channel) ==> out.open && out.actions@.len() == 0,
{
}

/// A file is taken for the shell that the client named, with the name, the size and the
/// digest that it declared, where that was agreed on and is permitted: at most two at a
/// time on one connection. First it is asked who owns the shell.
pub proof fn uploads_are_begun_as_declared(
    conn: &mut Conn,
    auth: &mut AuthState,
    service: &ForwardService,
    channel: u64,
    envelope: Envelope,
    clock: Clock,
    out: Outcome,
    original_name: String,
    total_bytes: u64,
    sha256: Vec<u8>,
)
    requires
        call_ensures(Conn::dispatch, (conn, auth, service, channel, envelope, clock), out),
        old(conn)@.authenticated,
        channel != 0,
        envelope.message == Some(Message::BeginUpload { original_name, total_bytes, sha256 }),
    ensures
        final(conn)@ == old(conn)@,
        out.open,
        ({
            let able = old(conn)@.negotiated matches Some(n) && n.capabilities@.contains(
                Capability::FileTransfer,
            );
            let permitted = old(conn)@.scope matches Some(ops) ==> ops.contains("upload"@);
            let free = !old(conn)@.attachments.dom().contains(channel)
                && !old(conn)@.uploads.dom().contains(channel)
                && !old(conn)@.forwards.dom().contains(channel);
            let named = envelope.shell_id@.len() == 16;
            let room = old(conn)@.uploads.len() < 2;
            &&& able && permitted && free && named && room ==> {
                &&& out.actions@.len() == 1
                &&& out.actions@[0] matches Action::CheckUploadOwner {
                    channel: c,
                    request_id,
                    user,
                    shell_id,
                    original_name: name,
                    total_bytes: size,
                    sha256: digest,
                }
                &&& c == channel
                &&& request_id == envelope.request_id
                &&& user@ == old(conn)@.user
                &&& shell_id.0@ == envelope.shell_id@
                &&& name@ == original_name@
                &&& size == total_bytes
                &&& digest@ == sha256@
            }
            &&& !able ==> only_error(
                out,
                channel,
                envelope.request_id,
                ErrorCode::ErrUnknownMessage,
                "unexpected message for this channel"@,
            )
            &&& able && !permitted ==> rejects_upload(
                out,
                channel,
                envelope.request_id,
                old(conn)@.user,
                None,
                RejectReason::Forbidden,
                ErrorCode::ErrForbidden,
                "grant does not permit upload"@,
            )
            &&& able && permitted && !free ==> only_error(
                out,
                channel,
                envelope.request_id,
                ErrorCode::ErrUnknownMessage,
                "channel already in use"@,
            )
            &&& able && permitted && free && !named ==> only_error(
                out,
                channel,
                envelope.request_id,
                ErrorCode::ErrNotFound,
                "bad shell id"@,
            )
            &&& able && permitted && free && named && !room ==> rejects_upload(
                out,
                channel,
                envelope.request_id,
                old(conn)@.user,
                None,
                RejectReason::LimitExceeded,
                ErrorCode::ErrLimitExceeded,
                "too many uploads on this connection"@,
            )
        }),
{
}

/// Whether an upload is rejected: that is recorded, and the client is told.
pub open spec fn rejects_upload(
    out: Outcome,
    channel: u64,
    request_id: u64,
    user: Seq<char>,
    shell_id: Option<ShellId>,
    reason: RejectReason,
    code: ErrorCode,
    text: Seq<char>,
) -> bool {
    &&& out.open
    &&& out.actions@.len() == 2
    &&& out.actions@[0] matches Action::Audit(
        AuditEvent::UploadRejected { user: u, shell_id: s, reason: r },
    )
    &&& u@ == user
    &&& s == shell_id
    &&& r == reason
    &&& is_error(out.actions@[1], channel, request_id, code, text, false)
}

/// A file is taken for a shell of the client's own, as it was declared; for any other
/// shell, whether it exists or not, the client is told the same.
pub proof fn uploads_go_to_own_shells(
    conn: &Conn,
    channel: u64,
    request_id: u64,
    shell_id: ShellId,
    owner: Option<&str>,
    original_name: String,
    total_bytes: u64,
    sha256: Vec<u8>,
    out: Outcome,
)
    requires
        call_ensures(
            Conn::upload_owner_checked,
            (conn, channel, request_id, shell_id, owner, original_name, total_bytes, sha256),
            out,
        ),
    ensures
        (owner matches Some(o) && o@ == conn@.user) ==> {
            &&& out.open
            &&& out.actions@.len() == 1
            &&& out.actions@[0] matches Action::BeginUpload {
                channel: c,
                request_id: id,
                user,
                shell_id: s,
                original_name: name,
                total_bytes: size,
                sha256: digest,
            }
            &&& c == channel
            &&& id == request_id
            &&& user@ == conn@.user
            &&& s == shell_id
            &&& name@ == original_name@
            &&& size == total_bytes
            &&& digest@ == sha256@
        },
        !(owner matches Some(o) && o@ == conn@.user) ==> rejects_upload(
            out,
            channel,
            request_id,
            conn@.user,
            Some(shell_id),
            RejectReason::Forbidden,
            ErrorCode::ErrForbidden,
            "upload denied"@,
        ),
{
}

/// An upload that began runs on its channel, and the client learns its identifier and
/// how large a chunk may be; one that was refused leaves no trace.
pub proof fn begun_uploads_run(
    conn: &mut Conn,
    channel: u64,
    request_id: u64,
    shell_id: ShellId,
    original_name: String,
    total_bytes: u64,
    result: Result<(Vec<u8>, u32), UploadError>,
    out: Outcome,
)
    requires
        call_ensures(
            Conn::upload_begun,
            (conn, channel, request_id, shell_id, original_name, total_bytes, result),
            out,
        ),
    ensures
        out.open,
        out.actions@.len() == 2,
        result matches Ok((upload_id, maximum_chunk_bytes)) ==> {
            &&& final(conn)@.uploads.dom().contains(channel)
            &&& final(conn)@.uploads[channel] == shell_id
            &&& forall|other: u64|
                other != channel && #[trigger] old(conn)@.uploads.dom().contains(other) ==> final(
                conn)@.uploads.dom().contains(other) && final(conn)@.uploads[other] == old(
                conn)@.uploads[other]
            &&& final(conn)@.attachments == old(conn)@.attachments
            &&& out.actions@[0] matches Action::Audit(
                AuditEvent::UploadStarted { user, shell_id: s, original_name: name, bytes },
            )
            &&& user@ == old(conn)@.user
            &&& s == shell_id
            &&& name@ == original_name@
            &&& bytes == total_bytes
            &&& out.actions@[1] matches Action::Send { channel: c, envelope }
            &&& c == channel
            &&& envelope.request_id == request_id
            &&& envelope.message matches Some(
                Message::UploadAccepted { upload_id: id, maximum_chunk_bytes: most },
            )
            &&& id@ == upload_id@
            &&& most == maximum_chunk_bytes
        },
        result is Err ==> final(conn)@ == old(conn)@,
        result matches Err(e) ==> ({
            let (code, reason) = match e {
                UploadError::LimitExceeded => (
                    ErrorCode::ErrLimitExceeded,
                    RejectReason::LimitExceeded,
                ),
                UploadError::Validation(UploadValidationError::FileTooLarge) => (
                    ErrorCode::ErrLimitExceeded,
                    RejectReason::LimitExceeded,
                ),
                UploadError::Validation(UploadValidationError::InvalidDigest) => (
                    ErrorCode::ErrInvalidArgument,
                    RejectReason::InvalidRequest,
                ),
                UploadError::Validation(UploadValidationError::InvalidUploadId) => (
                    ErrorCode::ErrInvalidArgument,
                    RejectReason::InvalidRequest,
                ),
                UploadError::MissingAccount => (ErrorCode::ErrForbidden, RejectReason::Forbidden),
                UploadError::MalformedBackendResponse => (
                    ErrorCode::ErrInternal,
                    RejectReason::Internal,
                ),
            };
            rejects_upload(
                out,
                channel,
                request_id,
                old(conn)@.user,
                Some(shell_id),
                reason,
                code,
                "upload refused"@,
            )
        }),
{
}

/// An upload that ended leaves its channel; a finished one is recorded and told with
/// what was written.
pub proof fn ended_uploads_are_told(
    conn: &mut Conn,
    channel: u64,
    end: UploadEnd,
    out: Outcome,
)
    requires
        call_ensures(Conn::upload_ended, (conn, channel, end), out),
        old(conn)@.uploads.dom().contains(channel),
    ensures
        !final(conn)@.uploads.dom().contains(channel),
        forall|other: u64|
            other != channel && #[trigger] old(conn)@.uploads.dom().contains(other) ==> final(
            conn)@.uploads.dom().contains(other) && final(conn)@.uploads[other] == old(
            conn)@.uploads[other],
        final(conn)@.attachments == old(conn)@.attachments,
        final(conn)@.forwards == old(conn)@.forwards,
        same_session(final(conn)@, old(conn)@),
        out.open,
        end matches UploadEnd::Finished { request_id, upload, stored_basename, duration_ms } ==> {
            &&& out.actions@.len() == 2
            &&& out.actions@[0] matches Action::Audit(
                AuditEvent::UploadCompleted {
                    user,
                    shell_id,
                    stored_basename: stored,
                    bytes,
                    duration_ms: took,
                },
            )
            &&& user@ == old(conn)@.user
            &&& shell_id == old(conn)@.uploads[channel]
            &&& stored@ == stored_basename@
            &&& bytes == upload.bytes_written
            &&& took == duration_ms
            &&& out.actions@[1] matches Action::Send { channel: c, envelope }
            &&& c == channel
            &&& envelope.request_id == request_id
            &&& envelope.message matches Some(
                Message::UploadFinished { upload_id, remote_path, bytes_written, sha256 },
            )
            &&& upload_id@ == upload.upload_id@
            &&& remote_path@ == upload.remote_path@
            &&& bytes_written == upload.bytes_written
            &&& sha256@ == upload.sha256@
        },
        end is Cancelled || end is TimedOut ==> {
            &&& out.actions@.len() == 1
            &&& out.actions@[0] matches Action::Audit(
                AuditEvent::UploadEnded { user, shell_id, outcome },
            )
            &&& user@ == old(conn)@.user
            &&& shell_id == old(conn)@.uploads[channel]
            &&& end is Cancelled ==> outcome == UploadOutcome::Cancelled
            &&& end is TimedOut ==> outcome == UploadOutcome::TimedOut
        },
        end matches UploadEnd::Failed { request_id } ==> {
            &&& out.actions@.len() == 2
            &&& out.actions@[0] matches Action::Audit(
                AuditEvent::UploadEnded { user, shell_id, outcome: UploadOutcome::Failed },
            )
            &&& user@ == old(conn)@.user
            &&& shell_id == old(conn)@.uploads[channel]
            &&& is_error(
                out.actions@[1],
                channel,
                request_id,
                ErrorCode::ErrInvalidArgument,
                "upload failed"@,
                false,
            )
        },
{
}

/// A user runs up to four uploads, and all users together up to sixteen.
pub proof fn upload_places_are_limited(
    service: &mut UploadService,
    user: &str,
    r: Result<UploadPermit, UploadError>,
    had: nat,
)
    requires
        call_ensures(UploadService::try_acquire, (service, user), r),
        old(service).active().dom().contains(user@) ==> had == old(service).active()[user@],
        !old(service).active().dom().contains(user@) ==> had == 0,
    ensures
        r is Ok <==> old(service).total() < 16 && had < 4,
        r matches Err(e) ==> e == UploadError::LimitExceeded && *final(service) == *old(service),
        r matches Ok(permit) ==> {
            &&& permit.user() == user@
            &&& final(service).total() == old(service).total() + 1
            &&& final(service).active().dom().contains(user@)
            &&& final(service).active()[user@] == had + 1
            &&& forall|other: Seq<char>|
                other != user@ && #[trigger] old(service).active().dom().contains(other) ==> final(
                service).active().dom().contains(other) && final(service).active()[other] == old(
                service).active()[other]
        },
{
}

/// A place for an upload that is given back is free again.
pub proof fn upload_places_come_back(service: &mut UploadService, permit: UploadPermit, had: nat)
    requires
        call_ensures(UploadService::release, (service, permit), ()),
        old(service).active().dom().contains(permit.user()),
        had == old(service).active()[permit.user()],
        had > 0,
    ensures
        final(service).total() == old(service).total() - 1,
        had > 1 ==> final(service).active().dom().contains(permit.user()) && final(
        service).active()[permit.user()] == had - 1,
        had == 1 ==> !final(service).active().dom().contains(permit.user()),
        forall|other: Seq<char>|
            other != permit.user() && #[trigger] old(service).active().dom().contains(other)
                ==> final(service).active().dom().contains(other) && final(service).active()[other]
                == old(service).active()[other],
{
}

/// A file goes where the service writes: below the service's own directory, or to the
/// spawner together with the user's account. What is not valid goes nowhere, and a
/// spawner writes for nobody without an account.
pub proof fn files_go_where_the_service_writes(
    service: &UploadService,
    valid: Result<(), UploadValidationError>,
    account: Option<&str>,
    declaration: UploadDeclaration,
    maximum_chunk_bytes: u32,
    r: Result<UploadPlan, UploadError>,
)
    requires
        call_ensures(
            UploadService::begin,
            (service, valid, account, declaration, maximum_chunk_bytes),
            r,
        ),
    ensures
        r is Ok <==> valid is Ok && (service.backend() is SameUid || account is Some),
        valid matches Err(fault) ==> r == Err::<UploadPlan, UploadError>(
            UploadError::Validation(fault),
        ),
        valid is Ok && service.backend() is Spawner && account is None ==> r == Err::<
            UploadPlan,
            UploadError,
        >(UploadError::MissingAccount),
        r matches Ok(UploadPlan::SameUid { root, declaration: d, maximum_chunk_bytes: most }) ==> {
            &&& service.backend() matches Backend::SameUid { root: below }
            &&& root@ == below@
            &&& d == declaration
            &&& most == maximum_chunk_bytes
        },
        r matches Ok(UploadPlan::Spawner { socket, request }) ==> {
            &&& service.backend() matches Backend::Spawner { socket: at }
            &&& socket@ == at@
            &&& account matches Some(name)
            &&& request.account@ == name@
            &&& request.original_name@ == declaration.original_name@
            &&& request.total_bytes == declaration.total_bytes
            &&& request.sha256@ == declaration.sha256@
            &&& request.maximum_chunk_bytes == maximum_chunk_bytes
        },
{
}

/// An upload is finished under its own identifier only, and on a report whose
/// identifier has sixteen bytes and whose digest has thirty-two; what the report says is
/// what counts.
pub proof fn uploads_finish_on_their_report(
    expected: &[u8],
    claimed: &[u8],
    fits: Result<(), UploadError>,
    reply: UploadReply,
    r: Result<FinishedUpload, UploadError>,
)
    requires
        call_ensures(check_upload_id, (expected, claimed), fits),
        call_ensures(finish, (reply,), r),
    ensures
        fits is Ok <==> claimed@ == expected@,
        fits matches Err(e) ==> e
            == UploadError::Validation(UploadValidationError::InvalidUploadId),
        r is Ok <==> (reply matches UploadReply::Finished { upload_id, sha256, .. }
            && upload_id@.len() == 16 && sha256@.len() == 32),
        r matches Err(e) ==> e == UploadError::MalformedBackendResponse,
        r matches Ok(done) ==> {
            &&& reply matches UploadReply::Finished { upload_id, remote_path, bytes_written, sha256 }
            &&& done.upload_id@ == upload_id@
            &&& done.remote_path@ == remote_path@
            &&& done.bytes_written == bytes_written
            &&& done.sha256@ == sha256@
        },
{
}

/// Only what the daemon wrote itself is removed by the daemon.
pub proof fn daemons_remove_their_own_files(service: &UploadService, r: bool, limit: u64)
    requires
        call_ensures(UploadService::reaps_expired, (service,), r),
        call_ensures(UploadService::file_limit, (service,), limit),
    ensures
        r <==> service.backend() is SameUid,
        limit == service.max_file_bytes(),
{
}

/// A frame of a forwarded connection says one thing, and only while that is allowed: data
/// of up to eight kibibytes or an end while the peer may send, and an acknowledgement
/// while one is owed. What allowed it allows no second one.
pub proof fn frames_are_taken_while_allowed(flow: &mut Forward, env: Envelope, r: Option<FlowInput>)
    requires
        call_ensures(Forward::message, (flow, env), r),
    ensures
        ({
            let plain = env.request_id == 0 && env.server_id@.len() == 0
                && env.shell_id@.len() == 0;
            &&& !plain ==> r is None && *final(flow) == *old(flow)
            &&& plain ==> (env.message matches Some(Message::TcpForwardData { data }) ==> {
                &&& 0 < data@.len() <= 8_192 && old(flow).input_ready ==> r == Some(
                    FlowInput::Data(data),
                )
                &&& !(0 < data@.len() <= 8_192 && old(flow).input_ready) ==> r is None
                &&& 0 < data@.len() <= 8_192 ==> *final(flow) == (Forward {
                    input_ready: false,
                    ..*old(flow)
                })
            })
            &&& plain && env.message == Some(Message::TcpForwardEof) ==> {
                &&& old(flow).input_ready ==> r == Some(FlowInput::Eof)
                &&& !old(flow).input_ready ==> r is None
                &&& *final(flow) == (Forward { input_ready: false, ..*old(flow) })
            }
            &&& plain && env.message == Some(Message::TcpForwardAck) ==> {
                &&& old(flow).ack_expected ==> r == Some(FlowInput::Ack)
                &&& !old(flow).ack_expected ==> r is None
                &&& *final(flow) == (Forward { ack_expected: false, ..*old(flow) })
            }
            &&& env.message is None ==> r is None && *final(flow) == *old(flow)
        }),
{
}

/// Forwarding is on where somebody may, and as many users are active as hold a place.
pub proof fn forwarding_is_on_where_somebody_may(
    service: &ForwardService,
    enabled: bool,
    active: usize,
)
    requires
        call_ensures(ForwardService::enabled, (service,), enabled),
        call_ensures(ForwardService::active_users, (service,), active),
    ensures
        enabled <==> exists|user: Seq<char>| service.users().contains(user),
        active == service.active().len(),
{
    if !(exists|user: Seq<char>| service.users().contains(user)) {
        assert(service.users() =~= Set::<Seq<char>>::empty());
    }
}

/// A service for uploads writes where it was told, takes files as large as it was told,
/// and starts with none under way.
pub proof fn upload_services_start_idle(
    root: String,
    socket: String,
    limit: u64,
    own: UploadService,
    spawned: UploadService,
    active: usize,
)
    requires
        call_ensures(UploadService::same_uid, (root, limit), own),
        call_ensures(UploadService::spawner, (socket, limit), spawned),
        call_ensures(UploadService::active_users, (&own,), active),
    ensures
        own.backend() == (Backend::SameUid { root }),
        own.max_file_bytes() == limit,
        own.total() == 0,
        active == 0,
        spawned.backend() == (Backend::Spawner { socket }),
        spawned.max_file_bytes() == limit,
        spawned.total() == 0,
{
}

/// The end of an upload that the channel does not carry changes nothing and tells
/// nobody.
pub proof fn unknown_uploads_end_quietly(
    conn: &mut Conn,
    channel: u64,
    end: UploadEnd,
    out: Outcome,
)
    requires
        call_ensures(Conn::upload_ended, (conn, channel, end), out),
        !old(conn)@.uploads.dom().contains(channel),
    ensures
        final(conn)@ == old(conn)@,
        out.open,
        out.actions@.len() == 0,
{
    assert(old(conn)@.uploads.remove(channel) =~= old(conn)@.uploads);
}

/// An upload that begins leaves the session as it is.
pub proof fn uploading_keeps_the_session(
    conn: &mut Conn,
    channel: u64,
    request_id: u64,
    shell_id: ShellId,
    original_name: String,
    total_bytes: u64,
    result: Result<(Vec<u8>, u32), UploadError>,
    out: Outcome,
)
    requires
        call_ensures(
            Conn::upload_begun,
            (conn, channel, request_id, shell_id, original_name, total_bytes, result),
            out,
        ),
    ensures
        same_session(final(conn)@, old(conn)@),
        final(conn)@.negotiated == old(conn)@.negotiated,
        final(conn)@.pending == old(conn)@.pending,
        final(conn)@.forwards == old(conn)@.forwards,
{
}

/// A forward that ends, or is refused, leaves the session and its shells as they are.
pub proof fn forwarding_keeps_the_session(
    conn: &mut Conn,
    channel: u64,
    out: Outcome,
    done: &mut Conn,
)
    requires
        call_ensures(Conn::forward_refused, (conn, channel), out),
        call_ensures(Conn::forward_ended, (done, channel), ()),
    ensures
        same_session(final(conn)@, old(conn)@),
        final(conn)@.attachments == old(conn)@.attachments,
        final(conn)@.uploads == old(conn)@.uploads,
        same_session(final(done)@, old(done)@),
        final(done)@.attachments == old(done)@.attachments,
        final(done)@.uploads == old(done)@.uploads,
{
}

/// Where files go, and how large they may be, does not change as uploads come and go; a
/// place that nobody holds is not given back.
pub proof fn upload_services_stay_as_made(
    service: &mut UploadService,
    user: &str,
    r: Result<UploadPermit, UploadError>,
    done: &mut UploadService,
    permit: UploadPermit,
)
    requires
        call_ensures(UploadService::try_acquire, (service, user), r),
        call_ensures(UploadService::release, (done, permit), ()),
    ensures
        final(service).backend() == old(service).backend(),
        final(service).max_file_bytes() == old(service).max_file_bytes(),
        final(done).backend() == old(done).backend(),
        final(done).max_file_bytes() == old(done).max_file_bytes(),
        !old(done).active().dom().contains(permit.user()) ==> final(done).total()
            == old(done).total(),
{
}

} // verus!
