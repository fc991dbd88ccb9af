//! Laws of the link between an agent and its gateway.

use vstd::prelude::*;
use vstd::string::*;
use vstd::utf8::*;

use crate::agent::{
    authorize, check_pong, map_attachment_session_error, map_open_validation_error,
    map_session_error, validate_attach_request, validate_open_request, validate_registration,
    AgentError, AgentLimits, AgentStatus, AgentStatusSnapshot, AgentSupervisor, AttachmentAuthorization, OpenValidationError,
    ReconnectPolicy, Refusal, RegistrationRequest,
};
use crate::agent_link::{
    remaining_ms, validate_attachment_scope, AgentAction, AttachmentStream, ControlStep,
    RegisteredLink, StreamNext, StreamStep,
};
use crate::grant::{ConnectionGrant, GrantClaims, GrantError, GrantVerifier};
use crate::hex::hex_text;
use crate::ids::{ServerId, ShellId};
use crate::protocol::{
    AgentAttachShell, AgentOpenShell, AgentRegistration, Attachment, AttachmentEvent, Envelope,
    ErrorCode, HistoryRange, Message, OpenShellRequest, OpenedShell, SessionError, SessionErrorKind,
};
use crate::text::texts;

verus! {

/// A registration names the server, its build and the version that it speaks; a build of
/// more than a hundred and twenty-eight bytes is refused.
pub proof fn registrations_say_who_registers(
    server_id: ServerId,
    build: String,
    limits: &AgentLimits,
    r: Result<RegistrationRequest, AgentError>,
    request: &RegistrationRequest,
    major: u32,
    minor: u32,
    sent: Envelope,
)
    requires
        call_ensures(RegistrationRequest::new, (server_id, build, limits), r),
        r matches Ok(q) ==> *request == q,
        call_ensures(RegistrationRequest::message, (request, major, minor), sent),
    ensures
        r is Ok <==> encode_utf8(build@).len() <= 128,
        r matches Err(e) ==> e == AgentError::BuildTooLong(encode_utf8(build@).len() as usize),
        r is Ok ==> {
            &&& sent.request_id == 0
            &&& sent.server_id@ == server_id.0@
            &&& sent.shell_id@.len() == 0
            &&& sent.message matches Some(
                Message::AgentRegister {
                    protocol_major,
                    protocol_minor,
                    server_id: named,
                    agent_build,
                    max_frame_bytes,
                },
            )
            &&& protocol_major == major
            &&& protocol_minor == minor
            &&& named@ == server_id.0@
            &&& agent_build@ == build@
            &&& max_frame_bytes == limits.control_frame_bytes_max
        },
{
}

/// An answer to a registration makes a link only where it accepts this server, names it
/// twice, and sets a frame size within the bounds and some interval; the link has what
/// the answer set, and no streams.
pub proof fn links_are_as_answered(
    request: &RegistrationRequest,
    response: Envelope,
    limits: AgentLimits,
    r: Result<RegisteredLink, AgentError>,
    id: ServerId,
    frame: u32,
    keepalive: u32,
)
    requires
        call_ensures(RegisteredLink::connect, (request, response, limits), r),
        r matches Ok(link) ==> call_ensures(RegisteredLink::server_id, (&link,), id)
            && call_ensures(RegisteredLink::max_frame_bytes, (&link,), frame) && call_ensures(
            RegisteredLink::keepalive_interval_ms,
            (&link,),
            keepalive,
        ),
    ensures
        r is Ok <==> (response.message matches Some(Message::AgentRegistration(answer))
            && answer.accepted && answer.server_id@ == request.server_id.0@ && response.server_id@
            == request.server_id.0@ && limits.control_frame_bytes_min <= answer.max_frame_bytes
            <= limits.control_frame_bytes_max && answer.keepalive_interval_ms != 0),
        r matches Ok(link) ==> {
            &&& id == request.server_id
            &&& response.message matches Some(Message::AgentRegistration(answer))
            &&& frame == answer.max_frame_bytes
            &&& keepalive == answer.keepalive_interval_ms
            &&& link@.streams == 0
            &&& link@.limits == limits
        },
        r matches Err(e) ==> {
            &&& (response.message matches Some(Message::AgentRegistration(answer))
                && !answer.accepted) ==> (e matches AgentError::Rejected(why)
                && response.message matches Some(Message::AgentRegistration(answer)) && why@
                == answer.rejection_reason@)
            &&& !(response.message matches Some(Message::AgentRegistration(answer))
                && !answer.accepted) ==> e is UnexpectedResponse
        },
{
}

/// A registration is checked as it makes a link.
pub proof fn answers_are_checked(
    expected: ServerId,
    named: &[u8],
    answer: &AgentRegistration,
    limits: &AgentLimits,
    r: Result<(), AgentError>,
)
    requires
        call_ensures(validate_registration, (expected, named, answer, limits), r),
    ensures
        r is Ok <==> answer.accepted && answer.server_id@ == expected.0@ && named@ == expected.0@
            && limits.control_frame_bytes_min <= answer.max_frame_bytes
            <= limits.control_frame_bytes_max && answer.keepalive_interval_ms != 0,
        !answer.accepted ==> (r matches Err(AgentError::Rejected(why)) && why@
            == answer.rejection_reason@),
        answer.accepted && r is Err ==> r->Err_0 is UnexpectedResponse,
{
}

/// A keepalive is answered by its own nonce, and by nothing else.
pub proof fn keepalives_carry_their_nonce(
    link: &RegisteredLink,
    nonce: u64,
    sent: Envelope,
    response: &Envelope,
    r: Result<(), AgentError>,
)
    requires
        call_ensures(RegisteredLink::ping, (link, nonce), sent),
        call_ensures(check_pong, (response, nonce), r),
    ensures
        sent.message == Some(Message::AgentPing { nonce }),
        sent.request_id == 0,
        sent.server_id@ == link@.server_id.0@,
        r is Ok <==> response.message == Some(Message::AgentPong { nonce }),
        r matches Err(e) ==> e is UnexpectedResponse,
{
}

/// Each wait is twice as long as the one before, up to the longest, and after a link was
/// up they start again from the shortest.
pub proof fn waits_double_up_to_the_longest(
    policy: ReconnectPolicy,
    audience: String,
    limits: &AgentLimits,
    made: Result<AgentSupervisor, AgentError>,
    s: &mut AgentSupervisor,
    wait: u64,
    t: &mut AgentSupervisor,
    later: u64,
    u: &mut AgentSupervisor,
    v: &mut AgentSupervisor,
    again: u64,
)
    requires
        call_ensures(AgentSupervisor::new, (policy, audience, limits), made),
        call_ensures(AgentSupervisor::disconnected, (s,), wait),
        old(t)@ == final(s)@,
        call_ensures(AgentSupervisor::disconnected, (t,), later),
        old(u)@ == final(t)@,
        call_ensures(AgentSupervisor::registered, (u,), ()),
        old(v)@ == final(u)@,
        call_ensures(AgentSupervisor::disconnected, (v,), again),
    ensures
        made is Ok <==> 0 < encode_utf8(audience@).len() <= limits.audience_bytes_max && 0
            < policy.initial_delay <= policy.maximum_delay,
        made matches Ok(first) ==> first@.delay == policy.initial_delay && first@.policy == policy
            && first@.audience == audience@ && !first@.status.connected
            && first@.status.registrations == 0,
        !(0 < encode_utf8(audience@).len() <= limits.audience_bytes_max) ==> (made matches Err(e)
            && e is InvalidGrantAudience),
        0 < encode_utf8(audience@).len() <= limits.audience_bytes_max && made is Err ==> (
        made matches Err(e) && e is InvalidReconnectPolicy),
        wait == old(s)@.delay,
        !final(s)@.status.connected,
        2 * wait <= old(s)@.policy.maximum_delay ==> later == 2 * wait,
        2 * wait > old(s)@.policy.maximum_delay ==> later == old(s)@.policy.maximum_delay,
        final(u)@.status.connected,
        old(u)@.status.registrations < u64::MAX
            ==> final(u)@.status.registrations == old(u)@.status.registrations + 1,
        again == old(s)@.policy.initial_delay,
        final(v)@.audience == old(s)@.audience,
        final(v)@.policy == old(s)@.policy,
{
}

/// By default the first wait is a quarter of a second and the longest ten.
pub proof fn default_waits(r: ReconnectPolicy, checked: Result<ReconnectPolicy, AgentError>)
    requires
        call_ensures(<ReconnectPolicy as Default>::default, (), r),
        call_ensures(ReconnectPolicy::validate, (r,), checked),
    ensures
        r.initial_delay == 250,
        r.maximum_delay == 10_000,
        checked == Ok::<ReconnectPolicy, AgentError>(r),
{
}

/// Delays make sense where none is zero and the first is not longer than the longest.
pub proof fn waits_are_checked(policy: ReconnectPolicy, r: Result<ReconnectPolicy, AgentError>)
    requires
        call_ensures(ReconnectPolicy::validate, (policy,), r),
    ensures
        r is Ok <==> policy.initial_delay > 0 && policy.initial_delay <= policy.maximum_delay,
        r matches Ok(p) ==> p == policy,
        r matches Err(e) ==> e is InvalidReconnectPolicy,
{
}

/// A gateway's grant is worth what the verifier says of it, and only for its own user, an
/// operation that it names, and a server that it lists.
pub proof fn gateways_need_a_grant(
    key: &GrantVerifier,
    grant: &[u8],
    audience: &str,
    now_ms: i64,
    user: &str,
    op: &str,
    server_id: ServerId,
    r: Result<GrantClaims, OpenValidationError>,
    token: &ConnectionGrant,
    checked: Result<GrantClaims, GrantError>,
    may: bool,
)
    requires
        call_ensures(authorize, (key, grant, audience, now_ms, user, op, server_id), r),
        valid_utf8(grant@) ==> token@ == decode_utf8(grant@),
        call_ensures(GrantVerifier::verify, (key, token, audience, now_ms), checked),
        checked matches Ok(c) ==> call_ensures(GrantClaims::permits, (&c, op), may),
    ensures
        !valid_utf8(grant@) ==> (r matches Err(e) && e == OpenValidationError::Unauthenticated),
        valid_utf8(grant@) ==> {
            &&& checked matches Err(GrantError::WrongAudience { .. }) ==> (r matches Err(e) && e
                == OpenValidationError::Forbidden)
            &&& checked is Err && !(checked->Err_0 is WrongAudience) ==> (r matches Err(e) && e
                == OpenValidationError::Unauthenticated)
            &&& checked matches Ok(c) ==> {
                let listed = texts(c.servers@).contains("srv_"@ + hex_text(server_id.0@));
                &&& c.sub@ == user@ && may && listed ==> (r matches Ok(d) && d@ == c@)
                &&& !(c.sub@ == user@ && may && listed) ==> (r matches Err(e) && e
                    == OpenValidationError::Forbidden)
            }
        },
{
}

/// A gateway's request to open a shell passes exactly where it is within the limits and
/// its grant lets its user open shells here; it then reaches the shells as it was made.
pub proof fn gateways_open_shells_as_asked(
    open: AgentOpenShell,
    key: &GrantVerifier,
    audience: &str,
    server_id: ServerId,
    limits: &AgentLimits,
    now_ms: i64,
    r: Result<OpenShellRequest, OpenValidationError>,
    grant: &[u8],
    user: &str,
    op: &str,
    authorized: Result<GrantClaims, OpenValidationError>,
)
    requires
        call_ensures(validate_open_request, (open, key, audience, server_id, limits, now_ms), r),
        grant@ == open.connection_grant@,
        user@ == open.user_id@,
        op@ == "open"@,
        call_ensures(authorize, (key, grant, audience, now_ms, user, op, server_id), authorized),
    ensures
        ({
            let fits = 0 < encode_utf8(open.user_id@).len() <= limits.user_id_bytes_max
                && encode_utf8(open.unix_account@).len() <= limits.unix_account_bytes_max
                && encode_utf8(open.command@).len() <= limits.command_bytes_max && 0
                < open.connection_grant@.len() <= limits.grant_bytes_max
                && open.idempotency_key@.len() == 16 && open.initial_cols <= 0xffff
                && open.initial_rows <= 0xffff;
            &&& !fits ==> (r matches Err(e) && e == OpenValidationError::Invalid)
            &&& fits ==> (r is Ok <==> authorized is Ok)
            &&& fits && authorized is Err ==> (r matches Err(e) && e == authorized->Err_0)
        }),
        r matches Ok(request) ==> {
            &&& request.user@ == open.user_id@
            &&& open.unix_account@.len() == 0 ==> request.requested_account is None
            &&& open.unix_account@.len() > 0 ==> (request.requested_account matches Some(a) && a@
                == open.unix_account@)
            &&& open.command@.len() == 0 ==> request.command is None
            &&& open.command@.len() > 0 ==> (request.command matches Some(c) && c@
                == open.command@)
            &&& request.args@.len() == 0
            &&& request.cols == open.initial_cols
            &&& request.rows == open.initial_rows
            &&& request.idempotency_key@ == open.idempotency_key@
        },
{
}

/// A gateway's request to attach passes exactly where it is within the limits and its
/// grant lets its user attach here; it then lasts as long as the grant.
pub proof fn gateways_attach_as_asked(
    attach: AgentAttachShell,
    key: &GrantVerifier,
    audience: &str,
    server_id: ServerId,
    limits: &AgentLimits,
    now_ms: i64,
    r: Result<AttachmentAuthorization, OpenValidationError>,
    grant: &[u8],
    user: &str,
    op: &str,
    authorized: Result<GrantClaims, OpenValidationError>,
)
    requires
        call_ensures(
            validate_attach_request,
            (attach, key, audience, server_id, limits, now_ms),
            r,
        ),
        grant@ == attach.connection_grant@,
        user@ == attach.user_id@,
        op@ == "attach"@,
        call_ensures(authorize, (key, grant, audience, now_ms, user, op, server_id), authorized),
    ensures
        ({
            let fits = 0 < encode_utf8(attach.user_id@).len() <= limits.user_id_bytes_max && 0
                < attach.connection_grant@.len() <= limits.grant_bytes_max && attach.cols <= 0xffff
                && attach.rows <= 0xffff;
            &&& !fits ==> (r matches Err(e) && e == OpenValidationError::Invalid)
            &&& fits ==> (r is Ok <==> authorized is Ok)
            &&& fits && authorized is Err ==> (r matches Err(e) && e == authorized->Err_0)
        }),
        r matches Ok(a) ==> {
            &&& a.user_id@ == attach.user_id@
            &&& a.cols == attach.cols
            &&& a.rows == attach.rows
            &&& authorized matches Ok(c)
            &&& a.expires_at_ms == c.exp_ms
        },
{
}

/// Whether an envelope is an error for a request, on a link or one of its streams.
pub open spec fn says(
    e: Envelope,
    request_id: u64,
    server: Seq<u8>,
    shell: Seq<u8>,
    code: ErrorCode,
    text: Seq<char>,
    retryable: bool,
) -> bool {
    &&& e.request_id == request_id
    &&& e.server_id@ == server
    &&& e.shell_id@ == shell
    &&& e.message matches Some(Message::Error { code: c, human_message, retryable: again })
    &&& c == code
    &&& human_message@ == text
    &&& again == retryable
}

proof fn no_shell(e: Envelope)
    ensures
        e.shell_id@.len() == 0 <==> e.shell_id@ == Seq::<u8>::empty(),
{
    if e.shell_id@.len() == 0 {
        assert(e.shell_id@ =~= Seq::<u8>::empty());
    }
}

/// A control message that names another server closes the link; a ping is answered with
/// its nonce; a request to open a shell is handed on where it passes, and answered with
/// why where it does not; anything else is refused.
pub proof fn control_messages_are_served(
    link: &RegisteredLink,
    request: Envelope,
    key: &GrantVerifier,
    audience: &str,
    now_ms: i64,
    step: ControlStep,
    open: AgentOpenShell,
    checked: Result<OpenShellRequest, OpenValidationError>,
)
    requires
        call_ensures(RegisteredLink::serve_next, (link, request, key, audience, now_ms), step),
        request.message matches Some(Message::AgentOpenShell(o)) ==> o == open,
        call_ensures(
            validate_open_request,
            (open, key, audience, link@.server_id, &link@.limits, now_ms),
            checked,
        ),
    ensures
        ({
            let here = link@.server_id.0@;
            let none = Seq::<u8>::empty();
            let mine = request.server_id@ == here;
            &&& request.server_id@.len() != 16 ==> (step matches ControlStep::Close {
                reply: None,
                error,
            } && error is ServerIdentityMismatch)
            &&& request.server_id@.len() == 16 && !mine ==> (step matches ControlStep::Close {
                reply: Some(reply),
                error,
            } && error is ServerIdentityMismatch && says(
                reply,
                request.request_id,
                here,
                none,
                ErrorCode::ErrForbidden,
                "server identity mismatch"@,
                false,
            ))
            &&& mine ==> (request.message matches Some(Message::AgentPing { nonce }) ==> (
            step matches ControlStep::Reply { reply, action } && reply.request_id
                == request.request_id && reply.server_id@ == here && reply.message == Some(
                Message::AgentPong { nonce },
            ) && action == AgentAction::Ping(nonce)))
            &&& mine && request.message is Some && request.message->0 is AgentOpenShell ==> {
                &&& checked is Ok <==> step is OpenShell
                &&& step matches ControlStep::OpenShell { request_id, request: local } ==> {
                    &&& request_id == request.request_id
                    &&& local.user@ == open.user_id@
                    &&& open.command@.len() > 0 ==> (local.command matches Some(c) && c@
                        == open.command@)
                    &&& open.command@.len() == 0 ==> local.command is None
                    &&& open.unix_account@.len() > 0 ==> (local.requested_account matches Some(a)
                        && a@ == open.unix_account@)
                    &&& open.unix_account@.len() == 0 ==> local.requested_account is None
                    &&& local.cols == open.initial_cols
                    &&& local.rows == open.initial_rows
                    &&& local.idempotency_key@ == open.idempotency_key@
                }
                &&& checked matches Err(OpenValidationError::Invalid) ==> (
                step matches ControlStep::Reply { reply, action } && says(
                    reply,
                    request.request_id,
                    here,
                    none,
                    ErrorCode::ErrUnknownMessage,
                    "invalid shell request"@,
                    false,
                ))
                &&& checked matches Err(OpenValidationError::Unauthenticated) ==> (
                step matches ControlStep::Reply { reply, action } && says(
                    reply,
                    request.request_id,
                    here,
                    none,
                    ErrorCode::ErrUnauthenticated,
                    "invalid connection grant"@,
                    false,
                ))
                &&& checked matches Err(OpenValidationError::Forbidden) ==> (
                step matches ControlStep::Reply { reply, action } && says(
                    reply,
                    request.request_id,
                    here,
                    none,
                    ErrorCode::ErrForbidden,
                    "grant scope denied shell"@,
                    false,
                ))
            }
            &&& mine && !(request.message is Some && (request.message->0 is AgentOpenShell
                || request.message->0 is AgentPing)) ==> (step matches ControlStep::Reply {
                reply,
                action,
            } && action is UnknownRejected && says(
                reply,
                request.request_id,
                here,
                none,
                ErrorCode::ErrUnknownMessage,
                "unexpected agent control message"@,
                false,
            ))
        }),
{
    assert forall|e: Envelope| #[trigger] e.shell_id@.len() == 0 implies e.shell_id@ == Seq::<
        u8,
    >::empty() by {
        no_shell(e);
    }
    match step {
        ControlStep::Close { reply: Some(reply), .. } => {
            no_shell(reply);
        },
        ControlStep::Reply { reply, .. } => {
            no_shell(reply);
        },
        _ => {},
    }
    assert(link@.server_id.0@.len() == 16);
}

/// A gateway is told of the shell that was opened for it, or why none was.
pub proof fn gateways_are_told_of_shells(
    link: &RegisteredLink,
    request_id: u64,
    result: Result<OpenedShell, SessionError>,
    r: (Envelope, AgentAction),
)
    requires
        call_ensures(RegisteredLink::shell_opened, (link, request_id, result), r),
    ensures
        r.0.request_id == request_id,
        r.0.server_id@ == link@.server_id.0@,
        r.0.shell_id@.len() == 0,
        result matches Ok(opened) ==> {
            &&& r.0.message matches Some(Message::AgentShellOpened { shell_id, reused })
            &&& shell_id@ == opened.shell_id.0@
            &&& reused == opened.reused
            &&& r.1 == (AgentAction::ShellOpened {
                shell_id: opened.shell_id,
                reused: opened.reused,
            })
        },
        result matches Err(e) ==> {
            &&& r.1 is ShellRejected
            &&& e.kind == SessionErrorKind::Forbidden ==> says(
                r.0,
                request_id,
                link@.server_id.0@,
                r.0.shell_id@,
                ErrorCode::ErrForbidden,
                "local access policy denied shell"@,
                false,
            )
            &&& e.kind == SessionErrorKind::LimitExceeded ==> says(
                r.0,
                request_id,
                link@.server_id.0@,
                r.0.shell_id@,
                ErrorCode::ErrLimitExceeded,
                "local shell limit exceeded"@,
                true,
            )
            &&& e.kind == SessionErrorKind::Pty ==> says(
                r.0,
                request_id,
                link@.server_id.0@,
                r.0.shell_id@,
                ErrorCode::ErrInternal,
                "local PTY launch failed"@,
                true,
            )
            &&& e.kind == SessionErrorKind::Internal ==> says(
                r.0,
                request_id,
                link@.server_id.0@,
                r.0.shell_id@,
                ErrorCode::ErrInternal,
                "invalid shell request"@,
                false,
            )
        },
{
}

/// Whether a refusal says something.
pub open spec fn refusal_says(
    r: Refusal,
    code: ErrorCode,
    text: Seq<char>,
    retryable: bool,
) -> bool {
    r.code == code && r.text@ == text && r.retryable == retryable
}

/// What a gateway is refused, it is refused alike whether a shell is unknown or belongs
/// to somebody else.
pub proof fn refusals_are_told_as_they_are(
    opening: &SessionError,
    on_open: Refusal,
    attaching: &SessionError,
    on_attach: Refusal,
    invalid: OpenValidationError,
    on_check: Refusal,
)
    requires
        call_ensures(map_session_error, (opening,), on_open),
        call_ensures(map_attachment_session_error, (attaching,), on_attach),
        call_ensures(map_open_validation_error, (invalid,), on_check),
    ensures
        opening.kind == SessionErrorKind::Forbidden ==> refusal_says(
            on_open,
            ErrorCode::ErrForbidden,
            "local access policy denied shell"@,
            false,
        ),
        opening.kind == SessionErrorKind::LimitExceeded ==> refusal_says(
            on_open,
            ErrorCode::ErrLimitExceeded,
            "local shell limit exceeded"@,
            true,
        ),
        opening.kind == SessionErrorKind::Pty ==> refusal_says(
            on_open,
            ErrorCode::ErrInternal,
            "local PTY launch failed"@,
            true,
        ),
        opening.kind == SessionErrorKind::ShellNotFound || opening.kind
            == SessionErrorKind::NotRunning ==> refusal_says(
            on_open,
            ErrorCode::ErrInternal,
            "invalid shell state"@,
            false,
        ),
        attaching.kind == SessionErrorKind::ShellNotFound || attaching.kind
            == SessionErrorKind::Forbidden ==> refusal_says(
            on_attach,
            ErrorCode::ErrForbidden,
            "shell attachment denied"@,
            false,
        ),
        attaching.kind == SessionErrorKind::NotRunning ==> refusal_says(
            on_attach,
            ErrorCode::ErrNotReady,
            "shell is not running"@,
            false,
        ),
        attaching.kind == SessionErrorKind::LimitExceeded ==> refusal_says(
            on_attach,
            ErrorCode::ErrLimitExceeded,
            "local attachment limit exceeded"@,
            true,
        ),
        attaching.kind == SessionErrorKind::Pty ==> refusal_says(
            on_attach,
            ErrorCode::ErrInternal,
            "local PTY operation failed"@,
            true,
        ),
        invalid == OpenValidationError::Invalid ==> refusal_says(
            on_check,
            ErrorCode::ErrUnknownMessage,
            "invalid shell request"@,
            false,
        ),
        invalid == OpenValidationError::Unauthenticated ==> refusal_says(
            on_check,
            ErrorCode::ErrUnauthenticated,
            "invalid connection grant"@,
            false,
        ),
        invalid == OpenValidationError::Forbidden ==> refusal_says(
            on_check,
            ErrorCode::ErrForbidden,
            "grant scope denied shell"@,
            false,
        ),
{
}

/// A link serves at most sixty-four streams at once; one that ends makes room for one.
pub proof fn streams_take_places(
    link: &mut RegisteredLink,
    taken: bool,
    ending: &mut RegisteredLink,
)
    requires
        call_ensures(RegisteredLink::accept_stream, (link,), taken),
        call_ensures(RegisteredLink::stream_ended, (ending,), ()),
        old(ending)@.streams > 0,
    ensures
        taken <==> old(link)@.streams < 64,
        taken ==> final(link)@.streams == old(link)@.streams + 1,
        !taken ==> final(link)@.streams == old(link)@.streams,
        final(link)@.server_id == old(link)@.server_id,
        final(link)@.limits == old(link)@.limits,
        final(ending)@.streams == old(ending)@.streams - 1,
        final(ending)@.server_id == old(ending)@.server_id,
{
}

/// A message belongs to a stream of a server where it names that server and some shell.
pub proof fn streams_name_server_and_shell(
    envelope: &Envelope,
    server_id: ServerId,
    r: Result<ShellId, AgentError>,
)
    requires
        call_ensures(validate_attachment_scope, (envelope, server_id), r),
    ensures
        envelope.server_id@ != server_id.0@ ==> (r matches Err(e) && e is ServerIdentityMismatch),
        envelope.server_id@ == server_id.0@ && envelope.shell_id@.len() != 16 ==> (r matches Err(
            e,
        ) && e is AttachmentIdentityMismatch),
        envelope.server_id@ == server_id.0@ && envelope.shell_id@.len() == 16 ==> (r matches Ok(id)
            && id.0@ == envelope.shell_id@),
{
}

/// Whether a step sends nothing.
pub open spec fn quiet(step: StreamStep) -> bool {
    step.replies@.len() == 0
}

/// Whether a step sends one error of a stream.
pub open spec fn refuses(
    step: StreamStep,
    request_id: u64,
    server: Seq<u8>,
    shell: Seq<u8>,
    code: ErrorCode,
    text: Seq<char>,
    retryable: bool,
) -> bool {
    step.replies@.len() == 1 && says(
        step.replies@[0],
        request_id,
        server,
        shell,
        code,
        text,
        retryable,
    )
}

/// A stream begins with a request to attach, which is carried out as it was made for the
/// shell that the stream names; what is refused ends the stream.
pub proof fn streams_begin_with_attach(
    first: Envelope,
    server_id: ServerId,
    key: &GrantVerifier,
    audience: &str,
    limits: AgentLimits,
    now_ms: i64,
    r: (StreamStep, Option<AttachmentStream>),
    scope: Result<ShellId, AgentError>,
    attach: AgentAttachShell,
    checked: Result<AttachmentAuthorization, OpenValidationError>,
)
    requires
        call_ensures(
            AttachmentStream::begin,
            (first, server_id, key, audience, limits, now_ms),
            r,
        ),
        call_ensures(validate_attachment_scope, (&first, server_id), scope),
        first.message matches Some(Message::AgentAttachShell(a)) ==> a == attach,
        call_ensures(
            validate_attach_request,
            (attach, key, audience, server_id, &limits, now_ms),
            checked,
        ),
    ensures
        r.1 is Some <==> scope is Ok,
        scope matches Err(e) ==> quiet(r.0) && r.0.next == StreamNext::Failed(e),
        r.1 matches Some(s) ==> s.server_id == server_id && s.shell_id.0@ == first.shell_id@
            && s.limits == limits && s.attachment_id is None,
        scope is Ok && !(first.message is Some && first.message->0 is AgentAttachShell) ==> refuses(
            r.0,
            first.request_id,
            server_id.0@,
            first.shell_id@,
            ErrorCode::ErrUnknownMessage,
            "attachment stream must begin with attach"@,
            false,
        ) && r.0.next == StreamNext::Failed(AgentError::UnexpectedAttachmentMessage),
        scope is Ok && first.message is Some && first.message->0 is AgentAttachShell ==> {
            &&& checked is Ok <==> r.0.next is Attach
            &&& checked is Err ==> r.0.next is Done && r.0.replies@.len() == 1
            &&& checked matches Ok(a) ==> {
                &&& quiet(r.0)
                &&& r.0.next matches StreamNext::Attach {
                    user_id,
                    shell_id,
                    cols,
                    rows,
                    expires_at_ms,
                }
                &&& user_id@ == attach.user_id@
                &&& shell_id.0@ == first.shell_id@
                &&& cols == attach.cols
                &&& rows == attach.rows
                &&& expires_at_ms == a.expires_at_ms
            }
            &&& checked matches Err(OpenValidationError::Forbidden) ==> refuses(
                r.0,
                first.request_id,
                server_id.0@,
                first.shell_id@,
                ErrorCode::ErrForbidden,
                "grant scope denied shell"@,
                false,
            )
        },
{
}

/// An attached shell is shown as it is, and is the one that is detached in the end; a
/// refusal ends the stream.
pub proof fn streams_show_the_attached_shell(
    stream: &mut AttachmentStream,
    request_id: u64,
    result: Result<Attachment, SessionError>,
    step: StreamStep,
    over: AttachmentStream,
    detach: Option<(ShellId, u64)>,
)
    requires
        call_ensures(AttachmentStream::attached, (stream, request_id, result), step),
        over == *final(stream),
        call_ensures(AttachmentStream::ended, (over,), detach),
    ensures
        result matches Ok(a) ==> {
            &&& detach == Some((old(stream).shell_id, a.attachment_id))
            &&& step.next is Continue
            &&& step.replies@.len() == 1
            &&& step.replies@[0].request_id == request_id
            &&& step.replies@[0].server_id@ == old(stream).server_id.0@
            &&& step.replies@[0].shell_id@ == old(stream).shell_id.0@
            &&& step.replies@[0].message == Some(
                Message::AgentShellAttached {
                    screen_snapshot: a.snapshot,
                    screen_revision: a.screen_revision,
                    oldest_history_line_id: a.oldest_history_line_id,
                    newest_history_line_id: a.newest_history_line_id,
                },
            )
        },
        result matches Err(e) ==> {
            &&& step.next is Done
            &&& old(stream).attachment_id is None ==> detach is None
            &&& e.kind == SessionErrorKind::ShellNotFound || e.kind == SessionErrorKind::Forbidden
                ==> refuses(
                step,
                request_id,
                old(stream).server_id.0@,
                old(stream).shell_id.0@,
                ErrorCode::ErrForbidden,
                "shell attachment denied"@,
                false,
            )
        },
        final(stream).shell_id == old(stream).shell_id,
        final(stream).server_id == old(stream).server_id,
        final(stream).limits == old(stream).limits,
{
}

/// What a stream carries is done to its own shell as it was asked, and within the
/// limits; a message for another server or shell ends it.
pub proof fn streams_carry_what_was_asked(
    stream: &AttachmentStream,
    envelope: Envelope,
    step: StreamStep,
)
    requires
        call_ensures(AttachmentStream::frame, (stream, envelope), step),
    ensures
        ({
            let server = stream.server_id.0@;
            let shell = stream.shell_id.0@;
            let id = envelope.request_id;
            let mine = envelope.server_id@ == server && envelope.shell_id@ == shell;
            &&& envelope.server_id@ != server ==> quiet(step) && step.next == StreamNext::Failed(
                AgentError::ServerIdentityMismatch,
            )
            &&& envelope.server_id@ == server && !mine ==> quiet(step) && step.next
                == StreamNext::Failed(AgentError::AttachmentIdentityMismatch)
            &&& mine ==> {
                &&& envelope.message matches Some(Message::TerminalInput { data }) ==> {
                    &&& data@.len() <= stream.limits.terminal_input_bytes_max ==> quiet(step)
                        && step.next == (StreamNext::WriteInput {
                        request_id: id,
                        shell_id: stream.shell_id,
                        data,
                    })
                    &&& data@.len() > stream.limits.terminal_input_bytes_max ==> step.next is Done
                        && refuses(
                        step,
                        id,
                        server,
                        shell,
                        ErrorCode::ErrInputOverflow,
                        "terminal input frame too large"@,
                        false,
                    )
                }
                &&& envelope.message matches Some(Message::TerminalResize { cols, rows }) ==> {
                    &&& cols <= 0xffff && rows <= 0xffff ==> quiet(step) && (
                    step.next matches StreamNext::Resize {
                        request_id,
                        shell_id,
                        cols: c,
                        rows: r,
                    } && request_id == id && shell_id == stream.shell_id && c == cols && r == rows)
                    &&& cols > 0xffff || rows > 0xffff ==> step.next is Done && refuses(
                        step,
                        id,
                        server,
                        shell,
                        ErrorCode::ErrUnknownMessage,
                        "invalid terminal dimensions"@,
                        false,
                    )
                }
                &&& envelope.message matches Some(
                    Message::RequestHistory { before_line_id, maximum_lines, maximum_bytes },
                ) ==> quiet(step) && (step.next matches StreamNext::ReadHistory {
                    request_id,
                    shell_id,
                    before_line_id: before,
                    maximum_lines: lines,
                    maximum_bytes: bytes,
                } && request_id == id && shell_id == stream.shell_id && before == before_line_id
                    && lines <= maximum_lines && lines <= stream.limits.history_lines_max && (lines
                    == maximum_lines || lines == stream.limits.history_lines_max) && bytes
                    <= maximum_bytes && 2 * bytes <= stream.limits.attachment_frame_bytes_max && (
                bytes == maximum_bytes || bytes == stream.limits.attachment_frame_bytes_max / 2))
                &&& envelope.message == Some(Message::DetachShell) ==> quiet(step) && step.next
                    is Done
                &&& envelope.message is None ==> step.next is Done && refuses(
                    step,
                    id,
                    server,
                    shell,
                    ErrorCode::ErrUnknownMessage,
                    "unexpected attachment message"@,
                    false,
                )
            }
        }),
{
    assert(stream.shell_id.0@.len() == 16);
}

/// What was done is not told, what was refused is, and ends the stream.
pub proof fn refused_operations_end_the_stream(
    stream: &AttachmentStream,
    request_id: u64,
    error: Option<SessionError>,
    step: StreamStep,
)
    requires
        call_ensures(AttachmentStream::operated, (stream, request_id, error), step),
    ensures
        error is None ==> quiet(step) && step.next is Continue,
        error is Some ==> step.next is Done && step.replies@.len() == 1,
        error matches Some(e) ==> e.kind == SessionErrorKind::NotRunning ==> refuses(
            step,
            request_id,
            stream.server_id.0@,
            stream.shell_id.0@,
            ErrorCode::ErrNotReady,
            "shell is not running"@,
            false,
        ),
{
}

/// Scrollback is sent as it was read, followed by the oldest line there is; where it
/// cannot be read the stream goes on.
pub proof fn streams_send_history(
    stream: &AttachmentStream,
    request_id: u64,
    result: Result<(HistoryRange, Option<u64>), SessionError>,
    step: StreamStep,
)
    requires
        call_ensures(AttachmentStream::history_read, (stream, request_id, result), step),
    ensures
        step.next is Continue,
        result is Err ==> step.replies@.len() == 1,
        result matches Ok((range, oldest)) ==> {
            &&& step.replies@.len() == 2
            &&& step.replies@[0].request_id == request_id
            &&& step.replies@[0].server_id@ == stream.server_id.0@
            &&& step.replies@[0].shell_id@ == stream.shell_id.0@
            &&& step.replies@[0].message == Some(
                Message::HistoryChunk {
                    first_line_id: range.first_line_id,
                    lines: range.lines,
                    truncated_by_eviction: range.truncated_by_eviction,
                },
            )
            &&& step.replies@[1].request_id == request_id
            &&& step.replies@[1].shell_id@ == stream.shell_id.0@
            &&& oldest matches Some(line) ==> step.replies@[1].message == Some(
                Message::HistoryEnd { oldest_available_line_id: line },
            )
            &&& oldest is None ==> step.replies@[1].message == Some(
                Message::HistoryEnd { oldest_available_line_id: 0 },
            )
        },
{
}

/// A shell's output is sent as it is, within the limit; its end is told and ends the
/// stream, as does a gateway that cannot keep up, and a grant that ran out.
pub proof fn streams_send_what_shells_do(
    stream: &AttachmentStream,
    event: Option<AttachmentEvent>,
    step: StreamStep,
    late: StreamStep,
)
    requires
        call_ensures(AttachmentStream::event, (stream, event), step),
        call_ensures(AttachmentStream::expired, (stream,), late),
    ensures
        event matches Some(AttachmentEvent::Output(data)) ==> {
            &&& data@.len() <= stream.limits.terminal_output_bytes_max ==> step.next is Continue
                && step.replies@.len() == 1 && step.replies@[0].request_id == 0
                && step.replies@[0].server_id@ == stream.server_id.0@ && step.replies@[0].shell_id@
                == stream.shell_id.0@ && step.replies@[0].message == Some(
                Message::TerminalOutput { data },
            )
            &&& data@.len() > stream.limits.terminal_output_bytes_max ==> quiet(step) && step.next
                == StreamNext::Failed(AgentError::OversizedTerminalOutput(data@.len() as usize))
        },
        event matches Some(AttachmentEvent::Exited(exit)) ==> {
            &&& step.next is Done
            &&& step.replies@.len() == 1
            &&& step.replies@[0].shell_id@ == stream.shell_id.0@
            &&& step.replies@[0].message matches Some(
                Message::ShellExited { exit_code, signaled, signal },
            )
            &&& exit.exit_code <= 0x7fff_ffff ==> exit_code == exit.exit_code
            &&& signaled <==> !exit.success && exit.exit_code == 0
            &&& signal@.len() == 0
        },
        event is None ==> step.next is Done && refuses(
            step,
            0,
            stream.server_id.0@,
            stream.shell_id.0@,
            ErrorCode::ErrTooSlow,
            "attachment output queue exceeded"@,
            true,
        ),
        late.next is Done && refuses(
            late,
            0,
            stream.server_id.0@,
            stream.shell_id.0@,
            ErrorCode::ErrTokenExpired,
            "connection grant expired"@,
            true,
        ),
{
}

/// A stream stays open for what is left of its grant.
pub proof fn streams_last_as_long_as_their_grant(expires_at_ms: i64, now_ms: i64, r: u64)
    requires
        call_ensures(remaining_ms, (expires_at_ms, now_ms), r),
    ensures
        expires_at_ms <= now_ms ==> r == 0,
        expires_at_ms > now_ms && expires_at_ms - now_ms <= 0x7fff_ffff_ffff_ffff ==> now_ms + r
            == expires_at_ms,
        expires_at_ms - now_ms > 0x7fff_ffff_ffff_ffff ==> r == 0x7fff_ffff_ffff_ffff,
{
}

/// How a link fares is told as it is, and so is what its grants must be bound to.
pub proof fn links_tell_how_they_fare(
    s: &AgentSupervisor,
    status: AgentStatus,
    snapshot: AgentStatusSnapshot,
    audience: &str,
)
    requires
        call_ensures(AgentSupervisor::status, (s,), status),
        call_ensures(AgentStatus::snapshot, (&status,), snapshot),
        call_ensures(AgentSupervisor::grant_audience, (s,), audience),
    ensures
        snapshot.connected == s@.status.connected,
        snapshot.registrations == s@.status.registrations,
        audience@ == s@.audience,
{
}

} // verus!
