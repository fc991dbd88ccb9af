//! Laws of how the client asks servers for what its interface wants, and of what it is
//! answered.

use vstd::prelude::*;
use vstd::string::*;
use vstd::utf8::*;

use crate::attachment::{PendingHistory, ReaderStep, WriterStep};
use crate::base64::encoded;
use crate::client::{AttachInfo, CoreEvent, HistoryPage, RemoteShell, ServerStatus, ShellStateEvent};
use crate::hex::hex_text;
use crate::opening::{
    forget, resume_pending, shell_event, Answered, Asked, Ended, Ending, OpenError, Opening, Resumed,
};
use crate::protocol::{Envelope, Message, ShellInfo, ShellState};
use crate::store::{Change, PendingOpen, ServerModel, ServerRecord, Store, StoreError, StoreModel};
use crate::supervisor::{
    full_method, grant_attempt, list_request, listed_shells, opened_shell, parse_key,
    plain,    refuse_unauthenticated, terminate_request, terminated_shell, Attach, AttachError, AttachStep,
    AuthMethod, CmdStep, Control, ControlError, ControlRequest, ControlStep, FailedStep,
    FailureAction, Live, PasswordRequired, RecoverStep, ReopenStep, ServerCmd, Supervisor, Tick,
    WriterCmd,
};

verus! {

/// While a server waits for a login whoever expects an answer is told so; the rest is
/// dropped.
pub proof fn logins_come_first(cmd: &ServerCmd, r: Option<&'static str>)
    requires
        call_ensures(refuse_unauthenticated, (cmd,), r),
    ensures
        cmd is Open || cmd is Attach || cmd is Terminate || cmd is History ==> (r matches Some(text)
            && text@ == "authentication required: log in to this server first"@),
        cmd is Input || cmd is Resize || cmd is Detach || cmd is Login ==> r is None,
{
}

/// A request waits under a number of its own until its answer comes, and is handed that
/// answer once; at most thirty-two wait.
pub proof fn answers_find_their_request(
    control: &mut Control,
    envelope: Envelope,
    sent: Option<Envelope>,
    waiting: &mut Control,
    reply: &Envelope,
    step: ControlStep,
    later: &mut Control,
    again: ControlStep,
)
    requires
        call_ensures(Control::request, (control, envelope), sent),
        old(waiting)@ == final(control)@,
        call_ensures(Control::received, (waiting, reply), step),
        old(later)@ == final(waiting)@,
        call_ensures(Control::received, (later, reply), again),
        !(reply.message matches Some(Message::Ping { .. })),
        !(reply.message matches Some(Message::Pong { .. })),
        reply.request_id == old(control)@.next_request,
        old(control)@.next_request < u64::MAX,
    ensures
        sent is Some <==> old(control)@.pending.len() < 32,
        sent matches Some(e) ==> {
            &&& e.request_id == old(control)@.next_request
            &&& e.message == envelope.message
            &&& e.server_id == envelope.server_id
            &&& e.shell_id == envelope.shell_id
            &&& step == (ControlStep::Deliver { request_id: e.request_id })
            &&& again == ControlStep::Nothing
        },
        sent is None ==> step == ControlStep::Nothing,
        final(control)@.next_request == old(control)@.next_request + 1,
{
}

/// A ping is answered with its own nonce, and the answer to one clears all that went
/// unanswered; an answer that nobody waits for is dropped.
pub proof fn pings_are_answered_on_both_sides(
    control: &mut Control,
    envelope: &Envelope,
    step: ControlStep,
)
    requires
        call_ensures(Control::received, (control, envelope), step),
    ensures
        envelope.message matches Some(Message::Ping { nonce }) ==> step == (ControlStep::SendPong {
            nonce,
        }) && final(control)@ == old(control)@,
        envelope.message matches Some(Message::Pong { .. }) ==> step == ControlStep::Nothing
            && final(control)@.outstanding_pings == 0
                && final(control)@.pending == old(control)@.pending,
        !(envelope.message is Some && (envelope.message->0 is Ping || envelope.message->0 is Pong))
            && !old(control)@.pending.contains(envelope.request_id) ==> step
            == ControlStep::Nothing,
{
}

/// After three pings without an answer a connection is dead, and not before; each ping
/// has a new number.
pub proof fn three_missed_pings_end_a_connection(
    a: &mut Control,
    first: Tick,
    b: &mut Control,
    second: Tick,
    c: &mut Control,
    third: Tick,
    d: &mut Control,
    fourth: Tick,
)
    requires
        old(a)@.outstanding_pings == 0,
        old(a)@.nonce < 0xffff_ffff_ffff_fff0,
        call_ensures(Control::tick, (a,), first),
        old(b)@ == final(a)@,
        call_ensures(Control::tick, (b,), second),
        old(c)@ == final(b)@,
        call_ensures(Control::tick, (c,), third),
        old(d)@ == final(c)@,
        call_ensures(Control::tick, (d,), fourth),
    ensures
        first == (Tick::SendPing { nonce: (old(a)@.nonce + 1) as u64 }),
        second == (Tick::SendPing { nonce: (old(a)@.nonce + 2) as u64 }),
        third == (Tick::SendPing { nonce: (old(a)@.nonce + 3) as u64 }),
        fourth == Tick::Dead,
        final(d)@.pending == old(a)@.pending,
{
}

/// A channel starts with nothing sent; requests are numbered from one.
pub proof fn channels_start_at_one(r: Control, next: u64)
    requires
        call_ensures(Control::new, (), r),
        call_ensures(Control::next_request, (&r,), next),
    ensures
        next == 1,
        r@.pending == Set::<u64>::empty(),
        r@.outstanding_pings == 0,
        r@.nonce == 0,
{
}

/// Requests say what they ask for.
pub proof fn requests_say_what_they_ask(list: Envelope, id: &[u8], end: Envelope)
    requires
        call_ensures(list_request, (), list),
        call_ensures(terminate_request, (id,), end),
    ensures
        list.message == Some(Message::ListShells),
        list.request_id == 0,
        end.message == Some(Message::TerminateShell),
        end.shell_id@ == id@,
        end.request_id == 0,
{
}

/// What a server answers is what the asker gets: the list, the shell with its token, or
/// how it ended; an error is handed on, and anything else is unexpected.
pub proof fn answers_are_handed_on(
    reply: Envelope,
    list: Result<Vec<ShellInfo>, ControlError>,
    opened: Result<(Vec<u8>, Vec<u8>), ControlError>,
    ended: Result<i32, ControlError>,
)
    requires
        call_ensures(listed_shells, (reply,), list),
        call_ensures(opened_shell, (reply,), opened),
        call_ensures(terminated_shell, (reply,), ended),
    ensures
        reply.message matches Some(Message::ShellList { shells }) ==> list == Ok::<
            Vec<ShellInfo>,
            ControlError,
        >(shells),
        reply.message matches Some(Message::ShellOpened { resume_token, .. }) ==> opened == Ok::<
            (Vec<u8>, Vec<u8>),
            ControlError,
        >((reply.shell_id, resume_token)),
        reply.message matches Some(Message::ShellExited { exit_code, .. }) ==> ended == Ok::<
            i32,
            ControlError,
        >(exit_code),
        reply.message matches Some(Message::Error { human_message, .. }) ==> {
            &&& list == Err::<Vec<ShellInfo>, ControlError>(
                ControlError::Refused { request: ControlRequest::List, text: human_message },
            )
            &&& opened == Err::<(Vec<u8>, Vec<u8>), ControlError>(
                ControlError::Refused { request: ControlRequest::Open, text: human_message },
            )
            &&& ended == Err::<i32, ControlError>(
                ControlError::Refused { request: ControlRequest::Terminate, text: human_message },
            )
        },
        reply.message is None ==> {
            &&& list == Err::<Vec<ShellInfo>, ControlError>(
                ControlError::Unexpected { request: ControlRequest::List },
            )
            &&& opened == Err::<(Vec<u8>, Vec<u8>), ControlError>(
                ControlError::Unexpected { request: ControlRequest::Open },
            )
            &&& ended == Err::<i32, ControlError>(
                ControlError::Unexpected { request: ControlRequest::Terminate },
            )
        },
{
}

/// What went wrong with a request is told in words.
pub proof fn request_errors_are_told(e: &ControlError, r: String)
    requires
        call_ensures(ControlError::text, (e,), r),
    ensures
        e matches ControlError::Refused { request: ControlRequest::List, text } ==> r@
            == "list failed: "@ + text@,
        e matches ControlError::Refused { request: ControlRequest::Open, text } ==> r@
            == "open failed: "@ + text@,
        e matches ControlError::Refused { request: ControlRequest::Terminate, text } ==> r@
            == "terminate failed: "@ + text@,
        e matches ControlError::Unexpected { request: ControlRequest::List } ==> r@
            == "unexpected reply to ListShells"@,
        e matches ControlError::Unexpected { request: ControlRequest::Open } ==> r@
            == "unexpected reply to OpenShell"@,
        e matches ControlError::Unexpected { request: ControlRequest::Terminate } ==> r@
            == "unexpected reply to TerminateShell"@,
        e is TooMany ==> r@ == "too many in-flight control requests"@,
        e is Closed ==> r@ == "control channel closed"@,
{
}

/// A remembered grant is tried as it was given; without one, a user logs in with a key
/// where one is known, with a password where none is, and nobody in particular logs in
/// with nothing.
pub proof fn logins_use_what_is_known(
    record: &ServerRecord,
    first: Option<AuthMethod>,
    password: Option<String>,
    full: Result<AuthMethod, PasswordRequired>,
    grant: Seq<u8>,
)
    requires
        call_ensures(grant_attempt, (record,), first),
        call_ensures(full_method, (record, password), full),
    ensures
        record.grant matches Some(g) ==> g@ == encoded(grant, false, true) ==> (
        first matches Some(AuthMethod::Grant(bytes)) && bytes@ == grant),
        record.grant is None ==> first is None,
        record.username is None ==> full == Ok::<AuthMethod, PasswordRequired>(AuthMethod::Dev),
        record.username is Some && record.ssh_key_path is Some ==> (full matches Ok(
            AuthMethod::SshKey { username, private_key_path },
        ) && username@ == record.username->0@ && private_key_path@ == record.ssh_key_path->0@),
        record.username is Some && record.ssh_key_path is None && password is Some ==> (
        full matches Ok(AuthMethod::Password { username, password: p }) && username@
            == record.username->0@ && p@ == password->0@),
        record.username is Some && record.ssh_key_path is None && password is None ==> full is Err,
{
    match record.grant {
        Some(g) => {
            if g@ == encoded(grant, false, true) {
                assert(crate::store::opt_view(record.grant) == Some(encoded(grant, false, true)));
                match first {
                    Some(AuthMethod::Grant(bytes)) => {
                        crate::base64::encoded_injective(bytes@, grant, false, true);
                    },
                    _ => {},
                }
            }
        },
        None => {},
    }
}

/// Pauses between attempts double from one second up to fifteen, and start again from
/// one after a success.
pub proof fn pauses_double_up_to_fifteen_seconds(
    fresh: Supervisor,
    s: &mut Supervisor,
    first: FailedStep,
    t: &mut Supervisor,
    second: FailedStep,
    u: &mut Supervisor,
    interval: u32,
    keepalive: u64,
)
    requires
        call_ensures(Supervisor::new, (), fresh),
        call_ensures(Supervisor::failed, (s, false, false, false), first),
        old(t)@ == final(s)@,
        call_ensures(Supervisor::failed, (t, false, false, false), second),
        old(u)@ == final(t)@,
        call_ensures(Supervisor::connected, (u, interval), keepalive),
    ensures
        fresh@.first,
        fresh@.backoff_ms == 1_000,
        fresh@.password is None,
        first == (FailedStep::Retry { pause_ms: old(s)@.backoff_ms }),
        2 * old(s)@.backoff_ms <= 15_000 ==> second == (FailedStep::Retry {
            pause_ms: (2 * old(s)@.backoff_ms) as u64,
        }),
        2 * old(s)@.backoff_ms > 15_000 ==> second == (FailedStep::Retry { pause_ms: 15_000 }),
        final(u)@.backoff_ms == 1_000,
        interval > 0 ==> keepalive == interval,
        interval == 0 ==> keepalive == 15_000,
{
}

/// A password serves one attempt: it is handed out with it and is gone; a failure with
/// one waits for another, and says why.
pub proof fn passwords_serve_one_attempt(
    s: &mut Supervisor,
    password: String,
    t: &mut Supervisor,
    given: (ServerStatus, Option<String>),
    u: &mut Supervisor,
    next: (ServerStatus, Option<String>),
    v: &mut Supervisor,
    with_password: bool,
    required: bool,
    abandoned: bool,
    step: FailedStep,
)
    requires
        call_ensures(Supervisor::login, (s, password), ()),
        old(t)@ == final(s)@,
        call_ensures(Supervisor::attempt, (t,), given),
        old(u)@ == final(t)@,
        call_ensures(Supervisor::attempt, (u,), next),
        call_ensures(Supervisor::failed, (v, with_password, required, abandoned), step),
    ensures
        given.1 == Some(password),
        next.1 is None,
        old(s)@.first ==> given.0 == ServerStatus::Connecting,
        !old(s)@.first ==> given.0 == ServerStatus::Reconnecting,
        next.0 == ServerStatus::Reconnecting,
        with_password ==> step == (FailedStep::AwaitLogin { explain: true }),
        required && !with_password ==> step == (FailedStep::AwaitLogin { explain: false }),
        !with_password && !required && abandoned ==> step == FailedStep::Stop,
{
}

/// A key is read from the digits that spell it.
pub proof fn keys_are_read_from_hexadecimal(text: &str, key: Seq<u8>, r: Option<[u8; 16]>)
    requires
        call_ensures(parse_key, (text,), r),
        text.spec_bytes() == encode_utf8(hex_text(key)),
    ensures
        key.len() == 16 ==> (r matches Some(k) && k@ == key),
        key.len() != 16 ==> r is None,
{
    crate::hex::unhex_of_hex(key);
}

/// Whether an event tells of a shell of a server.
pub open spec fn tells_of(
    event: CoreEvent,
    server: Seq<char>,
    shell: Seq<char>,
    state: ShellStateEvent,
    code: Option<i32>,
) -> bool {
    &&& event matches CoreEvent::ShellState { server: s, shell: h, state: t, exit_code }
    &&& s@ == server
    &&& h@ == shell
    &&& t == state
    &&& exit_code == code
}

/// What is asked of an attached shell is handed to its writer as it was asked; what is
/// asked of one that is not attached is dropped, or refused where an answer is expected.
pub proof fn commands_go_to_attached_shells(
    live: &mut Live,
    store: &Store,
    server_key: &str,
    cmd: ServerCmd,
    key: [u8; 16],
    step: CmdStep,
)
    requires
        call_ensures(Live::handle_cmd_with, (live, store, server_key, cmd, key), step),
    ensures
        cmd matches ServerCmd::Attach { shell_hex, cols, rows } ==> step == (CmdStep::Attach {
            shell_hex,
            cols,
            rows,
        }),
        cmd matches ServerCmd::Input { shell_hex, bytes } ==> {
            &&& old(live)@.contains(shell_hex@) ==> step == (CmdStep::Forward {
                shell_hex,
                cmd: WriterCmd::Input(bytes),
            })
            &&& !old(live)@.contains(shell_hex@) ==> step is Ignore
        },
        cmd matches ServerCmd::Resize { shell_hex, cols, rows } ==> {
            &&& old(live)@.contains(shell_hex@) ==> step == (CmdStep::Forward {
                shell_hex,
                cmd: WriterCmd::Resize(cols, rows),
            })
            &&& !old(live)@.contains(shell_hex@) ==> step is Ignore
        },
        cmd matches ServerCmd::History { shell_hex, before_line_id, max_lines } ==> {
            &&& old(live)@.contains(shell_hex@) ==> step == (CmdStep::Forward {
                shell_hex,
                cmd: WriterCmd::History { before_line_id, max_lines },
            })
            &&& !old(live)@.contains(shell_hex@) ==> (step matches CmdStep::Refuse { text } && text@
                == "shell is not attached"@)
        },
        cmd is Login ==> step is Ignore,
        cmd matches ServerCmd::Detach { shell_hex } ==> {
            &&& step matches CmdStep::Detached { shell_hex: gone, had_writer, event }
            &&& gone == shell_hex
            &&& had_writer <==> old(live)@.contains(shell_hex@)
            &&& tells_of(event, server_key@, shell_hex@, ShellStateEvent::Detached, None)
            &&& !final(live)@.contains(shell_hex@)
        },
        !(cmd is Detach) && !(cmd is Terminate) ==> final(live)@ == old(live)@,
{
    old(live).list_is_view();
}

/// A shell is ended by its identifier, and takes no commands from then on; what is no
/// identifier is refused.
pub proof fn shells_are_ended_by_identifier(
    live: &mut Live,
    store: &Store,
    server_key: &str,
    shell_hex: String,
    key: [u8; 16],
    step: CmdStep,
    id: Seq<u8>,
    other: Seq<char>,
)
    requires
        call_ensures(
            Live::handle_cmd_with,
            (live, store, server_key, ServerCmd::Terminate { shell_hex }, key),
            step,
        ),
        other != shell_hex@,
    ensures
        shell_hex@ == hex_text(id) ==> {
            &&& step matches CmdStep::Terminate { ending, request }
            &&& ending@.server_key == server_key@
            &&& ending@.shell_hex == shell_hex@
            &&& request.message == Some(Message::TerminateShell)
            &&& request.shell_id@ == id
            &&& !final(live)@.contains(shell_hex@)
        },
        final(live)@.contains(other) <==> old(live)@.contains(other),
{
    crate::hex::unhex_of_hex(id);
}

/// A shell is asked for with the key that is at hand, after that key was written with
/// its name, and with the columns and rows that were asked for; where it cannot be
/// written, nothing is sent and nothing is remembered.
pub proof fn keys_are_written_before_shells_are_asked_for(
    store: &Store,
    server_key: &str,
    key: [u8; 16],
    name: &str,
    cols: u16,
    rows: u16,
    r: Result<Opening, StoreError>,
    opening: Opening,
    remembered: &mut Store,
    written: bool,
    asked: Result<(Asked, Envelope), StoreError>,
)
    requires
        call_ensures(Opening::begin, (store, server_key, key, name, cols, rows), r),
        r matches Ok(o) ==> o == opening && old(remembered)@ == store@ && call_ensures(
            Opening::written,
            (opening, remembered, written),
            asked,
        ),
    ensures
        r is Ok <==> store@.servers.dom().contains(server_key@),
        r matches Err(e) ==> e == StoreError::UnknownServer,
        r is Ok && written ==> {
            &&& asked matches Ok((a, request))
            &&& request.request_id == 0
            &&& request.message matches Some(
                Message::OpenShell {
                    unix_account,
                    command,
                    initial_cols,
                    initial_rows,
                    idempotency_key,
                },
            )
            &&& unix_account@ == ""@
            &&& command@ == ""@
            &&& initial_cols == cols
            &&& initial_rows == rows
            &&& idempotency_key@ == key@
            &&& a@.server_key == server_key@
            &&& a@.key_hex == hex_text(key@)
            &&& final(remembered)@.servers[server_key@].pending_opens.len()
                == store@.servers[server_key@].pending_opens.len() + 1
            &&& final(remembered)@.servers[server_key@].pending_opens.last().idempotency_key
                == hex_text(key@)
            &&& final(remembered)@.servers[server_key@].pending_opens.last().name == name@
        },
        r is Ok && !written ==> asked == Err::<(Asked, Envelope), StoreError>(
            StoreError::NotWritten,
        ) && final(remembered)@ == store@,
{
}

/// A shell that a server opened is remembered with its token, its key and the time, and
/// whoever asked is told its identifier once that is written; one that it did not open is
/// noted no more.
pub proof fn opened_shells_are_remembered(
    asked: Asked,
    store: &Store,
    answer: Result<(Vec<u8>, Vec<u8>), ControlError>,
    now_ms: i64,
    answered: Answered,
    remembered: &mut Store,
    written: bool,
    r: Result<String, OpenError>,
)
    requires
        call_ensures(Asked::answered, (asked, store, answer, now_ms), answered),
        old(remembered)@ == store@,
        call_ensures(Answered::written, (answered, remembered, written), r),
    ensures
        ({
            let known = store@.servers.dom().contains(asked@.server_key);
            let after = final(remembered)@.servers[asked@.server_key];
            &&& answer matches Ok((id, token)) ==> {
                &&& !known ==> r == Err::<String, OpenError>(
                    OpenError::Store(StoreError::UnknownServer),
                )
                &&& known && !written ==> r == Err::<String, OpenError>(
                    OpenError::Store(StoreError::NotWritten),
                )
                &&& known && written ==> {
                    &&& r matches Ok(shell)
                    &&& shell@ == hex_text(id@)
                    &&& after.shells.dom().contains(shell@)
                    &&& after.shells[shell@].token == encoded(token@, false, true)
                    &&& after.shells[shell@].idempotency_key == Some(asked@.key_hex)
                    &&& after.shells[shell@].last_attached_at_ms == now_ms
                }
            }
            &&& answer matches Err(e) ==> r == Err::<String, OpenError>(OpenError::Control(e))
            &&& written && known ==> !crate::opening::lists_key(
                after.pending_opens,
                asked@.key_hex,
            )
            &&& !written || !known ==> final(remembered)@ == store@
            &&& forall|other: Seq<char>|
                other != asked@.server_key && #[trigger] store@.servers.dom().contains(other)
                    ==> final(remembered)@.servers[other] == store@.servers[other]
        }),
{
    crate::opening::answers_settle_opens(asked@, store@, answer, now_ms);
}

/// A shell that was noted before a restart is asked for again with its own key; one whose
/// key cannot be read is noted no more.
pub proof fn noted_shells_are_asked_for_again(
    store: &Store,
    server_key: &str,
    pending: &PendingOpen,
    key: Seq<u8>,
    r: Resumed,
)
    requires
        call_ensures(resume_pending, (store, server_key, pending), r),
    ensures
        key.len() == 16 && pending.idempotency_key@ == hex_text(key) ==> {
            &&& r matches Resumed::Ask { asked, request }
            &&& asked@.server_key == server_key@
            &&& asked@.key_hex == pending.idempotency_key@
            &&& request.message matches Some(Message::OpenShell { idempotency_key, .. })
            &&& idempotency_key@ == key
        },
        key.len() != 16 && pending.idempotency_key@ == hex_text(key) ==> (
        r matches Resumed::Drop { change } && (change is Some <==> store@.servers.dom().contains(
            server_key@,
        ))),
{
    crate::hex::unhex_of_hex(key);
}

/// A shell is forgotten, and the interface told how it ended, only where the server ended
/// it; whoever asked is told the answer.
pub proof fn shells_are_forgotten_once_ended(
    server_key: &str,
    shell_hex: &str,
    ending: Ending,
    store: &Store,
    answer: Result<i32, ControlError>,
    r: Ended,
)
    requires
        call_ensures(Ending::begin, (server_key, shell_hex), ending),
        call_ensures(Ending::answered, (ending, store, answer), r),
    ensures
        answer matches Ok(code) ==> {
            &&& r.event matches Some(event)
            &&& tells_of(event, server_key@, shell_hex@, ShellStateEvent::Exited, Some(code))
            &&& r.change is Some <==> store@.servers.dom().contains(server_key@)
            &&& r.change matches Some(c) ==> !c@.servers[server_key@].shells.dom().contains(
                shell_hex@,
            )
        },
        answer is Err ==> r.change is None && r.event is None,
        r.reply == answer,
{
}

/// Attaching uses what is remembered of the shell: its identifier, its token, and the key
/// that recovers it.
pub proof fn attaching_uses_what_is_remembered(
    store: &Store,
    server_key: &str,
    shell_hex: &str,
    r: Result<Attach, AttachError>,
    id: Seq<u8>,
    token: Seq<u8>,
)
    requires
        call_ensures(Attach::begin, (store, server_key, shell_hex), r),
        shell_hex@ == hex_text(id),
    ensures
        ({
            let known = store@.servers.dom().contains(server_key@)
                && store@.servers[server_key@].shells.dom().contains(shell_hex@);
            let shell = store@.servers[server_key@].shells[shell_hex@];
            &&& !known ==> r == Err::<Attach, AttachError>(AttachError::NoStoredShell)
            &&& known && shell.token == encoded(token, false, true) ==> {
                &&& r matches Ok(a)
                &&& a@.server_key == server_key@
                &&& a@.shell_hex == shell_hex@
                &&& a@.shell_id == id
                &&& a@.token == token
                &&& !a@.recovered
                &&& shell.idempotency_key is None ==> a@.recovery_key is None
            }
        }),
{
    crate::hex::unhex_of_hex(id);
    if r is Ok {
        let a = r->Ok_0;
        let shell = store@.servers[server_key@].shells[shell_hex@];
        if shell.token == encoded(token, false, true) {
            crate::base64::encoded_injective(a@.token, token, false, true);
        }
    }
}

/// A shell that is attached keeps its new token, where its server is remembered.
pub proof fn rotated_tokens_are_kept(
    attach: &Attach,
    store: &Store,
    token: &[u8],
    now_ms: i64,
    r: Option<Change>,
)
    requires
        call_ensures(Attach::succeeded, (attach, store, token, now_ms), r),
    ensures
        r is Some <==> store@.servers.dom().contains(attach@.server_key),
        r matches Some(c) ==> {
            let before = store@.servers[attach@.server_key].shells;
            let after = c@.servers[attach@.server_key].shells;
            before.dom().contains(attach@.shell_hex) ==> {
                &&& after[attach@.shell_hex].token == encoded(token@, false, true)
                &&& after[attach@.shell_hex].last_attached_at_ms == now_ms
                &&& after[attach@.shell_hex].name == before[attach@.shell_hex].name
                &&& after[attach@.shell_hex].idempotency_key
                    == before[attach@.shell_hex].idempotency_key
            }
        },
{
}

/// A failure that passes changes nothing; a shell that is gone is forgotten and said to
/// have ended; and a token that was used elsewhere is recovered, once.
pub proof fn failures_to_attach_are_dealt_with(
    attach: &mut Attach,
    store: &Store,
    action: FailureAction,
    r: AttachStep,
    may: bool,
)
    requires
        call_ensures(Attach::failed, (attach, store, action), r),
        call_ensures(Attach::can_recover, (&*final(attach),), may),
    ensures
        action is Retry || action is ExitKeepToken
            ==> r is GiveUp && final(attach)@ == old(attach)@,
        action is ForgetAndExit ==> {
            &&& r matches AttachStep::Forget { change, event }
            &&& tells_of(
                event,
                old(attach)@.server_key,
                old(attach)@.shell_hex,
                ShellStateEvent::Exited,
                None,
            )
            &&& change is Some <==> store@.servers.dom().contains(old(attach)@.server_key)
            &&& change matches Some(c)
                ==> !c@.servers[old(attach)@.server_key].shells.dom().contains(old(attach)@.shell_hex)
        },
        action is RecoverViaIdempotency ==> {
            &&& r matches AttachStep::Recover { request }
            &&& request.message == Some(Message::ListShells)
            &&& !may
        },
{
}

/// Only a shell that still runs is opened again, with its own key; one that does not is
/// forgotten and said to be lost.
pub proof fn only_running_shells_are_recovered(
    attach: &Attach,
    store: &Store,
    shells: &Vec<RemoteShell>,
    r: RecoverStep,
    i: int,
)
    requires
        call_ensures(Attach::listed, (attach, store, shells), r),
        attach@.recovery_key is Some,
    ensures
        0 <= i < shells@.len() && shells@[i].shell_id@ == attach@.shell_id && shells@[i].state
            == Some(ShellState::Running) ==> (r matches RecoverStep::Reopen { request }
            && request.message matches Some(Message::OpenShell { idempotency_key, .. })
            && Some(idempotency_key@) == attach@.recovery_key),
        (forall|k: int|
            0 <= k < shells@.len() ==> !((#[trigger] shells@[k]).shell_id@ == attach@.shell_id
                && shells@[k].state == Some(ShellState::Running))) ==> {
            &&& r matches RecoverStep::NotRunning { change, event }
            &&& tells_of(
                event,
                attach@.server_key,
                attach@.shell_hex,
                ShellStateEvent::Orphaned,
                None,
            )
            &&& change is Some <==> store@.servers.dom().contains(attach@.server_key)
            &&& change matches Some(c) ==> !c@.servers[attach@.server_key].shells.dom().contains(
                hex_text(attach@.shell_id),
            )
        },
{
}

/// A recovered shell is attached with its new token; another one in its place is never
/// adopted, but ended.
pub proof fn other_shells_are_not_adopted(
    attach: &mut Attach,
    store: &Store,
    id: &[u8],
    token: &[u8],
    now_ms: i64,
    r: ReopenStep,
)
    requires
        call_ensures(Attach::reopened, (attach, store, id, token, now_ms), r),
    ensures
        id@ == old(attach)@.shell_id ==> {
            &&& r is Attach
            &&& final(attach)@.token == token@
            &&& final(attach)@.shell_id == id@
        },
        id@ != old(attach)@.shell_id ==> {
            &&& r matches ReopenStep::Different { request, event }
            &&& request.message == Some(Message::TerminateShell)
            &&& request.shell_id@ == id@
            &&& tells_of(
                event,
                old(attach)@.server_key,
                old(attach)@.shell_hex,
                ShellStateEvent::Orphaned,
                None,
            )
            &&& final(attach)@ == old(attach)@
        },
{
}

/// A shell takes commands once it is attached, and no sooner; the interface is told, and
/// whoever asked gets what attaching gave.
pub proof fn attached_shells_are_live(
    live: &mut Live,
    server_key: &str,
    shell_hex: &str,
    result: Result<AttachInfo, String>,
    r: (Option<CoreEvent>, Result<AttachInfo, String>),
    is_live: bool,
    other: Seq<char>,
)
    requires
        call_ensures(Live::attach_ended, (live, server_key, shell_hex, result), r),
        call_ensures(Live::is_live, (&*final(live), shell_hex), is_live),
        other != shell_hex@,
    ensures
        r.1 == result,
        result is Ok ==> is_live && (r.0 matches Some(event) && tells_of(
            event,
            server_key@,
            shell_hex@,
            ShellStateEvent::Attached,
            None,
        )),
        result is Err ==> r.0 is None && final(live)@ == old(live)@,
        final(live)@.contains(other) <==> old(live)@.contains(other),
{
}

/// A shell that is gone takes no commands, and the others still do; at first none does.
pub proof fn gone_shells_take_no_commands(
    fresh: Live,
    live: &mut Live,
    shell_hex: &str,
    other: Seq<char>,
)
    requires
        call_ensures(Live::new, (), fresh),
        call_ensures(Live::gone, (live, shell_hex), ()),
        other != shell_hex@,
    ensures
        !fresh@.contains(other),
        !final(live)@.contains(shell_hex@),
        final(live)@.contains(other) <==> old(live)@.contains(other),
{
}

/// What the writer of an attachment is handed is written as it is; at most four requests
/// for history wait.
pub proof fn writers_write_what_they_are_handed(
    pending: &mut PendingHistory,
    cmd: WriterCmd,
    asker: u64,
    r: WriterStep,
)
    requires
        call_ensures(PendingHistory::command, (pending, cmd, asker), r),
    ensures
        cmd matches WriterCmd::Input(bytes) ==> r == WriterStep::Input(bytes),
        cmd matches WriterCmd::Resize(cols, rows) ==> r == WriterStep::Resize(cols, rows),
        cmd is Detach ==> r is Detach,
        cmd matches WriterCmd::History { before_line_id, max_lines } ==> {
            &&& old(pending)@.waiting.len() < 4 ==> r == (WriterStep::RequestHistory {
                before_line_id,
                max_lines,
            }) && final(pending)@.waiting == old(pending)@.waiting.push(asker)
            &&& old(pending)@.waiting.len() >= 4
                ==> r is RefuseHistory && final(pending)@ == old(pending)@
        },
        !(cmd is History) ==> final(pending)@ == old(pending)@,
{
}

/// Lines of history go to whoever has waited longest, as they came; their end answers
/// nobody again, and an end without lines answers with none.
pub proof fn history_goes_to_the_longest_waiting(
    pending: &mut PendingHistory,
    lines: Vec<String>,
    first_line_id: u64,
    truncated: bool,
    r: ReaderStep,
    then_pending: &mut PendingHistory,
    oldest: u64,
    ended: ReaderStep,
    empty: &mut PendingHistory,
    bare: ReaderStep,
)
    requires
        old(pending)@.waiting.len() > 0,
        !old(pending)@.answered,
        call_ensures(
            PendingHistory::message,
            (
                pending,
                Some(
                    Message::HistoryChunk {
                        first_line_id,
                        lines,
                        truncated_by_eviction: truncated,
                    },
                ),
            ),
            r,
        ),
        old(then_pending)@ == final(pending)@,
        call_ensures(
            PendingHistory::message,
            (then_pending, Some(Message::HistoryEnd { oldest_available_line_id: oldest })),
            ended,
        ),
        old(empty)@ == old(pending)@,
        call_ensures(
            PendingHistory::message,
            (empty, Some(Message::HistoryEnd { oldest_available_line_id: oldest })),
            bare,
        ),
    ensures
        r == (ReaderStep::History {
            asker: old(pending)@.waiting[0],
            page: HistoryPage { lines, first_line_id, truncated_by_eviction: truncated },
        }),
        ended is Nothing,
        final(then_pending)@.waiting == old(pending)@.waiting.skip(1),
        !final(then_pending)@.answered,
        bare matches ReaderStep::History { asker, page } && asker == old(pending)@.waiting[0]
            && page.lines@.len() == 0 && page.first_line_id == 0 && !page.truncated_by_eviction,
        final(empty)@.waiting == old(pending)@.waiting.skip(1),
{
}

/// A shell's output reaches the terminal as it is, a ping is answered, and the shell's
/// end is told with its code; none of them concerns history.
pub proof fn readers_hand_on_what_comes(
    pending: &mut PendingHistory,
    message: Option<Message>,
    r: ReaderStep,
)
    requires
        call_ensures(PendingHistory::message, (pending, message), r),
    ensures
        message matches Some(Message::TerminalOutput { data }) ==> r == ReaderStep::Output(data)
            && final(pending)@ == old(pending)@,
        message matches Some(Message::Ping { nonce })
            ==> r == ReaderStep::Pong(nonce) && final(pending)@ == old(pending)@,
        message matches Some(Message::ShellExited { exit_code, .. }) ==> r == ReaderStep::Exited(
            exit_code,
        ) && final(pending)@ == old(pending)@,
        message is None ==> r is Nothing && final(pending)@ == old(pending)@,
        message matches Some(Message::HistoryChunk { .. }) && old(pending)@.waiting.len() == 0
            ==> r is Nothing,
{
}

/// An event tells of what it was made for, and a shell is forgotten where its server is
/// remembered.
pub proof fn events_tell_of_their_shell(
    server_key: &str,
    shell_hex: &str,
    state: ShellStateEvent,
    code: Option<i32>,
    event: CoreEvent,
    store: &Store,
    r: Option<Change>,
    other: Seq<char>,
)
    requires
        call_ensures(shell_event, (server_key, shell_hex, state, code), event),
        call_ensures(forget, (store, server_key, shell_hex), r),
        other != shell_hex@,
    ensures
        tells_of(event, server_key@, shell_hex@, state, code),
        r is Some <==> store@.servers.dom().contains(server_key@),
        r matches Some(c) ==> !c@.servers[server_key@].shells.dom().contains(shell_hex@) && (
        c@.servers[server_key@].shells.dom().contains(other)
            <==> store@.servers[server_key@].shells.dom().contains(other)),
{
}

/// No history is asked for at first.
pub proof fn histories_start_empty(r: PendingHistory)
    requires
        call_ensures(PendingHistory::new, (), r),
    ensures
        r@.waiting.len() == 0,
        !r@.answered,
{
}

/// An attempt to attach shows its shell and its token, and what is told where it is lost.
pub proof fn attempts_show_their_shell(
    attach: &Attach,
    id: &Vec<u8>,
    token: &Vec<u8>,
    lost: CoreEvent,
    may: bool,
)
    requires
        call_ensures(Attach::shell_id, (attach,), id),
        call_ensures(Attach::token, (attach,), token),
        call_ensures(Attach::lost, (attach,), lost),
        call_ensures(Attach::can_recover, (attach,), may),
    ensures
        id@ == attach@.shell_id,
        token@ == attach@.token,
        tells_of(lost, attach@.server_key, attach@.shell_hex, ShellStateEvent::Orphaned, None),
        may <==> attach@.recovery_key is Some && !attach@.recovered,
{
}

/// A plain message belongs to nothing.
pub proof fn plain_messages_belong_to_nothing(message: Message, r: Envelope)
    requires
        call_ensures(plain, (message,), r),
    ensures
        r.request_id == 0,
        r.server_id@.len() == 0,
        r.shell_id@.len() == 0,
        r.message == Some(message),
{
}

/// A new shell is noted with the key at hand, the name and the size that were asked for;
/// where the server is not known nothing is sent.
pub proof fn new_shells_are_noted_first(
    live: &mut Live,
    store: &Store,
    server_key: &str,
    name: String,
    cols: u16,
    rows: u16,
    key: [u8; 16],
    step: CmdStep,
)
    requires
        call_ensures(
            Live::handle_cmd_with,
            (live, store, server_key, ServerCmd::Open { name, cols, rows }, key),
            step,
        ),
    ensures
        store@.servers.dom().contains(server_key@) ==> {
            &&& step matches CmdStep::Open(opening)
            &&& opening@.server_key == server_key@
            &&& opening@.key == key@
            &&& opening@.cols == cols
            &&& opening@.rows == rows
            &&& opening@.base == store@
            &&& opening@.change.servers[server_key@].pending_opens.last().name == name@
            &&& opening@.change.servers[server_key@].pending_opens.last().idempotency_key
                == hex_text(key@)
        },
        !store@.servers.dom().contains(server_key@) ==> (step matches CmdStep::RefuseOpen(e) && e
            == StoreError::UnknownServer),
        final(live)@ == old(live)@,
{
}

/// What is no identifier cannot be ended or attached to.
pub proof fn malformed_identifiers_are_refused(
    live: &mut Live,
    store: &Store,
    server_key: &str,
    shell_hex: String,
    key: [u8; 16],
    step: CmdStep,
    shown: &str,
    r: Result<Attach, AttachError>,
)
    requires
        call_ensures(
            Live::handle_cmd_with,
            (live, store, server_key, ServerCmd::Terminate { shell_hex }, key),
            step,
        ),
        shown@ == shell_hex@,
        call_ensures(Attach::begin, (store, server_key, shown), r),
        encode_utf8(shell_hex@).len() % 2 == 1,
    ensures
        step matches CmdStep::Refuse { text } && text@ == "malformed shell id"@,
        final(live)@ == old(live)@,
        store@.servers.dom().contains(server_key@)
            && store@.servers[server_key@].shells.dom().contains(shell_hex@) ==> r == Err::<
            Attach,
            AttachError,
        >(AttachError::MalformedShellId),
{
}

/// A token that is no base64 is said to be corrupt.
pub proof fn corrupt_tokens_are_told(
    store: &Store,
    server_key: &str,
    shell_hex: &str,
    r: Result<Attach, AttachError>,
    id: Seq<u8>,
)
    requires
        call_ensures(Attach::begin, (store, server_key, shell_hex), r),
        shell_hex@ == hex_text(id),
        store@.servers.dom().contains(server_key@),
        store@.servers[server_key@].shells.dom().contains(shell_hex@),
        forall|token: Seq<u8>|
            store@.servers[server_key@].shells[shell_hex@].token != #[trigger] encoded(
                token,
                false,
                true,
            ),
    ensures
        r == Err::<Attach, AttachError>(AttachError::CorruptToken),
{
    crate::hex::unhex_of_hex(id);
}

} // verus!
