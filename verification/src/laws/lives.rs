//! Laws of the life of a server in the client, and of handing links to an application.

use vstd::prelude::*;
use vstd::string::*;
use vstd::utf8::*;

use crate::base64::encoded;
use crate::client::{CoreEvent, RemoteShell, ServerStatus};
use crate::dockerwm::{
    check_descriptor, check_descriptor_file, checked_url, handoff_request, judge_response,
    open_in_running_desktop, parse_descriptor, read_response, Descriptor, Handoff, HandoffError,
};
use crate::hex::hex_text;
use crate::lifecycle::{Happened, Life, LifeStep, PhaseView, Work};
use crate::store::{ServerModel, Store};
use crate::supervisor::AuthMethod;
use crate::text::decimal_nat;

verus! {

/// Whether an event shows the status of a server, with a reason or without.
pub open spec fn shows(
    event: CoreEvent,
    server: Seq<char>,
    status: ServerStatus,
    reason: Option<Seq<char>>,
) -> bool {
    &&& event matches CoreEvent::ServerStatus { server: s, status: t, detail }
    &&& s@ == server
    &&& t == status
    &&& detail is Some <==> reason is Some
    &&& detail matches Some(text) ==> Some(text@) == reason
}

proof fn shown_are_views(r: LifeStep)
    ensures
        crate::lifecycle::event_views(r.shown@).len() == r.shown@.len(),
        forall|i: int|
            0 <= i < r.shown@.len() ==> (#[trigger] r.shown@[i])@
                == crate::lifecycle::event_views(r.shown@)[i],
{
}

/// A server starts with nothing tried, and a first pause of a second.
pub proof fn lives_start_afresh(server_key: &str, r: Life)
    requires
        call_ensures(Life::new, (server_key,), r),
    ensures
        r@.server_key == server_key@,
        r@.first,
        r@.backoff_ms == 1_000,
        r@.password is None,
        r@.phase is Fresh,
{
}

/// Whether an attempt is due: the first one, the one after a pause, the one with a
/// password that was waited for, or the one after a connection was lost.
pub open spec fn is_due(phase: PhaseView, happened: Happened) -> bool {
    ||| (phase is Fresh || phase is Pause) && happened is Due
    ||| phase is Login && happened is Login
    ||| phase is Serving && happened is Died
    ||| phase is Settling && happened == (Happened::Listed { shells: None })
}

/// An attempt shows that it is made and connects to the server's own address: first with
/// the remembered grant as it was given, otherwise with the user's key, otherwise with
/// the password that was given, and with nothing where no user is known.
pub proof fn attempts_connect_with_what_is_known(
    life: &mut Life,
    store: &Store,
    happened: Happened,
    abandoned: bool,
    r: LifeStep,
    grant: Seq<u8>,
)
    requires
        call_ensures(Life::step, (life, store, happened, abandoned), r),
        is_due(old(life)@.phase, happened),
        store@.servers.dom().contains(old(life)@.server_key),
    ensures
        ({
            let server = store@.servers[old(life)@.server_key];
            let password = if happened is Login {
                Some(happened->Login_password@)
            } else {
                old(life)@.password
            };
            let granted = server.grant == Some(encoded(grant, false, true));
            &&& r.shown@.len() > 0
            &&& old(life)@.first ==> shows(
                r.shown@[0],
                old(life)@.server_key,
                ServerStatus::Connecting,
                None,
            )
            &&& !old(life)@.first ==> shows(
                r.shown@[0],
                old(life)@.server_key,
                ServerStatus::Reconnecting,
                None,
            )
            &&& granted ==> r.shown@.len() == 1 && (r.work matches Work::Connect { url, method }
                && url@ == server.url && (method matches AuthMethod::Grant(bytes) && bytes@
                == grant))
            &&& server.grant is None && server.username is None ==> (r.work matches Work::Connect {
                url,
                method,
            } && url@ == server.url && method is Dev)
            &&& server.grant is None && server.username is Some && server.ssh_key_path is Some ==> (
            r.work matches Work::Connect { url, method } && url@ == server.url && (
            method matches AuthMethod::SshKey { username, private_key_path } && Some(username@)
                == server.username && Some(private_key_path@) == server.ssh_key_path))
            &&& server.grant is None && server.username is Some && server.ssh_key_path is None
                && password is Some ==> (r.work matches Work::Connect { url, method } && url@
                == server.url && (method matches AuthMethod::Password { username, password: p }
                && Some(username@) == server.username && Some(p@) == password))
            &&& server.grant is None && server.username is Some && server.ssh_key_path is None
                && password is None ==> r.work is AwaitLogin && r.shown@.len() == 2 && shows(
                r.shown@[1],
                old(life)@.server_key,
                ServerStatus::AuthRequired,
                None,
            )
            &&& final(life)@.password is None
            &&& !final(life)@.first
        }),
{
    shown_are_views(r);
    let server = store@.servers[old(life)@.server_key];
    if server.grant == Some(encoded(grant, false, true)) {
        assert(crate::lifecycle::is_grant(server, grant));
        let chosen = choose|g: Seq<u8>| crate::lifecycle::is_grant(server, g);
        crate::base64::encoded_injective(chosen, grant, false, true);
    }
    if server.grant is None {
        assert forall|g: Seq<u8>| !#[trigger] crate::lifecycle::is_grant(server, g) by {}
    }
}

/// A server that is not remembered any more is said to be removed, and is tried again
/// after a pause, unless nobody wants it.
pub proof fn removed_servers_are_not_connected_to(
    life: &mut Life,
    store: &Store,
    happened: Happened,
    r: LifeStep,
    abandoned: bool,
)
    requires
        call_ensures(Life::step, (life, store, happened, abandoned), r),
        is_due(old(life)@.phase, happened),
        !(happened is Login),
        old(life)@.password is None,
        !store@.servers.dom().contains(old(life)@.server_key),
    ensures
        r.shown@.len() == 2,
        shows(
            r.shown@[1],
            old(life)@.server_key,
            ServerStatus::Reconnecting,
            Some("server removed from store"@),
        ),
        abandoned ==> r.work is Stop && final(life)@.phase is Stopped,
        !abandoned ==> (r.work matches Work::Pause { ms } && ms == old(life)@.backoff_ms)
            && final(life)@.phase is Pause,
{
    shown_are_views(r);
}

/// A refused grant is followed by the full login, and nothing is said of it.
pub proof fn refused_grants_are_followed_by_a_login(
    life: &mut Life,
    store: &Store,
    text: String,
    abandoned: bool,
    r: LifeStep,
    full: crate::lifecycle::MethodView,
    address: Seq<char>,
    with_password: bool,
)
    requires
        call_ensures(Life::step, (life, store, Happened::Failed { text }, abandoned), r),
        old(life)@.phase == (PhaseView::Grant { url: address, full: Some(full), with_password }),
    ensures
        r.shown@.len() == 0,
        r.work matches Work::Connect { url, method } && url@ == address && method@ == full,
        final(life)@.phase == (PhaseView::Full { with_password }),
{
    shown_are_views(r);
}

/// A login that failed with a password waits for another, and says why; one that failed
/// without is tried again after a pause, which doubles up to fifteen seconds, unless
/// nobody wants the server.
pub proof fn failed_logins_wait_or_pause(
    life: &mut Life,
    store: &Store,
    text: String,
    abandoned: bool,
    r: LifeStep,
    with_password: bool,
)
    requires
        call_ensures(Life::step, (life, store, Happened::Failed { text }, abandoned), r),
        old(life)@.phase == (PhaseView::Full { with_password }),
    ensures
        r.shown@.len() == 1,
        with_password ==> r.work is AwaitLogin && final(life)@.phase is Login && shows(
            r.shown@[0],
            old(life)@.server_key,
            ServerStatus::AuthRequired,
            Some(text@),
        ),
        !with_password ==> shows(
            r.shown@[0],
            old(life)@.server_key,
            ServerStatus::Reconnecting,
            Some(text@),
        ),
        !with_password && abandoned ==> r.work is Stop && final(life)@.phase is Stopped,
        !with_password && !abandoned ==> {
            &&& r.work matches Work::Pause { ms }
            &&& ms == old(life)@.backoff_ms
            &&& final(life)@.phase is Pause
            &&& 2 * ms <= 15_000 ==> final(life)@.backoff_ms == 2 * ms
            &&& 2 * ms > 15_000 ==> final(life)@.backoff_ms == 15_000
        },
{
    shown_are_views(r);
}

/// A grant that a server gave is kept with it, where the server is remembered; pings go
/// as often as the server says, or every fifteen seconds; and the next pause is a second
/// again.
pub proof fn new_grants_are_kept(
    life: &mut Life,
    store: &Store,
    grant: Vec<u8>,
    keepalive_interval_ms: u32,
    abandoned: bool,
    r: LifeStep,
)
    requires
        call_ensures(
            Life::step,
            (life, store, Happened::Accepted { grant, keepalive_interval_ms }, abandoned),
            r,
        ),
        old(life)@.phase is Grant || old(life)@.phase is Full,
    ensures
        final(life)@.backoff_ms == 1_000,
        store@.servers.dom().contains(old(life)@.server_key) ==> {
            let server = store@.servers[old(life)@.server_key];
            &&& r.shown@.len() == 0
            &&& r.work matches Work::Keep { change }
            &&& grant@.len() > 0 ==> change@.servers[old(life)@.server_key] == (ServerModel {
                grant: Some(encoded(grant@, false, true)),
                ..server
            })
            &&& grant@.len() == 0 ==> change@.servers[old(life)@.server_key] == server
            &&& final(life)@.phase matches PhaseView::Keeping { keepalive_ms }
            &&& keepalive_interval_ms > 0 ==> keepalive_ms == keepalive_interval_ms
            &&& keepalive_interval_ms == 0 ==> keepalive_ms == 15_000
        },
        !store@.servers.dom().contains(old(life)@.server_key) ==> {
            &&& r.work is Settle
            &&& r.shown@.len() == 1
            &&& r.shown@[0] matches CoreEvent::StoreWarning { message }
            &&& message@ == "persist grant: "@ + "unknown server"@
        },
{
    shown_are_views(r);
}

/// A grant that could not be kept is a warning and no more: the connection goes on, with
/// the pings as agreed.
pub proof fn unkept_grants_are_warned_of(
    life: &mut Life,
    store: &Store,
    failure: Option<String>,
    abandoned: bool,
    r: LifeStep,
    keepalive: u64,
)
    requires
        call_ensures(Life::step, (life, store, Happened::Kept { failure }, abandoned), r),
        old(life)@.phase == (PhaseView::Keeping { keepalive_ms: keepalive }),
    ensures
        r.work matches Work::Settle { keepalive_ms } && keepalive_ms == keepalive,
        final(life)@.phase is Settling,
        failure is None ==> r.shown@.len() == 0,
        failure matches Some(text) ==> r.shown@.len() == 1 && (
        r.shown@[0] matches CoreEvent::StoreWarning { message } && message@ == "persist grant: "@
            + text@),
{
    shown_are_views(r);
}

/// A server is shown as connected once its shells were listed, after the list, in which
/// every shell stands with what is remembered of it.
pub proof fn connections_are_shown_with_their_shells(
    life: &mut Life,
    store: &Store,
    shells: Vec<RemoteShell>,
    abandoned: bool,
    r: LifeStep,
    i: int,
)
    requires
        call_ensures(
            Life::step,
            (life, store, Happened::Listed { shells: Some(shells) }, abandoned),
            r,
        ),
        old(life)@.phase is Settling,
    ensures
        r.work is Serve,
        final(life)@.phase is Serving,
        r.shown@.len() == 2,
        shows(r.shown@[1], old(life)@.server_key, ServerStatus::Connected, None),
        r.shown@[0] matches CoreEvent::ShellsUpdated { server, shells: rows }
            && server@ == old(life)@.server_key && rows@.len() == shells@.len()
            && (0 <= i < shells@.len() ==> rows@[i].shell@
            == hex_text(shells@[i].shell_id@) && (store@.servers.dom().contains(
            old(life)@.server_key,
        ) ==> (rows@[i].has_token
            <==> store@.servers[old(life)@.server_key].shells.dom().contains(rows@[i].shell@)))),
{
    shown_are_views(r);
    match r.shown@[0] {
        CoreEvent::ShellsUpdated { shells: rows, .. } => {
            let views = crate::lifecycle::row_views(rows@);
            assert(views.len() == rows@.len());
            let known = crate::lifecycle::known_shells(store@, old(life)@.server_key);
            let expected = Seq::new(
                shells@.len(),
                |k: int| crate::lifecycle::row_of(shells@[k], known),
            );
            assert(r.shown@[0]@ == crate::lifecycle::event_views(r.shown@)[0]);
            assert(views == expected);
            if 0 <= i < shells@.len() {
                assert(views[i] == rows@[i]@);
                assert(expected[i] == crate::lifecycle::row_of(shells@[i], known));
            }
        },
        _ => {},
    }
}

/// Nobody wants the server any more: while it serves or waits for a password it ends; and
/// what happens out of turn changes nothing.
pub proof fn unwanted_servers_stop(
    life: &mut Life,
    store: &Store,
    abandoned: bool,
    r: LifeStep,
    late: &mut Life,
    happened: Happened,
    ignored: LifeStep,
)
    requires
        call_ensures(Life::step, (life, store, Happened::Dropped, abandoned), r),
        call_ensures(Life::step, (late, store, happened, abandoned), ignored),
        old(late)@.phase is Stopped,
    ensures
        old(life)@.phase is Login || old(life)@.phase is Serving
            ==> r.work is Stop && final(life)@.phase is Stopped && r.shown@.len() == 0,
        !(old(life)@.phase is Login || old(life)@.phase is Serving)
            ==> r.work is Nothing && final(life)@ == old(life)@,
        ignored.work is Nothing,
        ignored.shown@.len() == 0,
        final(late)@ == old(late)@,
{
    shown_are_views(r);
    shown_are_views(ignored);
}

/// A link is handed over where it is one of the web, in any case, and has at most two
/// thousand and forty-eight bytes.
pub proof fn only_web_links_are_handed_over(
    url: &str,
    r: Result<(), HandoffError>,
    handed: Result<Handoff, HandoffError>,
    none: Result<Handoff, HandoffError>,
    raw: &[u8],
)
    requires
        call_ensures(checked_url, (url,), r),
        call_ensures(open_in_running_desktop, (url, Some(raw)), handed),
        call_ensures(open_in_running_desktop, (url, None::<&[u8]>), none),
    ensures
        url.spec_bytes().len() > 2_048 ==> r == Err::<(), HandoffError>(HandoffError::UrlTooLong),
        r matches Err(e) ==> handed == Err::<Handoff, HandoffError>(e) && none == Err::<
            Handoff,
            HandoffError,
        >(e),
        r is Ok ==> none == Ok::<Handoff, HandoffError>(Handoff::NotRunning)
            && url.spec_bytes().len()
            <= 2_048,
        url.spec_bytes().len() <= 2_048 && r is Err ==> r == Err::<(), HandoffError>(
            HandoffError::UrlScheme,
        ),
        url.spec_bytes().len() <= 2_048 && (encode_utf8("https://"@).is_prefix_of(
            url.spec_bytes(),
        ) || encode_utf8("http://"@).is_prefix_of(url.spec_bytes())) ==> r is Ok,
{
    let b = url.spec_bytes();
    assert forall|start: Seq<u8>|
        (forall|i: int| 0 <= i < start.len() ==> !(65 <= #[trigger] start[i] <= 90))
            && #[trigger] start.is_prefix_of(b) implies crate::dockerwm::starts_with_any_case(
        b,
        start,
    ) by {
        assert forall|i: int| 0 <= i < start.len() implies crate::dockerwm::lower(#[trigger] b[i])
            == start[i] by {
            assert(b.subrange(0, start.len() as int)[i] == b[i]);
            assert(start[i] == b[i]);
        }
    }
    no_capitals();
}

proof fn no_capitals()
    ensures
        forall|i: int|
            0 <= i < encode_utf8("https://"@).len() ==> !(65 <= #[trigger] encode_utf8(
                "https://"@,
            )[i] <= 90),
        forall|i: int|
            0 <= i < encode_utf8("http://"@).len() ==> !(65 <= #[trigger] encode_utf8(
                "http://"@,
            )[i] <= 90),
{
    reveal_strlit("https://");
    reveal_strlit("http://");
    is_ascii_chars_encode_utf8("https://"@);
    is_ascii_chars_encode_utf8("http://"@);
}

/// The application's file is a plain one of at most four kibibytes that its owner alone
/// can use.
pub proof fn descriptor_files_are_bounded_and_private(
    is_file: bool,
    len: u64,
    mode: Option<u32>,
    r: Result<(), HandoffError>,
)
    requires
        call_ensures(check_descriptor_file, (is_file, len, mode), r),
    ensures
        !is_file || len > 4_096 ==> r == Err::<(), HandoffError>(HandoffError::NotABoundedFile),
        is_file && len <= 4_096 && mode is Some && mode->0 % 64 != 0 ==> r == Err::<
            (),
            HandoffError,
        >(HandoffError::PermissionsTooBroad),
        is_file && len <= 4_096 && (mode is None || mode->0 % 64 == 0) ==> r is Ok,
{
}

/// What the file says must be the first version, this machine, a port, and a token of
/// sixty-four hexadecimal digits.
pub proof fn descriptors_are_checked(
    version: i64,
    address: &str,
    port: i64,
    token: String,
    pid: i64,
    r: Result<Descriptor, HandoffError>,
)
    requires
        call_ensures(check_descriptor, (version, address, port, token, pid), r),
        0 <= port <= 65_535,
    ensures
        r matches Ok(d) ==> version == 1 && address@ == "127.0.0.1"@ && port != 0 && d.port == port
            && d.token@ == token@ && encode_utf8(token@).len() == 64,
        r matches Err(e) ==> e == HandoffError::Invalid,
        version != 1 || address@ != "127.0.0.1"@ || port == 0 || encode_utf8(token@).len() != 64
            ==> r is Err,
{
}

/// A link is handed over by one request to this machine, with the token, that carries the
/// link alone.
pub proof fn links_are_handed_over_whole(descriptor: &Descriptor, url: &str, r: Vec<u8>)
    requires
        call_ensures(handoff_request, (descriptor, url), r),
    ensures
        ({
            let body = encode_utf8(
                crate::json::json_object(seq![("url"@, crate::json::JsonView::Text(url@))]),
            );
            let head = encode_utf8(
                "POST /v1/open HTTP/1.1\r\nHost: 127.0.0.1:"@ + decimal_nat(descriptor.port as nat)
                    + "\r\nAuthorization: Bearer "@ + descriptor.token@
                    + "\r\nContent-Type: application/json\r\nContent-Length: "@ + decimal_nat(
                    body.len(),
                ) + "\r\nConnection: close\r\n\r\n"@,
            );
            r@ == head + body
        }),
{
}

/// What is handed over goes to the port and with the token that the file says.
pub proof fn links_go_where_the_file_says(
    url: &str,
    raw: &[u8],
    checked: Result<(), HandoffError>,
    parsed: Result<Descriptor, HandoffError>,
    r: Result<Handoff, HandoffError>,
    sent: Vec<u8>,
)
    requires
        call_ensures(checked_url, (url,), checked),
        checked is Ok,
        call_ensures(parse_descriptor, (raw,), parsed),
        call_ensures(open_in_running_desktop, (url, Some(raw)), r),
        parsed matches Ok(d) ==> call_ensures(handoff_request, (&d, url), sent),
    ensures
        parsed matches Err(e) ==> r == Err::<Handoff, HandoffError>(e),
        parsed matches Ok(d) ==> (r matches Ok(Handoff::Send { port, request }) && port == d.port
            && request@ == sent@),
{
}

/// A response is read up to four kibibytes.
pub proof fn responses_are_bounded(
    response: &mut Vec<u8>,
    chunk: &[u8],
    r: Result<(), HandoffError>,
)
    requires
        call_ensures(read_response, (response, chunk), r),
    ensures
        old(response)@.len() + chunk@.len() <= 4_096
            ==> r is Ok && final(response)@ == old(response)@ + chunk@,
        old(response)@.len() + chunk@.len() > 4_096 ==> r == Err::<(), HandoffError>(
            HandoffError::ResponseTooLarge,
        ) && final(response)@ == old(response)@,
{
}

/// A response takes the link where its first line says so; otherwise that line is told.
pub proof fn responses_are_judged_by_their_first_line(
    response: &[u8],
    r: Result<(), HandoffError>,
    line: Seq<u8>,
    rest: Seq<u8>,
)
    requires
        call_ensures(judge_response, (response,), r),
        response@ == line + seq![10u8] + rest,
        forall|i: int| 0 <= i < line.len() ==> #[trigger] line[i] != 10,
        valid_utf8(line),
    ensures
        r is Ok <==> encode_utf8("HTTP/1.1 200 "@).is_prefix_of(line) || encode_utf8(
            "HTTP/1.0 200 "@,
        ).is_prefix_of(line),
        line.len() > 0 && line.last() != 13 ==> (r matches Err(HandoffError::Rejected { status })
            ==> encode_utf8(status@) == line),
{
    first_line(response@, line);
}

proof fn first_line(b: Seq<u8>, line: Seq<u8>)
    requires
        line.len() <= b.len(),
        b.take(line.len() as int) == line || line.is_prefix_of(b),
        forall|i: int| 0 <= i < line.len() ==> #[trigger] line[i] != 10,
        line.len() == b.len() || b[line.len() as int] == 10,
    ensures
        crate::bytes::pieces(b, 10)[0] == line,
        line.len() == b.len() ==> crate::bytes::pieces(b, 10).len() == 1,
        crate::bytes::pieces(b, 10).len() > 0,
    decreases b.len(),
{
    crate::bytes::pieces_not_empty(b, 10);
    assert(b.subrange(0, line.len() as int) =~= b.take(line.len() as int));
    assert(forall|i: int| 0 <= i < line.len() ==> b.take(line.len() as int)[i] == b[i]);
    if b.len() == 0 {
        assert(line =~= Seq::empty());
    } else if line.len() == b.len() {
        assert(b =~= line);
        first_line(b.drop_last(), line.drop_last());
        assert(b[b.len() - 1] != 10);
        assert(line.drop_last().push(line.last()) =~= line);
    } else {
        let a = b.drop_last();
        assert(a.take(line.len() as int) =~= line);
        crate::bytes::pieces_not_empty(a, 10);
        if line.len() == a.len() {
            first_line(a, line);
        } else {
            first_line(a, line);
            more_lines(a, line);
        }
    }
}

proof fn more_lines(b: Seq<u8>, line: Seq<u8>)
    requires
        line.len() < b.len(),
        b.take(line.len() as int) == line,
        b[line.len() as int] == 10,
    ensures
        crate::bytes::pieces(b, 10).len() > 1,
    decreases b.len(),
{
    crate::bytes::pieces_not_empty(b.drop_last(), 10);
    if line.len() < b.len() - 1 {
        assert(b.drop_last().take(line.len() as int) =~= line);
        more_lines(b.drop_last(), line);
    }
}

/// What is no descriptor at all is said to be unreadable, and one that is out of bounds
/// invalid.
pub proof fn descriptors_are_read(raw: &[u8], r: Result<Descriptor, HandoffError>)
    requires
        call_ensures(parse_descriptor, (raw,), r),
    ensures
        crate::dockerwm::fields_in_array(raw@) is None && crate::json::object_read(raw@) is None
            ==> r == Err::<Descriptor, HandoffError>(HandoffError::Unreadable),
        crate::dockerwm::fields_in_array(raw@) matches Some(f) ==> {
            &&& r matches Ok(d) ==> f.version == 1 && f.address == "127.0.0.1"@ && f.port != 0
                && d.port == f.port && d.token@ == f.token && encode_utf8(f.token).len() == 64
            &&& r matches Err(e) ==> e == HandoffError::Invalid
        },
{
}

} // verus!
