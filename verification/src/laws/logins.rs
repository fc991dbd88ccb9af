//! Laws of logging in.

use vstd::prelude::*;
use vstd::utf8::*;

use crate::auth::{AuthMode, AuthState};
use crate::conn::{Action, Clock, Conn, Outcome};
use crate::forward::ForwardService;
use crate::grant::{claims_payload, ed25519_signature, issued, ClaimsView};
use crate::net::IpAddr;
use crate::observability::{AuditEvent, AuthMethod, RejectReason};
use crate::protocol::{AuthenticationResult, Credential, Envelope, ErrorCode, Message};
use crate::rate_limit::LimiterView;
use crate::ssh::{openssh_key, sshsig_accepts, sshsig_parts, SshVerifier};
use crate::text::lossy_text;

verus! {

/// Whether the last of some actions answers a request with the result of a login, on
/// the control channel.
pub open spec fn answers_login(out: Outcome, request_id: u64, result: AuthenticationResult) -> bool {
    &&& out.actions@.len() > 0
    &&& out.actions@.last() matches Action::Send { channel, envelope }
    &&& channel == 0
    &&& envelope.request_id == request_id
    &&& envelope.message == Some(Message::AuthenticationResult(result))
}

/// Whether some bytes are a grant of a daemon's for a user, without a scope, from one
/// time to another.
pub open spec fn is_own_grant(
    auth: AuthState,
    bytes: Seq<u8>,
    user: Seq<char>,
    from_ms: int,
    until_ms: int,
) -> bool {
    exists|c: ClaimsView|
        {
            &&& bytes == encode_utf8(#[trigger] issued(auth.grant_signer.secret(), c))
            &&& ed25519_signature(auth.grant_signer.secret(), claims_payload(c)).len() == 64
            &&& c.sub == user
            &&& c.aud == auth.audience@
            &&& c.ops.len() == 0
            &&& c.servers.len() == 0
            &&& c.iat_ms == from_ms
            &&& c.exp_ms == until_ms
        }
}

/// A login by key lets in the user who was challenged and nobody else, and hands out a
/// grant that says so, and that runs out twelve hours later to the millisecond.
pub proof fn key_logins_last_twelve_hours(
    conn: &mut Conn,
    auth: &mut AuthState,
    service: &ForwardService,
    envelope: Envelope,
    clock: Clock,
    out: Outcome,
    result: AuthenticationResult,
    user: Seq<char>,
    expected: Seq<u8>,
)
    requires
        call_ensures(Conn::dispatch, (conn, auth, service, 0, envelope, clock), out),
        old(conn)@.negotiated is Some,
        old(conn)@.pending == Some((user, expected)),
        old(auth).mode !is DevInsecure,
        envelope.message matches Some(
            Message::Authenticate { method: Some(Credential::SshChallengeResponse { .. }) },
        ),
        answers_login(out, envelope.request_id, result),
        result.ok,
    ensures
        final(conn)@.authenticated,
        final(conn)@.user == user,
        final(conn)@.pending is None,
        result.user_id@ == user,
        clock.now_ms + 43_200_000 <= i64::MAX ==> {
            &&& result.expires_at_ms == clock.now_ms + 43_200_000
            &&& is_own_grant(
                *old(auth),
                result.challenge@,
                user,
                clock.now_ms as int,
                clock.now_ms + 43_200_000,
            )
        },
        clock.now_ms + 43_200_000 > i64::MAX ==> result.expires_at_ms == i64::MAX,
{
}

/// A login by password lets in the user whose password was checked, and hands out a
/// grant that says so, and that runs out twelve hours later to the millisecond. One
/// whose password is wrong changes nothing.
pub proof fn password_logins_last_twelve_hours(
    conn: &mut Conn,
    auth: &mut AuthState,
    request_id: u64,
    username: String,
    accepted: bool,
    clock: Clock,
    out: Outcome,
    result: AuthenticationResult,
)
    requires
        call_ensures(
            Conn::password_checked,
            (conn, auth, request_id, username, accepted, clock),
            out,
        ),
        answers_login(out, request_id, result),
    ensures
        result.ok == accepted,
        accepted ==> {
            &&& final(conn)@.authenticated
            &&& final(conn)@.user == username@
            &&& result.user_id@ == username@
        },
        accepted && clock.now_ms + 43_200_000 <= i64::MAX ==> {
            &&& result.expires_at_ms == clock.now_ms + 43_200_000
            &&& is_own_grant(
                *old(auth),
                result.challenge@,
                username@,
                clock.now_ms as int,
                clock.now_ms + 43_200_000,
            )
        },
        !accepted ==> {
            &&& final(conn)@ == old(conn)@
            &&& result.challenge@.len() == 0
            &&& result.error_code == Some(ErrorCode::ErrUnauthenticated)
        },
{
}

/// The client comes back with a grant that it was handed by the same daemon: it is let
/// in again as the same user, at every time from the login on until twelve hours are
/// over, and at none after that.
pub proof fn grants_let_back_in(
    conn: &mut Conn,
    auth: &mut AuthState,
    service: &ForwardService,
    envelope: Envelope,
    clock: Clock,
    out: Outcome,
    user: Seq<char>,
    login_ms: int,
)
    requires
        call_ensures(Conn::dispatch, (conn, auth, service, 0, envelope, clock), out),
        old(conn)@.negotiated is Some,
        old(auth).mode !is DevInsecure,
        !(old(auth).rate_limiter@.sources.dom().contains(old(conn)@.peer_ip)
            && old(auth).rate_limiter@.sources[old(conn)@.peer_ip].locked_until is Some),
        envelope.message matches Some(
            Message::Authenticate { method: Some(Credential::ConnectionGrant(bytes)) },
        ) && is_own_grant(*old(auth), bytes@, user, login_ms, login_ms + 43_200_000),
        clock.now_ms >= login_ms - 60_000,
    ensures
        out.open,
        out.actions@.len() == 2,
        ({
            &&& out.actions@[1] matches Action::Send { channel, envelope: e }
            &&& channel == 0
            &&& e.request_id == envelope.request_id
            &&& e.message matches Some(Message::AuthenticationResult(result))
            &&& result.ok == (clock.now_ms < login_ms + 43_200_000)
            &&& result.ok ==> result.user_id@ == user && result.expires_at_ms == login_ms
                + 43_200_000
        }),
        clock.now_ms < login_ms + 43_200_000 ==> {
            &&& final(conn)@.authenticated
            &&& final(conn)@.user == user
            &&& final(conn)@.scope is None
            &&& !final(auth).rate_limiter@.sources.dom().contains(old(conn)@.peer_ip)
        },
        clock.now_ms >= login_ms + 43_200_000 ==> final(conn)@ == old(conn)@,
{
}

/// Whether a login is answered with a refusal of a text, the connection stays as it is,
/// and the failure is recorded for its source.
pub open spec fn login_refused(
    conn: Conn,
    after: Conn,
    request_id: u64,
    out: Outcome,
    text: Seq<char>,
) -> bool {
    &&& out.open
    &&& out.actions@.len() == 2
    &&& out.actions@[0] matches Action::Audit(
        AuditEvent::AuthenticationFailed { source_ip, reason: RejectReason::InvalidRequest },
    )
    &&& source_ip == conn@.peer_ip
    &&& out.actions@[1] matches Action::Send { channel, envelope }
    &&& channel == 0
    &&& envelope.request_id == request_id
    &&& envelope.message matches Some(Message::AuthenticationResult(result))
    &&& !result.ok
    &&& result.user_id@.len() == 0
    &&& result.expires_at_ms == 0
    &&& result.error_code == Some(ErrorCode::ErrUnauthenticated)
    &&& result.error_message@ == text
    &&& result.challenge@.len() == 0
    &&& after@.authenticated == conn@.authenticated
    &&& after@.user == conn@.user
    &&& after@.scope == conn@.scope
    &&& after@.attachments == conn@.attachments
    &&& after@.uploads == conn@.uploads
    &&& after@.forwards == conn@.forwards
}

/// Before the handshake no login is tried.
pub proof fn hello_comes_first(
    conn: &mut Conn,
    auth: &mut AuthState,
    service: &ForwardService,
    envelope: Envelope,
    clock: Clock,
    out: Outcome,
)
    requires
        call_ensures(Conn::dispatch, (conn, auth, service, 0, envelope, clock), out),
        old(conn)@.negotiated is None,
        envelope.message matches Some(Message::Authenticate { .. }),
    ensures
        final(conn)@ == old(conn)@,
        final(auth).rate_limiter@ == old(auth).rate_limiter@,
        out.open,
        out.actions@.len() == 1,
        ({
            &&& out.actions@[0] matches Action::Send { channel, envelope: e }
            &&& channel == 0
            &&& e.request_id == envelope.request_id
            &&& e.message matches Some(Message::Error { code, human_message, retryable })
            &&& code == ErrorCode::ErrUnknownMessage
            &&& human_message@ == "hello first"@
            &&& !retryable
        }),
{
}

/// A source that is locked out is turned away whatever it presents, until its lockout is
/// over; nothing is checked, and nothing changes.
pub proof fn locked_sources_are_turned_away(
    conn: &mut Conn,
    auth: &mut AuthState,
    service: &ForwardService,
    envelope: Envelope,
    clock: Clock,
    out: Outcome,
    until: u64,
)
    requires
        call_ensures(Conn::dispatch, (conn, auth, service, 0, envelope, clock), out),
        old(conn)@.negotiated is Some,
        envelope.message matches Some(Message::Authenticate { .. }),
        old(auth).rate_limiter@.sources.dom().contains(old(conn)@.peer_ip),
        old(auth).rate_limiter@.sources[old(conn)@.peer_ip].locked_until == Some(until),
        clock.tick_ms < until,
    ensures
        final(conn)@ == old(conn)@,
        final(auth).rate_limiter@ == old(auth).rate_limiter@,
        out.open,
        out.actions@.len() == 2,
        ({
            &&& out.actions@[0] matches Action::Audit(
                AuditEvent::AuthenticationFailed { source_ip, reason: RejectReason::RateLimited },
            )
            &&& source_ip == old(conn)@.peer_ip
        }),
        ({
            &&& out.actions@[1] matches Action::Send { channel, envelope: e }
            &&& channel == 0
            &&& e.request_id == envelope.request_id
            &&& e.message matches Some(Message::AuthenticationResult(result))
            &&& !result.ok
            &&& result.error_code == Some(ErrorCode::ErrLimitExceeded)
            &&& result.error_message@ == "too many attempts"@
            &&& result.challenge@.len() == 0
        }),
{
}

/// In development everybody is let in, under one name and without a grant; nowhere else
/// is anybody let in without proof.
pub proof fn development_lets_everybody_in(
    conn: &mut Conn,
    auth: &mut AuthState,
    service: &ForwardService,
    envelope: Envelope,
    clock: Clock,
    out: Outcome,
)
    requires
        call_ensures(Conn::dispatch, (conn, auth, service, 0, envelope, clock), out),
        old(conn)@.negotiated is Some,
        old(auth).mode is DevInsecure,
        envelope.message matches Some(Message::Authenticate { .. }),
        !(old(auth).rate_limiter@.sources.dom().contains(old(conn)@.peer_ip)
            && old(auth).rate_limiter@.sources[old(conn)@.peer_ip].locked_until is Some),
    ensures
        final(conn)@.authenticated,
        final(conn)@.user == "dev"@,
        final(conn)@.scope == old(conn)@.scope,
        out.actions@.len() == 2,
        ({
            &&& out.actions@[0] matches Action::Audit(
                AuditEvent::AuthenticationSucceeded {
                    user,
                    source_ip,
                    method: AuthMethod::Development,
                },
            )
            &&& user@ == "dev"@
            &&& source_ip == old(conn)@.peer_ip
        }),
        ({
            &&& out.actions@[1] matches Action::Send { channel, envelope: e }
            &&& channel == 0
            &&& e.request_id == envelope.request_id
            &&& e.message matches Some(Message::AuthenticationResult(result))
            &&& result.ok
            &&& result.user_id@ == "dev"@
            &&& result.expires_at_ms == 0
            &&& result.challenge@.len() == 0
        }),
{
}

/// An attempt without a method, and a grant that is no text, are refused as such.
pub proof fn nothing_proves_nothing(
    conn: &mut Conn,
    auth: &mut AuthState,
    service: &ForwardService,
    envelope: Envelope,
    clock: Clock,
    out: Outcome,
)
    requires
        call_ensures(Conn::dispatch, (conn, auth, service, 0, envelope, clock), out),
        old(conn)@.negotiated is Some,
        old(auth).mode is SshKeys,
        !(old(auth).rate_limiter@.sources.dom().contains(old(conn)@.peer_ip)
            && old(auth).rate_limiter@.sources[old(conn)@.peer_ip].locked_until is Some),
    ensures
        envelope.message matches Some(Message::Authenticate { method: None }) ==> login_refused(
            *old(conn),
            *final(conn),
            envelope.request_id,
            out,
            "no authentication method"@,
        ),
        envelope.message matches Some(
            Message::Authenticate { method: Some(Credential::ConnectionGrant(bytes)) },
        ) ==> (!valid_utf8(bytes@) ==> login_refused(
            *old(conn),
            *final(conn),
            envelope.request_id,
            out,
            "malformed grant"@,
        )),
{
}

/// A key that the user's list holds is answered with a challenge of thirty-two bytes,
/// which then waits for its answer; nobody is let in yet. Any other key is refused.
pub proof fn authorized_keys_are_challenged(
    conn: &mut Conn,
    auth: &mut AuthState,
    service: &ForwardService,
    envelope: Envelope,
    clock: Clock,
    out: Outcome,
    username: String,
    public_key: Vec<u8>,
    users: Vec<(String, SshVerifier)>,
    i: int,
)
    requires
        call_ensures(Conn::dispatch, (conn, auth, service, 0, envelope, clock), out),
        old(conn)@.negotiated is Some,
        envelope.message == Some(
            Message::Authenticate {
                method: Some(Credential::SshChallengeRequest { username, public_key }),
            },
        ),
        !(old(auth).rate_limiter@.sources.dom().contains(old(conn)@.peer_ip)
            && old(auth).rate_limiter@.sources[old(conn)@.peer_ip].locked_until is Some),
        old(auth).mode == (AuthMode::SshKeys { users }),
        0 <= i < users@.len(),
        users@[i].0@ == username@,
        forall|j: int| 0 <= j < i ==> (#[trigger] users@[j]).0@ != username@,
    ensures
        final(conn)@.authenticated == old(conn)@.authenticated,
        final(conn)@.user == old(conn)@.user,
        (openssh_key(lossy_text(public_key@)) matches Some(key) && users@[i].1.keys().contains(key))
            ==> {
            &&& out.actions@.len() == 1
            &&& out.actions@[0] matches Action::Send { channel, envelope: e }
            &&& channel == 0
            &&& e.request_id == envelope.request_id
            &&& e.message matches Some(Message::AuthenticationResult(result))
            &&& !result.ok
            &&& result.error_code is None
            &&& result.challenge@.len() == 32
            &&& final(conn)@.pending == Some((username@, result.challenge@))
        },
        !(openssh_key(lossy_text(public_key@)) matches Some(key) && users@[i].1.keys().contains(
            key,
        )) ==> final(conn)@.pending == old(conn)@.pending && login_refused(
            *old(conn),
            *final(conn),
            envelope.request_id,
            out,
            "authentication failed"@,
        ),
{
    first_user_counts(users@, username@, i);
}

/// The keys of a user are those of the first entry of that name.
proof fn first_user_counts(users: Seq<(String, SshVerifier)>, name: Seq<char>, i: int)
    requires
        0 <= i < users.len(),
        users[i].0@ == name,
        forall|j: int| 0 <= j < i ==> (#[trigger] users[j]).0@ != name,
    ensures
        crate::auth::keys_of(users, name) == Some(users[i].1.keys()),
    decreases i,
{
    if i > 0 {
        let rest = users.drop_first();
        assert(rest[i - 1] == users[i]);
        assert forall|j: int| 0 <= j < i - 1 implies (#[trigger] rest[j]).0@ != name by {
            assert(rest[j] == users[j + 1]);
        }
        assert(users[0].0@ != name);
        first_user_counts(rest, name, i - 1);
    }
}

/// Nobody is known who is not listed.
proof fn strangers_have_no_keys(users: Seq<(String, SshVerifier)>, name: Seq<char>)
    requires
        forall|j: int| 0 <= j < users.len() ==> (#[trigger] users[j]).0@ != name,
    ensures
        crate::auth::keys_of(users, name) is None,
    decreases users.len(),
{
    if users.len() > 0 {
        let rest = users.drop_first();
        assert forall|j: int| 0 <= j < rest.len() implies (#[trigger] rest[j]).0@ != name by {
            assert(rest[j] == users[j + 1]);
        }
        assert(users[0].0@ != name);
        strangers_have_no_keys(rest, name);
    }
}

/// A key is refused for a user who is not listed, with the same words as a key that is
/// not the user's.
pub proof fn strangers_are_refused_alike(
    conn: &mut Conn,
    auth: &mut AuthState,
    service: &ForwardService,
    envelope: Envelope,
    clock: Clock,
    out: Outcome,
    username: String,
    public_key: Vec<u8>,
    users: Vec<(String, SshVerifier)>,
)
    requires
        call_ensures(Conn::dispatch, (conn, auth, service, 0, envelope, clock), out),
        old(conn)@.negotiated is Some,
        envelope.message == Some(
            Message::Authenticate {
                method: Some(Credential::SshChallengeRequest { username, public_key }),
            },
        ),
        !(old(auth).rate_limiter@.sources.dom().contains(old(conn)@.peer_ip)
            && old(auth).rate_limiter@.sources[old(conn)@.peer_ip].locked_until is Some),
        old(auth).mode == (AuthMode::SshKeys { users }),
        forall|j: int| 0 <= j < users@.len() ==> (#[trigger] users@[j]).0@ != username@,
    ensures
        login_refused(
            *old(conn),
            *final(conn),
            envelope.request_id,
            out,
            "authentication failed"@,
        ),
{
    strangers_have_no_keys(users@, username@);
}

/// A challenge is answered once: whatever the answer is, it no longer waits. The user is
/// let in exactly where the answer repeats the challenge and is signed, in the namespace
/// of logins and over the binding of the channel and the challenge, by a key that the
/// user's list holds; a security key must have been touched.
pub proof fn challenges_are_answered_once(
    conn: &mut Conn,
    auth: &mut AuthState,
    service: &ForwardService,
    envelope: Envelope,
    clock: Clock,
    out: Outcome,
    answered: Vec<u8>,
    signature: Vec<u8>,
    users: Vec<(String, SshVerifier)>,
    i: int,
    user: Seq<char>,
    expected: Seq<u8>,
)
    requires
        call_ensures(Conn::dispatch, (conn, auth, service, 0, envelope, clock), out),
        old(conn)@.negotiated is Some,
        old(conn)@.pending == Some((user, expected)),
        envelope.message == Some(
            Message::Authenticate {
                method: Some(Credential::SshChallengeResponse { challenge: answered, signature }),
            },
        ),
        !(old(auth).rate_limiter@.sources.dom().contains(old(conn)@.peer_ip)
            && old(auth).rate_limiter@.sources[old(conn)@.peer_ip].locked_until is Some),
        old(auth).mode == (AuthMode::SshKeys { users }),
        0 <= i < users@.len(),
        users@[i].0@ == user,
        forall|j: int| 0 <= j < i ==> (#[trigger] users@[j]).0@ != user,
    ensures
        final(conn)@.pending is None,
        answered@ != expected ==> login_refused(
            *old(conn),
            *final(conn),
            envelope.request_id,
            out,
            "challenge mismatch"@,
        ),
        answered@ == expected ==> ({
            let proved = sshsig_parts(signature@) matches Some(parts) && parts.namespace
                == "holdfast-auth@v0"@ && users@[i].1.keys().contains(parts.key) && sshsig_accepts(
                parts.key,
                "holdfast-auth@v0"@,
                old(conn)@.channel_binding + expected,
                signature@,
            ) && ((parts.algorithm == "sk-ssh-ed25519@openssh.com"@ || parts.algorithm
                == "sk-ecdsa-sha2-nistp256@openssh.com"@) ==> parts.signature.len() >= 5
                && parts.signature[parts.signature.len() - 5] % 2 == 1);
            &&& proved ==> final(conn)@.authenticated && final(conn)@.user == user
                && out.actions@.len() == 2 && out.actions@[1] is Send
            &&& proved ==> !final(auth).rate_limiter@.sources.dom().contains(old(conn)@.peer_ip)
            &&& !proved ==> login_refused(
                *old(conn),
                *final(conn),
                envelope.request_id,
                out,
                "authentication failed"@,
            )
        }),
{
    first_user_counts(users@, user, i);
}

/// Without a challenge there is nothing to answer.
pub proof fn answers_need_a_challenge(
    conn: &mut Conn,
    auth: &mut AuthState,
    service: &ForwardService,
    envelope: Envelope,
    clock: Clock,
    out: Outcome,
)
    requires
        call_ensures(Conn::dispatch, (conn, auth, service, 0, envelope, clock), out),
        old(conn)@.negotiated is Some,
        old(conn)@.pending is None,
        old(auth).mode is SshKeys,
        envelope.message matches Some(
            Message::Authenticate { method: Some(Credential::SshChallengeResponse { .. }) },
        ),
        !(old(auth).rate_limiter@.sources.dom().contains(old(conn)@.peer_ip)
            && old(auth).rate_limiter@.sources[old(conn)@.peer_ip].locked_until is Some),
    ensures
        login_refused(
            *old(conn),
            *final(conn),
            envelope.request_id,
            out,
            "no challenge in progress"@,
        ),
{
}

/// A password is handed on to be checked exactly for a user who may use one, with both
/// texts as they came and neither empty nor too long; otherwise it is refused unchecked.
pub proof fn passwords_are_checked_as_given(
    conn: &mut Conn,
    auth: &mut AuthState,
    service: &ForwardService,
    envelope: Envelope,
    clock: Clock,
    out: Outcome,
    username: String,
    password: String,
)
    requires
        call_ensures(Conn::dispatch, (conn, auth, service, 0, envelope, clock), out),
        old(conn)@.negotiated is Some,
        old(auth).mode is SshKeys,
        envelope.message == Some(
            Message::Authenticate {
                method: Some(Credential::PasswordRequest { username, password }),
            },
        ),
        !(old(auth).rate_limiter@.sources.dom().contains(old(conn)@.peer_ip)
            && old(auth).rate_limiter@.sources[old(conn)@.peer_ip].locked_until is Some),
    ensures
        ({
            let worth = old(auth).password matches Some(p) && (exists|k: int|
                0 <= k < p.users@.len() && (#[trigger] p.users@[k])@ == username@) && 0
                < encode_utf8(username@).len() <= 128 && 0 < encode_utf8(password@).len() <= 1024;
            &&& worth ==> {
                &&& final(conn)@ == old(conn)@
                &&& out.open
                &&& out.actions@.len() == 1
                &&& out.actions@[0] matches Action::VerifyPassword {
                    request_id,
                    username: u,
                    password: p,
                }
                &&& request_id == envelope.request_id
                &&& u@ == username@
                &&& p@ == password@
            }
            &&& !worth ==> login_refused(
                *old(conn),
                *final(conn),
                envelope.request_id,
                out,
                "authentication failed"@,
            )
        }),
{
}

/// What a connection may do is what the grant says that it came with: the operations that
/// the grant names and no others, or all where it names none.
pub proof fn grants_bring_their_scope(
    conn: &mut Conn,
    auth: &mut AuthState,
    service: &ForwardService,
    envelope: Envelope,
    clock: Clock,
    out: Outcome,
    c: ClaimsView,
    op: &str,
    may: bool,
)
    requires
        call_ensures(Conn::dispatch, (conn, auth, service, 0, envelope, clock), out),
        old(conn)@.negotiated is Some,
        old(auth).mode is SshKeys,
        !(old(auth).rate_limiter@.sources.dom().contains(old(conn)@.peer_ip)
            && old(auth).rate_limiter@.sources[old(conn)@.peer_ip].locked_until is Some),
        envelope.message matches Some(
            Message::Authenticate { method: Some(Credential::ConnectionGrant(bytes)) },
        ) && bytes@ == encode_utf8(issued(old(auth).grant_signer.secret(), c)),
        ed25519_signature(old(auth).grant_signer.secret(), claims_payload(c)).len() == 64,
        c.aud == old(auth).audience@,
        c.iat_ms - 60_000 <= clock.now_ms < c.exp_ms,
        call_ensures(Conn::permits, (final(conn), op), may),
    ensures
        final(conn)@.authenticated,
        final(conn)@.user == c.sub,
        may <==> c.ops.len() == 0 || c.ops.contains(op@),
{
}

/// A grant is worth nothing at another daemon, after its time, or more than a minute
/// before it.
pub proof fn grants_are_bound(
    conn: &mut Conn,
    auth: &mut AuthState,
    service: &ForwardService,
    envelope: Envelope,
    clock: Clock,
    out: Outcome,
    c: ClaimsView,
)
    requires
        call_ensures(Conn::dispatch, (conn, auth, service, 0, envelope, clock), out),
        old(conn)@.negotiated is Some,
        old(auth).mode is SshKeys,
        !(old(auth).rate_limiter@.sources.dom().contains(old(conn)@.peer_ip)
            && old(auth).rate_limiter@.sources[old(conn)@.peer_ip].locked_until is Some),
        envelope.message matches Some(
            Message::Authenticate { method: Some(Credential::ConnectionGrant(bytes)) },
        ) && bytes@ == encode_utf8(issued(old(auth).grant_signer.secret(), c)),
        ed25519_signature(old(auth).grant_signer.secret(), claims_payload(c)).len() == 64,
        c.aud != old(auth).audience@ || clock.now_ms >= c.exp_ms || clock.now_ms + 60_000
            < c.iat_ms,
    ensures
        login_refused(*old(conn), *final(conn), envelope.request_id, out, "invalid grant"@),
{
}

proof fn failure_is_counted(before: LimiterView, after: LimiterView, ip: IpAddr, now: u64)
    requires
        before.failure_recorded(after, ip, now),
        before.policy.window > 0,
        before.sources.dom().finite(),
        before.sources.dom().len() < before.policy.max_tracked,
    ensures
        counted(after, ip, now),
        after.policy == before.policy,
{
    let bucket = crate::rate_limit::remembered(before.sources, ip).failed(now, before.policy);
    let sources = before.sources.insert(ip, bucket);
    assert(bucket.failures.last() == now);
    assert(!bucket.is_dead(now, before.policy.window)) by {
        assert(crate::rate_limit::recent(
            bucket.failures[bucket.failures.len() - 1],
            now,
            before.policy.window,
        ));
    }
    let kept = crate::rate_limit::live(sources, now, before.policy.window);
    assert(kept.dom().subset_of(sources.dom()));
    vstd::set_lib::lemma_len_subset(kept.dom(), sources.dom());
    assert(kept.dom().contains(ip));
    assert(sources.dom() =~= before.sources.dom().insert(ip));
    assert(sources.dom().len() <= before.sources.dom().len() + 1);
}

/// Whether a failure at a time is remembered of a source.
pub open spec fn counted(limiter: LimiterView, ip: IpAddr, now: u64) -> bool {
    &&& limiter.sources.dom().contains(ip)
    &&& limiter.sources[ip].failures.len() > 0
    &&& limiter.sources[ip].failures.last() == now
}

/// Whether there is room to remember one more source.
pub open spec fn has_room(limiter: LimiterView) -> bool {
    &&& limiter.policy.window > 0
    &&& limiter.sources.dom().finite()
    &&& limiter.sources.dom().len() < limiter.policy.max_tracked
}

/// Whether the success of a user is recorded, by how they logged in, and answered without
/// an error.
pub open spec fn success_recorded(
    out: Outcome,
    conn: Conn,
    user: Seq<char>,
    method: AuthMethod,
    result: AuthenticationResult,
) -> bool {
    &&& out.open
    &&& out.actions@.len() == 2
    &&& out.actions@[0] matches Action::Audit(
        AuditEvent::AuthenticationSucceeded { user: u, source_ip, method: m },
    )
    &&& u@ == user
    &&& source_ip == conn@.peer_ip
    &&& m == method
    &&& result.ok
    &&& result.user_id@ == user
    &&& result.error_code is None
    &&& result.error_message@.len() == 0
}

/// A password that was right clears the record of its source and is recorded as a login
/// by password; one that was wrong counts against it.
pub proof fn password_logins_are_recorded(
    conn: &mut Conn,
    auth: &mut AuthState,
    request_id: u64,
    username: String,
    accepted: bool,
    clock: Clock,
    out: Outcome,
    result: AuthenticationResult,
)
    requires
        call_ensures(
            Conn::password_checked,
            (conn, auth, request_id, username, accepted, clock),
            out,
        ),
        answers_login(out, request_id, result),
    ensures
        accepted ==> success_recorded(out, *old(conn), username@, AuthMethod::Password, result),
        accepted ==> !final(auth).rate_limiter@.sources.dom().contains(old(conn)@.peer_ip),
        !accepted ==> login_refused(
            *old(conn),
            *final(conn),
            request_id,
            out,
            "authentication failed"@,
        ),
        !accepted && has_room(old(auth).rate_limiter@) ==> counted(
            final(auth).rate_limiter@,
            old(conn)@.peer_ip,
            clock.tick_ms,
        ),
{
    if !accepted && has_room(old(auth).rate_limiter@) {
        failure_is_counted(
            old(auth).rate_limiter@,
            final(auth).rate_limiter@,
            old(conn)@.peer_ip,
            clock.tick_ms,
        );
    }
}

/// A login that is refused for what it brought counts against its source, at the time of
/// the attempt.
pub proof fn refused_logins_are_counted(
    conn: &mut Conn,
    auth: &mut AuthState,
    service: &ForwardService,
    envelope: Envelope,
    clock: Clock,
    out: Outcome,
    result: AuthenticationResult,
)
    requires
        call_ensures(Conn::dispatch, (conn, auth, service, 0, envelope, clock), out),
        old(conn)@.negotiated is Some,
        envelope.message matches Some(Message::Authenticate { .. }),
        out.actions@.len() == 2,
        out.actions@[0] matches Action::Audit(
            AuditEvent::AuthenticationFailed { reason: RejectReason::InvalidRequest, .. },
        ),
        has_room(old(auth).rate_limiter@),
    ensures
        counted(final(auth).rate_limiter@, old(conn)@.peer_ip, clock.tick_ms),
        !final(conn)@.authenticated || old(conn)@.authenticated,
{
    let ip = old(conn)@.peer_ip;
    let before = old(auth).rate_limiter@.checked(ip, clock.tick_ms);
    assert(before.sources.dom() =~= old(auth).rate_limiter@.sources.dom());
    if before.failure_recorded(final(auth).rate_limiter@, ip, clock.tick_ms) {
        failure_is_counted(before, final(auth).rate_limiter@, ip, clock.tick_ms);
    }
}

/// A login by key or by grant that succeeds is recorded as such, and clears the record of
/// its source.
pub proof fn logins_are_recorded_by_method(
    conn: &mut Conn,
    auth: &mut AuthState,
    service: &ForwardService,
    envelope: Envelope,
    clock: Clock,
    out: Outcome,
    result: AuthenticationResult,
    method: Credential,
)
    requires
        call_ensures(Conn::dispatch, (conn, auth, service, 0, envelope, clock), out),
        old(conn)@.negotiated is Some,
        old(auth).mode !is DevInsecure,
        envelope.message == Some(Message::Authenticate { method: Some(method) }),
        answers_login(out, envelope.request_id, result),
        result.ok,
    ensures
        method is ConnectionGrant ==> success_recorded(
            out,
            *old(conn),
            final(conn)@.user,
            AuthMethod::ConnectionGrant,
            result,
        ) && result.challenge@.len() == 0,
        method is SshChallengeResponse ==> success_recorded(
            out,
            *old(conn),
            final(conn)@.user,
            AuthMethod::SshKey,
            result,
        ),
        method is ConnectionGrant || method is SshChallengeResponse
            ==> !final(auth).rate_limiter@.sources.dom().contains(old(conn)@.peer_ip)
            && final(conn)@.authenticated,
        method is SshChallengeResponse ==> final(conn)@.scope == old(conn)@.scope,
{
}

} // verus!
