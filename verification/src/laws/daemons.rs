//! Laws of what daemons start with, and of what they offer.

use vstd::prelude::*;
use vstd::string::*;
use vstd::utf8::*;

use crate::agent::{AgentError, AgentLimits, AgentSupervisor, ReconnectPolicy};
use crate::auth::{AuthMode, AuthState};
use crate::clock::unix_time_ms;
use crate::conn::Conn;
use crate::daemon::{
    alt_svc, auth_mode, auth_state, derive_server_id, origin_allowed, reap_period_ms, read_keys,
    record_expiries, server_id_for, server_id_of, sha256, start_agent, tcp_route, upload_mode, upload_root_fits,
    AuthConfig, Daemon, DaemonConfig, DaemonError, ExpiredShell, SessionConfig, StartError,
    TcpRoute, UploadMode,
};
use crate::frontdoor_bridge::{BridgeError, FrontdoorBridgeConfig};
use crate::grant::{
    ed25519_public, ConnectionGrant, GrantClaims, GrantError, GrantSigner, GrantVerifier,
};
use crate::hex::hex_text;
use crate::ids::{ServerId, ShellId};
use crate::net::{IpAddr, SocketAddr};
use crate::observability::{AuditEvent, AuditRecord, MetricsSnapshot, Observability};
use crate::protocol::Capability;
use crate::ssh::{authorized_entries, SshVerifier};
use crate::text::texts;
use crate::web::{WebTransportCertificateMode, WebTransportInfo};

verus! {

/// Whether an address reaches only this machine.
pub open spec fn stays_here(ip: IpAddr) -> bool {
    match ip {
        IpAddr::V4(a) => 0x7f00_0000 <= a <= 0x7fff_ffff,
        IpAddr::V6(a) => a == 1,
    }
}

/// An address reaches only this machine exactly within `127.0.0.0/8` and at `::1`.
pub proof fn loopback_stays_here(ip: &IpAddr, r: bool)
    requires
        call_ensures(IpAddr::is_loopback, (ip,), r),
    ensures
        r <==> stays_here(*ip),
{
}

proof fn loopback_is_here()
    ensures
        forall|ip: IpAddr| #[trigger] ip.loopback() <==> stays_here(ip),
{
}

/// Where nothing is configured, a daemon is for development on its own machine.
pub proof fn defaults_are_for_development(r: DaemonConfig)
    requires
        call_ensures(<DaemonConfig as Default>::default, (), r),
    ensures
        r.bind == (SocketAddr { ip: IpAddr::V4(0x7f00_0001), port: 8080 }),
        r.webtransport_bind == Some(SocketAddr { ip: IpAddr::V4(0x7f00_0001), port: 0 }),
        r.auth is DevInsecure,
        r.webtransport_certificate is None,
        r.webtransport_private_key is None,
        r.h3_frontdoor is None,
        r.web_root is None,
        r.password_auth is None,
        r.allowed_origins is None,
        !r.enable_websocket,
        r.account_policy is None,
        r.grant_signing_key is None,
        r.server_id is None,
        r.upload_root is None,
        r.upload_max_file_bytes is None,
        r.upload_retention_ms == 86_400_000,
        r.tcp_forward_users@.len() == 0,
        !r.session.privilege_drop,
        r.session.spawner_socket is None,
        r.session.idle_shell_ttl_ms is None,
{
}

/// Of what is wrong with a configuration the first is told: its certificate, its
/// transport, who is let in, then its uploads.
pub proof fn configurations_are_checked(
    config: &DaemonConfig,
    hard_max: u64,
    r: Result<(), StartError>,
)
    requires
        call_ensures(DaemonConfig::validate, (config, hard_max), r),
    ensures
        ({
            let certified = config.webtransport_certificate is Some;
            let half = certified != (config.webtransport_private_key is Some);
            let served = config.webtransport_bind is Some;
            let bind = config.webtransport_bind->0;
            let exposed = served && !stays_here(bind.ip) && !certified;
            let both = served && config.h3_frontdoor is Some;
            let idle = !served && certified;
            let transport = half || exposed || both || idle;
            let dev = config.auth is DevInsecure;
            let dev_bind = dev && !stays_here(config.bind.ip);
            let dev_served = dev && served && !stays_here(bind.ip);
            let dev_door = dev && config.h3_frontdoor is Some;
            let dev_password = dev && config.password_auth is Some;
            let nobody = config.password_auth is Some && config.password_auth->0.users@.len() == 0;
            let unfit = config.password_auth is Some && exists|i: int|
                0 <= i < config.password_auth->0.users@.len() && !(0 < encode_utf8(
                    (#[trigger] config.password_auth->0.users@[i])@,
                ).len() <= 128);
            let auth = dev_bind || dev_served || dev_door || dev_password || nobody || unfit;
            let large = config.upload_max_file_bytes is Some && config.upload_max_file_bytes->0
                > hard_max;
            let rooted = config.upload_root is Some;
            let root = config.upload_root->0@;
            let relative = rooted && (root.len() == 0 || root[0] != 47);
            let garbled = rooted && !valid_utf8(root);
            let unowned = rooted && config.session.privilege_drop
                && config.session.spawner_socket is None;
            let uploads = large || relative || garbled || unowned;
            &&& r is Ok <==> !transport && !auth && !uploads
            &&& half ==> r == Err::<(), StartError>(StartError::CertificateWithoutKey)
            &&& !half && exposed ==> r == Err::<(), StartError>(
                StartError::SelfSignedBeyondLoopback { bind },
            )
            &&& !half && !exposed && both ==> r == Err::<(), StartError>(
                StartError::FrontdoorAndEndpoint,
            )
            &&& !half && idle ==> r == Err::<(), StartError>(
                StartError::CertificateWithoutTransport,
            )
            &&& !transport && dev_bind ==> r == Err::<(), StartError>(
                StartError::DevAuthBeyondLoopback { bind: config.bind },
            )
            &&& !transport && !dev_bind && dev_served ==> r == Err::<(), StartError>(
                StartError::DevAuthBeyondLoopback { bind },
            )
            &&& !transport && !dev_bind && !dev_served && dev_door ==> r == Err::<(), StartError>(
                StartError::DevAuthBehindFrontdoor,
            )
            &&& !transport && !dev_bind && !dev_served && !dev_door && dev_password ==> r == Err::<
                (),
                StartError,
            >(StartError::PasswordWithDevAuth)
            &&& !transport && !dev && nobody ==> r == Err::<(), StartError>(
                StartError::NoPasswordUsers,
            )
            &&& !transport && !dev && !nobody && unfit ==> r == Err::<(), StartError>(
                StartError::PasswordUsername,
            )
            &&& !transport && !auth && large ==> r == Err::<(), StartError>(
                StartError::UploadMaximum { hard_max },
            )
            &&& !transport && !auth && !large && relative ==> r == Err::<(), StartError>(
                StartError::UploadRootRelative,
            )
            &&& !transport && !auth && !large && !relative && garbled ==> r == Err::<
                (),
                StartError,
            >(StartError::UploadRootEncoding)
            &&& !transport && !auth && !large && !relative && !garbled && unowned ==> r == Err::<
                (),
                StartError,
            >(StartError::UploadsNeedSpawner)
        }),
{
    loopback_is_here();
    if config.password_auth is Some {
        let users = config.password_auth->0.users@;
        assert(forall|i: int|
            0 <= i < users.len() ==> (crate::daemon::username_fits((#[trigger] users[i])@) <==> 0
                < encode_utf8(users[i]@).len() <= 128));
    }
}

/// What a daemon does not start for is told in words.
pub proof fn start_errors_are_told(e: &StartError, shown: &str, r: String)
    requires
        call_ensures(StartError::text, (e, shown), r),
    ensures
        e is CertificateWithoutKey ==> r@
            == "WebTransport TLS requires both certificate and private-key paths"@,
        e is SelfSignedBeyondLoopback ==> r@
            == "refusing self-signed WebTransport on non-loopback bind "@ + shown@
            + "; configure a public certificate and private key"@,
        e is CertificateWithoutTransport ==> r@
            == "WebTransport certificate configured while WebTransport is disabled"@,
        e is FrontdoorAndEndpoint ==> r@
            == "the shared front door and a WebTransport bind are mutually exclusive"@,
        e is DevAuthBeyondLoopback ==> r@ == "refusing dev-auth on non-loopback bind "@ + shown@
            + " (threat model T7/T4)"@,
        e is DevAuthBehindFrontdoor ==> r@ == "refusing dev-auth behind a public front door"@,
        e is PasswordWithDevAuth ==> r@ == "password auth requires a real auth mode, not dev-auth"@,
        e is NoPasswordUsers ==> r@ == "password auth enabled with an empty user allowlist"@,
        e is PasswordUsername ==> r@ == "password-auth username must be 1..=128 bytes"@,
        e matches StartError::UploadMaximum { hard_max }
            ==> r@ == "upload maximum exceeds the hard "@
            + crate::text::decimal_nat(hard_max as nat) + "-byte ceiling"@,
        e is UploadRootRelative ==> r@ == "upload root must be absolute"@,
        e is UploadRootEncoding ==> r@ == "upload root must be valid UTF-8 for the wire path"@,
        e is UploadsNeedSpawner ==> r@
            == "multi-user uploads require --spawner-socket; refusing daemon-owned output"@,
{
}

/// Clients trust a certificate by its issuer behind the front door and where one is
/// configured, and by its hash where the daemon makes its own.
pub proof fn certificates_are_trusted(
    config: &DaemonConfig,
    r: Option<WebTransportCertificateMode>,
)
    requires
        call_ensures(DaemonConfig::certificate_mode, (config,), r),
    ensures
        r is None <==> config.h3_frontdoor is None && config.webtransport_bind is None,
        r == Some(WebTransportCertificateMode::WebPki) <==> config.h3_frontdoor is Some || (
        config.webtransport_bind is Some && config.webtransport_certificate is Some),
{
}

/// The identity of a server is half of a digest over its public key, unless it is
/// configured.
pub proof fn identities_come_from_the_key(
    seed: &[u8; 32],
    derived: ServerId,
    config: &DaemonConfig,
    r: ServerId,
)
    requires
        call_ensures(derive_server_id, (seed,), derived),
        call_ensures(server_id_for, (config,), r),
    ensures
        derived.0@ == sha256(
            encode_utf8("holdfast-server-id-v1"@) + ed25519_public(seed@),
        ).take(16),
        config.server_id matches Some(id) ==> r == id,
        config.server_id is None && config.grant_signing_key is Some
            && config.grant_signing_key->0@ == seed@ ==> r.0@ == derived.0@,
{
}

/// Whether a text lists a key without options.
pub open spec fn lists_a_key(text: Seq<char>) -> bool {
    exists|key: Seq<u8>| #[trigger] authorized_entries(text).contains(Some((false, key)))
}

proof fn keys_are_listed(text: Seq<char>)
    ensures
        crate::daemon::authorizes(text) <==> lists_a_key(text),
{
    let entries = authorized_entries(text);
    let keys = crate::ssh::unrestricted_keys(entries);
    assert forall|key: Seq<u8>|
        keys.contains(key) <==> #[trigger] entries.contains(Some((false, key))) by {
        crate::ssh::restricted_keys_are_skipped(entries, key);
    }
    if keys.len() > 0 {
        assert(keys.contains(keys[0]));
        assert(entries.contains(Some((false, keys[0]))));
    }
}

/// The keys of all users are read, each user's from their own text; the first whose text
/// lists none is told.
pub proof fn every_user_needs_a_key(
    users: &Vec<(String, String)>,
    r: Result<Vec<(String, SshVerifier)>, String>,
    i: int,
    key: Seq<u8>,
)
    requires
        call_ensures(read_keys, (users,), r),
        0 <= i < users@.len(),
    ensures
        !lists_a_key(users@[i].1@) ==> r is Err,
        (forall|k: int| 0 <= k < users@.len() ==> lists_a_key((#[trigger] users@[k]).1@)) ==> r
            is Ok,
        r matches Ok(read) ==> read@.len() == users@.len() && read@[i].0@ == users@[i].0@ && (
        read@[i].1.keys().contains(key) <==> authorized_entries(users@[i].1@).contains(
            Some((false, key)),
        )),
        r matches Err(name) ==> exists|k: int|
            0 <= k < users@.len() && (#[trigger] users@[k]).0@ == name@
                && !lists_a_key(users@[k].1@)
                && forall|j: int| 0 <= j < k ==> lists_a_key((#[trigger] users@[j]).1@),
{
    assert forall|text: Seq<char>| #[trigger] crate::daemon::authorizes(text)
        <==> lists_a_key(text) by {
        keys_are_listed(text);
    }
    crate::ssh::restricted_keys_are_skipped(authorized_entries(users@[i].1@), key);
    assert(crate::daemon::authorizes(users@[i].1@) <==> lists_a_key(users@[i].1@));
    if r is Err {
        let k = choose|k: int| #[trigger]
            crate::daemon::first_without_keys(users@, k) && users@[k].0@ == r->Err_0@;
        assert(crate::daemon::authorizes(users@[k].1@) <==> lists_a_key(users@[k].1@));
        assert forall|j: int| 0 <= j < k implies lists_a_key((#[trigger] users@[j]).1@) by {
            assert(crate::daemon::authorizes(users@[j].1@));
        }
    }
}

/// A configured daemon lets in as it is configured: anybody, or whoever has a key.
pub proof fn modes_are_kept(config: &AuthConfig, r: Result<AuthMode, String>)
    requires
        call_ensures(auth_mode, (config,), r),
    ensures
        config is DevInsecure ==> (r matches Ok(m) && m is DevInsecure),
        config is SshKeys ==> (r matches Ok(m) ==> m is SshKeys),
{
}

/// Grants are bound to the server and signed with the configured key; nobody has failed
/// yet, and only who is configured may use a password.
pub proof fn logins_start_afresh(
    config: &DaemonConfig,
    mode: AuthMode,
    server_id: &ServerId,
    r: AuthState,
)
    requires
        call_ensures(auth_state, (config, mode, server_id), r),
    ensures
        r.mode == mode,
        r.audience@ == "srv_"@ + hex_text(server_id.0@),
        config.grant_signing_key matches Some(seed) ==> r.grant_signer.secret() == seed@,
        r.grant_verifier.public() == ed25519_public(r.grant_signer.secret()),
        r.password is Some <==> config.password_auth is Some,
        config.password_auth matches Some(p) ==> texts(r.password->0.users@) == texts(p.users@),
{
}

/// A browser whose origin is not listed is kept out where origins are listed; who names
/// none is no browser.
pub proof fn origins_are_kept_to(
    allowed: Option<&Vec<String>>,
    origin: Option<&str>,
    r: bool,
    daemon: &Daemon,
    at_daemon: bool,
)
    requires
        call_ensures(origin_allowed, (allowed, origin), r),
        call_ensures(Daemon::origin_allowed, (daemon, origin), at_daemon),
    ensures
        allowed is None ==> r,
        origin is None ==> r && at_daemon,
        allowed is Some && origin is Some ==> (r <==> exists|i: int|
            0 <= i < allowed->0@.len() && (#[trigger] allowed->0@[i])@ == origin->0@),
        daemon.allowed_origins is None ==> at_daemon,
        daemon.allowed_origins is Some && origin is Some ==> (at_daemon <==> exists|i: int|
            0 <= i < daemon.allowed_origins->0@.len() && (
            #[trigger] daemon.allowed_origins->0@[i])@ == origin->0@),
{
}

/// Uploads go through the spawner where shells have accounts of their own, and below the
/// configured directory where not; without one there are none.
pub proof fn uploads_go_where_they_should(config: &DaemonConfig, hard_max: u64, r: UploadMode)
    requires
        call_ensures(upload_mode, (config, hard_max), r),
    ensures
        config.upload_root is None <==> r is Disabled,
        config.upload_root is Some && config.session.privilege_drop ==> (
        r matches UploadMode::Spawner { socket } && config.session.spawner_socket is Some
            && socket@ == config.session.spawner_socket->0@),
        config.upload_root is Some && !config.session.privilege_drop ==> (
        r matches UploadMode::SameUid { root } && encode_utf8(root@) == config.upload_root->0@),
{
}

/// The directory for uploads is one, and no link.
pub proof fn upload_roots_are_directories(is_symlink: bool, is_dir: bool, r: bool)
    requires
        call_ensures(upload_root_fits, (is_symlink, is_dir), r),
    ensures
        is_symlink ==> !r,
        !is_dir ==> !r,
        is_dir && !is_symlink ==> r,
{
}

/// Shells that were left alone are looked for four times within their time, but between
/// every second and every minute.
pub proof fn shells_are_looked_for_often_enough(ttl_ms: u64, r: u64, longer: u64, later: u64)
    requires
        call_ensures(reap_period_ms, (ttl_ms,), r),
        call_ensures(reap_period_ms, (longer,), later),
    ensures
        1_000 <= r <= 60_000,
        4_000 <= ttl_ms <= 240_000 ==> 4 * r <= ttl_ms < 4 * r + 4,
        ttl_ms < 4_000 ==> r == 1_000,
        ttl_ms > 240_000 ==> r == 60_000,
        ttl_ms <= longer ==> r <= later,
{
}

/// Shells that expired are recorded one after the other, each as expired, under its
/// user, with how it ended; none that did not expire is.
pub proof fn expired_shells_are_recorded(
    log: &mut Observability,
    shells: &Vec<ExpiredShell>,
    now_ms: i64,
    fewer: &Vec<ExpiredShell>,
    part: &mut Observability,
    rest: &mut Observability,
    event: AuditEvent,
)
    requires
        call_ensures(record_expiries, (log, shells, now_ms), ()),
        shells@.len() > 0,
        fewer@ == shells@.drop_last(),
        old(part)@ == old(log)@,
        call_ensures(record_expiries, (part, fewer, now_ms), ()),
        old(rest)@ == final(part)@,
        event matches AuditEvent::ShellExpired { user, shell_id, exit_code } && user@
            == shells@.last().user@ && shell_id == shells@.last().shell_id && exit_code
            == shells@.last().exit_code,
        call_ensures(Observability::record, (rest, event, now_ms), ()),
    ensures
        final(log)@ == final(rest)@,
{
}

/// Where no shell expired nothing is recorded.
pub proof fn no_expiries_record_nothing(
    log: &mut Observability,
    shells: &Vec<ExpiredShell>,
    now_ms: i64,
)
    requires
        call_ensures(record_expiries, (log, shells, now_ms), ()),
        shells@.len() == 0,
    ensures
        final(log)@ == old(log)@,
{
}

/// Over TCP the page's own information and, where it is enabled, the WebSocket are
/// served at their paths; the client's files are only where browsers do not trust the
/// endpoint over QUIC, and elsewhere there is the page that waits.
pub proof fn tcp_serves_little(
    path: &str,
    websocket: bool,
    info: Option<&WebTransportInfo>,
    has_root: bool,
    r: TcpRoute,
)
    requires
        call_ensures(tcp_route, (path, websocket, info, has_root), r),
    ensures
        path.spec_bytes() == encode_utf8("/webtransport-info"@) ==> r == TcpRoute::Info,
        r == TcpRoute::Info ==> path.spec_bytes() == encode_utf8("/webtransport-info"@),
        r == TcpRoute::WebSocket ==> websocket && path.spec_bytes() == encode_utf8(
            "/terminal/ws"@,
        ),
        websocket && path.spec_bytes() == encode_utf8("/terminal/ws"@) ==> r != TcpRoute::Files && r
            != TcpRoute::NotFound && r != TcpRoute::Interstitial,
        path.spec_bytes() != encode_utf8("/webtransport-info"@) && !(websocket && path.spec_bytes()
            == encode_utf8("/terminal/ws"@)) ==> {
            &&& info is Some && info->0.mode is WebPki ==> r == TcpRoute::Interstitial
            &&& !(info is Some && info->0.mode is WebPki) && has_root ==> r == TcpRoute::Files
            &&& !(info is Some && info->0.mode is WebPki) && !has_root ==> r == TcpRoute::NotFound
        },
{
}

/// Browsers learn of the endpoint over QUIC, by its port and for a day, only where they
/// trust it.
pub proof fn quic_is_announced(info: Option<&WebTransportInfo>, r: Option<String>)
    requires
        call_ensures(alt_svc, (info,), r),
    ensures
        r is Some <==> info is Some && info->0.mode is WebPki,
        r matches Some(text) ==> text@ == "h3=\":"@ + crate::text::decimal_nat(info->0.port as nat)
            + "\"; ma=86400"@,
{
}

/// A daemon connects to a gateway only where it knows which accounts its users may have.
pub proof fn agents_need_a_policy(
    config: &DaemonConfig,
    reconnect: ReconnectPolicy,
    audience: String,
    limits: &AgentLimits,
    r: Result<AgentSupervisor, AgentError>,
)
    requires
        call_ensures(start_agent, (config, reconnect, audience, limits), r),
    ensures
        config.account_policy is None ==> (r matches Err(e) && e is MissingAccountPolicy),
        config.account_policy is Some ==> call_ensures(
            AgentSupervisor::new,
            (reconnect, audience, limits),
            r,
        ),
{
}

/// A daemon that starts is what it was configured to be.
pub proof fn daemons_start_as_configured(
    config: &DaemonConfig,
    hard_max: u64,
    d: Daemon,
    checked: Result<(), StartError>,
    i: int,
    key: Seq<u8>,
)
    requires
        call_ensures(Daemon::start, (config, hard_max), Ok::<Daemon, DaemonError>(d)),
        call_ensures(DaemonConfig::validate, (config, hard_max), checked),
    ensures
        checked is Ok,
        config.server_id matches Some(id) ==> d.server_id == id,
        config.grant_signing_key matches Some(seed) ==> d.auth.grant_signer.secret() == seed@,
        d.auth.grant_verifier.public() == ed25519_public(d.auth.grant_signer.secret()),
        d.auth.audience@ == "srv_"@ + hex_text(d.server_id.0@),
        config.auth is DevInsecure <==> d.auth.mode is DevInsecure,
        config.auth matches AuthConfig::SshKeys { users } ==> {
            &&& d.auth.mode matches AuthMode::SshKeys { users: read }
            &&& read@.len() == users@.len()
            &&& 0 <= i < users@.len() ==> read@[i].0@ == users@[i].0@ && (
            read@[i].1.keys().contains(key) <==> authorized_entries(users@[i].1@).contains(
                Some((false, key)),
            ))
        },
        d.auth.password is Some <==> config.password_auth is Some,
        config.password_auth matches Some(p) ==> texts(d.auth.password->0.users@) == texts(
            p.users@,
        ),
        forall|user: Seq<char>| #[trigger]
            d.forward.users().contains(user) <==> exists|k: int|
                0 <= k < config.tcp_forward_users@.len() && (
                #[trigger] config.tcp_forward_users@[k])@ == user,
        d.forward.total() == 0,
        config.upload_root is None <==> d.uploads is Disabled,
        d.allowed_origins is Some <==> config.allowed_origins is Some,
        config.allowed_origins matches Some(list) ==> texts(d.allowed_origins->0@) == texts(list@),
        d.observability@.server_id == d.server_id,
        d.observability@.capacity == 4_096,
        d.observability@.records.len() == 0,
        d.observability@.metrics.authentication_succeeded == 0,
        d.certificate_mode is None <==> config.h3_frontdoor is None && config.webtransport_bind
            is None,
{
    match config.auth {
        AuthConfig::SshKeys { users } => {
            if 0 <= i < users@.len() {
                crate::ssh::restricted_keys_are_skipped(authorized_entries(users@[i].1@), key);
            }
        },
        AuthConfig::DevInsecure => {},
    }
    let names = texts(config.tcp_forward_users@);
    assert forall|user: Seq<char>| #[trigger]
        d.forward.users().contains(user) <==> exists|k: int|
            0 <= k < config.tcp_forward_users@.len() && (#[trigger] config.tcp_forward_users@[k])@
                == user by {
        assert(names.to_set().contains(user) <==> names.contains(user));
        if names.contains(user) {
            let k = choose|k: int| 0 <= k < names.len() && names[k] == user;
            assert(config.tcp_forward_users@[k]@ == user);
        }
        if exists|k: int|
            0 <= k < config.tcp_forward_users@.len() && (#[trigger] config.tcp_forward_users@[k])@
                == user {
            let k = choose|k: int|
                0 <= k < config.tcp_forward_users@.len() && (
                #[trigger] config.tcp_forward_users@[k])@ == user;
            assert(names[k] == user);
        }
    }
}

/// A daemon that cannot be what it was configured to be does not start: the check's
/// fault comes first, then the front door's, then too many forwarding users or ones that
/// cannot be users, then a user without a key.
pub proof fn daemons_that_cannot_do_not_start(
    config: &DaemonConfig,
    hard_max: u64,
    r: Result<Daemon, DaemonError>,
    checked: Result<(), StartError>,
    door: Result<(), BridgeError>,
    i: int,
)
    requires
        call_ensures(Daemon::start, (config, hard_max), r),
        call_ensures(DaemonConfig::validate, (config, hard_max), checked),
        config.h3_frontdoor is Some ==> call_ensures(
            FrontdoorBridgeConfig::validate,
            (&config.h3_frontdoor->0,),
            door,
        ),
        config.h3_frontdoor is None ==> door is Ok,
    ensures
        checked matches Err(e) ==> r == Err::<Daemon, DaemonError>(DaemonError::Config(e)),
        checked is Ok ==> (door matches Err(e) ==> r == Err::<Daemon, DaemonError>(
            DaemonError::Bridge(e),
        )),
        checked is Ok && door is Ok && 0 <= i < config.tcp_forward_users@.len() && !(0
            < encode_utf8(config.tcp_forward_users@[i]@).len() <= 128) ==> r == Err::<
            Daemon,
            DaemonError,
        >(DaemonError::ForwardUsers),
        checked is Ok && door is Ok && texts(config.tcp_forward_users@).to_set().len() > 256 ==> r
            == Err::<Daemon, DaemonError>(DaemonError::ForwardUsers),
        config.auth matches AuthConfig::SshKeys { users } ==> 0 <= i < users@.len()
            && !lists_a_key(users@[i].1@) ==> r is Err,
        r matches Err(DaemonError::Keys { username }) ==> (
        config.auth matches AuthConfig::SshKeys { users } && exists|k: int|
            0 <= k < users@.len() && (#[trigger] users@[k]).0@ == username@ && !lists_a_key(
                users@[k].1@,
            )),
{
    match config.auth {
        AuthConfig::SshKeys { users } => {
            assert forall|text: Seq<char>| #[trigger] crate::daemon::authorizes(text)
                <==> lists_a_key(text) by {
                keys_are_listed(text);
            }
            if 0 <= i < users@.len() {
                assert(crate::daemon::authorizes(users@[i].1@) <==> lists_a_key(users@[i].1@));
            }
            match r {
                Err(DaemonError::Keys { username }) => {
                    let k = choose|k: int| #[trigger]
                        crate::daemon::first_without_keys(users@, k) && users@[k].0@ == username@;
                    assert(crate::daemon::authorizes(users@[k].1@) <==> lists_a_key(
                        users@[k].1@,
                    ));
                },
                _ => {},
            }
        },
        AuthConfig::DevInsecure => {},
    }
}

/// A daemon that restarts with its key is the same server, and takes the grants that it
/// issued before, until they run out.
pub proof fn grants_outlive_a_restart(
    before: &DaemonConfig,
    after: &DaemonConfig,
    hard_max: u64,
    first: Daemon,
    second: Daemon,
    claims: &GrantClaims,
    grant: ConnectionGrant,
    now_ms: i64,
    audience: &str,
    r: Result<GrantClaims, GrantError>,
)
    requires
        call_ensures(Daemon::start, (before, hard_max), Ok::<Daemon, DaemonError>(first)),
        call_ensures(Daemon::start, (after, hard_max), Ok::<Daemon, DaemonError>(second)),
        before.server_id is None && after.server_id is None,
        before.grant_signing_key is Some && after.grant_signing_key is Some,
        before.grant_signing_key->0@ == after.grant_signing_key->0@,
        claims.aud@ == first.auth.audience@,
        call_ensures(GrantSigner::issue, (&first.auth.grant_signer, claims), grant),
        audience@ == second.auth.audience@,
        call_ensures(
            GrantVerifier::verify,
            (&second.auth.grant_verifier, &grant, audience, now_ms),
            r,
        ),
    ensures
        first.server_id.0@ == second.server_id.0@,
        first.auth.audience@ == second.auth.audience@,
        r is Ok <==> now_ms < claims.exp_ms && claims.iat_ms <= now_ms + 60_000,
{
    assert(grant@ == crate::grant::issued(first.auth.grant_signer.secret(), claims@));
    assert(crate::grant::verdict(r) == crate::grant::claims_checked(claims@, audience@, now_ms));
}

/// A daemon offers files where it takes uploads and forwarding where somebody may, and
/// nothing else; each connection starts with that, not logged in, and with nothing open.
pub proof fn connections_start_with_what_is_offered(
    daemon: &Daemon,
    offered: Vec<Capability>,
    peer_ip: IpAddr,
    frame_bytes: u32,
    datagrams: bool,
    binding: Vec<u8>,
    conn: Conn,
)
    requires
        call_ensures(Daemon::offered, (daemon,), offered),
        call_ensures(
            Daemon::connection,
            (daemon, peer_ip, frame_bytes, datagrams, binding),
            conn,
        ),
    ensures
        offered@.contains(Capability::FileTransfer) <==> !(daemon.uploads is Disabled),
        offered@.contains(Capability::TcpForward) <==> exists|user: Seq<char>|
            daemon.forward.users().contains(user),
        !offered@.contains(Capability::Datagrams),
        conn@.server_id == daemon.server_id,
        conn@.peer_ip == peer_ip,
        conn@.default_frame_bytes == frame_bytes,
        conn@.transport_datagrams == datagrams,
        conn@.channel_binding == binding@,
        !conn@.authenticated,
        conn@.user.len() == 0,
        conn@.scope is None,
        conn@.negotiated is None,
        conn@.pending is None,
        conn@.attachments.dom() == Set::<u64>::empty(),
        conn@.uploads.dom() == Set::<u64>::empty(),
        conn@.forwards.dom() == Set::<u64>::empty(),
        conn@.offered.contains(Capability::FileTransfer) <==> !(daemon.uploads is Disabled),
        conn@.offered.contains(Capability::TcpForward) <==> exists|user: Seq<char>|
            daemon.forward.users().contains(user),
        !conn@.offered.contains(Capability::Datagrams),
{
    if !(exists|user: Seq<char>| daemon.forward.users().contains(user)) {
        assert(daemon.forward.users() =~= Set::<Seq<char>>::empty());
    }
}

/// The readable form of a server's identity is read back, and two servers never share
/// one; its wire form is its sixteen bytes.
pub proof fn identities_read_back(
    id: &ServerId,
    text: String,
    shown: &str,
    read: Option<ServerId>,
    other: &ServerId,
    other_text: String,
    same: bool,
    wire: Vec<u8>,
    bytes: &[u8],
    back: Option<ServerId>,
)
    requires
        call_ensures(ServerId::to_text, (id,), text),
        shown@ == text@,
        shown.spec_bytes() == encode_utf8(shown@),
        call_ensures(ServerId::from_text, (shown,), read),
        call_ensures(ServerId::to_text, (other,), other_text),
        call_ensures(ServerId::same, (id, other), same),
        call_ensures(ServerId::to_wire, (id,), wire),
        bytes@ == wire@,
        call_ensures(ServerId::from_wire, (bytes,), back),
    ensures
        text@ == "srv_"@ + hex_text(id.0@),
        read matches Some(r) && r.0@ == id.0@,
        text@ == other_text@ <==> id.0@ == other.0@,
        same <==> *id == *other,
        wire@ == id.0@,
        back matches Some(b) && b.0@ == id.0@,
{
    crate::ids::server_text_reads_back(id.0@);
    if text@ == other_text@ {
        crate::ids::server_text_injective(id.0@, other.0@);
    }
}

/// The time of day is what the clock shows, none before 1970 and at most what can be
/// counted.
pub proof fn times_are_what_the_clock_shows(ms: u128, r: i64, none: i64)
    requires
        call_ensures(unix_time_ms, (Some(ms),), r),
        call_ensures(unix_time_ms, (None::<u128>,), none),
    ensures
        ms <= 0x7fff_ffff_ffff_ffff ==> r == ms,
        ms > 0x7fff_ffff_ffff_ffff ==> r == 0x7fff_ffff_ffff_ffff,
        none == 0,
{
}

/// A daemon shows the events that it keeps and what it counted, and its identity is the
/// first half of a digest.
pub proof fn daemons_show_what_they_recorded(
    daemon: &Daemon,
    events: Vec<AuditRecord>,
    kept: Vec<AuditRecord>,
    counts: MetricsSnapshot,
    counted: MetricsSnapshot,
    digest: &[u8; 32],
    id: ServerId,
    i: int,
)
    requires
        call_ensures(Daemon::audit_events, (daemon,), events),
        call_ensures(Observability::audit_events, (&daemon.observability,), kept),
        call_ensures(Daemon::metrics, (daemon,), counts),
        call_ensures(Observability::metrics, (&daemon.observability,), counted),
        call_ensures(server_id_of, (digest,), id),
    ensures
        events@.len() == kept@.len(),
        0 <= i < events@.len() ==> events@[i]@ == kept@[i]@,
        counts == counted,
        id.0@ == digest@.take(16),
{
    let a = crate::observability::record_views(events@);
    let b = crate::observability::record_views(kept@);
    assert(a.len() == events@.len() && b.len() == kept@.len());
    if 0 <= i < events@.len() {
        assert(a[i] == events@[i]@ && b[i] == kept@[i]@);
    }
}

/// A shell's identity crosses the wire as its sixteen bytes, and nothing else does.
pub proof fn shell_identities_read_back(
    id: &ShellId,
    wire: Vec<u8>,
    bytes: &[u8],
    r: Option<ShellId>,
    other: &ShellId,
    same: bool,
)
    requires
        call_ensures(ShellId::to_wire, (id,), wire),
        call_ensures(ShellId::from_wire, (bytes,), r),
        call_ensures(ShellId::same, (id, other), same),
    ensures
        wire@ == id.0@,
        bytes@.len() == 16 ==> (r matches Some(s) && s.0@ == bytes@),
        bytes@.len() != 16 ==> r is None,
        same <==> *id == *other,
{
}

/// A text spells a server where it has thirty-six bytes: the mark of one, and then digits
/// alone.
pub proof fn other_texts_name_no_server(text: &str, r: Option<ServerId>)
    requires
        call_ensures(ServerId::from_text, (text,), r),
    ensures
        r is Some <==> {
            &&& text.spec_bytes().len() == 36
            &&& text.spec_bytes().take(4) == encode_utf8("srv_"@)
            &&& forall|i: int|
                4 <= i < 36 ==> (48 <= #[trigger] text.spec_bytes()[i] <= 57 || 65
                    <= text.spec_bytes()[i] <= 70 || 97 <= text.spec_bytes()[i] <= 102)
        },
{
    let t = text.spec_bytes();
    if t.len() == 36 {
        let tail = t.skip(4);
        if r is Some {
            assert forall|i: int| 4 <= i < 36 implies (48 <= #[trigger] t[i] <= 57 || 65 <= t[i]
                <= 70 || 97 <= t[i] <= 102) by {
                assert(tail[i - 4] == t[i]);
                assert(crate::hex::digit_value(tail[i - 4]) is Some);
            }
        }
        if forall|i: int|
            4 <= i < 36 ==> (48 <= #[trigger] t[i] <= 57 || 65 <= t[i] <= 70 || 97 <= t[i] <= 102) {
            assert forall|i: int| 0 <= i < tail.len() implies (#[trigger] crate::hex::digit_value(
                tail[i],
            )) is Some by {
                assert(tail[i] == t[i + 4]);
            }
            assert forall|k: int| 0 <= k < tail.len() / 2 implies (
            #[trigger] crate::hex::pair_value(tail[2 * k], tail[2 * k + 1])) is Some by {
                assert(crate::hex::digit_value(tail[2 * k]) is Some);
                assert(crate::hex::digit_value(tail[2 * k + 1]) is Some);
            }
        }
    }
}

} // verus!
