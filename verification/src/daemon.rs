//! What a daemon is configured with, which configurations it refuses, and what it
//! derives from them.

use sha2::Digest;
use vstd::prelude::*;
use vstd::string::*;
use vstd::utf8::*;

use crate::agent::{AgentError, AgentLimits, AgentSupervisor, ReconnectPolicy};
use crate::auth::{no_failures, AuthMode, AuthState};
use crate::chance::random_16;
use crate::conn::{Conn, ConnView};
use crate::forward::{user_name_fits, ForwardService, MAX_USERS};
use crate::frontdoor_bridge::{config_fault, BridgeError, FrontdoorBridgeConfig};
use crate::grant::{
    claims_payload, claims_read, ed25519_accepts, ed25519_public, ed25519_signature, grant_checked,
    issued, token_is_checked, ClaimsView, GrantErrorView, GrantSigner,
};
use crate::ids::{server_text, ServerId, ShellId};
use crate::net::{IpAddr, SocketAddr};
use crate::observability::{
    no_counts, record_views, AuditEvent, AuditRecord, MetricsSnapshot, Observability,
    ObservabilityView, DEFAULT_AUDIT_CAPACITY,
};
use crate::password::MAX_USERNAME_BYTES;
use crate::protocol::Capability;
use crate::ssh::{authorized_entries, unrestricted_keys, SshVerifier};
use crate::text::{
    among, contains, copy_list, decimal_nat, push_decimal, push_text, texts, utf8_text,
};
use crate::web::{WebTransportCertificateMode, WebTransportInfo};

verus! {

/// What is hashed before the public key for a server's identity.
pub const SERVER_ID_DOMAIN: &'static str = "holdfast-server-id-v1";

/// How long finished uploads are kept where nothing else is configured.
pub const UPLOAD_RETENTION_MS: u64 = 86_400_000;

/// How clients log in.
#[derive(Debug, Clone, PartialEq, Eq)]
pub enum AuthConfig {
    /// Anybody is let in. Only on loopback.
    DevInsecure,
    /// Users log in with SSH keys: each with the text of their `authorized_keys`.
    SshKeys { users: Vec<(String, String)> },
}

/// Who may log in with a password.
#[derive(Debug, Clone, PartialEq, Eq)]
pub struct PasswordAuthConfig {
    pub users: Vec<String>,
}

/// How shells are run. What is not given is up to the manager of the shells.
#[derive(Debug, Clone, PartialEq, Eq)]
pub struct SessionConfig {
    /// Each shell runs under its own account.
    pub privilege_drop: bool,
    /// Where the spawner listens.
    pub spawner_socket: Option<String>,
    /// How long a shell may be left alone.
    pub idle_shell_ttl_ms: Option<u64>,
    pub max_processes: Option<u64>,
    pub max_open_files: Option<u64>,
    pub max_core_bytes: Option<u64>,
}

/// What a daemon is configured with.
#[derive(Debug, Clone)]
pub struct DaemonConfig {
    /// Where pages are served over TCP.
    pub bind: SocketAddr,
    /// Where WebTransport is served over UDP; `None` for nowhere.
    pub webtransport_bind: Option<SocketAddr>,
    /// The certificate chain, which comes with its key; without it a certificate
    /// of the daemon's own is used, on loopback only.
    pub webtransport_certificate: Option<String>,
    pub webtransport_private_key: Option<String>,
    /// The shared front door that hands on sessions.
    pub h3_frontdoor: Option<FrontdoorBridgeConfig>,
    /// What is served as the client's page.
    pub web_root: Option<String>,
    pub auth: AuthConfig,
    /// Who may log in with a password; `None` for nobody.
    pub password_auth: Option<PasswordAuthConfig>,
    /// The origins that browsers may come from; `None` for any.
    pub allowed_origins: Option<Vec<String>>,
    /// Also serve the transport over WebSocket.
    pub enable_websocket: bool,
    /// Which accounts each user may run shells under; `None` for any.
    pub account_policy: Option<Vec<(String, Vec<String>)>>,
    /// The key that signs grants; `None` for a fresh one.
    pub grant_signing_key: Option<[u8; 32]>,
    /// The server's identity, where it is not derived from the key.
    pub server_id: Option<ServerId>,
    /// Where uploads go, as the path's bytes; `None` disables them.
    pub upload_root: Option<Vec<u8>>,
    /// The largest upload; `None` for the protocol's default.
    pub upload_max_file_bytes: Option<u64>,
    pub upload_retention_ms: u64,
    /// The users that may forward TCP connections.
    pub tcp_forward_users: Vec<String>,
    pub session: SessionConfig,
}

/// The loopback address of IPv4.
pub const LOOPBACK_V4: u32 = 0x7F00_0001;

impl Default for DaemonConfig {
    /// Development on loopback, with nothing extra.
    fn default() -> (r: DaemonConfig)
        ensures
            r.bind == (SocketAddr { ip: IpAddr::V4(LOOPBACK_V4), port: 8080 }),
            r.webtransport_bind == Some(SocketAddr { ip: IpAddr::V4(LOOPBACK_V4), port: 0 }),
            r.webtransport_certificate is None,
            r.webtransport_private_key is None,
            r.h3_frontdoor is None,
            r.web_root is None,
            r.auth is DevInsecure,
            r.password_auth is None,
            r.allowed_origins is None,
            !r.enable_websocket,
            r.account_policy is None,
            r.grant_signing_key is None,
            r.server_id is None,
            r.upload_root is None,
            r.upload_max_file_bytes is None,
            r.upload_retention_ms == UPLOAD_RETENTION_MS,
            r.tcp_forward_users@ == Seq::<String>::empty(),
            r.session == (SessionConfig {
                privilege_drop: false,
                spawner_socket: None,
                idle_shell_ttl_ms: None,
                max_processes: None,
                max_open_files: None,
                max_core_bytes: None,
            }),
    {
        DaemonConfig {
            bind: SocketAddr { ip: IpAddr::V4(LOOPBACK_V4), port: 8080 },
            webtransport_bind: Some(SocketAddr { ip: IpAddr::V4(LOOPBACK_V4), port: 0 }),
            webtransport_certificate: None,
            webtransport_private_key: None,
            h3_frontdoor: None,
            web_root: None,
            auth: AuthConfig::DevInsecure,
            password_auth: None,
            allowed_origins: None,
            enable_websocket: false,
            account_policy: None,
            grant_signing_key: None,
            server_id: None,
            upload_root: None,
            upload_max_file_bytes: None,
            upload_retention_ms: UPLOAD_RETENTION_MS,
            tcp_forward_users: Vec::new(),
            session: SessionConfig {
                privilege_drop: false,
                spawner_socket: None,
                idle_shell_ttl_ms: None,
                max_processes: None,
                max_open_files: None,
                max_core_bytes: None,
            },
        }
    }
}

/// Why a daemon does not start.
#[derive(Debug, Clone, Copy, PartialEq, Eq, Structural)]
pub enum StartError {
    /// A certificate without its key, or a key without its certificate.
    CertificateWithoutKey,
    /// A certificate of the daemon's own is for loopback only.
    SelfSignedBeyondLoopback { bind: SocketAddr },
    /// A certificate for a transport that is disabled.
    CertificateWithoutTransport,
    /// The front door and an endpoint of the daemon's own exclude each other.
    FrontdoorAndEndpoint,
    /// Letting anybody in is for loopback only.
    DevAuthBeyondLoopback { bind: SocketAddr },
    /// Letting anybody in is not for a public front door.
    DevAuthBehindFrontdoor,
    /// Passwords are worth nothing where anybody is let in.
    PasswordWithDevAuth,
    /// Password login for nobody.
    NoPasswordUsers,
    /// A username that cannot log in.
    PasswordUsername,
    /// Uploads larger than the protocol allows.
    UploadMaximum { hard_max: u64 },
    UploadRootRelative,
    UploadRootEncoding,
    /// Uploads of several users need a spawner that writes as each of them.
    UploadsNeedSpawner,
}

/// Whether a username can log in with a password.
pub open spec fn username_fits(name: Seq<char>) -> bool {
    0 < encode_utf8(name).len() <= MAX_USERNAME_BYTES
}

fn usernames_fit(users: &Vec<String>) -> (r: bool)
    ensures
        r == forall|i: int| 0 <= i < users@.len() ==> username_fits((#[trigger] users@[i])@),
{
    let mut i: usize = 0;
    while i < users.len()
        invariant
            i <= users.len(),
            forall|k: int| 0 <= k < i ==> username_fits((#[trigger] users@[k])@),
        decreases users.len() - i,
    {
        let size: usize = users[i].as_str().as_bytes().len();
        if size == 0 || size > MAX_USERNAME_BYTES {
            assert(!username_fits(users@[i as int]@));
            return false;
        }
        i = i + 1;
    }
    true
}

impl DaemonConfig {
    /// What is wrong with the transport.
    pub open spec fn transport_fault(self) -> Option<StartError> {
        if self.webtransport_certificate is Some != self.webtransport_private_key is Some {
            Some(StartError::CertificateWithoutKey)
        } else {
            match self.webtransport_bind {
                Some(bind) => if !bind.ip.loopback() && self.webtransport_certificate is None {
                    Some(StartError::SelfSignedBeyondLoopback { bind })
                } else if self.h3_frontdoor is Some {
                    Some(StartError::FrontdoorAndEndpoint)
                } else {
                    None
                },
                None => if self.webtransport_certificate is Some {
                    Some(StartError::CertificateWithoutTransport)
                } else {
                    None
                },
            }
        }
    }

    /// What is wrong with how clients log in.
    pub open spec fn auth_fault(self) -> Option<StartError> {
        if self.auth is DevInsecure && !self.bind.ip.loopback() {
            Some(StartError::DevAuthBeyondLoopback { bind: self.bind })
        } else if self.auth is DevInsecure && self.webtransport_bind is Some
            && !self.webtransport_bind->0.ip.loopback() {
            Some(StartError::DevAuthBeyondLoopback { bind: self.webtransport_bind->0 })
        } else if self.auth is DevInsecure && self.h3_frontdoor is Some {
            Some(StartError::DevAuthBehindFrontdoor)
        } else if self.auth is DevInsecure && self.password_auth is Some {
            Some(StartError::PasswordWithDevAuth)
        } else {
            match self.password_auth {
                Some(p) => if p.users@.len() == 0 {
                    Some(StartError::NoPasswordUsers)
                } else if exists|i: int|
                    0 <= i < p.users@.len() && !username_fits((#[trigger] p.users@[i])@) {
                    Some(StartError::PasswordUsername)
                } else {
                    None
                },
                None => None,
            }
        }
    }

    /// What is wrong with uploads, where they may be as large as `hard_max`.
    pub open spec fn upload_fault(self, hard_max: u64) -> Option<StartError> {
        if self.upload_max_file_bytes is Some && self.upload_max_file_bytes->0 > hard_max {
            Some(StartError::UploadMaximum { hard_max })
        } else {
            match self.upload_root {
                Some(root) => if root@.len() == 0 || root@[0] != 47 {
                    Some(StartError::UploadRootRelative)
                } else if !valid_utf8(root@) {
                    Some(StartError::UploadRootEncoding)
                } else if self.session.privilege_drop && self.session.spawner_socket is None {
                    Some(StartError::UploadsNeedSpawner)
                } else {
                    None
                },
                None => None,
            }
        }
    }

    /// Why a daemon does not start with this configuration, where it does not.
    pub open spec fn fault(self, hard_max: u64) -> Option<StartError> {
        if self.transport_fault() is Some {
            self.transport_fault()
        } else if self.auth_fault() is Some {
            self.auth_fault()
        } else {
            self.upload_fault(hard_max)
        }
    }

    /// Checks the configuration. Uploads may be as large as `hard_max`.
    pub fn validate(&self, hard_max: u64) -> (r: Result<(), StartError>)
        ensures
            r is Ok <==> self.fault(hard_max) is None,
            r matches Err(e) ==> self.fault(hard_max) == Some(e),
    {
        if self.webtransport_certificate.is_some() != self.webtransport_private_key.is_some() {
            return Err(StartError::CertificateWithoutKey);
        }
        match &self.webtransport_bind {
            Some(bind) => {
                if !bind.ip.is_loopback() && self.webtransport_certificate.is_none() {
                    return Err(StartError::SelfSignedBeyondLoopback { bind: *bind });
                }
                if self.h3_frontdoor.is_some() {
                    return Err(StartError::FrontdoorAndEndpoint);
                }
            },
            None => {
                if self.webtransport_certificate.is_some() {
                    return Err(StartError::CertificateWithoutTransport);
                }
            },
        }
        assert(self.transport_fault() is None);
        self.validate_auth()?;
        match self.upload_max_file_bytes {
            Some(max) => {
                if max > hard_max {
                    return Err(StartError::UploadMaximum { hard_max });
                }
            },
            None => {},
        }
        match &self.upload_root {
            Some(root) => {
                if root.len() == 0 || root[0] != 47 {
                    return Err(StartError::UploadRootRelative);
                }
                if utf8_text(root.as_slice()).is_none() {
                    return Err(StartError::UploadRootEncoding);
                }
                if self.session.privilege_drop && self.session.spawner_socket.is_none() {
                    return Err(StartError::UploadsNeedSpawner);
                }
            },
            None => {},
        }
        Ok(())
    }

    fn validate_auth(&self) -> (r: Result<(), StartError>)
        ensures
            r is Ok <==> self.auth_fault() is None,
            r matches Err(e) ==> self.auth_fault() == Some(e),
    {
        if let AuthConfig::DevInsecure = &self.auth {
            if !self.bind.ip.is_loopback() {
                return Err(StartError::DevAuthBeyondLoopback { bind: self.bind });
            }
            match &self.webtransport_bind {
                Some(bind) => {
                    if !bind.ip.is_loopback() {
                        return Err(StartError::DevAuthBeyondLoopback { bind: *bind });
                    }
                },
                None => {},
            }
            if self.h3_frontdoor.is_some() {
                return Err(StartError::DevAuthBehindFrontdoor);
            }
            if self.password_auth.is_some() {
                return Err(StartError::PasswordWithDevAuth);
            }
        }
        match &self.password_auth {
            Some(p) => {
                if p.users.len() == 0 {
                    return Err(StartError::NoPasswordUsers);
                }
                if !usernames_fit(&p.users) {
                    return Err(StartError::PasswordUsername);
                }
            },
            None => {},
        }
        Ok(())
    }

    /// How clients trust the certificate of the endpoint they reach: behind the
    /// front door by its issuer.
    pub open spec fn spec_certificate_mode(self) -> Option<WebTransportCertificateMode> {
        if self.h3_frontdoor is Some {
            Some(WebTransportCertificateMode::WebPki)
        } else if self.webtransport_bind is None {
            None
        } else if self.webtransport_certificate is Some {
            Some(WebTransportCertificateMode::WebPki)
        } else {
            Some(WebTransportCertificateMode::DevelopmentHashPin)
        }
    }

    /// How clients trust the certificate of the endpoint they reach.
    pub fn certificate_mode(&self) -> (r: Option<WebTransportCertificateMode>)
        ensures
            r == self.spec_certificate_mode(),
    {
        if self.h3_frontdoor.is_some() {
            Some(WebTransportCertificateMode::WebPki)
        } else if self.webtransport_bind.is_none() {
            None
        } else if self.webtransport_certificate.is_some() {
            Some(WebTransportCertificateMode::WebPki)
        } else {
            Some(WebTransportCertificateMode::DevelopmentHashPin)
        }
    }
}

/// A daemon that starts and lets anybody in can be reached from its own machine
/// only.
pub proof fn insecure_daemons_stay_local(config: DaemonConfig, hard_max: u64)
    requires
        config.fault(hard_max) is None,
        config.auth is DevInsecure,
    ensures
        config.bind.ip.loopback(),
        config.webtransport_bind matches Some(bind) ==> bind.ip.loopback(),
        config.h3_frontdoor is None,
        config.password_auth is None,
{
}

/// A daemon that starts and is reached from elsewhere shows a certificate that
/// somebody vouches for.
pub proof fn public_endpoints_are_vouched_for(config: DaemonConfig, hard_max: u64)
    requires
        config.fault(hard_max) is None,
        config.webtransport_bind is Some,
        !config.webtransport_bind->0.ip.loopback(),
    ensures
        config.spec_certificate_mode() == Some(WebTransportCertificateMode::WebPki),
        config.webtransport_private_key is Some,
{
}

impl StartError {
    /// The error as a text; `shown` is its address as a text.
    pub open spec fn spec_text(self, shown: Seq<char>) -> Seq<char> {
        match self {
            StartError::CertificateWithoutKey => {
                "WebTransport TLS requires both certificate and private-key paths"@
            },
            StartError::SelfSignedBeyondLoopback { .. } => {
                "refusing self-signed WebTransport on non-loopback bind "@ + shown
                    + "; configure a public certificate and private key"@
            },
            StartError::CertificateWithoutTransport => {
                "WebTransport certificate configured while WebTransport is disabled"@
            },
            StartError::FrontdoorAndEndpoint => {
                "the shared front door and a WebTransport bind are mutually exclusive"@
            },
            StartError::DevAuthBeyondLoopback { .. } => {
                "refusing dev-auth on non-loopback bind "@ + shown + " (threat model T7/T4)"@
            },
            StartError::DevAuthBehindFrontdoor => "refusing dev-auth behind a public front door"@,
            StartError::PasswordWithDevAuth => {
                "password auth requires a real auth mode, not dev-auth"@
            },
            StartError::NoPasswordUsers => "password auth enabled with an empty user allowlist"@,
            StartError::PasswordUsername => "password-auth username must be 1..=128 bytes"@,
            StartError::UploadMaximum { hard_max } => {
                "upload maximum exceeds the hard "@ + decimal_nat(hard_max as nat)
                    + "-byte ceiling"@
            },
            StartError::UploadRootRelative => "upload root must be absolute"@,
            StartError::UploadRootEncoding => {
                "upload root must be valid UTF-8 for the wire path"@
            },
            StartError::UploadsNeedSpawner => {
                "multi-user uploads require --spawner-socket; refusing daemon-owned output"@
            },
        }
    }

    /// The error as a text; `shown` is its address as a text.
    pub fn text(&self, shown: &str) -> (r: String)
        ensures
            r@ == self.spec_text(shown@),
    {
        match self {
            StartError::CertificateWithoutKey => {
                "WebTransport TLS requires both certificate and private-key paths".to_owned()
            },
            StartError::SelfSignedBeyondLoopback { .. } => {
                let mut out: String =
                    "refusing self-signed WebTransport on non-loopback bind ".to_owned();
                push_text(&mut out, shown);
                push_text(&mut out, "; configure a public certificate and private key");
                out
            },
            StartError::CertificateWithoutTransport => {
                "WebTransport certificate configured while WebTransport is disabled".to_owned()
            },
            StartError::FrontdoorAndEndpoint => {
                "the shared front door and a WebTransport bind are mutually exclusive".to_owned()
            },
            StartError::DevAuthBeyondLoopback { .. } => {
                let mut out: String = "refusing dev-auth on non-loopback bind ".to_owned();
                push_text(&mut out, shown);
                push_text(&mut out, " (threat model T7/T4)");
                out
            },
            StartError::DevAuthBehindFrontdoor => {
                "refusing dev-auth behind a public front door".to_owned()
            },
            StartError::PasswordWithDevAuth => {
                "password auth requires a real auth mode, not dev-auth".to_owned()
            },
            StartError::NoPasswordUsers => {
                "password auth enabled with an empty user allowlist".to_owned()
            },
            StartError::PasswordUsername => {
                "password-auth username must be 1..=128 bytes".to_owned()
            },
            StartError::UploadMaximum { hard_max } => {
                let mut out: String = "upload maximum exceeds the hard ".to_owned();
                push_decimal(&mut out, *hard_max);
                push_text(&mut out, "-byte ceiling");
                out
            },
            StartError::UploadRootRelative => "upload root must be absolute".to_owned(),
            StartError::UploadRootEncoding => {
                "upload root must be valid UTF-8 for the wire path".to_owned()
            },
            StartError::UploadsNeedSpawner => {
                "multi-user uploads require --spawner-socket; refusing daemon-owned output".to_owned()
            },
        }
    }
}

/// The SHA-256 digest of some bytes.
pub uninterp spec fn sha256(bytes: Seq<u8>) -> Seq<u8>;

/// Wraps `sha2::Sha256::digest`: the SHA-256 digest of `bytes`.
#[verifier::external_body]
pub(crate) fn sha256_digest(bytes: &[u8]) -> (r: [u8; 32])
    ensures
        r@ == sha256(bytes@),
{
    sha2::Sha256::digest(bytes).into()
}

/// The identity of a server with a signing key: the first half of the digest of
/// its public half, so that it tells nothing of the key.
pub open spec fn server_identity(seed: Seq<u8>) -> Seq<u8> {
    sha256(encode_utf8(SERVER_ID_DOMAIN@) + ed25519_public(seed)).take(16)
}

/// The identity that starts a digest.
pub fn server_id_of(digest: &[u8; 32]) -> (r: ServerId)
    ensures
        r.0@ == digest@.take(16),
{
    let mut id: [u8; 16] = [0u8; 16];
    let mut i: usize = 0;
    while i < 16
        invariant
            i <= 16,
            forall|k: int| 0 <= k < i ==> id@[k] == digest@[k],
        decreases 16 - i,
    {
        id[i] = digest[i];
        i = i + 1;
    }
    assert(id@ =~= digest@.take(16));
    ServerId(id)
}

/// The identity of a server with a signing key.
pub fn derive_server_id(seed: &[u8; 32]) -> (r: ServerId)
    ensures
        r.0@ == server_identity(seed@),
{
    let public: [u8; 32] = GrantSigner::from_bytes(seed).grant_verifier().public_bytes();
    let mut input: Vec<u8> = crate::bytes::copy_bytes(SERVER_ID_DOMAIN.as_bytes());
    crate::bytes::append_bytes(&mut input, public.as_slice());
    let digest: [u8; 32] = sha256_digest(input.as_slice());
    server_id_of(&digest)
}

/// The identity of a daemon that starts: the one that is configured, else one
/// derived from the signing key, else a random one.
pub fn server_id_for(config: &DaemonConfig) -> (r: ServerId)
    ensures
        config.server_id matches Some(id) ==> r == id,
        config.server_id is None ==> (config.grant_signing_key matches Some(seed) ==> r.0@
            == server_identity(seed@)),
{
    match (&config.server_id, &config.grant_signing_key) {
        (Some(id), _) => *id,
        (None, Some(seed)) => derive_server_id(seed),
        (None, None) => ServerId(random_16()),
    }
}

/// Whether a user's text authorizes any key.
pub open spec fn authorizes(keys: Seq<char>) -> bool {
    unrestricted_keys(authorized_entries(keys)).len() > 0
}

/// Whether a user is the first whose text authorizes no key.
pub open spec fn first_without_keys(users: Seq<(String, String)>, i: int) -> bool {
    &&& 0 <= i < users.len()
    &&& !authorizes(users[i].1@)
    &&& forall|k: int| 0 <= k < i ==> authorizes((#[trigger] users[k]).1@)
}

/// Whether verifiers hold the keys of the users, in order.
pub open spec fn keys_read(users: Seq<(String, String)>, verifiers: Seq<(String, SshVerifier)>) -> bool {
    &&& verifiers.len() == users.len()
    &&& forall|i: int|
        0 <= i < users.len() ==> {
            &&& (#[trigger] verifiers[i]).0@ == users[i].0@
            &&& verifiers[i].1.keys() == unrestricted_keys(authorized_entries(users[i].1@))
        }
}

/// Reads the keys of every user. A user whose text authorizes no key is
/// reported, the first one where there are several.
pub fn read_keys(users: &Vec<(String, String)>) -> (r: Result<Vec<(String, SshVerifier)>, String>)
    ensures
        r is Ok <==> forall|i: int| 0 <= i < users@.len() ==> authorizes((#[trigger] users@[i]).1@),
        r matches Ok(verifiers) ==> keys_read(users@, verifiers@),
        r matches Err(name) ==> exists|i: int| #[trigger]
            first_without_keys(users@, i) && users@[i].0@ == name@,
{
    let mut verifiers: Vec<(String, SshVerifier)> = Vec::new();
    let mut i: usize = 0;
    while i < users.len()
        invariant
            i <= users.len(),
            verifiers@.len() == i,
            forall|k: int| 0 <= k < i ==> authorizes((#[trigger] users@[k]).1@),
            keys_read(users@.take(i as int), verifiers@),
        decreases users.len() - i,
    {
        match SshVerifier::from_authorized_keys(users[i].1.as_str()) {
            Ok(keys) => {
                let name: String = users[i].0.as_str().to_owned();
                let ghost before = verifiers@;
                verifiers.push((name, keys));
                proof {
                    let shorter = users@.take(i as int);
                    let longer = users@.take(i + 1);
                    assert forall|k: int| 0 <= k < longer.len() implies (
                    #[trigger] verifiers@[k]).0@ == longer[k].0@ && verifiers@[k].1.keys()
                        == unrestricted_keys(authorized_entries(longer[k].1@)) by {
                        if k < i {
                            assert(verifiers@[k] == before[k]);
                            assert(longer[k] == shorter[k]);
                        }
                    }
                }
            },
            Err(_) => {
                let name: String = users[i].0.as_str().to_owned();
                assert(!authorizes(users@[i as int].1@));
                assert(first_without_keys(users@, i as int));
                return Err(name);
            },
        }
        i = i + 1;
    }
    assert(users@.take(i as int) =~= users@);
    Ok(verifiers)
}

/// How clients log in, with the keys of every user.
pub fn auth_mode(config: &AuthConfig) -> (r: Result<AuthMode, String>)
    ensures
        config is DevInsecure ==> (r matches Ok(m) && m is DevInsecure),
        config matches AuthConfig::SshKeys { users } ==> {
            &&& r is Ok <==> forall|i: int|
                0 <= i < users@.len() ==> authorizes((#[trigger] users@[i]).1@)
            &&& r matches Ok(m) ==> (m matches AuthMode::SshKeys { users: verifiers } && keys_read(
                users@,
                verifiers@,
            ))
            &&& r matches Err(name) ==> exists|i: int| #[trigger]
                first_without_keys(users@, i) && users@[i].0@ == name@
        },
{
    match config {
        AuthConfig::DevInsecure => Ok(AuthMode::DevInsecure),
        AuthConfig::SshKeys { users } => match read_keys(users) {
            Ok(verifiers) => Ok(AuthMode::SshKeys { users: verifiers }),
            Err(name) => Err(name),
        },
    }
}

/// The login state of a daemon that starts, with grants that are bound to the
/// server.
pub fn auth_state(config: &DaemonConfig, mode: AuthMode, server_id: &ServerId) -> (r: AuthState)
    ensures
        r.wf(),
        r.mode == mode,
        r.audience@ == server_text(server_id.0@),
        config.grant_signing_key matches Some(seed) ==> r.grant_signer.secret() == seed@,
        config.password_auth matches Some(p) ==> (r.password matches Some(q) && texts(
            q.users@,
        ) == texts(p.users@)),
        config.password_auth is None ==> r.password is None,
        r.rate_limiter@ == no_failures(),
{
    let password: Option<crate::password::PasswordAuth> = match &config.password_auth {
        Some(p) => Some(crate::password::PasswordAuth { users: copy_list(&p.users) }),
        None => None,
    };
    AuthState::new(mode, password, server_id.to_text(), config.grant_signing_key)
}

/// Whether a browser's origin may connect. Clients that name none are no
/// browsers.
pub open spec fn origin_admitted(allowed: Option<Seq<String>>, origin: Option<Seq<char>>) -> bool {
    match (allowed, origin) {
        (Some(list), Some(o)) => among(list, o),
        _ => true,
    }
}

/// Whether a browser's origin may connect.
pub fn origin_allowed(allowed: Option<&Vec<String>>, origin: Option<&str>) -> (r: bool)
    ensures
        r == origin_admitted(
            match allowed {
                Some(list) => Some(list@),
                None => None,
            },
            match origin {
                Some(o) => Some(o@),
                None => None,
            },
        ),
{
    match (allowed, origin) {
        (Some(list), Some(o)) => contains(list, o),
        _ => true,
    }
}

/// How uploads are written.
#[derive(Debug, Clone, PartialEq, Eq)]
pub enum UploadMode {
    Disabled,
    /// A spawner writes each as its user.
    Spawner { socket: String },
    /// The daemon writes them below a directory.
    SameUid { root: String },
}

/// Whether uploads are written as a configuration says.
pub open spec fn mode_of_uploads(config: DaemonConfig, r: UploadMode) -> bool {
    match config.upload_root {
        None => r is Disabled,
        Some(root) => if config.session.privilege_drop {
            r matches UploadMode::Spawner { socket } && Some(socket@) == (
            match config.session.spawner_socket {
                Some(s) => Some(s@),
                None => None,
            })
        } else {
            r matches UploadMode::SameUid { root: path } && encode_utf8(path@) == root@
        },
    }
}

/// How uploads are written, in a configuration that is checked.
pub fn upload_mode(config: &DaemonConfig, hard_max: u64) -> (r: UploadMode)
    requires
        config.fault(hard_max) is None,
    ensures
        mode_of_uploads(*config, r),
{
    match &config.upload_root {
        None => UploadMode::Disabled,
        Some(root) => {
            if config.session.privilege_drop {
                match &config.session.spawner_socket {
                    Some(socket) => UploadMode::Spawner { socket: socket.as_str().to_owned() },
                    None => UploadMode::Disabled,
                }
            } else {
                proof {
                    decode_utf8_encode_utf8(root@);
                }
                match utf8_text(root.as_slice()) {
                    Some(path) => UploadMode::SameUid { root: path },
                    None => UploadMode::Disabled,
                }
            }
        },
    }
}

/// Whether the root of uploads may be used: a directory, and no link to one.
pub fn upload_root_fits(is_symlink: bool, is_dir: bool) -> (r: bool)
    ensures
        r == (is_dir && !is_symlink),
{
    is_dir && !is_symlink
}

/// How often shells that were left alone are looked for: four times within their
/// time, but neither oftener than every second nor rarer than every minute.
pub fn reap_period_ms(ttl_ms: u64) -> (r: u64)
    ensures
        r == (if ttl_ms / 4 < 1_000 {
            1_000u64
        } else if ttl_ms / 4 > 60_000 {
            60_000u64
        } else {
            (ttl_ms / 4) as u64
        }),
{
    let quarter: u64 = ttl_ms / 4;
    if quarter < 1_000 {
        1_000
    } else if quarter > 60_000 {
        60_000
    } else {
        quarter
    }
}

/// A shell that was left alone for too long: whose it was, which, and how it
/// ended.
#[derive(Debug, Clone, PartialEq, Eq)]
pub struct ExpiredShell {
    pub user: String,
    pub shell_id: ShellId,
    pub exit_code: u32,
}

/// What is held once every expired shell was recorded, in order.
pub open spec fn expiries_recorded(
    o: ObservabilityView,
    shells: Seq<ExpiredShell>,
    now_ms: i64,
) -> ObservabilityView
    decreases shells.len(),
{
    if shells.len() == 0 {
        o
    } else {
        expiries_recorded(o, shells.drop_last(), now_ms).recorded(
            AuditEvent::ShellExpired {
                user: shells.last().user@,
                shell_id: shells.last().shell_id,
                exit_code: shells.last().exit_code,
            },
            now_ms,
        )
    }
}

/// Records every shell that expired, as such: none is mistaken for one that
/// somebody ended.
pub fn record_expiries(observability: &mut Observability, shells: &Vec<ExpiredShell>, now_ms: i64)
    requires
        old(observability)@.bounded(),
    ensures
        final(observability)@.bounded(),
        final(observability)@ == expiries_recorded(old(observability)@, shells@, now_ms),
{
    let ghost before = observability@;
    let mut i: usize = 0;
    assert(shells@.take(0) =~= Seq::empty());
    while i < shells.len()
        invariant
            i <= shells.len(),
            observability@.bounded(),
            observability@ == expiries_recorded(before, shells@.take(i as int), now_ms),
        decreases shells.len() - i,
    {
        let shell: &ExpiredShell = &shells[i];
        let event: AuditEvent = AuditEvent::ShellExpired {
            user: shell.user.as_str().to_owned(),
            shell_id: shell.shell_id,
            exit_code: shell.exit_code,
        };
        proof {
            assert(shells@.take(i + 1).drop_last() =~= shells@.take(i as int));
            assert(shells@.take(i + 1).last() == *shell);
        }
        observability.record(event, now_ms);
        i = i + 1;
    }
    assert(shells@.take(i as int) =~= shells@);
}

/// What answers a request over TCP.
#[derive(Debug, Clone, Copy, PartialEq, Eq, Structural)]
pub enum TcpRoute {
    /// What pages learn of the transport.
    Info,
    /// The transport over WebSocket.
    WebSocket,
    /// The page that waits for the browser to come over QUIC.
    Interstitial,
    /// A file of the client's page.
    Files,
    /// Nothing.
    NotFound,
}

/// Whether pages are served over QUIC only.
pub open spec fn is_quic_first(info: Option<WebTransportInfo>) -> bool {
    info matches Some(i) && i.mode is WebPki
}

/// What answers a request over TCP.
pub open spec fn spec_tcp_route(
    path: Seq<u8>,
    websocket: bool,
    info: Option<WebTransportInfo>,
    has_root: bool,
) -> TcpRoute {
    if path == encode_utf8("/webtransport-info"@) {
        TcpRoute::Info
    } else if websocket && path == encode_utf8("/terminal/ws"@) {
        TcpRoute::WebSocket
    } else if is_quic_first(info) {
        TcpRoute::Interstitial
    } else if has_root {
        TcpRoute::Files
    } else {
        TcpRoute::NotFound
    }
}

/// What answers a request over TCP. Where the certificate is vouched for, the
/// client's page itself is served over QUIC only.
pub fn tcp_route(
    path: &str,
    websocket: bool,
    info: Option<&WebTransportInfo>,
    has_root: bool,
) -> (r: TcpRoute)
    ensures
        r == spec_tcp_route(
            path.spec_bytes(),
            websocket,
            match info {
                Some(i) => Some(*i),
                None => None,
            },
            has_root,
        ),
{
    let quic_first: bool = match info {
        Some(i) => match i.mode {
            WebTransportCertificateMode::WebPki => true,
            WebTransportCertificateMode::DevelopmentHashPin => false,
        },
        None => false,
    };
    if crate::bytes::same_bytes(path.as_bytes(), "/webtransport-info".as_bytes()) {
        TcpRoute::Info
    } else if websocket && crate::bytes::same_bytes(path.as_bytes(), "/terminal/ws".as_bytes()) {
        TcpRoute::WebSocket
    } else if quic_first {
        TcpRoute::Interstitial
    } else if has_root {
        TcpRoute::Files
    } else {
        TcpRoute::NotFound
    }
}

/// The header by which browsers learn of the endpoint over QUIC.
pub open spec fn alt_svc_text(port: u16) -> Seq<char> {
    "h3=\":"@ + decimal_nat(port as nat) + "\"; ma=86400"@
}

/// The header by which browsers learn of the endpoint over QUIC; only where its
/// certificate is vouched for, since they would not go there otherwise.
pub fn alt_svc(info: Option<&WebTransportInfo>) -> (r: Option<String>)
    ensures
        r is Some <==> (info matches Some(i) && i.mode is WebPki),
        r matches Some(text) ==> (info matches Some(i) && text@ == alt_svc_text(i.port)),
{
    match info {
        Some(i) => match i.mode {
            WebTransportCertificateMode::DevelopmentHashPin => None,
            WebTransportCertificateMode::WebPki => {
                let mut out: String = "h3=\":".to_owned();
                push_decimal(&mut out, i.port as u64);
                push_text(&mut out, "\"; ma=86400");
                assert(out@ =~= alt_svc_text(i.port));
                Some(out)
            },
        },
        None => None,
    }
}

/// Where the certificate is vouched for, TCP never serves the client's page.
pub proof fn pages_come_over_quic(path: Seq<u8>, websocket: bool, info: WebTransportInfo, has_root: bool)
    requires
        info.mode is WebPki,
    ensures
        !(spec_tcp_route(path, websocket, Some(info), has_root) is Files),
{
}

/// Starts a daemon that connects to a gateway: it must know which accounts its
/// users may have, since the gateway does not.
pub fn start_agent(
    config: &DaemonConfig,
    reconnect: ReconnectPolicy,
    grant_audience: String,
    limits: &AgentLimits,
) -> (r: Result<AgentSupervisor, AgentError>)
    ensures
        config.account_policy is None ==> (r matches Err(e) && e is MissingAccountPolicy),
        config.account_policy is Some ==> call_ensures(
            AgentSupervisor::new,
            (reconnect, grant_audience, limits),
            r,
        ),
{
    if config.account_policy.is_none() {
        return Err(AgentError::MissingAccountPolicy);
    }
    AgentSupervisor::new(reconnect, grant_audience, limits)
}

/// Why a daemon does not start.
#[derive(Debug, Clone, PartialEq, Eq)]
pub enum DaemonError {
    /// Its configuration contradicts itself.
    Config(StartError),
    /// The configuration of the front door is out of bounds.
    Bridge(BridgeError),
    /// The users that may forward connections are too many, or cannot be users.
    ForwardUsers,
    /// The text of a user authorizes no key.
    Keys { username: String },
}

/// Whether some users may forward connections.
pub open spec fn forward_users_fit(users: Seq<String>) -> bool {
    texts(users).to_set().len() <= MAX_USERS && forall|i: int|
        0 <= i < users.len() ==> user_name_fits((#[trigger] users[i])@)
}

/// What is wrong with a configuration before any key is read.
pub open spec fn start_fault(config: DaemonConfig, hard_max: u64) -> Option<DaemonError> {
    if config.fault(hard_max) is Some {
        Some(DaemonError::Config(config.fault(hard_max)->0))
    } else if config.h3_frontdoor is Some && config_fault(config.h3_frontdoor->0) is Some {
        Some(DaemonError::Bridge(config_fault(config.h3_frontdoor->0)->0))
    } else if !forward_users_fit(config.tcp_forward_users@) {
        Some(DaemonError::ForwardUsers)
    } else {
        None
    }
}

/// A daemon that has started: all that its connections share.
pub struct Daemon {
    pub server_id: ServerId,
    pub certificate_mode: Option<WebTransportCertificateMode>,
    pub allowed_origins: Option<Vec<String>>,
    pub auth: AuthState,
    pub forward: ForwardService,
    pub uploads: UploadMode,
    pub observability: Observability,
}

/// Whether a daemon is what starts with a configuration.
pub open spec fn started(config: DaemonConfig, d: Daemon) -> bool {
    &&& d.wf()
    &&& config.server_id matches Some(id) ==> d.server_id == id
    &&& config.grant_signing_key matches Some(seed) ==> {
        &&& d.auth.grant_signer.secret() == seed@
        &&& config.server_id is None ==> d.server_id.0@ == server_identity(seed@)
    }
    &&& d.certificate_mode == config.spec_certificate_mode()
    &&& origins_view(d.allowed_origins) == origins_view(config.allowed_origins)
    &&& match config.auth {
        AuthConfig::DevInsecure => d.auth.mode is DevInsecure,
        AuthConfig::SshKeys { users } => {
            &&& d.auth.mode matches AuthMode::SshKeys { users: verifiers }
            &&& keys_read(users@, verifiers@)
        },
    }
    &&& d.auth.password is Some <==> config.password_auth is Some
    &&& config.password_auth matches Some(p) ==> texts(d.auth.password->0.users@) == texts(p.users@)
    &&& d.auth.rate_limiter@ == no_failures()
    &&& d.forward.users() == texts(config.tcp_forward_users@).to_set()
    &&& d.forward.total() == 0
    &&& mode_of_uploads(config, d.uploads)
    &&& d.observability@.server_id == d.server_id
    &&& d.observability@.capacity == DEFAULT_AUDIT_CAPACITY
    &&& d.observability@.records.len() == 0
    &&& d.observability@.metrics == no_counts()
}

/// A daemon that starts without a directory for uploads takes no files, and one
/// that nobody may forward through forwards nothing.
pub proof fn what_is_off_is_not_offered(config: DaemonConfig, d: Daemon, offered: Seq<Capability>)
    requires
        started(config, d),
        offered.contains(Capability::FileTransfer) <==> !(d.uploads is Disabled),
        offered.contains(Capability::TcpForward) <==> d.forward.users() != Set::<Seq<char>>::empty(),
    ensures
        config.upload_root is None <==> !offered.contains(Capability::FileTransfer),
        config.tcp_forward_users@.len() == 0 <==> !offered.contains(Capability::TcpForward),
{
    let users = texts(config.tcp_forward_users@);
    if users.len() > 0 {
        assert(users.to_set().contains(users[0]));
    } else {
        assert(users.to_set() =~= Set::empty());
    }
}

/// Two daemons that start with the same signing key, and without an identity of
/// their own, have the identity that the key gives, and judge every token alike:
/// a grant that one of them issued, and whose signature and claims it can read
/// back, is good at the other until it expires.
pub proof fn grants_survive_a_restart(
    before: DaemonConfig,
    first: Daemon,
    after: DaemonConfig,
    second: Daemon,
)
    requires
        started(before, first),
        started(after, second),
        before.server_id is None,
        after.server_id is None,
        before.grant_signing_key is Some,
        after.grant_signing_key is Some,
        before.grant_signing_key->0@ == after.grant_signing_key->0@,
    ensures
        first.server_id.0@ == server_identity(before.grant_signing_key->0@),
        second.server_id.0@ == first.server_id.0@,
        second.auth.audience@ == first.auth.audience@,
        second.auth.grant_verifier.public() == ed25519_public(first.auth.grant_signer.secret()),
        forall|grant: Seq<char>, now_ms: i64| #[trigger]
            grant_checked(
                second.auth.grant_verifier.public(),
                grant,
                second.auth.audience@,
                now_ms,
            ) == grant_checked(
                first.auth.grant_verifier.public(),
                grant,
                first.auth.audience@,
                now_ms,
            ),
        forall|c: ClaimsView, now_ms: i64|
            {
                let secret = first.auth.grant_signer.secret();
                let payload = claims_payload(c);
                let signature = ed25519_signature(secret, payload);
                &&& signature.len() == 64
                &&& ed25519_accepts(second.auth.grant_verifier.public(), payload, signature)
                &&& claims_read(payload) == Some(c)
                &&& c.aud == first.auth.audience@
                &&& c.iat_ms <= now_ms < c.exp_ms
            } ==> #[trigger] grant_checked(
                second.auth.grant_verifier.public(),
                issued(first.auth.grant_signer.secret(), c),
                second.auth.audience@,
                now_ms,
            ) == Ok::<ClaimsView, GrantErrorView>(c),
{
    let secret = first.auth.grant_signer.secret();
    let public = second.auth.grant_verifier.public();
    assert forall|c: ClaimsView, now_ms: i64|
        {
            let payload = claims_payload(c);
            let signature = ed25519_signature(secret, payload);
            &&& signature.len() == 64
            &&& ed25519_accepts(public, payload, signature)
            &&& claims_read(payload) == Some(c)
            &&& c.aud == first.auth.audience@
            &&& c.iat_ms <= now_ms < c.exp_ms
        } implies #[trigger] grant_checked(
        public,
        issued(secret, c),
        second.auth.audience@,
        now_ms,
    ) == Ok::<ClaimsView, GrantErrorView>(c) by {
        let payload = claims_payload(c);
        token_is_checked(
            public,
            issued(secret, c),
            payload,
            ed25519_signature(secret, payload),
            second.auth.audience@,
            now_ms,
        );
    }
}

impl Daemon {
    /// Whether all of it is sound.
    pub open spec fn wf(&self) -> bool {
        &&& self.auth.wf()
        &&& self.auth.audience@ == server_text(self.server_id.0@)
        &&& self.forward.wf()
        &&& self.observability@.bounded()
    }

    /// Starts a daemon: its configuration is checked, the keys of its users are
    /// read, and it gets an identity to which its grants are bound. Uploads may
    /// be as large as `hard_max`.
    pub fn start(config: &DaemonConfig, hard_max: u64) -> (r: Result<Daemon, DaemonError>)
        ensures
            start_fault(*config, hard_max) matches Some(e) ==> r == Err::<Daemon, DaemonError>(e),
            start_fault(*config, hard_max) is None ==> match (config.auth, r) {
                (_, Ok(d)) => started(*config, d),
                (AuthConfig::SshKeys { users }, Err(DaemonError::Keys { username })) => exists|i: int|
                    #[trigger] first_without_keys(users@, i) && users@[i].0@ == username@,
                _ => false,
            },
            config.auth matches AuthConfig::SshKeys { users } ==> (start_fault(*config, hard_max)
                is None ==> (r is Ok <==> forall|i: int|
                0 <= i < users@.len() ==> authorizes((#[trigger] users@[i]).1@))),
    {
        if let Err(e) = config.validate(hard_max) {
            return Err(DaemonError::Config(e));
        }
        if let Some(bridge) = &config.h3_frontdoor {
            if let Err(e) = bridge.validate() {
                return Err(DaemonError::Bridge(e));
            }
        }
        let users: Vec<String> = copy_list(&config.tcp_forward_users);
        proof {
            same_users_fit(users@, config.tcp_forward_users@);
        }
        let forward: ForwardService = match ForwardService::new(users) {
            Ok(service) => service,
            Err(_) => {
                return Err(DaemonError::ForwardUsers);
            },
        };
        let server_id: ServerId = server_id_for(config);
        let mode: AuthMode = match auth_mode(&config.auth) {
            Ok(mode) => mode,
            Err(username) => {
                return Err(DaemonError::Keys { username });
            },
        };
        let auth: AuthState = auth_state(config, mode, &server_id);
        let allowed_origins: Option<Vec<String>> = match &config.allowed_origins {
            Some(list) => Some(copy_list(list)),
            None => None,
        };
        Ok(
            Daemon {
                server_id,
                certificate_mode: config.certificate_mode(),
                allowed_origins,
                auth,
                forward,
                uploads: upload_mode(config, hard_max),
                observability: Observability::new(server_id, DEFAULT_AUDIT_CAPACITY),
            },
        )
    }

    /// Whether a browser's origin may connect.
    pub fn origin_allowed(&self, origin: Option<&str>) -> (r: bool)
        ensures
            r == origin_admitted(
                match self.allowed_origins {
                    Some(list) => Some(list@),
                    None => None,
                },
                match origin {
                    Some(o) => Some(o@),
                    None => None,
                },
            ),
    {
        match &self.allowed_origins {
            Some(list) => origin_allowed(Some(list), origin),
            None => origin_allowed(None, origin),
        }
    }

    /// What the daemon can do beyond the basics: take files where somebody writes
    /// them, and forward connections where anybody may have that.
    pub fn offered(&self) -> (r: Vec<Capability>)
        ensures
            r@.contains(Capability::FileTransfer) <==> !(self.uploads is Disabled),
            r@.contains(Capability::TcpForward) <==> self.forward.users() != Set::<
                Seq<char>,
            >::empty(),
            !r@.contains(Capability::Datagrams),
            r@.no_duplicates(),
    {
        let mut offered: Vec<Capability> = Vec::new();
        let files: bool = match &self.uploads {
            UploadMode::Disabled => false,
            _ => true,
        };
        let forwards: bool = self.forward.enabled();
        if files {
            offered.push(Capability::FileTransfer);
        }
        if forwards {
            offered.push(Capability::TcpForward);
        }
        proof {
            if files {
                assert(offered@[0] == Capability::FileTransfer);
            }
            if forwards {
                assert(offered@.last() == Capability::TcpForward);
            }
        }
        offered
    }

    /// A connection that has just been made to this daemon.
    pub fn connection(
        &self,
        peer_ip: IpAddr,
        default_frame_bytes: u32,
        transport_datagrams: bool,
        channel_binding: Vec<u8>,
    ) -> (r: Conn)
        ensures
            r.wf(),
            r@ == (ConnView {
                server_id: self.server_id,
                peer_ip,
                default_frame_bytes,
                offered: r@.offered,
                negotiated: None,
                authenticated: false,
                user: Seq::empty(),
                scope: None,
                channel_binding: channel_binding@,
                pending: None,
                transport_datagrams,
                attachments: Map::empty(),
                uploads: Map::empty(),
                forwards: Map::empty(),
            }),
            r@.offered.contains(Capability::FileTransfer) <==> !(self.uploads is Disabled),
            r@.offered.contains(Capability::TcpForward) <==> self.forward.users() != Set::<
                Seq<char>,
            >::empty(),
            !r@.offered.contains(Capability::Datagrams),
            r@.offered.no_duplicates(),
    {
        Conn::new(
            self.server_id,
            peer_ip,
            default_frame_bytes,
            self.offered(),
            transport_datagrams,
            channel_binding,
        )
    }

    /// The events that are kept, oldest first.
    pub fn audit_events(&self) -> (r: Vec<AuditRecord>)
        ensures
            record_views(r@) == self.observability@.records,
    {
        self.observability.audit_events()
    }

    /// What was counted.
    pub fn metrics(&self) -> (r: MetricsSnapshot)
        ensures
            r == self.observability@.metrics,
    {
        self.observability.metrics()
    }
}

/// Origins as texts.
pub open spec fn origins_view(origins: Option<Vec<String>>) -> Option<Seq<Seq<char>>> {
    match origins {
        Some(list) => Some(texts(list@)),
        None => None,
    }
}

proof fn same_users_fit(a: Seq<String>, b: Seq<String>)
    requires
        texts(a) == texts(b),
    ensures
        forward_users_fit(a) == forward_users_fit(b),
{
    assert(a.len() == b.len()) by {
        assert(texts(a).len() == a.len());
        assert(texts(b).len() == b.len());
    }
    assert forall|i: int| 0 <= i < a.len() implies (#[trigger] a[i])@ == b[i]@ by {
        assert(texts(a)[i] == texts(b)[i]);
    }
    if forward_users_fit(a) {
        assert forall|i: int| 0 <= i < b.len() implies user_name_fits((#[trigger] b[i])@) by {
            assert(user_name_fits(a[i]@));
        }
    }
    if forward_users_fit(b) {
        assert forall|i: int| 0 <= i < a.len() implies user_name_fits((#[trigger] a[i])@) by {
            assert(user_name_fits(b[i]@));
        }
    }
}

} // verus!
