use holdfast::cli::{
    read_setting, Cli, CliError, Flag, Plan, Setting,
};
use holdfast::daemon::{
    alt_svc, auth_mode, derive_server_id, origin_allowed, reap_period_ms, read_keys, tcp_route,
    upload_mode, upload_root_fits, AuthConfig, Daemon, DaemonConfig, DaemonError,
    PasswordAuthConfig, StartError, TcpRoute, UploadMode,
};
use holdfast::frontdoor_bridge::{BridgeError, FrontdoorBridgeConfig};
use holdfast::grant::{GrantClaims, GrantError};
use holdfast::ids::ServerId;
use holdfast::key_file::{
    check_mode, new_grant_key, parse_grant_key, parse_grant_verifier, KeyFileError,
};
use holdfast::net::{IpAddr, SocketAddr};
use holdfast::parse::NumberFault;
use holdfast::web::{WebTransportCertificateMode, WebTransportInfo};
use sha2::{Digest, Sha256};
use std::collections::VecDeque;

const HARD_MAX: u64 = 1 << 30;

fn loopback(port: u16) -> SocketAddr {
    SocketAddr { ip: IpAddr::V4(0x7F00_0001), port }
}

fn anywhere() -> SocketAddr {
    SocketAddr { ip: IpAddr::V4(0), port: 0 }
}

fn keys() -> AuthConfig {
    AuthConfig::SshKeys { users: vec![] }
}

fn bridge() -> FrontdoorBridgeConfig {
    FrontdoorBridgeConfig {
        socket_path: "/run/holdfast/h3.sock".to_string(),
        frontdoor_uid: 1000,
        hostname: "holdfast.example".to_string(),
        public_port: 443,
        maximum_sessions: 4,
        maximum_streams_per_session: 4,
    }
}

fn refused(config: DaemonConfig) -> StartError {
    config.validate(HARD_MAX).unwrap_err()
}

#[test]
fn the_usual_configuration_starts() {
    let config = DaemonConfig::default();
    assert_eq!(config.bind, loopback(8080));
    assert_eq!(config.validate(HARD_MAX), Ok(()));
    assert_eq!(
        config.certificate_mode(),
        Some(WebTransportCertificateMode::DevelopmentHashPin)
    );
}

#[test]
fn certificates_come_with_keys_and_public_binds_with_certificates() {
    let incomplete = refused(DaemonConfig {
        webtransport_certificate: Some("/c.pem".to_string()),
        ..DaemonConfig::default()
    });
    assert!(incomplete.text("").contains("both certificate and private-key"));
    let exposed = refused(DaemonConfig {
        webtransport_bind: Some(anywhere()),
        auth: keys(),
        ..DaemonConfig::default()
    });
    assert_eq!(
        exposed.text("0.0.0.0:0"),
        "refusing self-signed WebTransport on non-loopback bind 0.0.0.0:0; configure a public certificate and private key"
    );
    assert_eq!(
        refused(DaemonConfig {
            webtransport_bind: None,
            webtransport_certificate: Some("/c.pem".to_string()),
            webtransport_private_key: Some("/k.pem".to_string()),
            ..DaemonConfig::default()
        }),
        StartError::CertificateWithoutTransport
    );
    let public = DaemonConfig {
        webtransport_bind: Some(anywhere()),
        webtransport_certificate: Some("/c.pem".to_string()),
        webtransport_private_key: Some("/k.pem".to_string()),
        auth: keys(),
        ..DaemonConfig::default()
    };
    assert_eq!(public.validate(HARD_MAX), Ok(()));
    assert_eq!(public.certificate_mode(), Some(WebTransportCertificateMode::WebPki));
}

#[test]
fn letting_anybody_in_is_for_loopback() {
    let bound = refused(DaemonConfig { bind: anywhere(), ..DaemonConfig::default() });
    assert_eq!(bound, StartError::DevAuthBeyondLoopback { bind: anywhere() });
    assert!(bound.text("0.0.0.0:0").starts_with("refusing dev-auth on non-loopback bind 0.0.0.0:0"));
    let behind = refused(DaemonConfig {
        webtransport_bind: None,
        h3_frontdoor: Some(bridge()),
        ..DaemonConfig::default()
    });
    assert!(behind.text("").contains("refusing dev-auth"));
    let both = refused(DaemonConfig {
        h3_frontdoor: Some(bridge()),
        auth: keys(),
        ..DaemonConfig::default()
    });
    assert!(both.text("").contains("mutually exclusive"));
    let bridged = DaemonConfig {
        webtransport_bind: None,
        h3_frontdoor: Some(bridge()),
        auth: keys(),
        ..DaemonConfig::default()
    };
    assert_eq!(bridged.validate(HARD_MAX), Ok(()));
    assert_eq!(bridged.certificate_mode(), Some(WebTransportCertificateMode::WebPki));
}

#[test]
fn passwords_need_users_and_a_real_login() {
    let users = |list: &[&str]| PasswordAuthConfig {
        users: list.iter().map(|s| s.to_string()).collect(),
    };
    let with = |auth: AuthConfig, list: &[&str]| DaemonConfig {
        auth,
        password_auth: Some(users(list)),
        ..DaemonConfig::default()
    };
    assert_eq!(refused(with(AuthConfig::DevInsecure, &["a"])), StartError::PasswordWithDevAuth);
    assert_eq!(refused(with(keys(), &[])), StartError::NoPasswordUsers);
    assert_eq!(refused(with(keys(), &["a", ""])), StartError::PasswordUsername);
    assert_eq!(refused(with(keys(), &[&"x".repeat(129)])), StartError::PasswordUsername);
    assert_eq!(with(keys(), &["a"]).validate(HARD_MAX), Ok(()));
}

#[test]
fn uploads_are_bounded_and_rooted() {
    let with = |root: &[u8]| DaemonConfig {
        upload_root: Some(root.to_vec()),
        ..DaemonConfig::default()
    };
    assert_eq!(
        refused(DaemonConfig { upload_max_file_bytes: Some(HARD_MAX + 1), ..DaemonConfig::default() }),
        StartError::UploadMaximum { hard_max: HARD_MAX }
    );
    assert_eq!(
        StartError::UploadMaximum { hard_max: 1024 }.text(""),
        "upload maximum exceeds the hard 1024-byte ceiling"
    );
    assert_eq!(refused(with(b"relative")), StartError::UploadRootRelative);
    assert_eq!(refused(with(b"/\xff")), StartError::UploadRootEncoding);
    let mut dropped = with(b"/up");
    dropped.session.privilege_drop = true;
    assert_eq!(refused(dropped.clone()), StartError::UploadsNeedSpawner);
    dropped.session.spawner_socket = Some("/run/spawner".to_string());
    assert_eq!(
        upload_mode(&dropped, HARD_MAX),
        UploadMode::Spawner { socket: "/run/spawner".to_string() }
    );
    assert_eq!(
        upload_mode(&with(b"/up"), HARD_MAX),
        UploadMode::SameUid { root: "/up".to_string() }
    );
    assert_eq!(upload_mode(&DaemonConfig::default(), HARD_MAX), UploadMode::Disabled);
    assert!(upload_root_fits(false, true));
    assert!(!upload_root_fits(true, true));
}

#[test]
fn a_server_is_named_by_its_public_key() {
    let public = ed25519_dalek::SigningKey::from_bytes(&[3; 32]).verifying_key().to_bytes();
    let mut hasher = Sha256::new();
    hasher.update(b"holdfast-server-id-v1");
    hasher.update(public);
    let digest = hasher.finalize();
    assert_eq!(derive_server_id(&[3; 32]).0[..], digest[..16]);
    let id = ServerId([0xab; 16]);
    assert_eq!(id.to_text(), format!("srv_{}", "ab".repeat(16)));
    assert_eq!(ServerId::from_text(&id.to_text()), Some(id));
    assert_eq!(ServerId::from_text("srv_ab"), None);
    assert_eq!(ServerId::from_text(&format!("sxv_{}", "ab".repeat(16))), None);
}

#[test]
fn users_without_keys_are_reported() {
    let line = "ssh-ed25519 AAAAC3NzaC1lZDI1NTE5AAAAILM+rvN+ot98qgEN796jTiQfZfG1KaT0PtFDJ/XFSqti foo@bar.com";
    let good = ("alice".to_string(), line.to_string());
    let bad = ("bob".to_string(), "# nothing\n".to_string());
    assert_eq!(read_keys(&vec![good.clone()]).ok().unwrap().len(), 1);
    assert_eq!(read_keys(&vec![good.clone(), bad.clone()]).err().unwrap(), "bob");
    assert!(auth_mode(&AuthConfig::DevInsecure).is_ok());
    assert_eq!(
        auth_mode(&AuthConfig::SshKeys { users: vec![bad, good] }).err().unwrap(),
        "bob"
    );
}

#[test]
fn origins_are_checked_where_they_are_named() {
    let list = vec!["https://terminal.example".to_string()];
    assert!(origin_allowed(Some(&list), Some("https://terminal.example")));
    assert!(!origin_allowed(Some(&list), Some("https://evil.example")));
    assert!(origin_allowed(Some(&list), None));
    assert!(origin_allowed(None, Some("https://evil.example")));
}

#[test]
fn pages_move_to_quic_where_the_certificate_is_vouched_for() {
    let info = |mode| WebTransportInfo { port: 4433, cert_hash_base64: String::new(), mode };
    let public = info(WebTransportCertificateMode::WebPki);
    let development = info(WebTransportCertificateMode::DevelopmentHashPin);
    assert_eq!(tcp_route("/", false, Some(&public), true), TcpRoute::Interstitial);
    assert_eq!(tcp_route("/index.html", false, Some(&public), true), TcpRoute::Interstitial);
    assert_eq!(tcp_route("/", false, Some(&development), true), TcpRoute::Files);
    assert_eq!(tcp_route("/", false, None, false), TcpRoute::NotFound);
    assert_eq!(tcp_route("/webtransport-info", false, None, false), TcpRoute::Info);
    assert_eq!(tcp_route("/terminal/ws", true, None, false), TcpRoute::WebSocket);
    assert_eq!(tcp_route("/terminal/ws", false, None, true), TcpRoute::Files);
    assert_eq!(alt_svc(Some(&public)).unwrap(), "h3=\":4433\"; ma=86400");
    assert_eq!(alt_svc(Some(&development)), None);
}

#[test]
fn abandoned_shells_are_looked_for_in_time() {
    assert_eq!(reap_period_ms(400), 1_000);
    assert_eq!(reap_period_ms(40_000), 10_000);
    assert_eq!(reap_period_ms(86_400_000), 60_000);
}

#[test]
fn key_files_read_back() {
    let (seed, text) = new_grant_key();
    assert_eq!(parse_grant_key(&text), Ok(seed));
    assert_eq!(parse_grant_key(&format!(" {}\n", text.to_uppercase())), Ok(seed));
    assert_eq!(parse_grant_key(&text[1..]), Err(KeyFileError::NotSixtyFourDigits));
    assert_eq!(parse_grant_key(&"+f".repeat(32)), Err(KeyFileError::NotSixtyFourDigits));
    assert_eq!(check_mode(0o100600), Ok(()));
    assert_eq!(check_mode(0o100604), Err(KeyFileError::Exposed));
    let public = ed25519_dalek::SigningKey::from_bytes(&[3; 32]).verifying_key().to_bytes();
    let hex: String = public.iter().map(|b| format!("{b:02x}")).collect();
    assert_eq!(parse_grant_verifier(&hex).ok().unwrap().public_bytes(), public);
    assert!(matches!(parse_grant_verifier("ab"), Err(KeyFileError::NotSixtyFourDigits)));
    assert!(matches!(
        parse_grant_verifier(&"zz".repeat(32)),
        Err(KeyFileError::NotHexadecimal)
    ));
}

fn args(list: &[&str]) -> VecDeque<String> {
    list.iter().map(|s| s.to_string()).collect()
}

/// Reads a command line that needs no file.
fn read(list: &[&str]) -> Result<Plan, CliError> {
    let mut rest = args(list);
    let mut cli = Cli::new();
    while !rest.is_empty() {
        match read_setting(&mut rest, true)? {
            Setting::Address { flag, .. } => cli.set_address(flag, anywhere()),
            Setting::SshKeys { user, path } => cli.add_keys(user, path),
            Setting::GrantKey { .. } => cli.set_grant_key([1; 32]),
            other => cli.apply(other),
        }
    }
    cli.finish()
}

fn config_of(plan: Plan) -> DaemonConfig {
    match plan {
        Plan::Standalone { config, .. } => config,
        Plan::Agent(plan) => plan.config,
    }
}

#[test]
fn arguments_set_what_they_name() {
    let config = config_of(
        read(&[
            "--web-root", "/srv", "--wt-cert", "/c", "--wt-key", "/k", "--allowed-origin", "https://a",
            "--allowed-origin", "https://b", "--account", "alice", " dev , ops ,", "--drop-privileges",
            "--shell-max-processes", "10", "--shell-max-core-bytes", "0", "--shell-idle-ttl", "+60",
            "--grant-key", "/g", "--ssh-auth", "alice", "/keys",
        ])
        .unwrap(),
    );
    assert_eq!(config.web_root.as_deref(), Some("/srv"));
    assert_eq!(config.webtransport_bind, Some(loopback(4433)));
    assert_eq!(config.allowed_origins.unwrap(), ["https://a", "https://b"]);
    let policy = config.account_policy.unwrap();
    assert_eq!(policy.len(), 1);
    assert_eq!(policy[0].1, ["dev", "ops"]);
    assert!(config.session.privilege_drop);
    assert_eq!(config.session.max_processes, Some(10));
    assert_eq!(config.session.max_core_bytes, Some(0));
    assert_eq!(config.session.idle_shell_ttl_ms, Some(60_000));
    assert_eq!(config.grant_signing_key, Some([1; 32]));
    assert!(matches!(config.auth, AuthConfig::SshKeys { users } if users.len() == 1));
    assert_eq!(config_of(read(&["--no-webtransport"]).unwrap()).webtransport_bind, None);
}

#[test]
fn passwords_switch_to_a_real_login() {
    match read(&["--password-auth", "alice", "--password-auth", "alice"]).unwrap() {
        Plan::Standalone { config, pam } => {
            assert_eq!(pam.unwrap().service(), "holdfast-ssh");
            assert_eq!(config.password_auth.unwrap().users, ["alice"]);
            assert!(matches!(config.auth, AuthConfig::SshKeys { users } if users.is_empty()));
        }
        Plan::Agent(_) => panic!("no agent was asked for"),
    }
    assert_eq!(read(&["--pam-service", "sshd"]).unwrap_err(), CliError::PamServiceAlone);
    assert_eq!(
        read(&["--pam-service", "../x", "--password-auth", "a"]).unwrap_err(),
        CliError::PamServiceName
    );
}

#[test]
fn wrong_command_lines_are_explained() {
    for (line, text) in [
        (&["--bind"][..], "--bind needs an address"),
        (&["--ssh-auth", "a"], "--ssh-auth needs an authorized_keys path"),
        (&["--account", "a"], "--account needs a comma-separated account list"),
        (&["--account", "a", " , "], "--account a: account list is empty"),
        (&["--shell-max-processes", "0"], "--shell-max-processes must be greater than zero"),
        (&["--shell-idle-ttl", "0"], "--shell-idle-ttl must be > 0 (omit the flag to disable)"),
        (&["--agent"], "--agent requires --gateway <address>"),
        (
            &["--drop-privileges"],
            "--drop-privileges requires at least one --account <user> <accounts> mapping (otherwise any authenticated user could run a shell as any account)",
        ),
    ] {
        assert_eq!(read(line).unwrap_err().text(), text);
    }
    assert!(read(&["--what"]).unwrap_err().text().starts_with("unknown argument: --what (supported: --bind,"));
    assert_eq!(
        read(&["--shell-max-open-files", "x"]).unwrap_err(),
        CliError::NotANumber { flag: Flag::ShellMaxOpenFiles, fault: NumberFault::InvalidDigit }
    );
    for text in ["", "+", "-1", "12x", "18446744073709551616", "184467440737095516160x", "1_0", "٣"] {
        assert_eq!(
            read(&["--shell-max-open-files", text]).unwrap_err().text(),
            text.parse::<u64>().unwrap_err().to_string()
        );
    }
    assert_eq!(
        read(&["--shell-max-open-files", ""]).unwrap_err().text(),
        "cannot parse integer from empty string"
    );
    assert_eq!(
        read(&["--shell-max-open-files", "18446744073709551616"]).unwrap_err().text(),
        "number too large to fit in target type"
    );
    assert_eq!(read(&["--server-id", "x"]).unwrap_err(), CliError::NotAServer);
    assert_eq!(
        read_setting(&mut args(&["--agent"]), false).unwrap_err(),
        CliError::NoAgentMode
    );
    assert_eq!(
        read_setting(&mut args(&["--gateway", "x"]), false).unwrap_err(),
        CliError::Unknown { arg: "--gateway".to_string() }
    );
}

#[test]
fn an_agent_needs_all_its_arguments() {
    let id = ServerId([7; 16]).to_text();
    let mut line = vec!["--agent"];
    for (flag, value, missing) in [
        ("--gateway", "10.0.0.1:1", Flag::Gateway),
        ("--gateway-name", "g", Flag::GatewayName),
        ("--server-id", id.as_str(), Flag::ServerId),
        ("--agent-ca", "/ca", Flag::AgentCa),
        ("--agent-cert", "/cert", Flag::AgentCert),
        ("--agent-key", "/key", Flag::AgentKey),
        ("--grant-verify-key", "/v", Flag::GrantVerifyKey),
        ("--grant-audience", "aud", Flag::GrantAudience),
    ] {
        assert_eq!(read(&line).unwrap_err(), CliError::AgentRequires { flag: missing });
        line.push(flag);
        line.push(value);
    }
    match read(&line).unwrap() {
        Plan::Agent(plan) => {
            assert_eq!(plan.bind, SocketAddr { ip: IpAddr::V4(0), port: 0 });
            assert_eq!(plan.server_id, ServerId([7; 16]));
            assert_eq!(plan.grant_audience, "aud");
        }
        Plan::Standalone { .. } => panic!("an agent was asked for"),
    }
}

fn start_fault(config: DaemonConfig) -> DaemonError {
    match Daemon::start(&config, HARD_MAX) {
        Ok(_) => panic!("the daemon must not start"),
        Err(e) => e,
    }
}

#[test]
fn a_daemon_starts_with_its_identity() {
    let config = DaemonConfig {
        grant_signing_key: Some([9; 32]),
        allowed_origins: Some(vec!["https://a.example".to_string()]),
        tcp_forward_users: vec!["alice".to_string()],
        ..DaemonConfig::default()
    };
    let daemon = match Daemon::start(&config, HARD_MAX) {
        Ok(d) => d,
        Err(e) => panic!("{:?}", e),
    };
    assert_eq!(daemon.server_id, derive_server_id(&[9; 32]));
    assert_eq!(
        daemon.certificate_mode,
        Some(WebTransportCertificateMode::DevelopmentHashPin)
    );
    assert!(daemon.origin_allowed(Some("https://a.example")));
    assert!(!daemon.origin_allowed(Some("https://b.example")));
    assert!(daemon.origin_allowed(None));
    assert!(daemon.audit_events().is_empty());
}

#[test]
fn a_daemon_without_a_key_is_somebody_else_each_time() {
    let config = DaemonConfig::default();
    match (Daemon::start(&config, HARD_MAX), Daemon::start(&config, HARD_MAX)) {
        (Ok(first), Ok(second)) => assert_ne!(first.server_id, second.server_id),
        _ => panic!("the usual configuration starts"),
    }
}

#[test]
fn a_daemon_reports_the_first_fault() {
    assert_eq!(
        start_fault(DaemonConfig {
            webtransport_certificate: Some("/c.pem".to_string()),
            tcp_forward_users: vec![String::new()],
            ..DaemonConfig::default()
        }),
        DaemonError::Config(StartError::CertificateWithoutKey)
    );
    let mut front = bridge();
    front.frontdoor_uid = 0;
    assert_eq!(
        start_fault(DaemonConfig {
            webtransport_bind: None,
            h3_frontdoor: Some(front),
            auth: keys(),
            ..DaemonConfig::default()
        }),
        DaemonError::Bridge(BridgeError::Limits)
    );
    assert_eq!(
        start_fault(DaemonConfig {
            tcp_forward_users: vec![String::new()],
            ..DaemonConfig::default()
        }),
        DaemonError::ForwardUsers
    );
    assert_eq!(
        start_fault(DaemonConfig {
            auth: AuthConfig::SshKeys {
                users: vec![("alice".to_string(), "not a key".to_string())],
            },
            ..DaemonConfig::default()
        }),
        DaemonError::Keys { username: "alice".to_string() }
    );
}

#[test]
fn a_grant_outlives_a_restart_with_the_same_key() {
    let start = |seed: u8| {
        let config = DaemonConfig { grant_signing_key: Some([seed; 32]), ..DaemonConfig::default() };
        Daemon::start(&config, HARD_MAX).ok().unwrap()
    };
    let (first, second, other) = (start(7), start(7), start(8));
    assert_eq!(first.server_id, second.server_id);
    assert_ne!(first.server_id, other.server_id);
    let claims = GrantClaims {
        sub: "alice".to_string(),
        aud: first.auth.audience.clone(),
        servers: vec![],
        ops: vec![],
        iat_ms: 1_000,
        exp_ms: 5_000,
        jti: "j".to_string(),
    };
    let grant = first.auth.grant_signer.issue(&claims);
    let judged = |d: &Daemon, now_ms: i64| {
        d.auth.grant_verifier.verify(&grant, &d.auth.audience, now_ms)
    };
    assert_eq!(judged(&second, 2_000).ok().unwrap().sub, "alice");
    assert!(matches!(judged(&second, 5_000), Err(GrantError::Expired { .. })));
    assert!(matches!(judged(&other, 2_000), Err(GrantError::BadSignature)));
}
