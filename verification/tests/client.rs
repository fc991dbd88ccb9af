use holdfast::attachment::{PendingHistory, ReaderStep, WriterStep};
use holdfast::client::{
    new_record, shell_rows, AttachInfo, Core, CoreError, CoreEvent, RemoteShell, ServerConfig,
    ServerStatus, ShellStateEvent,
};
use holdfast::dockerwm::{
    check_descriptor_file, checked_url, handoff_request, judge_response, open_in_running_desktop,
    parse_descriptor, read_response, Descriptor, Handoff, HandoffError, TOKEN_HEX_BYTES,
};
use holdfast::lifecycle::{Happened, Life, LifeStep, Work};
use holdfast::opening::{resume_pending, OpenError, Opening, Resumed};
use holdfast::protocol::{Envelope, ErrorCode, Message, ShellState};
use holdfast::store::{
    Loaded, PendingOpen, ShellRecord, Store, StoreData, StoreError, V1Shell, V1State,
    UPGRADE_WARNING,
};
use holdfast::supervisor::{
    full_method, grant_attempt, list_request, listed_shells, opened_shell, refuse_unauthenticated,
    terminate_request, terminated_shell, Attach, AttachError, AttachStep, AuthMethod, CmdStep,
    Control, ControlError, ControlRequest, ControlStep, FailedStep, FailureAction, Live,
    PasswordRequired, RecoverStep, ReopenStep, ServerCmd, Supervisor, Tick, WriterCmd,
    LOGIN_REFUSAL,
};

fn config(username: Option<&str>, key: Option<&str>) -> ServerConfig {
    ServerConfig {
        url: "https://a".to_string(),
        display_name: "a".to_string(),
        username: username.map(str::to_string),
        ssh_key_path: key.map(str::to_string),
    }
}

fn reply(request_id: u64, message: Message) -> Envelope {
    Envelope { request_id, server_id: vec![], shell_id: vec![3; 16], message: Some(message) }
}

#[test]
fn missing_descriptor_means_local_app_is_unavailable() {
    assert_eq!(open_in_running_desktop("https://example.com", None), Ok(Handoff::NotRunning));
}

#[test]
fn authenticated_request_opens_in_running_bridge() {
    let token = "a".repeat(TOKEN_HEX_BYTES);
    let file = format!(
        "{{\"version\":1,\"address\":\"127.0.0.1\",\"port\":4711,\"token\":\"{token}\",\"pid\":12}}"
    );
    assert_eq!(check_descriptor_file(true, file.len() as u64, Some(0o100600)), Ok(()));
    let sent = open_in_running_desktop("https://example.com/path", Some(file.as_bytes())).unwrap();
    let Handoff::Send { port, request } = sent else { panic!("the application runs") };
    assert_eq!(port, 4711);
    let request = String::from_utf8(request).unwrap();
    assert!(request.starts_with("POST /v1/open HTTP/1.1\r\nHost: 127.0.0.1:4711\r\n"));
    assert!(request.contains(&format!("Authorization: Bearer {token}")));
    assert!(request.contains("Content-Length: 34\r\n"));
    assert!(request.ends_with("\r\n\r\n{\"url\":\"https://example.com/path\"}"));
    assert_eq!(
        judge_response(
            b"HTTP/1.1 200 OK\r\nContent-Length: 11\r\nConnection: close\r\n\r\n{\"ok\":true}"
        ),
        Ok(())
    );
}

#[test]
fn only_web_links_are_handed_over() {
    assert_eq!(checked_url("HTTPS://example.com"), Ok(()));
    assert_eq!(checked_url("http://example.com"), Ok(()));
    assert_eq!(checked_url("file:///etc/passwd"), Err(HandoffError::UrlScheme));
    assert_eq!(checked_url(&format!("https://{}", "x".repeat(2041))), Err(HandoffError::UrlTooLong));
    assert_eq!(checked_url(&format!("https://{}", "x".repeat(2040))), Ok(()));
}

#[test]
fn descriptors_are_checked() {
    let file = |version: u32, address: &str, port: u32, token: &str| {
        format!(
            "{{\"version\":{version},\"address\":\"{address}\",\"port\":{port},\"token\":\"{token}\",\"pid\":1}}"
        )
    };
    let token = "0123456789abcdefABCDEF0123456789abcdef0123456789abcdef0123456789";
    assert_eq!(token.len(), TOKEN_HEX_BYTES);
    assert_eq!(
        parse_descriptor(file(1, "127.0.0.1", 80, token).as_bytes()),
        Ok(Descriptor { port: 80, token: token.to_string() })
    );
    for bad in [
        file(2, "127.0.0.1", 80, token),
        file(1, "127.0.0.2", 80, token),
        file(1, "127.0.0.1", 0, token),
        file(1, "127.0.0.1", 80, &token[1..]),
        file(1, "127.0.0.1", 80, &token.replace('0', "g")),
    ] {
        assert_eq!(parse_descriptor(bad.as_bytes()), Err(HandoffError::Invalid));
    }
    assert_eq!(
        parse_descriptor(file(1, "127.0.0.1", 65_536, token).as_bytes()),
        Err(HandoffError::Unreadable)
    );
    assert_eq!(parse_descriptor(b"{ nope"), Err(HandoffError::Unreadable));
    let fits = file(1, "127.0.0.1", 80, token);
    let twice = fits.replacen('{', "{\"port\":80,", 1);
    assert_eq!(parse_descriptor(twice.as_bytes()), Err(HandoffError::Unreadable));
    let more = fits.replacen('{', "{\"more\":[1e999,{\"port\":1}],", 1);
    assert_eq!(parse_descriptor(more.as_bytes()).unwrap().port, 80);
    let listed = format!("[1,\"127.0.0.1\",80,\"{token}\",12]");
    assert_eq!(parse_descriptor(listed.as_bytes()).unwrap().port, 80);
    let listed = format!("[1,\"127.0.0.1\",0,\"{token}\",12]");
    assert_eq!(parse_descriptor(listed.as_bytes()), Err(HandoffError::Invalid));
    let short = format!("[1,\"127.0.0.1\",80,\"{token}\"]");
    assert_eq!(parse_descriptor(short.as_bytes()), Err(HandoffError::Unreadable));
    assert_eq!(check_descriptor_file(false, 1, None), Err(HandoffError::NotABoundedFile));
    assert_eq!(check_descriptor_file(true, 4097, None), Err(HandoffError::NotABoundedFile));
    assert_eq!(
        check_descriptor_file(true, 10, Some(0o644)),
        Err(HandoffError::PermissionsTooBroad)
    );
}

#[test]
fn responses_are_bounded_and_judged_by_their_first_line() {
    let mut response = Vec::new();
    assert_eq!(read_response(&mut response, &[b'a'; 4096]), Ok(()));
    assert_eq!(read_response(&mut response, b"b"), Err(HandoffError::ResponseTooLarge));
    assert_eq!(judge_response(b"HTTP/1.0 200 OK\n"), Ok(()));
    assert_eq!(
        judge_response(b"HTTP/1.1 403 Forbidden\r\n\r\n"),
        Err(HandoffError::Rejected { status: "HTTP/1.1 403 Forbidden".to_string() })
    );
    assert_eq!(judge_response(b""), Err(HandoffError::Rejected { status: String::new() }));
    assert_eq!(judge_response(&[0xff]), Err(HandoffError::Rejected { status: String::new() }));
    let escaped = handoff_request(
        &Descriptor { port: 1, token: String::new() },
        "https://e/\"q\"",
    );
    assert!(String::from_utf8(escaped).unwrap().ends_with("{\"url\":\"https://e/\\\"q\\\"\"}"));
}

#[test]
fn the_interface_starts_with_everything_in_order() {
    let mut store = Store::load(None, false, false).ok().unwrap().store;
    for key in ["b", "a", "c"] {
        let change = store.add_server_as(key, new_record(config(None, None)));
        store.settle(change, true).unwrap();
    }
    for shell in ["22", "11"] {
        let change = store.resolve_pending_open("a", "00", shell, b"t", 5).ok().unwrap();
        store.settle(change, true).unwrap();
    }
    let (core, warning) = Core::spawn(Loaded { store, warning: None }, None).written(true);
    assert!(warning.is_none());
    assert!(core.is_running("a") && core.is_running("b") && core.is_running("c"));
    let view = core.bootstrap();
    let keys: Vec<&str> = view.servers.iter().map(|s| s.key.as_str()).collect();
    assert_eq!(keys, ["a", "b", "c"]);
    let shells: Vec<&str> = view.servers[0].shells.iter().map(|s| s.shell.as_str()).collect();
    assert_eq!(shells, ["11", "22"]);
    assert_eq!(view.servers[0].shells[0].name, "shell");
    assert_eq!(view.servers[1].url, "https://a");
}

#[test]
fn rows_tell_what_is_remembered() {
    let mut store = Store::load(None, false, false).ok().unwrap().store;
    let change = store.add_server_as("k", new_record(config(None, None)));
    store.settle(change, true).unwrap();
    let change = store.resolve_pending_open("k", "00", "0a0a", b"t", 5).ok().unwrap();
    store.settle(change, true).unwrap();
    let record = store.server("k").unwrap();
    let shells = vec![
        RemoteShell { shell_id: vec![10, 10], state: Some(ShellState::Running) },
        RemoteShell { shell_id: vec![11, 11], state: None },
    ];
    let rows = shell_rows(Some(&record), &shells);
    assert_eq!(rows[0].shell, "0a0a");
    assert_eq!(rows[0].state, "running");
    assert_eq!(rows[0].name.as_deref(), Some("shell"));
    assert!(rows[0].has_token);
    assert_eq!(rows[1].state, "unknown");
    assert!(!rows[1].has_token);
    assert!(shell_rows(None, &shells)[0].name.is_none());
}

#[test]
fn commands_need_a_running_server() {
    let mut core = Core::spawn(Store::load(None, false, false).ok().unwrap(), None).written(true).0;
    let (key, change) = core.add_server(config(None, None));
    core.server_added(&key, change, true).unwrap();
    assert_eq!(
        core.open_shell(&key, "work", 80, 24),
        Ok(ServerCmd::Open { name: "work".to_string(), cols: 80, rows: 24 })
    );
    assert_eq!(
        core.attach_shell(&key, "0a", 80, 24),
        Ok(ServerCmd::Attach { shell_hex: "0a".to_string(), cols: 80, rows: 24 })
    );
    assert_eq!(
        core.shell_input(&key, "0a", vec![1]),
        Ok(ServerCmd::Input { shell_hex: "0a".to_string(), bytes: vec![1] })
    );
    assert_eq!(
        core.resize_shell(&key, "0a", 1, 2),
        Ok(ServerCmd::Resize { shell_hex: "0a".to_string(), cols: 1, rows: 2 })
    );
    assert_eq!(
        core.detach_shell(&key, "0a"),
        Ok(ServerCmd::Detach { shell_hex: "0a".to_string() })
    );
    assert_eq!(
        core.terminate_shell(&key, "0a"),
        Ok(ServerCmd::Terminate { shell_hex: "0a".to_string() })
    );
    assert_eq!(
        core.request_history(&key, "0a", 7, 9),
        Ok(ServerCmd::History {
            shell_hex: "0a".to_string(),
            before_line_id: 7,
            max_lines: 9
        })
    );
    let unknown = CoreError::UnknownServer { server_key: "zz".to_string() };
    assert_eq!(core.detach_shell("zz", "0a"), Err(unknown));

    let removal = core.remove_server(&key);
    assert!(!core.is_running(&key));
    assert!(core.open_shell(&key, "work", 80, 24).is_err());
    assert!(core.store().server(&key).is_some());
    core.settle(removal, true).unwrap();
    assert!(core.store().server(&key).is_none());
}

#[test]
fn a_server_that_is_not_written_is_not_looked_after() {
    let mut core = Core::spawn(Store::load(None, false, false).ok().unwrap(), None).written(true).0;
    let (key, change) = core.add_server(config(None, None));
    assert!(core.server_added(&key, change, false).is_err());
    assert!(!core.is_running(&key));
    assert!(core.store().server(&key).is_none());
    assert!(core.forget_shell(&key, "0a").is_err());
    assert!(core.rename_shell(&key, "0a", "n").is_err());
}

#[test]
fn shells_are_renamed_and_forgotten() {
    let mut store = Store::load(None, false, false).ok().unwrap().store;
    let change = store.add_server_as("k", new_record(config(None, None)));
    store.settle(change, true).unwrap();
    let change = store.resolve_pending_open("k", "00", "0a", b"t", 5).ok().unwrap();
    store.settle(change, true).unwrap();
    let mut core = Core::spawn(Loaded { store, warning: None }, None).written(true).0;
    let change = core.rename_shell("k", "0a", "build").ok().unwrap();
    core.settle(change, true).unwrap();
    assert_eq!(core.bootstrap().servers[0].shells[0].name, "build");
    let change = core.forget_shell("k", "0a").ok().unwrap();
    core.settle(change, true).unwrap();
    assert!(core.bootstrap().servers[0].shells.is_empty());
}

#[test]
fn the_interface_is_warned_of_cleared_logins() {
    let old = StoreData { version: 2, servers: vec![] };
    let loaded = Store::load(Some(old), false, false).ok().unwrap();
    match Core::spawn(loaded, None).written(true).1 {
        Some(CoreEvent::StoreWarning { message }) => assert_eq!(message, UPGRADE_WARNING),
        other => panic!("{:?}", other),
    }
}

#[test]
fn pauses_grow_and_shrink_again() {
    let mut s = Supervisor::new();
    assert_eq!(s.attempt(), (ServerStatus::Connecting, None));
    for pause_ms in [1_000, 2_000, 4_000, 8_000, 15_000, 15_000] {
        assert_eq!(s.failed(false, false, false), FailedStep::Retry { pause_ms });
    }
    assert_eq!(s.attempt().0, ServerStatus::Reconnecting);
    assert_eq!(s.connected(0), 15_000);
    assert_eq!(s.connected(500), 500);
    assert_eq!(s.failed(false, false, false), FailedStep::Retry { pause_ms: 1_000 });
    assert_eq!(s.failed(false, false, true), FailedStep::Stop);
}

#[test]
fn a_password_is_used_once() {
    let mut s = Supervisor::new();
    assert_eq!(s.failed(false, true, false), FailedStep::AwaitLogin { explain: false });
    s.login("secret".to_string());
    assert_eq!(s.attempt().1.as_deref(), Some("secret"));
    assert_eq!(s.attempt().1, None);
    assert_eq!(s.failed(true, false, false), FailedStep::AwaitLogin { explain: true });
}

#[test]
fn logins_go_by_what_is_known() {
    let record = new_record(config(Some("alice"), Some("/k")));
    assert!(matches!(
        full_method(&record, None),
        Ok(AuthMethod::SshKey { username, private_key_path }) if username == "alice" && private_key_path == "/k"
    ));
    let record = new_record(config(Some("alice"), None));
    assert_eq!(full_method(&record, None), Err(PasswordRequired));
    assert!(matches!(
        full_method(&record, Some("pw".to_string())),
        Ok(AuthMethod::Password { password, .. }) if password == "pw"
    ));
    let mut record = new_record(config(None, None));
    assert_eq!(full_method(&record, None), Ok(AuthMethod::Dev));
    assert_eq!(grant_attempt(&record), None);
    record.grant = Some("Z3JhbnQ=".to_string());
    assert_eq!(grant_attempt(&record), Some(AuthMethod::Grant(b"grant".to_vec())));
    record.grant = Some("not base64".to_string());
    assert_eq!(grant_attempt(&record), None);
}

fn cli_state() -> V1State {
    V1State {
        servers: vec![(
            "https://old".to_string(),
            vec![(
                "aa".to_string(),
                V1Shell {
                    token: "dG9r".to_string(),
                    name: "build".to_string(),
                    idempotency_key: None,
                },
            )],
        )],
        grants: vec!["https://old".to_string(), "https://other".to_string()],
    }
}

#[test]
fn the_first_run_takes_over_the_command_line_state() {
    let loaded = || Store::load(None, false, false).ok().unwrap();
    let spawning = Core::spawn(loaded(), Some(&cli_state()));
    let written = spawning.to_write().unwrap();
    assert_eq!(written.servers.len(), 2);
    assert!(written.servers.iter().all(|(_, server)| server.grant.is_none()));
    let (core, warning) = spawning.written(true);
    assert!(warning.is_none());
    let servers = core.bootstrap().servers;
    let urls: Vec<&str> = servers.iter().map(|s| s.url.as_str()).collect();
    assert!(urls.contains(&"https://old") && urls.contains(&"https://other"));
    for server in &servers {
        assert!(core.is_running(&server.key));
    }
    let core = Core::spawn(loaded(), Some(&cli_state())).written(false).0;
    assert!(core.bootstrap().servers.is_empty());
    let known = Loaded { store: one_server(), warning: None };
    let spawning = Core::spawn(known, Some(&cli_state()));
    assert!(spawning.to_write().is_none());
    assert_eq!(spawning.written(true).0.bootstrap().servers.len(), 1);
}

#[test]
fn silence_is_noticed_and_answers_are_delivered() {
    let mut control = Control::new();
    assert_eq!(control.tick(), Tick::SendPing { nonce: 1 });
    assert_eq!(control.tick(), Tick::SendPing { nonce: 2 });
    assert_eq!(control.received(&reply(0, Message::Pong { nonce: 2 })), ControlStep::Nothing);
    for nonce in 3..6 {
        assert_eq!(control.tick(), Tick::SendPing { nonce });
    }
    assert_eq!(control.tick(), Tick::Dead);
    let sent = control.request(list_request()).unwrap();
    assert_eq!(sent, Envelope { request_id: 1, ..list_request() });
    assert_eq!(
        control.received(&reply(1, Message::ListShells)),
        ControlStep::Deliver { request_id: 1 }
    );
    assert_eq!(control.received(&reply(1, Message::ListShells)), ControlStep::Nothing);
    assert_eq!(
        control.received(&reply(0, Message::Ping { nonce: 9 })),
        ControlStep::SendPong { nonce: 9 }
    );
    for id in 2..34 {
        assert_eq!(control.request(list_request()).unwrap().request_id, id);
    }
    assert!(control.request(list_request()).is_none());
    assert_eq!(control.next_request(), 35);
}

#[test]
fn requests_and_replies_fit() {
    assert!(matches!(list_request().message, Some(Message::ListShells)));
    assert_eq!(terminate_request(&[1]).shell_id, vec![1]);
    assert_eq!(listed_shells(reply(1, Message::ShellList { shells: vec![] })), Ok(vec![]));
    assert_eq!(
        opened_shell(reply(1, Message::ShellOpened { resume_token: vec![9], expires_at_ms: 0 })),
        Ok((vec![3; 16], vec![9]))
    );
    assert_eq!(
        terminated_shell(reply(1, Message::ListShells)),
        Err(ControlError::Unexpected { request: ControlRequest::Terminate })
    );
    assert_eq!(
        terminated_shell(reply(
            1,
            Message::ShellExited { exit_code: -1, signaled: false, signal: String::new() }
        )),
        Ok(-1)
    );
}

fn refused() -> Envelope {
    reply(
        1,
        Message::Error {
            code: ErrorCode::ErrLimitExceeded,
            human_message: "no room".to_string(),
            retryable: false,
        },
    )
}

#[test]
fn failures_say_what_was_asked() {
    assert_eq!(listed_shells(refused()).unwrap_err().text(), "list failed: no room");
    assert_eq!(opened_shell(refused()).unwrap_err().text(), "open failed: no room");
    assert_eq!(terminated_shell(refused()).unwrap_err().text(), "terminate failed: no room");
    let other = || reply(1, Message::Ping { nonce: 1 });
    assert_eq!(listed_shells(other()).unwrap_err().text(), "unexpected reply to ListShells");
    assert_eq!(opened_shell(other()).unwrap_err().text(), "unexpected reply to OpenShell");
    assert_eq!(
        terminated_shell(other()).unwrap_err().text(),
        "unexpected reply to TerminateShell"
    );
    assert_eq!(ControlError::Closed.text(), "control channel closed");
    assert_eq!(ControlError::TooMany.text(), "too many in-flight control requests");
}

fn one_server() -> Store {
    let mut store = Store::load(None, false, false).ok().unwrap().store;
    let change = store.add_server_as("k", new_record(config(None, None)));
    store.settle(change, true).unwrap();
    store
}

fn keys_noted(store: &Store) -> Vec<String> {
    store.server("k").unwrap().pending_opens.into_iter().map(|p| p.idempotency_key).collect()
}

#[test]
fn keys_are_written_before_shells_are_asked_for() {
    let mut store = one_server();
    let key_hex = "ab".repeat(16);
    let opening = Opening::begin(&store, "k", [0xab; 16], "build", 80, 24).ok().unwrap();
    assert_eq!(opening.to_write().servers[0].1.pending_opens[0].idempotency_key, key_hex);
    assert!(keys_noted(&store).is_empty());
    let (asked, request) = opening.written(&mut store, true).ok().unwrap();
    assert_eq!(keys_noted(&store), [key_hex.clone()]);
    assert!(matches!(
        request.message,
        Some(Message::OpenShell { initial_cols: 80, initial_rows: 24, idempotency_key, .. })
            if idempotency_key == vec![0xab; 16]
    ));
    let answered = asked.answered(&store, Ok((vec![1, 2], b"tok".to_vec())), 9);
    assert!(answered.to_write().unwrap().servers[0].1.pending_opens.is_empty());
    assert_eq!(answered.written(&mut store, true), Ok("0102".to_string()));
    assert_eq!(store.shell("k", "0102").unwrap().name, "build");
    assert!(keys_noted(&store).is_empty());
}

#[test]
fn nothing_is_asked_for_where_the_key_is_not_written() {
    let mut store = one_server();
    let opening = Opening::begin(&store, "k", [0xab; 16], "build", 80, 24).ok().unwrap();
    assert_eq!(opening.written(&mut store, false).err(), Some(StoreError::NotWritten));
    assert!(keys_noted(&store).is_empty());
    assert_eq!(
        Opening::begin(&store, "other", [0; 16], "build", 80, 24).err(),
        Some(StoreError::UnknownServer)
    );
}

#[test]
fn a_refused_shell_is_noted_no_more() {
    let mut store = one_server();
    let opening = Opening::begin(&store, "k", [0xab; 16], "build", 80, 24).ok().unwrap();
    let (asked, _) = opening.written(&mut store, true).ok().unwrap();
    let answered = asked.answered(&store, opened_shell(refused()), 9);
    let e = answered.written(&mut store, true).unwrap_err();
    let OpenError::Control(e) = e else { panic!("the server refused") };
    assert_eq!(e.text(), "open failed: no room");
    assert!(keys_noted(&store).is_empty());
}

#[test]
fn an_answer_that_is_not_written_stays_noted() {
    let mut store = one_server();
    let opening = Opening::begin(&store, "k", [0xab; 16], "build", 80, 24).ok().unwrap();
    let (asked, _) = opening.written(&mut store, true).ok().unwrap();
    let answered = asked.answered(&store, Ok((vec![1, 2], b"tok".to_vec())), 9);
    assert_eq!(
        answered.written(&mut store, false),
        Err(OpenError::Store(StoreError::NotWritten))
    );
    assert_eq!(keys_noted(&store), ["ab".repeat(16)]);
}

#[test]
fn noted_shells_are_asked_for_again() {
    let mut store = one_server();
    let opening = Opening::begin(&store, "k", [0xab; 16], "build", 80, 24).ok().unwrap();
    opening.written(&mut store, true).ok().unwrap();
    let pending = store.server("k").unwrap().pending_opens;
    let Resumed::Ask { asked, request } = resume_pending(&store, "k", &pending[0]) else {
        panic!("the key can be read")
    };
    assert!(matches!(
        request.message,
        Some(Message::OpenShell { initial_cols: 0, initial_rows: 0, idempotency_key, .. })
            if idempotency_key == vec![0xab; 16]
    ));
    let answered = asked.answered(&store, Ok((vec![7], b"tok".to_vec())), 9);
    assert_eq!(answered.written(&mut store, true), Ok("07".to_string()));
    let change = store.push_pending_open("k", "xyz", "n").ok().unwrap();
    store.settle(change, true).unwrap();
    let junk = PendingOpen { idempotency_key: "xyz".to_string(), name: String::new() };
    let Resumed::Drop { change: Some(change) } = resume_pending(&store, "k", &junk) else {
        panic!("the key cannot be read")
    };
    store.settle(change, true).unwrap();
    assert!(keys_noted(&store).is_empty());
}

fn info() -> AttachInfo {
    AttachInfo { snapshot: vec![], oldest_history_line_id: 0, newest_history_line_id: 0 }
}

#[test]
fn commands_go_to_attached_shells_only() {
    let mut store = one_server();
    let mut live = Live::new();
    let input = |bytes: Vec<u8>| ServerCmd::Input { shell_hex: "0a".to_string(), bytes };
    assert!(matches!(live.handle_cmd(&store, "k", input(vec![1])), CmdStep::Ignore));
    assert!(live.attach_ended("k", "0a", Err("gone".to_string())).0.is_none());
    assert!(!live.is_live("0a"));
    assert!(matches!(
        live.attach_ended("k", "0a", Ok(info())).0,
        Some(CoreEvent::ShellState { server, shell, state: ShellStateEvent::Attached, exit_code: None })
            if server == "k" && shell == "0a"
    ));
    assert!(matches!(
        live.handle_cmd(&store, "k", input(vec![1])),
        CmdStep::Forward { shell_hex, cmd: WriterCmd::Input(bytes) }
            if shell_hex == "0a" && bytes == [1]
    ));
    let history = ServerCmd::History {
        shell_hex: "0b".to_string(),
        before_line_id: 1,
        max_lines: 2,
    };
    assert!(matches!(
        live.handle_cmd(&store, "k", history),
        CmdStep::Refuse { text: "shell is not attached" }
    ));
    assert!(matches!(
        live.handle_cmd(&store, "k", ServerCmd::Terminate { shell_hex: "0g".to_string() }),
        CmdStep::Refuse { text: "malformed shell id" }
    ));
    assert!(live.is_live("0a"));
    let step = live.handle_cmd(&store, "k", ServerCmd::Terminate { shell_hex: "0a".to_string() });
    let CmdStep::Terminate { ending, request } = step else { panic!("the shell is known") };
    assert_eq!(request.shell_id, vec![10]);
    assert!(!live.is_live("0a"));
    let opening = Opening::begin(&store, "k", [1; 16], "n", 80, 24).ok().unwrap();
    let (asked, _) = opening.written(&mut store, true).ok().unwrap();
    let answered = asked.answered(&store, Ok((vec![10], b"tok".to_vec())), 9);
    answered.written(&mut store, true).unwrap();
    let ended = ending.answered(&store, Ok(3));
    assert_eq!(ended.reply, Ok(3));
    assert!(matches!(
        ended.event,
        Some(CoreEvent::ShellState { state: ShellStateEvent::Exited, exit_code: Some(3), .. })
    ));
    store.settle(ended.change.unwrap(), true).unwrap();
    assert!(store.shell("k", "0a").is_none());
    let step = live.handle_cmd(&store, "k", ServerCmd::Terminate { shell_hex: "0a".to_string() });
    let CmdStep::Terminate { ending, .. } = step else { panic!("the shell is known") };
    let ended = ending.answered(&store, terminated_shell(refused()));
    assert!(ended.reply.is_err() && ended.change.is_none() && ended.event.is_none());
    assert!(matches!(
        live.handle_cmd(&store, "k", ServerCmd::Detach { shell_hex: "0a".to_string() }),
        CmdStep::Detached {
            shell_hex,
            had_writer: false,
            event: CoreEvent::ShellState { state: ShellStateEvent::Detached, .. },
        } if shell_hex == "0a"
    ));
    assert_eq!(
        refuse_unauthenticated(&ServerCmd::Terminate { shell_hex: String::new() }),
        Some(LOGIN_REFUSAL)
    );
    assert_eq!(refuse_unauthenticated(&ServerCmd::Login { password: String::new() }), None);
}

#[test]
fn each_new_shell_gets_a_key_of_its_own() {
    let mut store = one_server();
    let mut live = Live::new();
    let open = || ServerCmd::Open { name: "n".to_string(), cols: 80, rows: 24 };
    for _ in 0..2 {
        let CmdStep::Open(opening) = live.handle_cmd(&store, "k", open()) else {
            panic!("the server is known")
        };
        opening.written(&mut store, true).ok().unwrap();
    }
    let keys = keys_noted(&store);
    assert_eq!(keys.len(), 2);
    assert_ne!(keys[0], keys[1]);
    assert!(matches!(
        live.handle_cmd(&store, "other", open()),
        CmdStep::RefuseOpen(StoreError::UnknownServer)
    ));
    let CmdStep::Open(opening) = live.handle_cmd_with(&store, "k", open(), [0xcd; 16]) else {
        panic!("the server is known")
    };
    opening.written(&mut store, true).ok().unwrap();
    assert_eq!(keys_noted(&store)[2], "cd".repeat(16));
}

fn stored(token: &str, key: Option<&str>) -> ShellRecord {
    ShellRecord {
        token: token.to_string(),
        idempotency_key: key.map(str::to_string),
        name: "n".to_string(),
        last_attached_at_ms: 0,
    }
}

fn with_shell(shell_hex: &str, record: ShellRecord) -> Store {
    let mut store = Store::load(None, false, false).ok().unwrap().store;
    let mut server = new_record(config(None, None));
    server.shells.push((shell_hex.to_string(), record));
    let change = store.add_server_as("k", server);
    store.settle(change, true).unwrap();
    store
}

#[test]
fn a_token_is_recovered_once_and_only_for_the_same_shell() {
    let key_hex = "07".repeat(16);
    let mut store = with_shell("0102", stored("dG9r", Some(&key_hex)));
    let mut attach = Attach::begin(&store, "k", "0102").unwrap();
    assert_eq!(attach.token(), b"tok");
    assert_eq!(attach.shell_id(), &vec![1, 2]);
    assert!(attach.can_recover());
    assert!(matches!(attach.failed(&store, FailureAction::Retry), AttachStep::GiveUp));
    assert!(matches!(
        attach.failed(&store, FailureAction::RecoverViaIdempotency),
        AttachStep::Recover { request } if request.message == Some(Message::ListShells)
    ));
    assert!(!attach.can_recover());
    let running = RemoteShell { shell_id: vec![1, 2], state: Some(ShellState::Running) };
    let ended = RemoteShell { shell_id: vec![1, 2], state: Some(ShellState::Exited) };
    assert!(matches!(
        attach.listed(&store, &vec![ended]),
        RecoverStep::NotRunning {
            change: Some(_),
            event: CoreEvent::ShellState { state: ShellStateEvent::Orphaned, .. },
        }
    ));
    assert!(matches!(
        attach.listed(&store, &vec![running]),
        RecoverStep::Reopen { request } if matches!(
            &request.message,
            Some(Message::OpenShell { idempotency_key, .. }) if *idempotency_key == vec![7; 16]
        )
    ));
    assert!(matches!(
        attach.reopened(&store, &[9], b"x", 4),
        ReopenStep::Different { request, event: CoreEvent::ShellState { .. } }
            if request.shell_id == [9] && request.message == Some(Message::TerminateShell)
    ));
    assert_eq!(attach.token(), b"tok");
    let ReopenStep::Attach { change: Some(change) } = attach.reopened(&store, &[1, 2], b"new", 4)
    else {
        panic!("it is the same shell")
    };
    store.settle(change, true).unwrap();
    assert_eq!(store.shell("k", "0102").unwrap().token, "bmV3");
    assert_eq!(attach.token(), b"new");
    let change = attach.succeeded(&store, b"tok", 5).unwrap();
    store.settle(change, true).unwrap();
    assert_eq!(store.shell("k", "0102").unwrap().token, "dG9r");
    assert_eq!(store.shell("k", "0102").unwrap().last_attached_at_ms, 5);
    let AttachStep::Forget { change: Some(change), event } =
        attach.failed(&store, FailureAction::ForgetAndExit)
    else {
        panic!("the shell is to be forgotten")
    };
    assert!(matches!(
        event,
        CoreEvent::ShellState { state: ShellStateEvent::Exited, exit_code: None, .. }
    ));
    store.settle(change, true).unwrap();
    assert!(store.shell("k", "0102").is_none());
    assert_eq!(Attach::begin(&store, "k", "0102"), Err(AttachError::NoStoredShell));
    assert_eq!(
        Attach::begin(&with_shell("010", stored("dG9r", None)), "k", "010"),
        Err(AttachError::MalformedShellId)
    );
    assert_eq!(
        Attach::begin(&with_shell("01", stored("dG9", None)), "k", "01"),
        Err(AttachError::CorruptToken)
    );
    assert!(!Attach::begin(&with_shell("01", stored("dG9r", None)), "k", "01").unwrap().can_recover());
}

#[test]
fn history_is_answered_in_turn_and_bounded() {
    let mut pending = PendingHistory::new();
    let ask = || WriterCmd::History { before_line_id: 5, max_lines: 10 };
    for asker in 0..4 {
        assert_eq!(
            pending.command(ask(), asker),
            WriterStep::RequestHistory { before_line_id: 5, max_lines: 10 }
        );
    }
    assert_eq!(pending.command(ask(), 4), WriterStep::RefuseHistory);
    let chunk = Message::HistoryChunk {
        first_line_id: 1,
        lines: vec!["l".to_string()],
        truncated_by_eviction: true,
    };
    assert!(matches!(
        pending.message(Some(chunk)),
        ReaderStep::History { asker: 0, page } if page.lines == ["l"] && page.truncated_by_eviction
    ));
    let end = || Some(Message::HistoryEnd { oldest_available_line_id: 0 });
    assert_eq!(pending.message(end()), ReaderStep::Nothing);
    assert!(matches!(
        pending.message(Some(Message::HistoryChunk {
            first_line_id: 2,
            lines: vec!["m".to_string()],
            truncated_by_eviction: false,
        })),
        ReaderStep::History { asker: 1, page } if page.lines == ["m"] && page.first_line_id == 2
    ));
    assert_eq!(pending.message(end()), ReaderStep::Nothing);
    assert!(matches!(
        pending.message(end()),
        ReaderStep::History { asker: 2, page } if page.lines.is_empty()
    ));
    let lines = |first_line_id: u64| Message::HistoryChunk {
        first_line_id,
        lines: vec!["n".to_string()],
        truncated_by_eviction: false,
    };
    let mut stray = PendingHistory::new();
    assert_eq!(stray.message(Some(lines(1))), ReaderStep::Nothing);
    stray.command(ask(), 7);
    assert!(matches!(
        stray.message(Some(lines(2))),
        ReaderStep::History { asker: 7, page } if page.first_line_id == 2
    ));
    assert_eq!(
        pending.message(Some(Message::TerminalOutput { data: vec![1] })),
        ReaderStep::Output(vec![1])
    );
    assert_eq!(pending.message(Some(Message::Ping { nonce: 3 })), ReaderStep::Pong(3));
    assert_eq!(pending.message(None), ReaderStep::Nothing);
    assert_eq!(pending.command(WriterCmd::Detach, 0), WriterStep::Detach);
}

fn status(status: ServerStatus, detail: Option<&str>) -> CoreEvent {
    CoreEvent::ServerStatus {
        server: "k".to_string(),
        status,
        detail: detail.map(str::to_string),
    }
}

fn stored_server(username: Option<&str>, key: Option<&str>, grant: &[u8]) -> Store {
    let mut store = Store::load(None, false, false).ok().unwrap().store;
    let change = store.add_server_as("k", new_record(config(username, key)));
    store.settle(change, true).unwrap();
    let change = store.set_grant("k", grant).ok().unwrap();
    store.settle(change, true).unwrap();
    store
}

fn failed(text: &str) -> Happened {
    Happened::Failed { text: text.to_string() }
}

fn method(work: Work) -> AuthMethod {
    match work {
        Work::Connect { method, .. } => method,
        _ => panic!("a connection is tried"),
    }
}

#[test]
fn a_remembered_grant_is_tried_before_the_full_login() {
    let store = stored_server(Some("alice"), Some("/key"), b"grant");
    let mut life = Life::new("k");
    let LifeStep { shown, work } = life.step(&store, Happened::Due, false);
    assert_eq!(shown, vec![status(ServerStatus::Connecting, None)]);
    assert_eq!(method(work), AuthMethod::Grant(b"grant".to_vec()));
    let LifeStep { shown, work } = life.step(&store, failed("expired"), false);
    assert_eq!(shown, vec![]);
    let full = AuthMethod::SshKey {
        username: "alice".to_string(),
        private_key_path: "/key".to_string(),
    };
    assert_eq!(method(work), full);
    for ms in [1_000, 2_000, 4_000, 8_000, 15_000, 15_000] {
        let LifeStep { shown, work } = life.step(&store, failed("no route"), false);
        assert_eq!(shown, vec![status(ServerStatus::Reconnecting, Some("no route"))]);
        assert!(matches!(work, Work::Pause { ms: pause } if pause == ms));
        let LifeStep { shown, work } = life.step(&store, Happened::Due, false);
        assert_eq!(shown, vec![status(ServerStatus::Reconnecting, None)]);
        assert_eq!(method(work), AuthMethod::Grant(b"grant".to_vec()));
        assert_eq!(method(life.step(&store, failed("expired"), false).work), full);
    }
    let LifeStep { shown, work } = life.step(&store, failed("no route"), true);
    assert_eq!(shown, vec![status(ServerStatus::Reconnecting, Some("no route"))]);
    assert!(matches!(work, Work::Stop));
    assert!(matches!(life.step(&store, Happened::Due, false).work, Work::Nothing));
}

#[test]
fn a_connection_is_shown_once_its_shells_are_listed() {
    let mut store = stored_server(None, None, b"");
    let mut life = Life::new("k");
    assert_eq!(method(life.step(&store, Happened::Due, false).work), AuthMethod::Dev);
    let accepted =
        || Happened::Accepted { grant: b"fresh".to_vec(), keepalive_interval_ms: 0 };
    let LifeStep { shown, work } = life.step(&store, accepted(), false);
    assert_eq!(shown, vec![]);
    let Work::Keep { change } = work else { panic!("the grant is kept") };
    store.settle(change, true).unwrap();
    assert_eq!(
        grant_attempt(&store.server("k").unwrap()),
        Some(AuthMethod::Grant(b"fresh".to_vec()))
    );
    let LifeStep { shown, work } = life.step(&store, Happened::Kept { failure: None }, false);
    assert_eq!(shown, vec![]);
    assert!(matches!(work, Work::Settle { keepalive_ms: 15_000 }));
    // Without a list the connection is given up, and the next is tried at once.
    let LifeStep { shown, work } = life.step(&store, Happened::Listed { shells: None }, false);
    assert_eq!(shown, vec![status(ServerStatus::Reconnecting, None)]);
    assert_eq!(method(work), AuthMethod::Grant(b"fresh".to_vec()));
    let accepted = Happened::Accepted { grant: b"next".to_vec(), keepalive_interval_ms: 7 };
    assert!(matches!(life.step(&store, accepted, false).work, Work::Keep { .. }));
    let full = Happened::Kept { failure: Some("disk full".to_string()) };
    let LifeStep { shown, work } = life.step(&store, full, false);
    assert_eq!(
        shown,
        vec![CoreEvent::StoreWarning { message: "persist grant: disk full".to_string() }]
    );
    assert!(matches!(work, Work::Settle { keepalive_ms: 7 }));
    let shells = vec![RemoteShell { shell_id: vec![0xab], state: Some(ShellState::Running) }];
    let LifeStep { shown, work } =
        life.step(&store, Happened::Listed { shells: Some(shells) }, false);
    assert!(matches!(
        &shown[0],
        CoreEvent::ShellsUpdated { server, shells }
            if server == "k" && shells.len() == 1 && shells[0].shell == "ab"
    ));
    assert_eq!(shown[1..], [status(ServerStatus::Connected, None)]);
    assert!(matches!(work, Work::Serve));
    let LifeStep { shown, work } = life.step(&store, Happened::Died, false);
    assert_eq!(shown, vec![status(ServerStatus::Reconnecting, None)]);
    assert_eq!(method(work), AuthMethod::Grant(b"fresh".to_vec()));
}

#[test]
fn a_missing_or_wrong_password_is_waited_for() {
    let store = stored_server(Some("alice"), None, b"");
    let mut life = Life::new("k");
    let LifeStep { shown, work } = life.step(&store, Happened::Due, false);
    assert_eq!(
        shown,
        vec![
            status(ServerStatus::Connecting, None),
            status(ServerStatus::AuthRequired, None),
        ]
    );
    assert!(matches!(work, Work::AwaitLogin));
    assert!(matches!(life.step(&store, Happened::Due, false).work, Work::Nothing));
    let login = |password: &str| Happened::Login { password: password.to_string() };
    let LifeStep { shown, work } = life.step(&store, login("wrong"), false);
    assert_eq!(shown, vec![status(ServerStatus::Reconnecting, None)]);
    assert_eq!(
        method(work),
        AuthMethod::Password { username: "alice".to_string(), password: "wrong".to_string() }
    );
    let LifeStep { shown, work } = life.step(&store, failed("authentication failed"), false);
    assert_eq!(
        shown,
        vec![status(ServerStatus::AuthRequired, Some("authentication failed"))]
    );
    assert!(matches!(work, Work::AwaitLogin));
    assert_eq!(
        method(life.step(&store, login("right"), false).work),
        AuthMethod::Password { username: "alice".to_string(), password: "right".to_string() }
    );
    let accepted = Happened::Accepted { grant: vec![], keepalive_interval_ms: 1 };
    assert!(matches!(life.step(&store, accepted, false).work, Work::Keep { .. }));
    let mut waiting = Life::new("k");
    let _ = waiting.step(&store, Happened::Due, false);
    assert!(matches!(waiting.step(&store, Happened::Dropped, false).work, Work::Stop));
}

#[test]
fn a_server_that_is_not_remembered_is_tried_until_nobody_wants_it() {
    let store = Store::load(None, false, false).ok().unwrap().store;
    let mut life = Life::new("k");
    let LifeStep { shown, work } = life.step(&store, Happened::Due, false);
    assert_eq!(
        shown,
        vec![
            status(ServerStatus::Connecting, None),
            status(ServerStatus::Reconnecting, Some("server removed from store")),
        ]
    );
    assert!(matches!(work, Work::Pause { ms: 1_000 }));
    assert!(matches!(life.step(&store, Happened::Due, true).work, Work::Stop));
    // One that is forgotten while it connects is served, with a warning.
    let mut life = Life::new("k");
    let _ = life.step(&stored_server(None, None, b""), Happened::Due, false);
    let accepted = Happened::Accepted { grant: vec![1], keepalive_interval_ms: 5 };
    let LifeStep { shown, work } = life.step(&store, accepted, false);
    assert_eq!(
        shown,
        vec![CoreEvent::StoreWarning { message: "persist grant: unknown server".to_string() }]
    );
    assert!(matches!(work, Work::Settle { keepalive_ms: 5 }));
}
