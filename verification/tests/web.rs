use holdfast::base64::base64_encode;
use holdfast::channels::{
    too_slow, InputEnd, Next, ReaderEnd, SessionChannels, WtChannelQueue, TOO_SLOW_TEXT,
};
use holdfast::protocol::{ErrorCode, Message};
use holdfast::web::{
    check_identity_file, content_type_for, file_looked_up, file_read, info_json,
    interstitial, quic_request, resolve_static_path, serve_h3_request, transport_info,
    IdentityFault, Method, QuicRequest, RequestStep, Status, WebTransportCertificateMode, WebTransportInfo,
    KEEP_ALIVE_INTERVAL_MS, MAX_IDLE_TIMEOUT_MS, MAX_PRIVATE_KEY_BYTES, MAX_STATIC_FILE_BYTES,
};

#[test]
fn base64_matches_reference() {
    assert_eq!(base64_encode(b""), "");
    assert_eq!(base64_encode(b"f"), "Zg==");
    assert_eq!(base64_encode(b"fo"), "Zm8=");
    assert_eq!(base64_encode(b"foo"), "Zm9v");
    assert_eq!(base64_encode(&[0xfb, 0xff, 0x00]), "+/8A");
}

#[test]
fn channel_writer_overload_replaces_only_that_channels_backlog() {
    let mut overloaded = WtChannelQueue::with_limits(vec![9], 2, 4);
    let mut independent = WtChannelQueue::with_limits(vec![8], 2, 4);

    overloaded.push(vec![1, 1]);
    overloaded.push(vec![2, 2]);
    overloaded.push(vec![3]);
    independent.push(vec![7]);

    assert_eq!(overloaded.next(), Next::Frame(vec![9]));
    assert_eq!(overloaded.next(), Next::Finished);
    assert_eq!(independent.next(), Next::Frame(vec![7]));
    independent.close();
    assert_eq!(independent.next(), Next::Finished);
}

#[test]
fn closed_bridge_channel_releases_its_writer_while_control_stays_open() {
    let mut session = SessionChannels::new(vec![9]);
    let control = session.register().unwrap();
    assert_eq!(control, 0);
    for channel in 1..=100 {
        assert_eq!(session.register(), Some(channel));
        assert_eq!(
            session.reader_ended(channel, InputEnd::Finished),
            (false, ReaderEnd::DetachChannel)
        );
        assert_eq!(session.next(channel), Next::Finished);
        session.writer_finished(channel);
    }
    assert_eq!(session.next(control), Next::Wait);
    session.finish();
    assert_eq!(session.next(control), Next::Finished);
}

#[test]
fn keepalive_survives_a_dropped_ping_against_an_un_raised_peer() {
    /// What a browser, or any peer with the usual settings, is enforcing.
    const QUINN_DEFAULT_IDLE_TIMEOUT_MS: u64 = 30_000;

    let keepalive = KEEP_ALIVE_INTERVAL_MS;

    // The negotiated idle limit is the LOWER of the two peers', so our own
    // raised MAX_IDLE_TIMEOUT_MS does not protect this link on its own.
    assert!(
        keepalive < QUINN_DEFAULT_IDLE_TIMEOUT_MS,
        "keepalive {keepalive}ms must fit inside an un-raised peer's \
         {QUINN_DEFAULT_IDLE_TIMEOUT_MS}ms idle limit",
    );

    // Twice over, or a single dropped ping ends the connection exactly at
    // the deadline. This is the assertion 15s failed.
    assert!(
        keepalive * 2 < QUINN_DEFAULT_IDLE_TIMEOUT_MS,
        "keepalive {keepalive}ms must leave room to retry a dropped ping \
         inside an un-raised peer's {QUINN_DEFAULT_IDLE_TIMEOUT_MS}ms limit",
    );
    assert!(
        keepalive * 2 < u64::from(MAX_IDLE_TIMEOUT_MS),
        "keepalive {keepalive}ms must leave the same retry room against \
         our own {}ms limit",
        MAX_IDLE_TIMEOUT_MS,
    );
}

#[test]
fn static_paths_stay_inside_the_root() {
    let root = "/srv/web";
    let ok = |p: &str| resolve_static_path(root, p);
    assert_eq!(ok("/"), Some(b"/srv/web/index.html".to_vec()));
    assert_eq!(ok("/assets/app.js"), Some(b"/srv/web/assets/app.js".to_vec()));
    assert_eq!(ok("/../etc/passwd"), None);
    assert_eq!(ok("/a/../../etc/passwd"), None);
    assert_eq!(ok("/%2e%2e/etc/passwd"), None);
    assert_eq!(ok("/a\\..\\b"), None);
    assert_eq!(ok(&format!("/{}", "x".repeat(2000))), None);
    assert_eq!(ok("//etc/passwd"), None);
}

#[test]
fn paths_are_taken_literally() {
    assert_eq!(resolve_static_path("/srv/", "/a//b"), Some(b"/srv/a//b".to_vec()));
    assert_eq!(resolve_static_path("", "/a"), Some(b"a".to_vec()));
    assert_eq!(resolve_static_path("/srv", "/./a"), None);
    assert_eq!(resolve_static_path("/srv", "/a/./b"), Some(b"/srv/a/./b".to_vec()));
    assert_eq!(resolve_static_path("/srv", "/a/.."), None);
    assert_eq!(resolve_static_path("/srv", "a"), None);
    assert_eq!(resolve_static_path("/srv", ""), None);
    assert_eq!(resolve_static_path("/srv", "/..a"), Some(b"/srv/..a".to_vec()));
}

#[test]
fn content_types_follow_the_extension() {
    for (path, expected) in [
        ("/srv/index.html", "text/html; charset=utf-8"),
        ("/srv/app.js", "text/javascript"),
        ("/srv/a.css", "text/css"),
        ("/srv/a.json", "application/json"),
        ("/srv/a.js.map", "application/json"),
        ("/srv/a.wasm", "application/wasm"),
        ("/srv/a.svg", "image/svg+xml"),
        ("/srv/a.png", "image/png"),
        ("/srv/a.ico", "image/x-icon"),
        ("/srv/a.woff2", "font/woff2"),
        ("/srv/a.txt", "text/plain; charset=utf-8"),
        ("/srv/a.JS", "application/octet-stream"),
        ("/srv/.html", "application/octet-stream"),
        ("/srv/html", "application/octet-stream"),
        ("/srv/a.html/", "text/html; charset=utf-8"),
        ("/srv/x.js/a", "application/octet-stream"),
    ] {
        assert_eq!(content_type_for(path.as_bytes()), expected, "{path}");
    }
}

fn info() -> WebTransportInfo {
    WebTransportInfo {
        port: 4433,
        cert_hash_base64: "Zm9v".to_string(),
        mode: WebTransportCertificateMode::WebPki,
    }
}

#[test]
fn pages_are_only_read() {
    let info = info();
    let serve = |method: Method, path: &str| {
        serve_h3_request(method, path, Some(&info), true, Some("/srv"))
    };
    assert!(matches!(
        serve(Method::Other, "/"),
        RequestStep::Respond(r) if r.status == Status::MethodNotAllowed
    ));
    assert!(matches!(
        serve(Method::Get, "/"),
        RequestStep::LookUp { file } if file == b"/srv/index.html"
    ));
    match serve(Method::Get, "/webtransport-info") {
        RequestStep::Respond(r) => {
            assert_eq!(r.status, Status::Success);
            assert_eq!(r.content_type, "application/json");
            assert!(r.send_body);
            assert_eq!(
                String::from_utf8(r.body).unwrap(),
                "{\"port\":4433,\"certHashBase64\":\"Zm9v\",\"certificateMode\":\"webpki\",\"passwordAuth\":true}"
            );
        }
        RequestStep::LookUp { .. } => panic!("the information is no file"),
    }
    assert!(matches!(
        serve(Method::Head, "/webtransport-info"),
        RequestStep::Respond(r) if !r.send_body && !r.body.is_empty()
    ));
    assert!(matches!(
        serve_h3_request(Method::Get, "/webtransport-info", None, false, None),
        RequestStep::Respond(r) if r.status == Status::NotFound && r.body == b"webtransport disabled"
    ));
    assert!(matches!(
        serve_h3_request(Method::Get, "/index.html", None, false, None),
        RequestStep::Respond(r) if r.status == Status::NotFound && r.body == b"not found"
    ));
}

#[test]
fn only_bounded_files_are_served() {
    assert!(file_looked_up(Method::Get, Some((true, MAX_STATIC_FILE_BYTES))).is_ok());
    assert!(file_looked_up(Method::Get, Some((true, MAX_STATIC_FILE_BYTES + 1))).is_err());
    assert!(file_looked_up(Method::Get, Some((false, 1))).is_err());
    assert_eq!(file_looked_up(Method::Get, None).unwrap_err().status, Status::NotFound);
    let r = file_read(Method::Get, b"/srv/a.js", b"console.log('holdfast');".to_vec());
    assert_eq!(r.content_type, "text/javascript");
    assert!(r.send_body);
    assert!(!file_read(Method::Get, b"/srv/a.js", Vec::new()).send_body);
}

#[test]
fn the_waiting_page_names_the_port() {
    let page = interstitial(Some(4433));
    assert!(page.contains("HTTP/3 on UDP port 4433, and this page"));
    assert!(page.contains("QUIC"));
    assert!(!page.contains("__WT_PORT__"));
    assert_eq!(
        info_json(&WebTransportInfo {
            port: 1,
            cert_hash_base64: String::new(),
            mode: WebTransportCertificateMode::DevelopmentHashPin,
        }, false),
        "{\"port\":1,\"certHashBase64\":\"\",\"certificateMode\":\"hash-pin\",\"passwordAuth\":false}"
    );
}

#[test]
fn sessions_need_an_allowed_origin() {
    assert_eq!(quic_request(true, true, true), QuicRequest::Session);
    assert_eq!(quic_request(true, true, false), QuicRequest::Forbidden);
    assert_eq!(quic_request(true, false, false), QuicRequest::Page);
    assert_eq!(quic_request(false, true, true), QuicRequest::Page);
}

#[test]
fn identities_are_checked_before_they_are_used() {
    assert_eq!(check_identity_file(10, MAX_PRIVATE_KEY_BYTES, true, 0o100600), Ok(()));
    assert_eq!(
        check_identity_file(10, MAX_PRIVATE_KEY_BYTES, true, 0o100640),
        Err(IdentityFault::Exposed)
    );
    assert_eq!(check_identity_file(10, MAX_PRIVATE_KEY_BYTES, false, 0o100644), Ok(()));
    assert_eq!(
        check_identity_file(MAX_PRIVATE_KEY_BYTES + 1, MAX_PRIVATE_KEY_BYTES, true, 0o100600),
        Err(IdentityFault::TooLarge)
    );
}

#[test]
fn the_first_channel_owns_the_session() {
    let mut session = SessionChannels::new(vec![9]);
    assert_eq!(session.register(), Some(0));
    assert_eq!(session.register(), Some(1));
    session.frame(1, vec![1, 2]);
    session.frame(7, vec![3]);
    assert_eq!(session.reader_ended(1, InputEnd::Refused), (true, ReaderEnd::DetachChannel));
    session.frame(1, vec![4]);
    assert_eq!(session.next(1), Next::Frame(vec![1, 2]));
    assert_eq!(session.next(1), Next::Finished);
    assert_eq!(session.reader_ended(0, InputEnd::Finished), (true, ReaderEnd::CloseSession));
    assert!(matches!(
        too_slow().message,
        Some(Message::Error { code: ErrorCode::ErrTooSlow, human_message, retryable: true })
            if human_message == TOO_SLOW_TEXT
    ));
}

#[test]
fn a_single_frame_may_be_too_large() {
    let mut queue = WtChannelQueue::with_limits(vec![9, 9], 4, 3);
    queue.push(vec![1]);
    queue.push(vec![2, 2, 2]);
    queue.push(vec![5]);
    assert_eq!(queue.next(), Next::Frame(vec![9, 9]));
    assert_eq!(queue.next(), Next::Finished);
    let mut room = WtChannelQueue::with_limits(vec![9], 4, 3);
    room.push(vec![1, 1, 1]);
    assert_eq!(room.next(), Next::Frame(vec![1, 1, 1]));
    room.push(vec![2, 2, 2]);
    assert_eq!(room.next(), Next::Frame(vec![2, 2, 2]));
    assert_eq!(room.next(), Next::Wait);
}

#[test]
fn pages_learn_the_hash_of_the_certificate() {
    let mode = WebTransportCertificateMode::DevelopmentHashPin;
    let info = transport_info(4433, b"abc", mode);
    assert_eq!(info.port, 4433);
    assert_eq!(info.mode, mode);
    assert_eq!(info.cert_hash_base64, "ungWv48Bz+pBQUDeXa4iI7ADYaOWF3qctBD/YfIAFa0=");
}
