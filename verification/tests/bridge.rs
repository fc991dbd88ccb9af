use holdfast::frontdoor_bridge::{
    acknowledgement, socket_parent_fits, validate_hostname, Admission, BridgeError, BridgeHeader,
    FileIdentity, FrontdoorBridge, FrontdoorBridgeConfig, SocketGuard, HEADER_FIXED_BYTES,
    KIND_SESSION, KIND_STREAM,
};
use holdfast::net::{IpAddr, SocketAddr};

fn encoded_header(header: &BridgeHeader) -> Vec<u8> {
    let mut bytes = Vec::with_capacity(HEADER_FIXED_BYTES + header.hostname.len());
    bytes.extend_from_slice(b"DWMH3B02");
    bytes.push(header.kind);
    bytes.extend_from_slice(&[0; 3]);
    bytes.extend_from_slice(&header.session_id);
    bytes.extend_from_slice(&header.stream_id.to_be_bytes());
    match header.remote_address.ip {
        IpAddr::V4(address) => {
            bytes.push(4);
            bytes.extend_from_slice(&address.to_be_bytes());
            bytes.extend_from_slice(&[0; 12]);
        }
        IpAddr::V6(address) => {
            bytes.push(6);
            bytes.extend_from_slice(&address.to_be_bytes());
        }
    }
    bytes.extend_from_slice(&header.remote_address.port.to_be_bytes());
    bytes.extend_from_slice(&(header.hostname.len() as u16).to_be_bytes());
    bytes.extend_from_slice(&header.channel_binding);
    bytes.extend_from_slice(header.hostname.as_bytes());
    bytes
}

fn valid_header() -> BridgeHeader {
    BridgeHeader {
        kind: KIND_SESSION,
        session_id: [0x31; 32],
        stream_id: 0,
        remote_address: SocketAddr { ip: IpAddr::V4(0x7F00_0001), port: 4242 },
        hostname: "holdfast.example".into(),
        channel_binding: [0x42; 32],
    }
}

fn stream_header(stream_id: u64) -> BridgeHeader {
    BridgeHeader { kind: KIND_STREAM, stream_id, ..valid_header() }
}

fn decode(bytes: &[u8]) -> Result<BridgeHeader, BridgeError> {
    let (header, _) = BridgeHeader::read(bytes)?;
    header.validate()?;
    Ok(header)
}

fn bridge() -> FrontdoorBridge {
    match FrontdoorBridge::bind(&config(), true, false, 0o755) {
        Ok(bridge) => bridge,
        Err(e) => panic!("no bridge: {e:?}"),
    }
}

fn config() -> FrontdoorBridgeConfig {
    FrontdoorBridgeConfig {
        socket_path: "/run/holdfast/h3-bridge.sock".into(),
        frontdoor_uid: 973,
        hostname: "holdfast.example".into(),
        public_port: 443,
        maximum_sessions: 128,
        maximum_streams_per_session: 64,
    }
}

#[test]
fn configuration_bounds_and_hostname_are_explicit() {
    let valid = config();
    valid.validate().expect("valid configuration");

    for invalid in [
        FrontdoorBridgeConfig { hostname: "Holdfast.example".into(), ..valid.clone() },
        FrontdoorBridgeConfig { frontdoor_uid: 0, ..valid.clone() },
        FrontdoorBridgeConfig { public_port: 0, ..valid.clone() },
        FrontdoorBridgeConfig { maximum_streams_per_session: 65, ..valid.clone() },
        FrontdoorBridgeConfig {
            socket_path: "/run/holdfast/../other/h3-bridge.sock".into(),
            ..valid.clone()
        },
    ] {
        assert!(invalid.validate().is_err());
    }
}

#[test]
fn exact_header_round_trips_and_malformed_wire_is_rejected() {
    let header = valid_header();
    assert_eq!(decode(&encoded_header(&header)).expect("valid header"), header);

    let valid = encoded_header(&valid_header());
    for (label, malformed) in [
        ("magic", {
            let mut bytes = valid.clone();
            bytes[0] ^= 1;
            bytes
        }),
        ("reserved", {
            let mut bytes = valid.clone();
            bytes[9] = 1;
            bytes
        }),
        ("address family", {
            let mut bytes = valid.clone();
            bytes[52] = 5;
            bytes
        }),
        ("noncanonical IPv4", {
            let mut bytes = valid.clone();
            bytes[57] = 1;
            bytes
        }),
        ("zero identity", {
            let mut bytes = valid.clone();
            bytes[12..44].fill(0);
            bytes
        }),
        ("zero binding", {
            let mut bytes = valid.clone();
            bytes[73..105].fill(0);
            bytes
        }),
        ("invalid kind", {
            let mut bytes = valid.clone();
            bytes[8] = 3;
            bytes
        }),
        ("session stream identity", {
            let mut bytes = valid.clone();
            bytes[44..52].copy_from_slice(&1_u64.to_be_bytes());
            bytes
        }),
        ("uppercase hostname", {
            let mut bytes = valid.clone();
            bytes[HEADER_FIXED_BYTES] = b'H';
            bytes
        }),
    ] {
        assert!(decode(&malformed).is_err(), "accepted {label}");
    }
}

#[test]
fn unauthorized_peer_uid_is_rejected_before_header_admission() {
    let sessions = bridge();
    assert_eq!(sessions.check_peer(974), Err(BridgeError::PeerNotAuthorized));
    assert_eq!(sessions.check_peer(973), Ok(()));
}

#[test]
fn a_truncated_header_asks_for_more() {
    let valid = encoded_header(&valid_header());
    for n in [0, 8, HEADER_FIXED_BYTES - 1, HEADER_FIXED_BYTES, valid.len() - 1] {
        assert_eq!(BridgeHeader::read(&valid[..n]).unwrap_err(), BridgeError::Truncated);
    }
    let mut longer = valid.clone();
    longer.extend_from_slice(b"what follows");
    let (_, used) = BridgeHeader::read(&longer).unwrap();
    assert_eq!(used, valid.len());
}

#[test]
fn streams_belong_to_their_session_and_come_in_turn() {
    let mut sessions = bridge();
    assert_eq!(sessions.accept(stream_header(1), true, true), Err(BridgeError::NoSession));
    match sessions.accept(valid_header(), true, true) {
        Ok(Admission::Session(session)) => {
            assert_eq!(session.remote_address(), valid_header().remote_address);
            assert_eq!(session.channel_binding(), &[0x42; 32]);
        }
        other => panic!("no session: {other:?}"),
    }
    assert_eq!(sessions.accept(valid_header(), true, true), Err(BridgeError::SessionCapacity));

    let mut foreign = stream_header(1);
    foreign.hostname = "attacker.example".into();
    assert_eq!(sessions.accept(foreign, true, true), Err(BridgeError::HostNotAuthorized));
    let mut moved = stream_header(1);
    moved.remote_address = SocketAddr { ip: IpAddr::V4(0x7E00_0001), port: 4242 };
    assert_eq!(sessions.accept(moved, true, true), Err(BridgeError::StreamMismatch));
    let mut rebound = stream_header(1);
    rebound.channel_binding = [0x99; 32];
    assert_eq!(sessions.accept(rebound, true, true), Err(BridgeError::StreamMismatch));
    assert_eq!(sessions.accept(stream_header(2), true, true), Err(BridgeError::StreamMismatch));

    assert_eq!(sessions.accept(stream_header(1), true, true), Ok(Admission::Stream));
    assert_eq!(sessions.accept(stream_header(1), true, true), Err(BridgeError::StreamMismatch));
    assert_eq!(sessions.accept(stream_header(2), true, false), Err(BridgeError::StreamCapacity));
    sessions.close(&[0x31; 32]);
    assert_eq!(sessions.accept(stream_header(3), true, true), Err(BridgeError::NoSession));
    assert_eq!(sessions.accept(valid_header(), false, true), Err(BridgeError::SessionQueueFull));
}

#[test]
fn hostnames_are_canonical() {
    for name in ["a", "a.b", "x-1.example", "1.2.3.4.5", "256.1.1.1"] {
        assert!(validate_hostname(name).is_ok(), "refused {name}");
    }
    for name in ["", ".", "a.", ".a", "-a", "a-", "a..b", "A", "a_b", "1.2.3.4", "::1"] {
        assert!(validate_hostname(name).is_err(), "accepted {name}");
    }
    assert!(validate_hostname(&"a".repeat(63)).is_ok());
    assert!(validate_hostname(&"a".repeat(64)).is_err());
}

#[test]
fn the_socket_is_guarded() {
    assert!(socket_parent_fits(true, false, 0o755));
    assert!(!socket_parent_fits(true, false, 0o775));
    assert!(!socket_parent_fits(true, false, 0o757));
    assert!(!socket_parent_fits(true, true, 0o755));
    let bound = FileIdentity { is_socket: true, device: 1, inode: 2 };
    let guard = SocketGuard::new(&bound).unwrap();
    assert!(guard.removes(&bound));
    assert!(!guard.removes(&FileIdentity { inode: 3, ..bound }));
    assert!(SocketGuard::new(&FileIdentity { is_socket: false, ..bound }).is_none());
    assert_eq!(acknowledgement(), b"DWMH3A02".to_vec());
}

#[test]
fn a_bridge_needs_a_protected_directory_and_bounds_its_handshakes() {
    assert_eq!(
        FrontdoorBridge::bind(&config(), true, false, 0o777).err(),
        Some(BridgeError::SocketDirectory)
    );
    let mut wrong = config();
    wrong.frontdoor_uid = 0;
    assert_eq!(
        FrontdoorBridge::bind(&wrong, true, false, 0o777).err(),
        Some(BridgeError::Limits)
    );
    let mut bridge = bridge();
    for _ in 0..512 {
        assert!(bridge.begin_handshake());
    }
    assert!(!bridge.begin_handshake());
    bridge.end_handshake();
    assert!(bridge.begin_handshake());
}
