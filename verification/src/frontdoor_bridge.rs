//! The bridge to a shared HTTP/3 front door: a Unix socket over which the front
//! door hands on sessions and their streams, each announced by one header.

use vstd::prelude::*;
use vstd::string::*;
use vstd::utf8::*;

use crate::assoc::{
    as_map, empty_is_empty, has_key, lookup, push_is_insert, remove_is_remove, same_size, unique,
    update_is_insert,
};
use crate::bytes::{
    be_bytes, be_reads_back, be_value, copy_range, pieces, pow256, read_be, same_bytes, split_bytes,
};
use crate::net::{IpAddr, SocketAddr};
use crate::text::{same, utf8_text};

verus! {

/// How many bytes of a header come before the hostname.
pub const HEADER_FIXED_BYTES: usize = 105;

/// The longest hostname.
pub const HOSTNAME_BYTES_MAX: usize = 253;

/// How long a handshake may take.
pub const HANDSHAKE_TIMEOUT_MS: u64 = 5_000;

/// The most handshakes at once.
pub const CONNECTION_HANDSHAKES_MAX: usize = 512;

/// The most sessions that may be configured.
pub const SESSIONS_MAX: usize = 4096;

/// The most streams of one session that may be configured.
pub const STREAMS_PER_SESSION_MAX: usize = 64;

/// The header announces a session.
pub const KIND_SESSION: u8 = 1;

/// The header announces a stream of a session.
pub const KIND_STREAM: u8 = 2;

/// Why a configuration, a header or a connection is refused.
#[derive(Debug, Clone, Copy, PartialEq, Eq, Structural)]
pub enum BridgeError {
    /// The socket must be an absolute non-root path.
    SocketPath,
    /// The hostname must be canonical lowercase DNS.
    Hostname,
    /// The identity, the port or a limit is out of bounds.
    Limits,
    /// More bytes must follow.
    Truncated,
    /// The magic or the reserved bytes are wrong.
    Magic,
    /// The address family is unknown, or an IPv4 address is padded.
    AddressFamily,
    /// The hostname is empty or too long.
    HostnameLength,
    /// The hostname is no UTF-8.
    HostnameEncoding,
    /// An identity, the kind or the port makes no sense.
    Header,
    /// The peer is not the front door.
    PeerNotAuthorized,
    /// The header is for another host.
    HostNotAuthorized,
    /// Too many sessions wait.
    SessionQueueFull,
    /// There are too many sessions, or there is this one already.
    SessionCapacity,
    /// The stream names no session.
    NoSession,
    /// The stream does not fit its session, or is out of turn.
    StreamMismatch,
    /// No more streams can be numbered.
    StreamIdsExhausted,
    /// Too many streams wait.
    StreamCapacity,
    /// The socket's directory is none, or is not protected.
    SocketDirectory,
}

/// Whether a byte may occur in a label.
pub open spec fn label_byte(b: u8) -> bool {
    97 <= b <= 122 || 48 <= b <= 57 || b == 45
}

/// Whether some bytes are a canonical DNS label.
pub open spec fn is_label(l: Seq<u8>) -> bool {
    &&& 0 < l.len() <= 63
    &&& l[0] != 45
    &&& l.last() != 45
    &&& forall|i: int| 0 <= i < l.len() ==> label_byte(#[trigger] l[i])
}

/// Whether a byte is a decimal digit.
pub open spec fn is_digit(b: u8) -> bool {
    48 <= b <= 57
}

/// Whether some bytes are a number up to 255 in decimal, without leading zeros.
pub open spec fn is_octet(l: Seq<u8>) -> bool {
    ||| l.len() == 1 && is_digit(l[0])
    ||| l.len() == 2 && is_digit(l[0]) && is_digit(l[1]) && l[0] != 48
    ||| l.len() == 3 && is_digit(l[0]) && is_digit(l[1]) && is_digit(l[2]) && l[0] != 48 && 100 * (
    l[0] - 48) + 10 * (l[1] - 48) + (l[2] - 48) <= 255
}

/// Whether labels spell an IPv4 address.
pub open spec fn is_ipv4(labels: Seq<Seq<u8>>) -> bool {
    labels.len() == 4 && forall|i: int| 0 <= i < 4 ==> is_octet(#[trigger] labels[i])
}

/// Whether some bytes are a canonical lowercase DNS name, and no address.
pub open spec fn canonical_hostname(b: Seq<u8>) -> bool {
    let labels = pieces(b, 46);
    &&& 0 < b.len() <= HOSTNAME_BYTES_MAX
    &&& !is_ipv4(labels)
    &&& forall|i: int| 0 <= i < labels.len() ==> is_label(#[trigger] labels[i])
}

fn label_fits(l: &Vec<u8>) -> (r: bool)
    ensures
        r == is_label(l@),
{
    if l.len() == 0 || l.len() > 63 {
        return false;
    }
    if l[0] == 45 || l[l.len() - 1] == 45 {
        return false;
    }
    let mut i: usize = 0;
    while i < l.len()
        invariant
            i <= l.len(),
            forall|k: int| 0 <= k < i ==> label_byte(#[trigger] l@[k]),
        decreases l.len() - i,
    {
        let b: u8 = l[i];
        let fits: bool = (97 <= b && b <= 122) || (48 <= b && b <= 57) || b == 45;
        if !fits {
            assert(!label_byte(l@[i as int]));
            return false;
        }
        i = i + 1;
    }
    true
}

fn digit_at(l: &Vec<u8>, i: usize) -> (r: bool)
    requires
        i < l@.len(),
    ensures
        r == is_digit(l@[i as int]),
{
    48 <= l[i] && l[i] <= 57
}

fn octet_fits(l: &Vec<u8>) -> (r: bool)
    ensures
        r == is_octet(l@),
{
    if l.len() == 1 {
        digit_at(l, 0)
    } else if l.len() == 2 {
        digit_at(l, 0) && digit_at(l, 1) && l[0] != 48
    } else if l.len() == 3 {
        if digit_at(l, 0) && digit_at(l, 1) && digit_at(l, 2) && l[0] != 48 {
            100 * ((l[0] - 48) as u32) + 10 * ((l[1] - 48) as u32) + ((l[2] - 48) as u32) <= 255
        } else {
            false
        }
    } else {
        false
    }
}

/// Checks that a hostname is canonical lowercase DNS.
pub fn validate_hostname(hostname: &str) -> (r: Result<(), BridgeError>)
    ensures
        r == (if canonical_hostname(hostname.spec_bytes()) {
            Ok::<(), BridgeError>(())
        } else {
            Err(BridgeError::Hostname)
        }),
{
    let raw: &[u8] = hostname.as_bytes();
    if raw.len() == 0 || raw.len() > HOSTNAME_BYTES_MAX {
        return Err(BridgeError::Hostname);
    }
    let labels: Vec<Vec<u8>> = split_bytes(raw, 46);
    let ghost views = pieces(raw@, 46);
    assert(labels@.len() == views.len());
    assert(forall|k: int| 0 <= k < labels@.len() ==> views[k] == (#[trigger] labels@[k])@);
    let mut i: usize = 0;
    let mut octets: usize = 0;
    while i < labels.len()
        invariant
            i <= labels.len(),
            octets <= i,
            views.len() == labels@.len(),
            forall|k: int| 0 <= k < labels@.len() ==> views[k] == (#[trigger] labels@[k])@,
            forall|k: int| 0 <= k < i ==> is_label(#[trigger] views[k]),
            octets == i <==> (forall|k: int| 0 <= k < i ==> is_octet(#[trigger] views[k])),
            views == pieces(hostname.spec_bytes(), 46),
        decreases labels.len() - i,
    {
        assert(views[i as int] == labels@[i as int]@);
        if !label_fits(&labels[i]) {
            assert(!is_label(views[i as int]));
            return Err(BridgeError::Hostname);
        }
        if octet_fits(&labels[i]) {
            octets = octets + 1;
        } else {
            assert(!is_octet(views[i as int]));
        }
        i = i + 1;
    }
    if labels.len() == 4 && octets == 4 {
        return Err(BridgeError::Hostname);
    }
    Ok(())
}

/// Whether some bytes are a path that leads to an entry below the root without
/// climbing.
pub open spec fn absolute_entry(b: Seq<u8>) -> bool {
    let parts = pieces(b, 47);
    &&& b.len() > 0
    &&& b[0] == 47
    &&& forall|i: int| 0 <= i < parts.len() ==> #[trigger] parts[i] != seq![46u8, 46u8]
    &&& exists|i: int|
        0 <= i < parts.len() && (#[trigger] parts[i]).len() > 0 && parts[i] != seq![46u8]
}

/// Whether a path leads to an entry below the root without climbing.
pub fn is_absolute_entry(path: &str) -> (r: bool)
    ensures
        r == absolute_entry(path.spec_bytes()),
{
    let raw: &[u8] = path.as_bytes();
    if raw.len() == 0 || raw[0] != 47 {
        return false;
    }
    let parts: Vec<Vec<u8>> = split_bytes(raw, 47);
    let ghost views = pieces(raw@, 47);
    assert(forall|k: int| 0 <= k < parts@.len() ==> views[k] == (#[trigger] parts@[k])@);
    let mut i: usize = 0;
    let mut named: bool = false;
    while i < parts.len()
        invariant
            i <= parts.len(),
            views.len() == parts@.len(),
            views == pieces(path.spec_bytes(), 47),
            forall|k: int| 0 <= k < parts@.len() ==> views[k] == (#[trigger] parts@[k])@,
            forall|k: int| 0 <= k < i ==> #[trigger] views[k] != seq![46u8, 46u8],
            named == (exists|k: int|
                0 <= k < i && (#[trigger] views[k]).len() > 0 && views[k] != seq![46u8]),
        decreases parts.len() - i,
    {
        let ghost part = views[i as int];
        assert(part == parts@[i as int]@);
        let size: usize = parts[i].len();
        if size == 2 && parts[i][0] == 46 && parts[i][1] == 46 {
            assert(part =~= seq![46u8, 46u8]);
            return false;
        }
        assert(part != seq![46u8, 46u8]) by {
            if part == seq![46u8, 46u8] {
                assert(part.len() == 2 && part[0] == 46 && part[1] == 46);
            }
        }
        if size > 0 && !(size == 1 && parts[i][0] == 46) {
            assert(part != seq![46u8]) by {
                if part == seq![46u8] {
                    assert(part.len() == 1 && part[0] == 46);
                }
            }
            named = true;
            assert(views[i as int].len() > 0 && views[i as int] != seq![46u8]);
        } else if size == 1 {
            assert(part =~= seq![46u8]);
        }
        i = i + 1;
    }
    named
}

/// Where the bridge listens, and for whom.
#[derive(Debug, Clone, PartialEq, Eq)]
pub struct FrontdoorBridgeConfig {
    pub socket_path: String,
    pub frontdoor_uid: u32,
    pub hostname: String,
    pub public_port: u16,
    pub maximum_sessions: usize,
    pub maximum_streams_per_session: usize,
}

/// The first fault of a configuration.
pub open spec fn config_fault(c: FrontdoorBridgeConfig) -> Option<BridgeError> {
    if !absolute_entry(encode_utf8(c.socket_path@)) {
        Some(BridgeError::SocketPath)
    } else if !canonical_hostname(encode_utf8(c.hostname@)) {
        Some(BridgeError::Hostname)
    } else if c.frontdoor_uid == 0 || c.public_port == 0 || !(0 < c.maximum_sessions
        <= SESSIONS_MAX) || !(0 < c.maximum_streams_per_session <= STREAMS_PER_SESSION_MAX) {
        Some(BridgeError::Limits)
    } else {
        None
    }
}

impl FrontdoorBridgeConfig {
    /// Checks the configuration.
    pub fn validate(&self) -> (r: Result<(), BridgeError>)
        ensures
            r == (match config_fault(*self) {
                Some(e) => Err::<(), BridgeError>(e),
                None => Ok(()),
            }),
    {
        if !is_absolute_entry(self.socket_path.as_str()) {
            return Err(BridgeError::SocketPath);
        }
        if let Err(e) = validate_hostname(self.hostname.as_str()) {
            return Err(e);
        }
        if self.frontdoor_uid == 0 || self.public_port == 0 || self.maximum_sessions == 0
            || self.maximum_sessions > SESSIONS_MAX || self.maximum_streams_per_session == 0
            || self.maximum_streams_per_session > STREAMS_PER_SESSION_MAX {
            return Err(BridgeError::Limits);
        }
        Ok(())
    }
}

/// What announces a session or a stream.
#[derive(Debug, Clone, PartialEq, Eq)]
pub struct BridgeHeader {
    pub kind: u8,
    pub session_id: [u8; 32],
    pub stream_id: u64,
    pub remote_address: SocketAddr,
    pub hostname: String,
    pub channel_binding: [u8; 32],
}

/// What a [`BridgeHeader`] holds.
pub struct HeaderView {
    pub kind: u8,
    pub session_id: Seq<u8>,
    pub stream_id: u64,
    pub remote_address: SocketAddr,
    pub hostname: Seq<char>,
    pub channel_binding: Seq<u8>,
}

impl View for BridgeHeader {
    type V = HeaderView;

    open spec fn view(&self) -> HeaderView {
        HeaderView {
            kind: self.kind,
            session_id: self.session_id@,
            stream_id: self.stream_id,
            remote_address: self.remote_address,
            hostname: self.hostname@,
            channel_binding: self.channel_binding@,
        }
    }
}

/// Zeros.
pub open spec fn zeros(n: nat) -> Seq<u8> {
    Seq::new(n, |i: int| 0u8)
}

/// The eight bytes that start a header: `DWMH3B02`.
pub open spec fn header_magic() -> Seq<u8> {
    seq![68u8, 87, 77, 72, 51, 66, 48, 50]
}

/// The eight bytes that acknowledge a header: `DWMH3A02`.
pub open spec fn ack_magic() -> Seq<u8> {
    seq![68u8, 87, 77, 72, 51, 65, 48, 50]
}

/// The eight bytes that acknowledge a header.
pub fn acknowledgement() -> (r: Vec<u8>)
    ensures
        r@ == ack_magic(),
{
    let mut r: Vec<u8> = Vec::new();
    r.push(68);
    r.push(87);
    r.push(77);
    r.push(72);
    r.push(51);
    r.push(65);
    r.push(48);
    r.push(50);
    assert(r@ =~= ack_magic());
    r
}

/// The first fault of what a header says.
pub open spec fn header_fault(h: HeaderView) -> Option<BridgeError> {
    if !canonical_hostname(encode_utf8(h.hostname)) {
        Some(BridgeError::Hostname)
    } else if h.session_id == zeros(32) || h.channel_binding == zeros(32) || (h.kind == KIND_SESSION
        && h.stream_id != 0) || (h.kind == KIND_STREAM && h.stream_id == 0) || (h.kind
        != KIND_SESSION && h.kind != KIND_STREAM) || h.remote_address.port == 0 {
        Some(BridgeError::Header)
    } else {
        None
    }
}

/// The address that seventeen bytes spell: the family, then sixteen bytes, of
/// which an IPv4 address fills the first four.
pub open spec fn address_read(b: Seq<u8>) -> Option<IpAddr> {
    if b[0] == 4 && b.subrange(5, 17) == zeros(12) {
        Some(IpAddr::V4(be_value(b.subrange(1, 5)) as u32))
    } else if b[0] == 6 {
        Some(IpAddr::V6(be_value(b.subrange(1, 17)) as u128))
    } else {
        None
    }
}

/// What the bytes of a connection start with: a header and how many bytes it
/// takes.
pub open spec fn header_read(b: Seq<u8>) -> Result<(HeaderView, int), BridgeError> {
    if b.len() < HEADER_FIXED_BYTES {
        Err(BridgeError::Truncated)
    } else if b.take(8) != header_magic() || b.subrange(9, 12) != zeros(3) {
        Err(BridgeError::Magic)
    } else {
        match address_read(b.subrange(52, 69)) {
            None => Err(BridgeError::AddressFamily),
            Some(ip) => {
                let len = be_value(b.subrange(71, 73)) as int;
                if len == 0 || len > HOSTNAME_BYTES_MAX {
                    Err(BridgeError::HostnameLength)
                } else if b.len() < HEADER_FIXED_BYTES + len {
                    Err(BridgeError::Truncated)
                } else if !valid_utf8(b.subrange(105, 105 + len)) {
                    Err(BridgeError::HostnameEncoding)
                } else {
                    let h = HeaderView {
                        kind: b[8],
                        session_id: b.subrange(12, 44),
                        stream_id: be_value(b.subrange(44, 52)) as u64,
                        remote_address: SocketAddr {
                            ip,
                            port: be_value(b.subrange(69, 71)) as u16,
                        },
                        hostname: decode_utf8(b.subrange(105, 105 + len)),
                        channel_binding: b.subrange(73, 105),
                    };
                    match header_fault(h) {
                        Some(e) => Err(e),
                        None => Ok((h, HEADER_FIXED_BYTES + len)),
                    }
                }
            },
        }
    }
}

/// The bytes of an address: the family, then sixteen bytes.
pub open spec fn address_bytes(ip: IpAddr) -> Seq<u8> {
    match ip {
        IpAddr::V4(a) => seq![4u8] + be_bytes(a as nat, 4) + zeros(12),
        IpAddr::V6(a) => seq![6u8] + be_bytes(a as nat, 16),
    }
}

/// The bytes of a header.
pub open spec fn header_bytes(h: HeaderView) -> Seq<u8> {
    header_magic() + seq![h.kind] + zeros(3) + h.session_id + be_bytes(h.stream_id as nat, 8)
        + address_bytes(h.remote_address.ip) + be_bytes(h.remote_address.port as nat, 2) + be_bytes(
        encode_utf8(h.hostname).len(),
        2,
    ) + h.channel_binding + encode_utf8(h.hostname)
}

fn all_zero(b: &[u8], from: usize, to: usize) -> (r: bool)
    requires
        from <= to <= b.len(),
    ensures
        r == (b@.subrange(from as int, to as int) == zeros((to - from) as nat)),
{
    let mut i: usize = from;
    while i < to
        invariant
            from <= i <= to <= b.len(),
            forall|k: int| from <= k < i ==> #[trigger] b@[k] == 0,
        decreases to - i,
    {
        if b[i] != 0 {
            assert(b@.subrange(from as int, to as int)[i - from] != 0);
            return false;
        }
        i = i + 1;
    }
    assert(b@.subrange(from as int, to as int) =~= zeros((to - from) as nat));
    true
}

fn array_32(b: &[u8], at: usize) -> (r: [u8; 32])
    requires
        at + 32 <= b.len(),
    ensures
        r@ == b@.subrange(at as int, at + 32),
{
    let mut a: [u8; 32] = [0u8; 32];
    let mut i: usize = 0;
    while i < 32
        invariant
            i <= 32,
            at + 32 <= b.len(),
            forall|k: int| 0 <= k < i ==> a@[k] == b@[at + k],
        decreases 32 - i,
    {
        a[i] = b[at + i];
        i = i + 1;
    }
    assert(a@ =~= b@.subrange(at as int, at + 32));
    a
}

fn has_magic(b: &[u8]) -> (r: bool)
    requires
        b.len() >= 8,
    ensures
        r == (b@.take(8) == header_magic()),
{
    let r: bool = b[0] == 68 && b[1] == 87 && b[2] == 77 && b[3] == 72 && b[4] == 51 && b[5] == 66
        && b[6] == 48 && b[7] == 50;
    proof {
        let head = b@.take(8);
        if r {
            assert(head =~= header_magic());
        } else {
            assert(head[0] == b@[0] && head[1] == b@[1] && head[2] == b@[2] && head[3] == b@[3]
                && head[4] == b@[4] && head[5] == b@[5] && head[6] == b@[6] && head[7] == b@[7]);
        }
    }
    r
}

impl BridgeHeader {
    /// Reads the header that the bytes of a connection start with, and how many
    /// bytes it takes. `Truncated` where more must follow.
    pub fn read(b: &[u8]) -> (r: Result<(BridgeHeader, usize), BridgeError>)
        ensures
            match header_read(b@) {
                Ok((h, used)) => r matches Ok((header, n)) && header@ == h && n == used,
                Err(e) => r == Err::<(BridgeHeader, usize), BridgeError>(e),
            },
    {
        if b.len() < HEADER_FIXED_BYTES {
            return Err(BridgeError::Truncated);
        }
        if !has_magic(b) || !all_zero(b, 9, 12) {
            return Err(BridgeError::Magic);
        }
        proof {
            reveal_with_fuel(pow256, 17);
            let a = b@.subrange(52, 69);
            assert(a[0] == b@[52]);
            assert(a.subrange(5, 17) =~= b@.subrange(57, 69));
            assert(a.subrange(1, 5) =~= b@.subrange(53, 57));
            assert(a.subrange(1, 17) =~= b@.subrange(53, 69));
        }
        let ip: IpAddr = if b[52] == 4 && all_zero(b, 57, 69) {
            IpAddr::V4(read_be(b, 53, 4) as u32)
        } else if b[52] == 6 {
            IpAddr::V6(read_be(b, 53, 16))
        } else {
            return Err(BridgeError::AddressFamily);
        };
        let len: usize = read_be(b, 71, 2) as usize;
        if len == 0 || len > HOSTNAME_BYTES_MAX {
            return Err(BridgeError::HostnameLength);
        }
        if b.len() < HEADER_FIXED_BYTES + len {
            return Err(BridgeError::Truncated);
        }
        let name: Vec<u8> = copy_range(b, HEADER_FIXED_BYTES, HEADER_FIXED_BYTES + len);
        let hostname: String = match utf8_text(name.as_slice()) {
            Some(hostname) => hostname,
            None => {
                return Err(BridgeError::HostnameEncoding);
            },
        };
        let header = BridgeHeader {
            kind: b[8],
            session_id: array_32(b, 12),
            stream_id: read_be(b, 44, 8) as u64,
            remote_address: SocketAddr { ip, port: read_be(b, 69, 2) as u16 },
            hostname,
            channel_binding: array_32(b, 73),
        };
        match header.validate() {
            Ok(()) => Ok((header, HEADER_FIXED_BYTES + len)),
            Err(e) => Err(e),
        }
    }

    /// Checks what a header says.
    pub fn validate(&self) -> (r: Result<(), BridgeError>)
        ensures
            r == (match header_fault(self@) {
                Some(e) => Err::<(), BridgeError>(e),
                None => Ok(()),
            }),
    {
        if let Err(e) = validate_hostname(self.hostname.as_str()) {
            return Err(e);
        }
        proof {
            assert(self.session_id@.subrange(0, 32) =~= self.session_id@);
            assert(self.channel_binding@.subrange(0, 32) =~= self.channel_binding@);
        }
        if all_zero(self.session_id.as_slice(), 0, 32) || all_zero(
            self.channel_binding.as_slice(),
            0,
            32,
        ) || (self.kind == KIND_SESSION && self.stream_id != 0) || (self.kind == KIND_STREAM
            && self.stream_id == 0) || (self.kind != KIND_SESSION && self.kind != KIND_STREAM)
            || self.remote_address.port == 0 {
            return Err(BridgeError::Header);
        }
        Ok(())
    }
}

/// A header that makes sense reads back from its bytes, whatever follows them.
#[verifier::rlimit(40)]
pub proof fn header_reads_back(h: HeaderView, rest: Seq<u8>)
    requires
        header_fault(h) is None,
        h.session_id.len() == 32,
        h.channel_binding.len() == 32,
    ensures
        header_read(header_bytes(h) + rest) == Ok::<(HeaderView, int), BridgeError>(
            (h, header_bytes(h).len() as int),
        ),
{
    let name = encode_utf8(h.hostname);
    let b = header_bytes(h) + rest;
    let address = address_bytes(h.remote_address.ip);
    reveal_with_fuel(pow256, 17);
    be_reads_back(h.stream_id as nat, 8);
    be_reads_back(h.remote_address.port as nat, 2);
    be_reads_back(name.len(), 2);
    match h.remote_address.ip {
        IpAddr::V4(a) => {
            be_reads_back(a as nat, 4);
            assert(address.subrange(1, 5) =~= be_bytes(a as nat, 4));
            assert(address.subrange(5, 17) =~= zeros(12));
        },
        IpAddr::V6(a) => {
            be_reads_back(a as nat, 16);
            assert(address.subrange(1, 17) =~= be_bytes(a as nat, 16));
        },
    }
    assert(address.len() == 17);
    assert(address_read(address) == Some(h.remote_address.ip));
    let n = name.len() as int;
    assert(header_bytes(h).len() == 105 + n);
    assert(b.take(8) =~= header_magic());
    assert(b[8] == h.kind);
    assert(b.subrange(9, 12) =~= zeros(3));
    assert(b.subrange(12, 44) =~= h.session_id);
    assert(b.subrange(44, 52) =~= be_bytes(h.stream_id as nat, 8));
    assert(b.subrange(52, 69) =~= address);
    assert(b.subrange(69, 71) =~= be_bytes(h.remote_address.port as nat, 2));
    assert(b.subrange(71, 73) =~= be_bytes(name.len(), 2));
    assert(b.subrange(73, 105) =~= h.channel_binding);
    assert(b.subrange(105, 105 + n) =~= name);
    encode_utf8_valid_utf8(h.hostname);
    encode_utf8_decode_utf8(h.hostname);
}

/// A live session.
pub struct SessionEntry {
    pub header: BridgeHeader,
    pub next_stream_id: u64,
}

/// What a [`SessionEntry`] holds.
pub struct EntryView {
    pub header: HeaderView,
    pub next_stream_id: u64,
}

impl View for SessionEntry {
    type V = EntryView;

    open spec fn view(&self) -> EntryView {
        EntryView { header: self.header@, next_stream_id: self.next_stream_id }
    }
}

/// A session that the front door handed on: who its client is, and what binds
/// logins to the client's connection.
#[derive(Debug, Clone, PartialEq, Eq)]
pub struct BridgeSession {
    remote_address: SocketAddr,
    channel_binding: [u8; 32],
}

impl BridgeSession {
    /// Where the client is.
    pub closed spec fn address(&self) -> SocketAddr {
        self.remote_address
    }

    /// What binds logins to the client's connection.
    pub closed spec fn binding(&self) -> Seq<u8> {
        self.channel_binding@
    }

    /// Where the client is.
    pub fn remote_address(&self) -> (r: SocketAddr)
        ensures
            r == self.address(),
    {
        self.remote_address
    }

    /// What binds logins to the client's connection.
    pub fn channel_binding(&self) -> (r: &[u8; 32])
        ensures
            r@ == self.binding(),
    {
        &self.channel_binding
    }
}

/// What is admitted.
#[derive(Debug, Clone, PartialEq, Eq)]
pub enum Admission {
    Session(BridgeSession),
    Stream,
}

/// Entries as what they hold.
pub open spec fn session_views(entries: Seq<([u8; 32], SessionEntry)>) -> Seq<(Seq<u8>, EntryView)> {
    Seq::new(entries.len(), |i: int| (entries[i].0@, entries[i].1@))
}

/// The bridge: its live sessions, and how many connections are still to say what
/// they are.
pub struct FrontdoorBridge {
    frontdoor_uid: u32,
    hostname: String,
    maximum_sessions: usize,
    entries: Vec<([u8; 32], SessionEntry)>,
    handshakes: usize,
}

/// What a [`FrontdoorBridge`] holds.
pub struct SessionsView {
    pub frontdoor_uid: u32,
    pub hostname: Seq<char>,
    pub maximum_sessions: nat,
    pub live: Map<Seq<u8>, EntryView>,
    pub handshakes: nat,
}

impl View for FrontdoorBridge {
    type V = SessionsView;

    closed spec fn view(&self) -> SessionsView {
        SessionsView {
            frontdoor_uid: self.frontdoor_uid,
            hostname: self.hostname@,
            maximum_sessions: self.maximum_sessions as nat,
            live: as_map(session_views(self.entries@)),
            handshakes: self.handshakes as nat,
        }
    }
}

/// Whether a stream's header fits its session.
pub open spec fn stream_fits(entry: EntryView, h: HeaderView) -> bool {
    &&& entry.header.hostname == h.hostname
    &&& entry.header.remote_address == h.remote_address
    &&& entry.header.channel_binding == h.channel_binding
    &&& h.stream_id == entry.next_stream_id
}

/// What a header leads to, given whether there is room for one more waiting
/// session, and for one more waiting stream of its session.
pub open spec fn admitted(
    before: SessionsView,
    after: SessionsView,
    h: HeaderView,
    session_room: bool,
    stream_room: bool,
    r: Result<Admission, BridgeError>,
) -> bool {
    if h.hostname != before.hostname {
        after == before && r == Err::<Admission, BridgeError>(BridgeError::HostNotAuthorized)
    } else if h.kind == KIND_SESSION {
        if !session_room {
            after == before && r == Err::<Admission, BridgeError>(BridgeError::SessionQueueFull)
        } else if before.live.len() >= before.maximum_sessions || before.live.dom().contains(
            h.session_id,
        ) {
            after == before && r == Err::<Admission, BridgeError>(BridgeError::SessionCapacity)
        } else {
            &&& after == (SessionsView {
                live: before.live.insert(
                    h.session_id,
                    EntryView { header: h, next_stream_id: 1 },
                ),
                ..before
            })
            &&& r matches Ok(Admission::Session(session))
            &&& session.address() == h.remote_address
            &&& session.binding() == h.channel_binding
        }
    } else if !before.live.dom().contains(h.session_id) {
        after == before && r == Err::<Admission, BridgeError>(BridgeError::NoSession)
    } else if !stream_fits(before.live[h.session_id], h) {
        after == before && r == Err::<Admission, BridgeError>(BridgeError::StreamMismatch)
    } else if h.stream_id == u64::MAX {
        after == before && r == Err::<Admission, BridgeError>(BridgeError::StreamIdsExhausted)
    } else {
        &&& after == (SessionsView {
            live: before.live.insert(
                h.session_id,
                EntryView {
                    header: before.live[h.session_id].header,
                    next_stream_id: (h.stream_id + 1) as u64,
                },
            ),
            ..before
        })
        &&& r == (if stream_room {
            Ok::<Admission, BridgeError>(Admission::Stream)
        } else {
            Err(BridgeError::StreamCapacity)
        })
    }
}

impl FrontdoorBridge {
    /// Whether no session is listed twice, and no more handshakes go on than may.
    pub closed spec fn wf(&self) -> bool {
        unique(session_views(self.entries@)) && self.handshakes <= CONNECTION_HANDSHAKES_MAX
    }

    /// A bridge without sessions. Its configuration must make sense, and the
    /// directory of its socket must be protected.
    pub fn bind(config: &FrontdoorBridgeConfig, is_dir: bool, is_symlink: bool, mode: u32) -> (r:
        Result<FrontdoorBridge, BridgeError>)
        ensures
            match config_fault(*config) {
                Some(e) => r matches Err(fault) && fault == e,
                None => if is_dir && !is_symlink && mode & 0o022 == 0 {
                    r matches Ok(bridge) && bridge.wf() && bridge@ == (SessionsView {
                        frontdoor_uid: config.frontdoor_uid,
                        hostname: config.hostname@,
                        maximum_sessions: config.maximum_sessions as nat,
                        live: Map::empty(),
                        handshakes: 0,
                    })
                } else {
                    r matches Err(fault) && fault == BridgeError::SocketDirectory
                },
            },
    {
        config.validate()?;
        if !socket_parent_fits(is_dir, is_symlink, mode) {
            return Err(BridgeError::SocketDirectory);
        }
        let r = FrontdoorBridge {
            frontdoor_uid: config.frontdoor_uid,
            hostname: config.hostname.clone(),
            maximum_sessions: config.maximum_sessions,
            entries: Vec::new(),
            handshakes: 0,
        };
        proof {
            empty_is_empty(session_views(r.entries@));
        }
        Ok(r)
    }

    /// Whether another connection may say what it is, which then takes a place.
    /// One that may not is dropped.
    pub fn begin_handshake(&mut self) -> (r: bool)
        requires
            old(self).wf(),
        ensures
            final(self).wf(),
            r <==> old(self)@.handshakes < CONNECTION_HANDSHAKES_MAX,
            final(self)@ == (SessionsView {
                handshakes: if r {
                    old(self)@.handshakes + 1
                } else {
                    old(self)@.handshakes
                },
                ..old(self)@
            }),
    {
        if self.handshakes < CONNECTION_HANDSHAKES_MAX {
            self.handshakes = self.handshakes + 1;
            true
        } else {
            false
        }
    }

    /// A connection said what it is, or took too long, and its place is free.
    pub fn end_handshake(&mut self)
        requires
            old(self).wf(),
            old(self)@.handshakes > 0,
        ensures
            final(self).wf(),
            final(self)@ == (SessionsView {
                handshakes: (old(self)@.handshakes - 1) as nat,
                ..old(self)@
            }),
    {
        self.handshakes = self.handshakes - 1;
    }

    /// A bridge never has more handshakes going than it may.
    pub proof fn handshakes_are_bounded(&self)
        requires
            self.wf(),
        ensures
            self@.handshakes <= CONNECTION_HANDSHAKES_MAX,
    {
    }

    /// Checks who connects, before anything is read.
    pub fn check_peer(&self, uid: u32) -> (r: Result<(), BridgeError>)
        ensures
            r == (if uid == self@.frontdoor_uid {
                Ok::<(), BridgeError>(())
            } else {
                Err(BridgeError::PeerNotAuthorized)
            }),
    {
        if uid == self.frontdoor_uid {
            Ok(())
        } else {
            Err(BridgeError::PeerNotAuthorized)
        }
    }

    fn find(&self, session_id: &[u8; 32]) -> (r: Option<usize>)
        requires
            self.wf(),
        ensures
            r matches Some(i) ==> i < self.entries@.len() && self.entries@[i as int].0@
                == session_id@ && self@.live.dom().contains(session_id@) && self@.live[session_id@]
                == self.entries@[i as int].1@,
            r is None ==> !has_key(session_views(self.entries@), session_id@)
                && !self@.live.dom().contains(session_id@),
    {
        let mut i: usize = 0;
        while i < self.entries.len()
            invariant
                i <= self.entries.len(),
                self.wf(),
                forall|k: int| 0 <= k < i ==> (#[trigger] self.entries@[k]).0@ != session_id@,
            decreases self.entries.len() - i,
        {
            if same_bytes(self.entries[i].0.as_slice(), session_id.as_slice()) {
                proof {
                    lookup(session_views(self.entries@), i as int);
                }
                return Some(i);
            }
            i = i + 1;
        }
        proof {
            let views = session_views(self.entries@);
            assert forall|k: int| 0 <= k < views.len() implies (#[trigger] views[k]).0
                != session_id@ by {
                assert(self.entries@[k].0@ != session_id@);
            }
        }
        None
    }

    /// Admits what a header announces: a session that is new, or the next stream
    /// of one.
    pub fn accept(&mut self, header: BridgeHeader, session_room: bool, stream_room: bool) -> (r: Result<
        Admission,
        BridgeError,
    >)
        requires
            old(self).wf(),
        ensures
            final(self).wf(),
            admitted(old(self)@, final(self)@, header@, session_room, stream_room, r),
    {
        let ghost before = session_views(self.entries@);
        if !same(header.hostname.as_str(), self.hostname.as_str()) {
            return Err(BridgeError::HostNotAuthorized);
        }
        let found: Option<usize> = self.find(&header.session_id);
        if header.kind == KIND_SESSION {
            if !session_room {
                return Err(BridgeError::SessionQueueFull);
            }
            proof {
                same_size(before);
            }
            if self.entries.len() >= self.maximum_sessions || found.is_some() {
                return Err(BridgeError::SessionCapacity);
            }
            let id: [u8; 32] = header.session_id;
            let ghost h = header@;
            let session = BridgeSession {
                remote_address: header.remote_address,
                channel_binding: header.channel_binding,
            };
            let entry = SessionEntry { header, next_stream_id: 1 };
            proof {
                push_is_insert(before, id@, entry@);
            }
            self.entries.push((id, entry));
            assert(session_views(self.entries@) =~= before.push(
                (id@, EntryView { header: h, next_stream_id: 1 }),
            ));
            return Ok(Admission::Session(session));
        }
        let i: usize = match found {
            Some(i) => i,
            None => {
                return Err(BridgeError::NoSession);
            },
        };
        let entry: &SessionEntry = &self.entries[i].1;
        if !same(entry.header.hostname.as_str(), header.hostname.as_str())
            || entry.header.remote_address != header.remote_address || !same_bytes(
            entry.header.channel_binding.as_slice(),
            header.channel_binding.as_slice(),
        ) || header.stream_id != entry.next_stream_id {
            return Err(BridgeError::StreamMismatch);
        }
        if header.stream_id == u64::MAX {
            return Err(BridgeError::StreamIdsExhausted);
        }
        let ghost updated = EntryView {
            header: before[i as int].1.header,
            next_stream_id: (header.stream_id + 1) as u64,
        };
        proof {
            update_is_insert(before, i as int, updated);
        }
        self.entries[i].1.next_stream_id = header.stream_id + 1;
        assert(session_views(self.entries@) =~= before.update(
            i as int,
            (header.session_id@, updated),
        ));
        if stream_room {
            Ok(Admission::Stream)
        } else {
            Err(BridgeError::StreamCapacity)
        }
    }

    /// A session's control connection closed.
    pub fn close(&mut self, session_id: &[u8; 32])
        requires
            old(self).wf(),
        ensures
            final(self).wf(),
            final(self)@ == (SessionsView {
                live: old(self)@.live.remove(session_id@),
                ..old(self)@
            }),
    {
        let ghost before = session_views(self.entries@);
        match self.find(session_id) {
            Some(i) => {
                proof {
                    remove_is_remove(before, i as int);
                }
                let _ = self.entries.remove(i);
                assert(session_views(self.entries@) =~= before.remove(i as int));
            },
            None => {
                assert(self@.live.remove(session_id@) =~= self@.live);
            },
        }
    }
}

/// There are never more sessions than are allowed.
pub proof fn sessions_are_bounded(
    before: SessionsView,
    after: SessionsView,
    h: HeaderView,
    session_room: bool,
    stream_room: bool,
    r: Result<Admission, BridgeError>,
)
    requires
        admitted(before, after, h, session_room, stream_room, r),
        before.live.dom().finite(),
        before.live.len() <= before.maximum_sessions,
    ensures
        after.live.dom().finite(),
        after.live.len() <= after.maximum_sessions,
{
    if before.live.dom().contains(h.session_id) {
        assert(before.live.dom().insert(h.session_id) =~= before.live.dom());
    }
}

/// A stream is admitted only to a session that lives, with that session's host,
/// address and channel binding, and in turn: the next one is one number on.
pub proof fn streams_come_in_turn(
    before: SessionsView,
    after: SessionsView,
    h: HeaderView,
    session_room: bool,
    stream_room: bool,
)
    requires
        admitted(
            before,
            after,
            h,
            session_room,
            stream_room,
            Ok::<Admission, BridgeError>(Admission::Stream),
        ),
    ensures
        before.live.dom().contains(h.session_id),
        stream_fits(before.live[h.session_id], h),
        after.live[h.session_id].next_stream_id == h.stream_id + 1,
        after.live[h.session_id].header == before.live[h.session_id].header,
{
}

/// Whether the socket may stand in a directory: one that is no link, and that
/// nobody but its owner can write.
pub fn socket_parent_fits(is_dir: bool, is_symlink: bool, mode: u32) -> (r: bool)
    ensures
        r == (is_dir && !is_symlink && mode & 0o022 == 0),
{
    is_dir && !is_symlink && mode & 0o022 == 0
}

/// What a path leads to: whether it is a socket, and which file it is.
#[derive(Debug, Clone, Copy, PartialEq, Eq, Structural)]
pub struct FileIdentity {
    pub is_socket: bool,
    pub device: u64,
    pub inode: u64,
}

/// The socket that a process has bound.
#[derive(Debug, Clone, Copy, PartialEq, Eq, Structural)]
pub struct SocketGuard {
    device: u64,
    inode: u64,
}

impl SocketGuard {
    /// Which file the socket is.
    pub closed spec fn file(self) -> (u64, u64) {
        (self.device, self.inode)
    }

    /// Remembers the socket that was bound at a path.
    pub fn new(found: &FileIdentity) -> (r: Option<SocketGuard>)
        ensures
            r is Some <==> found.is_socket,
            r matches Some(g) ==> g.file() == (found.device, found.inode),
    {
        if !found.is_socket {
            return None;
        }
        Some(SocketGuard { device: found.device, inode: found.inode })
    }

    /// Whether what is found at the path later is still that socket, and may be
    /// removed.
    pub fn removes(&self, found: &FileIdentity) -> (r: bool)
        ensures
            r == (found.is_socket && self.file() == (found.device, found.inode)),
    {
        found.is_socket && found.device == self.device && found.inode == self.inode
    }
}

} // verus!
