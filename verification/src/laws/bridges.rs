//! Laws of the bridge to a shared front door.

use vstd::prelude::*;
use vstd::string::*;
use vstd::utf8::*;

use crate::frontdoor_bridge::{
    acknowledgement, is_absolute_entry, socket_parent_fits, validate_hostname, Admission,
    BridgeError, BridgeHeader, BridgeSession, FileIdentity, FrontdoorBridge, FrontdoorBridgeConfig,
    SocketGuard,
};
use crate::net::{IpAddr, SocketAddr};

verus! {

/// A configuration is refused for its socket first, then its hostname, then its limits:
/// an identity and a port that are none, more than four thousand and ninety-six sessions,
/// or more than sixty-four streams of one.
pub proof fn bridges_are_configured_within_bounds(
    config: &FrontdoorBridgeConfig,
    r: Result<(), BridgeError>,
    socket: &str,
    entry: bool,
    host: &str,
    named: Result<(), BridgeError>,
)
    requires
        call_ensures(FrontdoorBridgeConfig::validate, (config,), r),
        socket.spec_bytes() == encode_utf8(config.socket_path@),
        call_ensures(is_absolute_entry, (socket,), entry),
        host.spec_bytes() == encode_utf8(config.hostname@),
        call_ensures(validate_hostname, (host,), named),
    ensures
        ({
            let within = config.frontdoor_uid != 0 && config.public_port != 0 && 0
                < config.maximum_sessions <= 4_096 && 0 < config.maximum_streams_per_session <= 64;
            &&& r is Ok <==> entry && named is Ok && within
            &&& !entry ==> r == Err::<(), BridgeError>(BridgeError::SocketPath)
            &&& entry && named is Err ==> r == Err::<(), BridgeError>(BridgeError::Hostname)
            &&& entry && named is Ok && !within ==> r == Err::<(), BridgeError>(
                BridgeError::Limits,
            )
        }),
{
}

/// A hostname has one to two hundred and fifty-three bytes, all of them small letters,
/// digits, hyphens and full stops, and neither starts nor ends with a hyphen or a full
/// stop, nor has two full stops in a row.
pub proof fn hostnames_are_canonical(host: &str, r: Result<(), BridgeError>, i: int)
    requires
        call_ensures(validate_hostname, (host,), r),
        r is Ok,
        0 <= i < host.spec_bytes().len(),
    ensures
        ({
            let b = host.spec_bytes();
            &&& 0 < b.len() <= 253
            &&& 97 <= b[i] <= 122 || 48 <= b[i] <= 57 || b[i] == 45 || b[i] == 46
            &&& b[0] != 46 && b[0] != 45
            &&& b.last() != 46 && b.last() != 45
            &&& i > 0 && b[i] == 46 ==> b[i - 1] != 46 && b[i - 1] != 45
            &&& i > 0 && b[i - 1] == 46 ==> b[i] != 45
        }),
{
    labels_are_clean(host.spec_bytes());
}

/// What labels say of the bytes that they come from.
proof fn labels_are_clean(b: Seq<u8>)
    requires
        b.len() > 0,
        forall|k: int|
            0 <= k < crate::bytes::pieces(b, 46).len() ==> crate::frontdoor_bridge::is_label(
                #[trigger] crate::bytes::pieces(b, 46)[k],
            ),
    ensures
        forall|i: int|
            0 <= i < b.len() ==> 97 <= (#[trigger] b[i]) <= 122 || 48 <= b[i] <= 57 || b[i] == 45
                || b[i] == 46,
        b[0] != 46 && b[0] != 45,
        b.last() != 46 && b.last() != 45,
        forall|i: int|
            0 < i < b.len() && (#[trigger] b[i]) == 46 ==> b[i - 1] != 46 && b[i - 1] != 45,
        forall|i: int| 0 < i < b.len() && b[i - 1] == 46 ==> (#[trigger] b[i]) != 45,
{
    assert forall|i: int| 0 <= i < b.len() implies (97 <= (#[trigger] b[i]) <= 122 || 48 <= b[i]
        <= 57 || b[i] == 45 || b[i] == 46) by {
        if b[i] != 46 {
            let (from, to) = label_around(b, i);
            let k = labels_between(b, from, to);
            assert(b.subrange(from, to)[i - from] == b[i]);
        }
    }
    let (_, end) = label_around_or_empty(b, 0);
    let k = labels_between(b, 0, end);
    assert(b.subrange(0, end)[0] == b[0]);
    let (start, _) = label_around_or_empty_before(b, b.len() as int);
    let j = labels_between(b, start, b.len() as int);
    assert(b.subrange(start, b.len() as int).last() == b.last());
    assert forall|i: int| 0 < i < b.len() && (#[trigger] b[i]) == 46 implies b[i - 1] != 46 && b[i
        - 1] != 45 by {
        let (from, _) = label_around_or_empty_before(b, i);
        let k = labels_between(b, from, i);
        assert(b.subrange(from, i).last() == b[i - 1]);
    }
    assert forall|i: int| 0 < i < b.len() && b[i - 1] == 46 implies (#[trigger] b[i]) != 45 by {
        let (_, to) = label_around_or_empty(b, i);
        let k = labels_between(b, i, to);
        assert(b.subrange(i, to)[0] == b[i]);
    }
}

proof fn label_around_or_empty(b: Seq<u8>, i: int) -> (r: (int, int))
    requires
        0 <= i <= b.len(),
    ensures
        r.0 == i,
        i <= r.1 <= b.len(),
        r.1 == b.len() || b[r.1] == 46,
        forall|n: int| i <= n < r.1 ==> #[trigger] b[n] != 46,
    decreases b.len() - i,
{
    if i == b.len() || b[i] == 46 {
        (i, i)
    } else {
        let (_, to) = label_around_or_empty(b, i + 1);
        (i, to)
    }
}

proof fn label_around_or_empty_before(b: Seq<u8>, i: int) -> (r: (int, int))
    requires
        0 <= i <= b.len(),
    ensures
        r.1 == i,
        0 <= r.0 <= i,
        r.0 == 0 || b[r.0 - 1] == 46,
        forall|n: int| r.0 <= n < i ==> #[trigger] b[n] != 46,
    decreases i,
{
    if i == 0 || b[i - 1] == 46 {
        (i, i)
    } else {
        let (from, _) = label_around_or_empty_before(b, i - 1);
        (from, i)
    }
}

proof fn label_around(b: Seq<u8>, i: int) -> (r: (int, int))
    requires
        0 <= i < b.len(),
        b[i] != 46,
    ensures
        0 <= r.0 <= i < r.1 <= b.len(),
        r.0 == 0 || b[r.0 - 1] == 46,
        r.1 == b.len() || b[r.1] == 46,
        forall|n: int| r.0 <= n < r.1 ==> #[trigger] b[n] != 46,
{
    let (from, _) = label_around_or_empty_before(b, i);
    let (_, to) = label_around_or_empty(b, i);
    (from, to)
}

/// Each stretch between full stops is a label.
proof fn labels_between(b: Seq<u8>, i: int, j: int) -> (k: int)
    requires
        0 <= i <= j <= b.len(),
        i == 0 || b[i - 1] == 46,
        j == b.len() || b[j] == 46,
        forall|n: int| i <= n < j ==> #[trigger] b[n] != 46,
    ensures
        0 <= k < crate::bytes::pieces(b, 46).len(),
        crate::bytes::pieces(b, 46)[k] == b.subrange(i, j),
        j == b.len() ==> k == crate::bytes::pieces(b, 46).len() - 1,
        j < b.len() ==> k < crate::bytes::pieces(b, 46).len() - 1,
    decreases b.len(),
{
    crate::bytes::pieces_not_empty(b, 46);
    if b.len() == 0 {
        assert(b.subrange(i, j) =~= Seq::empty());
        0
    } else {
        let a = b.drop_last();
        crate::bytes::pieces_not_empty(a, 46);
        if j == b.len() {
            if i == j {
                assert(b.subrange(i, j) =~= Seq::empty());
                crate::bytes::pieces(b, 46).len() - 1
            } else {
                assert(b[b.len() - 1] != 46);
                let k = labels_between(a, i, j - 1);
                assert(a.subrange(i, j - 1).push(b.last()) =~= b.subrange(i, j));
                crate::bytes::pieces(b, 46).len() - 1
            }
        } else {
            let k = labels_between(a, i, j);
            assert(a.subrange(i, j) =~= b.subrange(i, j));
            k
        }
    }
}

/// The bytes of a header: its mark, what it announces, whose it is, where its client is,
/// and for which host.
pub open spec fn laid_out(h: BridgeHeader, b: Seq<u8>) -> bool {
    let host = encode_utf8(h.hostname@);
    &&& b.len() >= 105 + host.len()
    &&& b.take(8) == seq![68u8, 87, 77, 72, 51, 66, 48, 50]
    &&& b[8] == h.kind
    &&& b[9] == 0 && b[10] == 0 && b[11] == 0
    &&& b.subrange(12, 44) == h.session_id@
    &&& crate::bytes::be_value(b.subrange(44, 52)) == h.stream_id
    &&& h.remote_address.ip matches IpAddr::V4(a) ==> b[52] == 4 && crate::bytes::be_value(
        b.subrange(53, 57),
    ) == a && forall|i: int| 57 <= i < 69 ==> #[trigger] b[i] == 0
    &&& h.remote_address.ip matches IpAddr::V6(a) ==> b[52] == 6 && crate::bytes::be_value(
        b.subrange(53, 69),
    ) == a
    &&& crate::bytes::be_value(b.subrange(69, 71)) == h.remote_address.port
    &&& crate::bytes::be_value(b.subrange(71, 73)) == host.len()
    &&& b.subrange(73, 105) == h.channel_binding@
    &&& b.subrange(105, (105 + host.len()) as int) == host
}

/// A header that is read is what its bytes say, and says something that makes sense: a
/// session without a stream's number, or a stream with one, from some client, for a
/// canonical host.
pub proof fn headers_are_read_as_laid_out(
    b: &[u8],
    r: Result<(BridgeHeader, usize), BridgeError>,
    host: &str,
    named: Result<(), BridgeError>,
)
    requires
        call_ensures(BridgeHeader::read, (b,), r),
        r matches Ok((h, _)) ==> host.spec_bytes() == encode_utf8(h.hostname@),
        call_ensures(validate_hostname, (host,), named),
    ensures
        b@.len() < 105 ==> r == Err::<(BridgeHeader, usize), BridgeError>(BridgeError::Truncated),
        r matches Ok((h, used)) ==> {
            &&& laid_out(h, b@)
            &&& used == 105 + encode_utf8(h.hostname@).len()
            &&& 0 < encode_utf8(h.hostname@).len() <= 253
            &&& named is Ok
            &&& h.kind == 1 && h.stream_id == 0 || h.kind == 2 && h.stream_id != 0
            &&& h.remote_address.port != 0
            &&& exists|i: int| 0 <= i < 32 && #[trigger] h.session_id@[i] != 0
            &&& exists|i: int| 0 <= i < 32 && #[trigger] h.channel_binding@[i] != 0
        },
        b@.len() >= 105 && b@.take(8) != seq![68u8, 87, 77, 72, 51, 66, 48, 50] ==> r == Err::<
            (BridgeHeader, usize),
            BridgeError,
        >(BridgeError::Magic),
{
    match r {
        Ok((h, used)) => {
            let d = b@;
            let len = crate::bytes::be_value(d.subrange(71, 73)) as int;
            decode_utf8_encode_utf8(d.subrange(105, 105 + len));
            let at = d.subrange(52, 69);
            assert(at.subrange(1, 5) =~= d.subrange(53, 57));
            assert(at.subrange(1, 17) =~= d.subrange(53, 69));
            assert(at[0] == d[52]);
            assert(d.subrange(9, 12)[0] == d[9]);
            assert(d.subrange(9, 12)[1] == d[10]);
            assert(d.subrange(9, 12)[2] == d[11]);
            if h.remote_address.ip is V4 {
                assert forall|i: int| 57 <= i < 69 implies #[trigger] d[i] == 0 by {
                    assert(at.subrange(5, 17)[i - 57] == d[i]);
                }
            }
            reveal_with_fuel(crate::bytes::pow256, 17);
            crate::bytes::be_value_fits(d.subrange(44, 52));
            crate::bytes::be_value_fits(d.subrange(53, 57));
            crate::bytes::be_value_fits(d.subrange(53, 69));
            crate::bytes::be_value_fits(d.subrange(69, 71));
            if forall|i: int| 0 <= i < 32 ==> #[trigger] h.session_id@[i] == 0 {
                assert(h.session_id@ =~= crate::frontdoor_bridge::zeros(32));
            }
            if forall|i: int| 0 <= i < 32 ==> #[trigger] h.channel_binding@[i] == 0 {
                assert(h.channel_binding@ =~= crate::frontdoor_bridge::zeros(32));
            }
        },
        Err(_) => {},
    }
}

/// A header that was laid out and makes sense is read back, whatever follows it.
pub proof fn laid_out_headers_read_back(
    h: &BridgeHeader,
    valid: Result<(), BridgeError>,
    b: &[u8],
    rest: Seq<u8>,
    r: Result<(BridgeHeader, usize), BridgeError>,
)
    requires
        call_ensures(BridgeHeader::validate, (h,), valid),
        valid is Ok,
        b@ == crate::frontdoor_bridge::header_bytes(h@) + rest,
        call_ensures(BridgeHeader::read, (b,), r),
    ensures
        r matches Ok((read, used)) && read@ == h@ && used == b@.len() - rest.len(),
{
    crate::frontdoor_bridge::header_reads_back(h@, rest);
}

/// What a header says makes sense or not.
pub proof fn headers_are_checked(
    h: &BridgeHeader,
    r: Result<(), BridgeError>,
    host: &str,
    named: Result<(), BridgeError>,
)
    requires
        call_ensures(BridgeHeader::validate, (h,), r),
        host.spec_bytes() == encode_utf8(h.hostname@),
        call_ensures(validate_hostname, (host,), named),
    ensures
        named is Err ==> r == Err::<(), BridgeError>(BridgeError::Hostname),
        named is Ok && r is Err ==> r == Err::<(), BridgeError>(BridgeError::Header),
        r is Ok ==> h.remote_address.port != 0 && (h.kind == 1 && h.stream_id == 0 || h.kind == 2
            && h.stream_id != 0),
        named is Ok && h.remote_address.port != 0 && (h.kind == 1 && h.stream_id == 0 || h.kind == 2
            && h.stream_id != 0) && h.session_id@[0] != 0 && h.channel_binding@[0] != 0 ==> r is Ok,
{
}

/// A header is acknowledged with its own eight bytes.
pub proof fn headers_are_acknowledged(r: Vec<u8>)
    requires
        call_ensures(acknowledgement, (), r),
    ensures
        r@ == seq![68u8, 87, 77, 72, 51, 65, 48, 50],
{
}

/// A bridge starts without sessions, for the host and the user that it is configured
/// for, in a directory that only its owner can write.
pub proof fn bridges_start_empty(
    config: &FrontdoorBridgeConfig,
    is_dir: bool,
    is_symlink: bool,
    mode: u32,
    r: Result<FrontdoorBridge, BridgeError>,
    checked: Result<(), BridgeError>,
    fits: bool,
)
    requires
        call_ensures(FrontdoorBridge::bind, (config, is_dir, is_symlink, mode), r),
        call_ensures(FrontdoorBridgeConfig::validate, (config,), checked),
        call_ensures(socket_parent_fits, (is_dir, is_symlink, mode), fits),
    ensures
        fits ==> is_dir && !is_symlink && mode / 2 % 2 == 0 && mode / 16 % 2 == 0,
        is_dir && !is_symlink && mode / 2 % 2 == 0 && mode / 16 % 2 == 0 ==> fits,
        checked matches Err(e) ==> (r matches Err(f) && f == e),
        checked is Ok && !fits ==> (r matches Err(f) && f == BridgeError::SocketDirectory),
        checked is Ok && fits ==> {
            &&& r matches Ok(bridge)
            &&& bridge@.frontdoor_uid == config.frontdoor_uid
            &&& bridge@.hostname == config.hostname@
            &&& bridge@.maximum_sessions == config.maximum_sessions
            &&& bridge@.live.dom() == Set::<Seq<u8>>::empty()
            &&& bridge@.handshakes == 0
        },
{
    assert(mode & 0o022 == 0 <==> mode / 2 % 2 == 0 && mode / 16 % 2 == 0) by (bit_vector);
}

/// Only the front door may connect.
pub proof fn only_the_front_door_connects(
    bridge: &FrontdoorBridge,
    uid: u32,
    r: Result<(), BridgeError>,
)
    requires
        call_ensures(FrontdoorBridge::check_peer, (bridge, uid), r),
    ensures
        uid == bridge@.frontdoor_uid ==> r is Ok,
        uid != bridge@.frontdoor_uid ==> r == Err::<(), BridgeError>(
            BridgeError::PeerNotAuthorized,
        ),
{
}

/// At most five hundred and twelve connections say what they are at once.
pub proof fn handshakes_take_places(
    bridge: &mut FrontdoorBridge,
    taken: bool,
    ending: &mut FrontdoorBridge,
)
    requires
        call_ensures(FrontdoorBridge::begin_handshake, (bridge,), taken),
        call_ensures(FrontdoorBridge::end_handshake, (ending,), ()),
        old(ending)@.handshakes > 0,
    ensures
        taken <==> old(bridge)@.handshakes < 512,
        taken ==> final(bridge)@.handshakes == old(bridge)@.handshakes + 1,
        !taken ==> final(bridge)@.handshakes == old(bridge)@.handshakes,
        final(bridge)@.live == old(bridge)@.live,
        final(ending)@.handshakes == old(ending)@.handshakes - 1,
        final(ending)@.live == old(ending)@.live,
{
}

/// A session is admitted where it is for this host, new, and there is room for it; its
/// client is where the header says, and its logins are bound as the header says.
pub proof fn sessions_are_admitted(
    bridge: &mut FrontdoorBridge,
    header: BridgeHeader,
    session_room: bool,
    stream_room: bool,
    r: Result<Admission, BridgeError>,
    address: SocketAddr,
    binding: &[u8; 32],
)
    requires
        call_ensures(FrontdoorBridge::accept, (bridge, header, session_room, stream_room), r),
        header.kind == 1,
        r matches Ok(Admission::Session(s)) ==> call_ensures(
            BridgeSession::remote_address,
            (&s,),
            address,
        ) && call_ensures(BridgeSession::channel_binding, (&s,), binding),
    ensures
        ({
            let host = header.hostname@ == old(bridge)@.hostname;
            let full = old(bridge)@.live.len() >= old(bridge)@.maximum_sessions;
            let known = old(bridge)@.live.dom().contains(header.session_id@);
            &&& !host ==> r == Err::<Admission, BridgeError>(BridgeError::HostNotAuthorized)
            &&& host && !session_room ==> r == Err::<Admission, BridgeError>(
                BridgeError::SessionQueueFull,
            )
            &&& host && session_room && (full || known) ==> r == Err::<Admission, BridgeError>(
                BridgeError::SessionCapacity,
            )
            &&& host && session_room && !full && !known ==> {
                &&& r matches Ok(Admission::Session(_))
                &&& address == header.remote_address
                &&& binding@ == header.channel_binding@
                &&& final(bridge)@.live.dom().contains(header.session_id@)
                &&& final(bridge)@.live[header.session_id@].next_stream_id == 1
                &&& final(bridge)@.live[header.session_id@].header == header@
            }
            &&& r is Err ==> final(bridge)@ == old(bridge)@
        }),
        forall|other: Seq<u8>|
            other != header.session_id@ ==> (#[trigger] final(bridge)@.live.dom().contains(other)
                <==> old(bridge)@.live.dom().contains(other))
                    && final(bridge)@.live[other] == old(bridge)@.live[other],
{
}

/// A stream is admitted to a session that lives, where it comes from the session's own
/// client and is the next in turn; a turn that found no room is still used up.
pub proof fn streams_are_admitted_in_turn(
    bridge: &mut FrontdoorBridge,
    header: BridgeHeader,
    session_room: bool,
    stream_room: bool,
    r: Result<Admission, BridgeError>,
)
    requires
        call_ensures(FrontdoorBridge::accept, (bridge, header, session_room, stream_room), r),
        header.kind == 2,
    ensures
        ({
            let host = header.hostname@ == old(bridge)@.hostname;
            let known = old(bridge)@.live.dom().contains(header.session_id@);
            let session = old(bridge)@.live[header.session_id@];
            let own = session.header.hostname == header.hostname@ && session.header.remote_address
                == header.remote_address && session.header.channel_binding
                == header.channel_binding@;
            let next = header.stream_id == session.next_stream_id;
            &&& !host ==> r == Err::<Admission, BridgeError>(BridgeError::HostNotAuthorized)
            &&& host && !known ==> r == Err::<Admission, BridgeError>(BridgeError::NoSession)
            &&& host && known && !(own && next) ==> r == Err::<Admission, BridgeError>(
                BridgeError::StreamMismatch,
            )
            &&& host && known && own && next && header.stream_id == u64::MAX ==> r == Err::<
                Admission,
                BridgeError,
            >(BridgeError::StreamIdsExhausted)
            &&& host && known && own && next && header.stream_id < u64::MAX ==> {
                &&& stream_room ==> r == Ok::<Admission, BridgeError>(Admission::Stream)
                &&& !stream_room ==> r == Err::<Admission, BridgeError>(BridgeError::StreamCapacity)
                &&& final(bridge)@.live[header.session_id@].next_stream_id == header.stream_id + 1
                &&& final(bridge)@.live[header.session_id@].header == session.header
            }
            &&& !(host && known && own && next && header.stream_id < u64::MAX) ==> final(bridge)@
                == old(bridge)@
        }),
{
}

/// A session whose connection closed is gone, and its place is free; the others live on.
pub proof fn closed_sessions_are_gone(
    bridge: &mut FrontdoorBridge,
    session_id: &[u8; 32],
    other: Seq<u8>,
)
    requires
        call_ensures(FrontdoorBridge::close, (bridge, session_id), ()),
        other != session_id@,
    ensures
        !final(bridge)@.live.dom().contains(session_id@),
        final(bridge)@.live.dom().contains(other) <==> old(bridge)@.live.dom().contains(other),
        final(bridge)@.live[other] == old(bridge)@.live[other],
        final(bridge)@.hostname == old(bridge)@.hostname,
        final(bridge)@.maximum_sessions == old(bridge)@.maximum_sessions,
{
}

/// Only the socket that was bound is removed, and nothing that took its place.
pub proof fn only_the_own_socket_is_removed(
    bound: &FileIdentity,
    guard: Option<SocketGuard>,
    found: &FileIdentity,
    removes: bool,
)
    requires
        call_ensures(SocketGuard::new, (bound,), guard),
        guard is Some ==> call_ensures(SocketGuard::removes, (&guard->0, found), removes),
    ensures
        guard is Some <==> bound.is_socket,
        guard is Some ==> (removes <==> found.is_socket && found.device == bound.device
            && found.inode == bound.inode),
{
}

/// A header whose address is of no known family, or whose hostname is empty or too long,
/// is refused as such.
pub proof fn odd_headers_are_refused(b: &[u8], r: Result<(BridgeHeader, usize), BridgeError>)
    requires
        call_ensures(BridgeHeader::read, (b,), r),
        b@.len() >= 105,
        b@.take(8) == seq![68u8, 87, 77, 72, 51, 66, 48, 50],
    ensures
        b@[9] != 0 ==> (r matches Err(e) && e == BridgeError::Magic),
        b@[9] == 0 && b@[10] == 0 && b@[11] == 0 && b@[52] != 4 && b@[52] != 6 ==> (r matches Err(
            e,
        ) && e == BridgeError::AddressFamily),
        ({
            let len = b@[71] as int * 256 + b@[72] as int;
            let known = b@[9] == 0 && b@[10] == 0 && b@[11] == 0 && b@[52] == 6;
            &&& known && (len == 0 || len > 253) ==> (r matches Err(e) && e
                == BridgeError::HostnameLength)
            &&& known && 0 < len <= 253 && b@.len() < 105 + len ==> (r matches Err(e) && e
                == BridgeError::Truncated)
            &&& known && 0 < len <= 253 && b@.len() >= 105 + len && !valid_utf8(
                b@.subrange(105, 105 + len),
            ) ==> (r matches Err(e) && e == BridgeError::HostnameEncoding)
        }),
{
    let d = b@;
    let reserved = d.subrange(9, 12);
    let at = d.subrange(52, 69);
    assert(at[0] == d[52]);
    if d[9] == 0 && d[10] == 0 && d[11] == 0 {
        assert(reserved =~= crate::frontdoor_bridge::zeros(3));
    }
    if d[9] != 0 {
        assert(reserved[0] == d[9]);
        assert(crate::frontdoor_bridge::zeros(3)[0] == 0);
    }
    let two = d.subrange(71, 73);
    reveal_with_fuel(crate::bytes::be_value, 3);
    assert(two.drop_last().last() == d[71]);
    assert(two.last() == d[72]);
    assert(two.drop_last().drop_last().len() == 0);
}

/// Each part of a hostname between full stops has one to sixty-three bytes.
pub proof fn labels_are_short(host: &str, r: Result<(), BridgeError>, from: int, to: int)
    requires
        call_ensures(validate_hostname, (host,), r),
        r is Ok,
        0 <= from <= to <= host.spec_bytes().len(),
        from == 0 || host.spec_bytes()[from - 1] == 46,
        to == host.spec_bytes().len() || host.spec_bytes()[to] == 46,
        forall|n: int| from <= n < to ==> #[trigger] host.spec_bytes()[n] != 46,
    ensures
        0 < to - from <= 63,
{
    let k = labels_between(host.spec_bytes(), from, to);
}

/// A name of one part is taken where it has one to sixty-three bytes, small letters,
/// digits and hyphens, and has no hyphen at either end.
pub proof fn plain_names_are_taken(host: &str, r: Result<(), BridgeError>)
    requires
        call_ensures(validate_hostname, (host,), r),
        0 < host.spec_bytes().len() <= 63,
        forall|i: int|
            0 <= i < host.spec_bytes().len() ==> 97 <= (#[trigger] host.spec_bytes()[i]) <= 122
                || 48 <= host.spec_bytes()[i] <= 57 || host.spec_bytes()[i] == 45,
        host.spec_bytes()[0] != 45,
        host.spec_bytes().last() != 45,
    ensures
        r is Ok,
{
    let b = host.spec_bytes();
    if b.contains(46) {
        let i = choose|i: int| 0 <= i < b.len() && b[i] == 46;
        assert(97 <= b[i] <= 122 || 48 <= b[i] <= 57 || b[i] == 45);
    }
    crate::laws::basics::unmarked_bytes_are_whole(b, 46);
    assert(seq![b][0] == b);
}

/// A name that is taken may be continued by a full stop and a part that is taken by
/// itself, while the whole fits and is not made of digits alone.
pub proof fn names_are_continued(
    host: &str,
    r: Result<(), BridgeError>,
    part: &str,
    own: Result<(), BridgeError>,
    whole: &str,
    both: Result<(), BridgeError>,
    k: int,
)
    requires
        call_ensures(validate_hostname, (host,), r),
        call_ensures(validate_hostname, (part,), own),
        call_ensures(validate_hostname, (whole,), both),
        r is Ok,
        own is Ok,
        !part.spec_bytes().contains(46),
        whole.spec_bytes() == host.spec_bytes() + seq![46u8] + part.spec_bytes(),
        whole.spec_bytes().len() <= 253,
        0 <= k < whole.spec_bytes().len(),
        whole.spec_bytes()[k] != 46,
        !(48 <= whole.spec_bytes()[k] <= 57),
    ensures
        both is Ok,
{
    let a = host.spec_bytes();
    let l = part.spec_bytes();
    let b = whole.spec_bytes();
    pieces_continue(a, l, 46);
    crate::laws::basics::unmarked_bytes_are_whole(l, 46);
    assert(crate::bytes::pieces(l, 46)[0] == l);
    let labels = crate::bytes::pieces(b, 46);
    assert forall|i: int| 0 <= i < labels.len() implies crate::frontdoor_bridge::is_label(
        #[trigger] labels[i],
    ) by {
        if i < crate::bytes::pieces(a, 46).len() {
            assert(labels[i] == crate::bytes::pieces(a, 46)[i]);
        }
    }
    let (from, to) = label_around(b, k);
    let n = labels_between(b, from, to);
    assert(labels[n][k - from] == b[k]);
    assert(!crate::frontdoor_bridge::is_octet(labels[n]));
}

/// Whether some bytes spell a number up to two hundred and fifty-five, without zeros in
/// front.
pub open spec fn spells_an_octet(l: Seq<u8>) -> bool {
    &&& 1 <= l.len() <= 3
    &&& forall|i: int| 0 <= i < l.len() ==> 48 <= #[trigger] l[i] <= 57
    &&& l.len() > 1 ==> l[0] != 48
    &&& l.len() == 3 ==> 100 * (l[0] - 48) + 10 * (l[1] - 48) + (l[2] - 48) <= 255
}

/// Four such numbers with full stops between them are an address, and no hostname.
pub proof fn addresses_are_no_hostnames(
    host: &str,
    r: Result<(), BridgeError>,
    w: Seq<u8>,
    x: Seq<u8>,
    y: Seq<u8>,
    z: Seq<u8>,
)
    requires
        call_ensures(validate_hostname, (host,), r),
        spells_an_octet(w),
        spells_an_octet(x),
        spells_an_octet(y),
        spells_an_octet(z),
        host.spec_bytes() == w + seq![46u8] + x + seq![46u8] + y + seq![46u8] + z,
    ensures
        r == Err::<(), BridgeError>(BridgeError::Hostname),
{
    crate::laws::basics::unmarked_bytes_are_whole(w, 46);
    pieces_continue(w, x, 46);
    pieces_continue(w + seq![46u8] + x, y, 46);
    pieces_continue(w + seq![46u8] + x + seq![46u8] + y, z, 46);
    let labels = crate::bytes::pieces(host.spec_bytes(), 46);
    assert(labels =~= seq![w, x, y, z]);
    assert(crate::frontdoor_bridge::is_octet(w));
    assert(crate::frontdoor_bridge::is_octet(x));
    assert(crate::frontdoor_bridge::is_octet(y));
    assert(crate::frontdoor_bridge::is_octet(z));
    assert(crate::frontdoor_bridge::is_ipv4(labels));
}

/// A mark and a part without one are one more stretch.
proof fn pieces_continue(a: Seq<u8>, l: Seq<u8>, mark: u8)
    requires
        !l.contains(mark),
    ensures
        crate::bytes::pieces(a + seq![mark] + l, mark) == crate::bytes::pieces(a, mark).push(l),
    decreases l.len(),
{
    let b = a + seq![mark] + l;
    if l.len() == 0 {
        assert(b.drop_last() =~= a);
        assert(l =~= Seq::empty());
    } else {
        let rest = l.drop_last();
        if rest.contains(mark) {
            let k = choose|k: int| 0 <= k < rest.len() && rest[k] == mark;
            assert(l[k] == mark);
        }
        pieces_continue(a, rest, mark);
        assert(b.drop_last() =~= a + seq![mark] + rest);
        assert(l[l.len() - 1] == l.last());
        assert(rest.push(l.last()) =~= l);
        let before = crate::bytes::pieces(a, mark).push(rest);
        assert(before.drop_last() =~= crate::bytes::pieces(a, mark));
        assert(before.last() == rest);
    }
}

/// Whether some bytes name an entry of a directory: not the directory itself, nor the one
/// above.
pub open spec fn names_an_entry(p: Seq<u8>) -> bool {
    p.len() > 0 && p != seq![46u8] && p != seq![46u8, 46u8]
}

/// Only a path from the root leads to an entry. One more part at its end spoils it where
/// it climbs, changes nothing where it stays, and else leads to an entry wherever the
/// path does not climb before; and no part after one that climbs makes up for it.
pub proof fn entries_lie_below_the_root(
    path: &str,
    entry: bool,
    part: Seq<u8>,
    whole: &str,
    led: bool,
    name: Seq<u8>,
    named: &str,
    open: bool,
    longer: &str,
    later: bool,
)
    requires
        call_ensures(is_absolute_entry, (path,), entry),
        !part.contains(47),
        whole.spec_bytes() == path.spec_bytes() + seq![47u8] + part,
        call_ensures(is_absolute_entry, (whole,), led),
        !name.contains(47),
        names_an_entry(name),
        named.spec_bytes() == path.spec_bytes() + seq![47u8] + name,
        call_ensures(is_absolute_entry, (named,), open),
        longer.spec_bytes() == whole.spec_bytes() + seq![47u8] + name,
        call_ensures(is_absolute_entry, (longer,), later),
    ensures
        entry ==> path.spec_bytes().len() > 0 && path.spec_bytes()[0] == 47,
        path.spec_bytes().len() == 0 ==> open,
        path.spec_bytes().len() > 0 && path.spec_bytes()[0] != 47 ==> !led && !open,
        entry ==> open,
        led ==> open,
        later ==> open,
        part == seq![46u8, 46u8] ==> !led && !later,
        names_an_entry(part) ==> led == open,
        path.spec_bytes().len() > 0 && (part.len() == 0 || part == seq![46u8]) ==> led == entry,
        part != seq![46u8, 46u8] ==> later == open,
{
    let a = path.spec_bytes();
    let parts = crate::bytes::pieces(a, 47);
    pieces_continue(a, part, 47);
    pieces_continue(a, name, 47);
    pieces_continue(whole.spec_bytes(), name, 47);
    let with_part = crate::bytes::pieces(whole.spec_bytes(), 47);
    let with_name = crate::bytes::pieces(named.spec_bytes(), 47);
    let with_both = crate::bytes::pieces(longer.spec_bytes(), 47);
    let n = parts.len() as int;
    assert(with_part[n] == part);
    assert(with_name[n] == name);
    assert(with_both[n] == part);
    assert(with_both[n + 1] == name);
    assert(forall|i: int|
        0 <= i < n ==> #[trigger] parts[i] == with_part[i] && parts[i] == with_name[i] && parts[i]
            == with_both[i]);
    assert(forall|i: int| 0 <= i < n ==> #[trigger] with_part[i] == parts[i]);
    assert(forall|i: int| 0 <= i < n ==> #[trigger] with_name[i] == parts[i]);
    assert(forall|i: int| 0 <= i < n ==> #[trigger] with_both[i] == parts[i]);
    if a.len() == 0 {
        assert(parts =~= seq![Seq::<u8>::empty()]);
        assert(parts[0].len() == 0);
    } else {
        assert(whole.spec_bytes()[0] == a[0]);
        assert(named.spec_bytes()[0] == a[0]);
        assert(longer.spec_bytes()[0] == a[0]);
    }
    assert(seq![46u8, 46u8].len() == 2);
}

} // verus!
