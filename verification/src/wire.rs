//! Message framing: a channel number as a variable-length integer, then one
//! length-prefixed frame.

use vstd::prelude::*;

use crate::bytes::{append_bytes, be32, be32_reads_back, be32_value, copy_range, push_be32, read_be32};

verus! {

/// Why a message could not be framed or parsed.
#[derive(Debug, Clone, Copy, PartialEq, Eq, Structural)]
pub enum WireError {
    /// Truncated or oversized channel prefix.
    BadVarint,
    /// The frame is longer than the negotiated maximum.
    FrameTooLarge { len: u64, max: u32 },
    /// The message did not contain exactly one frame.
    NotExactlyOneFrame,
}

/// How many bytes a channel prefix may take.
pub const VARINT_BYTES_MAX: usize = 10;

/// How many bytes the length prefix of a frame takes.
pub const FRAME_PREFIX_BYTES: usize = 4;

/// The unsigned LEB128 form of `v`: seven bits a byte, least significant group
/// first, the top bit set on every byte but the last.
pub open spec fn varint_bytes(v: nat) -> Seq<u8>
    decreases v,
{
    if v < 128 {
        seq![v as u8]
    } else {
        seq![(v % 128 + 128) as u8] + varint_bytes(v / 128)
    }
}

/// The number that starts `buf` and how many bytes it takes, or nothing where
/// no byte with a clear top bit is among the first `budget`.
pub open spec fn varint_read(buf: Seq<u8>, budget: nat) -> Option<(nat, nat)>
    decreases budget,
{
    if budget == 0 || buf.len() == 0 {
        None
    } else if buf[0] < 128 {
        Some((buf[0] as nat, 1))
    } else {
        match varint_read(buf.drop_first(), (budget - 1) as nat) {
            Some((v, n)) => Some(((buf[0] - 128 + 128 * v) as nat, n + 1)),
            None => None,
        }
    }
}

/// What a channel prefix decodes to: the number it spells, reduced to 64 bits,
/// and its length.
pub open spec fn varint_decoded(buf: Seq<u8>) -> Option<(u64, usize)> {
    match varint_read(buf, VARINT_BYTES_MAX as nat) {
        Some((v, n)) => Some(((v % 0x1_0000_0000_0000_0000) as u64, n as usize)),
        None => None,
    }
}

/// Appends the variable-length form of `v` to `out`.
pub fn encode_varint(v: u64, out: &mut Vec<u8>)
    ensures
        final(out)@ == old(out)@ + varint_bytes(v as nat),
{
    let mut rest: u64 = v;
    let ghost before = out@;
    while rest >= 128
        invariant
            out@ + varint_bytes(rest as nat) == before + varint_bytes(v as nat),
        decreases rest,
    {
        let ghost whole = varint_bytes(rest as nat);
        let ghost done = out@;
        let byte: u8 = (rest % 128) as u8 + 128;
        rest = rest / 128;
        out.push(byte);
        assert(out@ + varint_bytes(rest as nat) =~= done + whole);
    }
    out.push(rest as u8);
    assert(out@ =~= before + varint_bytes(v as nat));
}

/// Powers of 128, up to the ninth.
spec fn pow128(n: nat) -> nat
    decreases n,
{
    if n == 0 {
        1
    } else {
        128 * pow128((n - 1) as nat)
    }
}

/// What is read of `buf` given that `acc` was read of the bytes before `at`.
spec fn resumed(buf: Seq<u8>, at: nat, acc: nat, scale: nat) -> Option<(nat, nat)> {
    match varint_read(buf.skip(at as int), (10 - at) as nat) {
        Some((v, n)) => Some((acc + scale * v, at + n)),
        None => None,
    }
}

proof fn last_byte_wraps(acc: nat, b: nat)
    requires
        acc < 0x8000_0000_0000_0000,
    ensures
        (acc + 0x8000_0000_0000_0000 * b) % 0x1_0000_0000_0000_0000 == acc + 0x8000_0000_0000_0000 * (
        b % 2),
{
    let half: nat = 0x8000_0000_0000_0000;
    let whole: nat = 0x1_0000_0000_0000_0000;
    let q = b / 2;
    let r = b % 2;
    assert(b == 2 * q + r);
    assert(half * b == whole * q + half * r);
    assert(acc + half * r < whole);
    vstd::arithmetic::div_mod::lemma_mod_multiples_vanish(
        q as int,
        (acc + half * r) as int,
        whole as int,
    );
}

/// Reads the variable-length number at the start of `buf`: the number and how
/// many bytes it took. `None` where the number does not end within the buffer
/// or within the ten bytes that 64 bits can take.
pub fn decode_varint(buf: &[u8]) -> (r: Option<(u64, usize)>)
    ensures
        r == varint_decoded(buf@),
        r matches Some((_, used)) ==> 0 < used <= buf.len() && used <= VARINT_BYTES_MAX,
{
    let mut value: u64 = 0;
    let mut scale: u64 = 1;
    let mut i: usize = 0;
    assert(buf@.skip(0) =~= buf@);
    while i < buf.len()
        invariant
            i <= buf.len(),
            i <= 10,
            i < 10 ==> scale as nat == pow128(i as nat),
            i < 10 ==> value < scale,
            i < 10 ==> varint_read(buf@, 10) == resumed(buf@, i as nat, value as nat, scale as nat),
            i == 10 ==> varint_read(buf@, 10) is None,
        decreases buf.len() - i,
    {
        if i == 10 {
            return None;
        }
        let byte: u8 = buf[i];
        let ghost tail = buf@.skip(i as int);
        assert(tail[0] == byte);
        assert(tail.drop_first() =~= buf@.skip(i + 1));
        proof {
            reveal_with_fuel(pow128, 11);
            assert(i == 9 ==> scale == 0x8000_0000_0000_0000);
            assert(i < 9 ==> scale <= 0x100_0000_0000_0000);
        }
        let low: u64 = (byte % 128) as u64;
        if i == 9 {
            if byte < 128 {
                proof {
                    last_byte_wraps(value as nat, low as nat);
                }
                let ghost exact = value as nat + scale as nat * (low as nat);
                value = value + 0x8000_0000_0000_0000 * (low % 2);
                assert(varint_read(buf@, 10) == Some((exact, 10nat)));
                return Some((value, 10));
            }
            assert(varint_read(tail.drop_first(), 0) is None);
            i = i + 1;
        } else {
            assert(scale * low <= scale * 127 <= 0x7f00_0000_0000_0000) by (nonlinear_arith)
                requires
                    low < 128,
                    scale <= 0x100_0000_0000_0000,
            ;
            let ghost before = value;
            let ghost scale_before = scale;
            value = value + scale * low;
            if byte < 128 {
                assert(varint_read(tail, (10 - i) as nat) == Some((low as nat, 1nat)));
                assert(value < 0x1_0000_0000_0000_0000);
                assert(value as nat % 0x1_0000_0000_0000_0000 == value as nat);
                return Some((value, i + 1));
            }
            scale = scale * 128;
            i = i + 1;
            proof {
                assert(scale_before * low + scale_before <= scale) by (nonlinear_arith)
                    requires
                        low < 128,
                        scale == scale_before * 128,
                ;
                match varint_read(buf@.skip(i as int), (10 - i) as nat) {
                    Some((v, n)) => {
                        assert(scale_before * (low + 128 * v) == scale_before * low + scale * v)
                            by (nonlinear_arith)
                            requires
                                scale == scale_before * 128,
                        ;
                    },
                    None => {},
                }
            }
        }
    }
    if i < 10 {
        assert(buf@.skip(i as int).len() == 0);
    }
    None
}

proof fn varint_reads_back_within(v: nat, rest: Seq<u8>, budget: nat)
    requires
        0 < budget,
        v < pow128(budget),
    ensures
        varint_read(varint_bytes(v) + rest, budget) == Some((v, varint_bytes(v).len())),
        0 < varint_bytes(v).len() <= budget,
    decreases v,
{
    let whole = varint_bytes(v) + rest;
    if v < 128 {
        assert(whole[0] == v as u8);
    } else {
        assert(whole[0] == (v % 128 + 128) as u8);
        assert(whole.drop_first() =~= varint_bytes(v / 128) + rest);
        assert(budget > 1) by {
            assert(pow128(1) == 128) by {
                reveal_with_fuel(pow128, 2);
            }
        }
        varint_reads_back_within(v / 128, rest, (budget - 1) as nat);
    }
}

/// Whatever follows it, an encoded channel number decodes to itself, and
/// exactly its own bytes are consumed.
pub proof fn varint_reads_back(v: u64, rest: Seq<u8>)
    ensures
        varint_decoded(varint_bytes(v as nat) + rest) == Some(
            (v, varint_bytes(v as nat).len() as usize),
        ),
        0 < varint_bytes(v as nat).len() <= VARINT_BYTES_MAX,
{
    assert(v < pow128(10)) by {
        reveal_with_fuel(pow128, 11);
    }
    varint_reads_back_within(v as nat, rest, 10);
}

/// One frame: the payload's length in four bytes, then the payload.
pub open spec fn frame_bytes(payload: Seq<u8>) -> Seq<u8> {
    be32(payload.len()) + payload
}

/// Builds one binary message: the channel number, then one frame that holds
/// `payload`.
pub fn encode_message(channel: u64, payload: &[u8], max_frame_bytes: u32) -> (r: Result<
    Vec<u8>,
    WireError,
>)
    ensures
        payload@.len() <= max_frame_bytes <==> r is Ok,
        r matches Ok(out) ==> out@ == varint_bytes(channel as nat) + frame_bytes(payload@),
        r matches Err(e) ==> e == (WireError::FrameTooLarge {
            len: payload@.len() as u64,
            max: max_frame_bytes,
        }),
{
    let len: usize = payload.len();
    if len as u64 > max_frame_bytes as u64 {
        return Err(WireError::FrameTooLarge { len: len as u64, max: max_frame_bytes });
    }
    let mut out: Vec<u8> = Vec::new();
    encode_varint(channel, &mut out);
    push_be32(&mut out, len as u32);
    append_bytes(&mut out, payload);
    assert(out@ =~= varint_bytes(channel as nat) + frame_bytes(payload@));
    Ok(out)
}

/// What a binary message holds: the channel number and the payload of its one
/// frame.
pub open spec fn message_decoded(data: Seq<u8>, max_frame_bytes: u32) -> Result<
    (u64, Seq<u8>),
    WireError,
> {
    match varint_decoded(data) {
        None => Err(WireError::BadVarint),
        Some((channel, used)) => {
            let frame = data.skip(used as int);
            if frame.len() < FRAME_PREFIX_BYTES {
                Err(WireError::NotExactlyOneFrame)
            } else {
                let len = be32_value(frame.take(4));
                if len > max_frame_bytes {
                    Err(WireError::FrameTooLarge { len: len as u64, max: max_frame_bytes })
                } else if frame.len() != FRAME_PREFIX_BYTES + len {
                    Err(WireError::NotExactlyOneFrame)
                } else {
                    Ok((channel, frame.skip(4)))
                }
            }
        },
    }
}

/// Parses one binary message into its channel number and its frame's payload.
pub fn decode_message(data: &[u8], max_frame_bytes: u32) -> (r: Result<(u64, Vec<u8>), WireError>)
    ensures
        r is Ok <==> message_decoded(data@, max_frame_bytes) is Ok,
        r matches Ok((channel, payload)) ==> message_decoded(data@, max_frame_bytes) == Ok::<
            (u64, Seq<u8>),
            WireError,
        >((channel, payload@)),
        r matches Err(e) ==> message_decoded(data@, max_frame_bytes) == Err::<
            (u64, Seq<u8>),
            WireError,
        >(e),
{
    let (channel, used): (u64, usize) = match decode_varint(data) {
        Some(prefix) => prefix,
        None => {
            return Err(WireError::BadVarint);
        },
    };
    let ghost frame = data@.skip(used as int);
    if data.len() - used < FRAME_PREFIX_BYTES {
        return Err(WireError::NotExactlyOneFrame);
    }
    let len: u32 = read_be32(data, used);
    assert(data@.subrange(used as int, used + 4) =~= frame.take(4));
    if len > max_frame_bytes {
        return Err(WireError::FrameTooLarge { len: len as u64, max: max_frame_bytes });
    }
    if (data.len() - used - FRAME_PREFIX_BYTES) as u64 != len as u64 {
        return Err(WireError::NotExactlyOneFrame);
    }
    let payload: Vec<u8> = copy_range(data, used + FRAME_PREFIX_BYTES, data.len());
    assert(payload@ =~= frame.skip(4));
    Ok((channel, payload))
}

/// A message that was built decodes to the channel and the payload that it was
/// built from.
pub proof fn message_reads_back(channel: u64, payload: Seq<u8>, max_frame_bytes: u32)
    requires
        payload.len() <= max_frame_bytes,
    ensures
        message_decoded(varint_bytes(channel as nat) + frame_bytes(payload), max_frame_bytes) == Ok::<
            (u64, Seq<u8>),
            WireError,
        >((channel, payload)),
{
    let prefix = varint_bytes(channel as nat);
    let data = prefix + frame_bytes(payload);
    varint_reads_back(channel, frame_bytes(payload));
    let frame = data.skip(prefix.len() as int);
    assert(frame =~= frame_bytes(payload));
    assert(frame.take(4) =~= be32(payload.len()));
    be32_reads_back(payload.len());
    assert(frame.skip(4) =~= payload);
}

/// Bytes after the one frame of a message make it unreadable.
pub proof fn trailing_bytes_are_refused(
    channel: u64,
    payload: Seq<u8>,
    extra: Seq<u8>,
    max_frame_bytes: u32,
)
    requires
        payload.len() <= max_frame_bytes,
        extra.len() > 0,
    ensures
        message_decoded(
            varint_bytes(channel as nat) + frame_bytes(payload) + extra,
            max_frame_bytes,
        ) == Err::<(u64, Seq<u8>), WireError>(WireError::NotExactlyOneFrame),
{
    let prefix = varint_bytes(channel as nat);
    let data = prefix + frame_bytes(payload) + extra;
    assert(data =~= prefix + (frame_bytes(payload) + extra));
    varint_reads_back(channel, frame_bytes(payload) + extra);
    let frame = data.skip(prefix.len() as int);
    assert(frame =~= frame_bytes(payload) + extra);
    assert(frame.take(4) =~= be32(payload.len()));
    be32_reads_back(payload.len());
}

} // verus!
