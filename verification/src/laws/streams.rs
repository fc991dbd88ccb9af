//! Laws of how messages are framed, and of the channels that carry them.

use vstd::prelude::*;
use vstd::string::*;

use crate::channels::{
    too_slow, InputEnd, Next, ReaderEnd, SessionChannels, WtChannelQueue,
};
use crate::protocol::{Envelope, ErrorCode, Message};
use crate::wire::{
    decode_message, decode_varint, encode_message, encode_varint, varint_bytes, WireError,
};
use crate::ws::{refusal, ws_message, WsInput, WsStep};

verus! {

/// Whether an envelope tells of an error, as an answer to nothing that was asked.
pub open spec fn tells(r: Envelope, code: ErrorCode, text: Seq<char>, retryable: bool) -> bool {
    &&& r.request_id == 0
    &&& r.server_id@.len() == 0
    &&& r.shell_id@.len() == 0
    &&& r.message matches Some(Message::Error { code: c, human_message, retryable: again })
    &&& c == code
    &&& human_message@ == text
    &&& again == retryable
}

/// What was framed is read back: the channel and the payload, and nothing that is longer
/// than agreed is framed.
pub proof fn messages_read_back(
    channel: u64,
    payload: &[u8],
    max: u32,
    sent: Result<Vec<u8>, WireError>,
    data: &[u8],
    read: Result<(u64, Vec<u8>), WireError>,
    stepped: WsStep,
    input: WsInput,
)
    requires
        call_ensures(encode_message, (channel, payload, max), sent),
        sent matches Ok(out) ==> data@ == out@,
        call_ensures(decode_message, (data, max), read),
        input matches WsInput::Binary(bytes) && bytes@ == data@,
        call_ensures(ws_message, (input, max), stepped),
    ensures
        sent is Ok <==> payload@.len() <= max,
        sent matches Err(e) ==> e == (WireError::FrameTooLarge {
            len: payload@.len() as u64,
            max,
        }),
        sent is Ok ==> {
            &&& read matches Ok((c, p))
            &&& c == channel
            &&& p@ == payload@
            &&& stepped matches WsStep::Dispatch { channel: d, payload: q }
            &&& d == channel
            &&& q@ == payload@
        },
{
    if payload@.len() <= max {
        crate::wire::message_reads_back(channel, payload@, max);
    }
}

/// A message of a low channel is its number in one byte, the payload's length in four,
/// the most significant first, and the payload.
pub proof fn messages_are_framed(
    channel: u64,
    payload: &[u8],
    max: u32,
    sent: Result<Vec<u8>, WireError>,
)
    requires
        call_ensures(encode_message, (channel, payload, max), sent),
        payload@.len() <= max,
        channel < 128,
    ensures
        sent matches Ok(out) && out@.len() == 5 + payload@.len() && out@[0] == channel && out@[1]
            as int == payload@.len() / 0x100_0000 && out@[2] as int == payload@.len() / 0x1_0000
            % 0x100 && out@[3] as int == payload@.len() / 0x100 % 0x100 && out@[4] as int
            == payload@.len() % 0x100 && out@.skip(5) == payload@,
{
    let out = sent->Ok_0;
    assert(out@.skip(5) =~= payload@);
}

/// A frame that is longer than the reader agreed to is refused for its length; one that
/// is followed by more, or cut short, for not being one frame.
pub proof fn other_lengths_are_refused(
    channel: u64,
    payload: &[u8],
    max: u32,
    sent: Vec<u8>,
    agreed: u32,
    exact: &[u8],
    longer: &[u8],
    shorter: &[u8],
    over: Result<(u64, Vec<u8>), WireError>,
    more: Result<(u64, Vec<u8>), WireError>,
    less: Result<(u64, Vec<u8>), WireError>,
    extra: Seq<u8>,
)
    requires
        call_ensures(encode_message, (channel, payload, max), Ok::<Vec<u8>, WireError>(sent)),
        exact@ == sent@,
        agreed < payload@.len(),
        call_ensures(decode_message, (exact, agreed), over),
        extra.len() > 0,
        longer@ == sent@ + extra,
        call_ensures(decode_message, (longer, max), more),
        payload@.len() > 0,
        shorter@ == sent@.drop_last(),
        call_ensures(decode_message, (shorter, max), less),
    ensures
        over matches Err(e) && e == (WireError::FrameTooLarge {
            len: payload@.len() as u64,
            max: agreed,
        }),
        more matches Err(e) && e == WireError::NotExactlyOneFrame,
        less matches Err(e) && e == WireError::NotExactlyOneFrame,
{
    crate::wire::trailing_bytes_are_refused(channel, payload@, extra, max);
    let prefix = varint_bytes(channel as nat);
    let frame = crate::wire::frame_bytes(payload@);
    crate::wire::varint_reads_back(channel, frame);
    crate::wire::varint_reads_back(channel, frame.drop_last());
    assert((prefix + frame).skip(prefix.len() as int) =~= frame);
    assert(sent@.drop_last() =~= prefix + frame.drop_last());
    assert((prefix + frame.drop_last()).skip(prefix.len() as int) =~= frame.drop_last());
    assert(frame.take(4) =~= crate::bytes::be32(payload@.len()));
    assert(frame.drop_last().take(4) =~= crate::bytes::be32(payload@.len()));
    crate::bytes::be32_reads_back(payload@.len());
}

/// A number that was written in its variable-length form is read back, whatever follows;
/// a number below a hundred and twenty-eight is written in one byte.
pub proof fn numbers_read_back(
    out: &mut Vec<u8>,
    v: u64,
    rest: Seq<u8>,
    buf: &[u8],
    r: Option<(u64, usize)>,
)
    requires
        old(out)@.len() == 0,
        call_ensures(encode_varint, (v, out), ()),
        buf@ == final(out)@ + rest,
        call_ensures(decode_varint, (buf,), r),
    ensures
        r matches Some((read, used)) && read == v && used == final(out)@.len() && used <= 10,
        v < 128 ==> final(out)@ == seq![v as u8],
        v >= 128 ==> final(out)@.len() > 1 && final(out)@[0] as int == v % 128 + 128,
{
    crate::wire::varint_reads_back(v, rest);
    assert(final(out)@ =~= varint_bytes(v as nat));
    if v >= 128 {
        assert(varint_bytes(v as nat / 128).len() >= 1);
    }
}

/// A prefix that does not end is no number: where its bytes run out, or after ten.
pub proof fn endless_numbers_are_refused(buf: &[u8], r: Option<(u64, usize)>)
    requires
        call_ensures(decode_varint, (buf,), r),
    ensures
        r is None <==> forall|i: int| 0 <= i < 10 && i < buf@.len() ==> #[trigger] buf@[i] >= 128,
        r matches Some((_, used)) ==> 0 < used <= 10 && buf@[used - 1] < 128 && forall|i: int|
            0 <= i < used - 1 ==> #[trigger] buf@[i] >= 128,
{
    number_ends(buf@, 10);
}

proof fn number_ends(buf: Seq<u8>, budget: nat)
    ensures
        crate::wire::varint_read(buf, budget) is None <==> forall|i: int|
            0 <= i < budget && i < buf.len() ==> #[trigger] buf[i] >= 128,
        crate::wire::varint_read(buf, budget) matches Some((_, used)) ==> 0 < used <= budget && used
            <= buf.len() && buf[used - 1] < 128 && forall|i: int|
            0 <= i < used - 1 ==> #[trigger] buf[i] >= 128,
    decreases budget,
{
    if budget > 0 && buf.len() > 0 && buf[0] >= 128 {
        let tail = buf.drop_first();
        number_ends(tail, (budget - 1) as nat);
        assert forall|i: int| 0 <= i < tail.len() implies tail[i] == buf[i + 1] by {}
        if forall|i: int| 0 <= i < budget && i < buf.len() ==> #[trigger] buf[i] >= 128 {
            assert forall|i: int| 0 <= i < budget - 1 && i < tail.len() implies #[trigger] tail[i]
                >= 128 by {
                assert(buf[i + 1] >= 128);
            }
        }
        if forall|i: int| 0 <= i < budget - 1 && i < tail.len() ==> #[trigger] tail[i] >= 128 {
            assert forall|i: int| 0 <= i < budget && i < buf.len() implies #[trigger] buf[i]
                >= 128 by {
                if i > 0 {
                    assert(tail[i - 1] >= 128);
                }
            }
        }
        match crate::wire::varint_read(tail, (budget - 1) as nat) {
            Some((_, used)) => {
                assert(buf[used as int] == tail[used - 1]);
                assert forall|i: int| 0 <= i < used implies #[trigger] buf[i] >= 128 by {
                    if i > 0 {
                        assert(tail[i - 1] >= 128);
                    }
                }
            },
            None => {},
        }
    }
}

/// The socket's own messages carry nothing: closing closes, the rest is passed over; and
/// a message that is no frame ends the connection with a text that says why.
pub proof fn socket_messages_are_told_apart(
    input: WsInput,
    max: u32,
    r: WsStep,
    data: &[u8],
    read: Result<(u64, Vec<u8>), WireError>,
)
    requires
        call_ensures(ws_message, (input, max), r),
        input matches WsInput::Binary(bytes) ==> data@ == bytes@,
        call_ensures(decode_message, (data, max), read),
    ensures
        input is Close <==> r is Close,
        input is Other <==> r is Ignore,
        input is Binary && read is Err <==> r is Refuse,
        input is Binary && read is Ok <==> r is Dispatch,
        input is Binary && read == Err::<(u64, Vec<u8>), WireError>(WireError::BadVarint) ==> (
        r matches WsStep::Refuse { text } && text@
            == "truncated or oversized varint channel prefix"@),
        input is Binary && read == Err::<(u64, Vec<u8>), WireError>(
            WireError::NotExactlyOneFrame,
        ) ==> (r matches WsStep::Refuse { text } && text@
            == "websocket message did not contain exactly one frame"@),
{
}

/// A peer whose message was refused is told the text, as an answer to nothing, and that
/// it need not try again.
pub proof fn refused_peers_are_told(text: &str, r: Envelope)
    requires
        call_ensures(refusal, (text,), r),
    ensures
        tells(r, ErrorCode::ErrFrameTooLarge, text@, false),
{
}

/// Frames leave a queue in the order in which they came.
pub proof fn frames_leave_in_order(
    queue: &mut WtChannelQueue,
    then_queue: &mut WtChannelQueue,
    frame: Vec<u8>,
    r: Next,
)
    requires
        call_ensures(WtChannelQueue::push, (queue, frame), ()),
        !old(queue)@.closing,
        old(queue)@.frames.len() < old(queue)@.message_cap,
        crate::channels::total(old(queue)@.frames) + frame@.len() <= old(queue)@.byte_cap,
        old(then_queue)@ == final(queue)@,
        call_ensures(WtChannelQueue::next, (then_queue,), r),
    ensures
        final(queue)@.frames == old(queue)@.frames.push(frame@),
        !final(queue)@.closing,
        old(queue)@.frames.len() == 0
            ==> (r matches Next::Frame(f) && f@ == frame@ && final(then_queue)@.frames.len() == 0),
        old(queue)@.frames.len() > 0 ==> (r matches Next::Frame(f) && f@ == old(queue)@.frames[0]
            && final(then_queue)@.frames == old(queue)@.frames.skip(1).push(frame@)),
{
    assert(old(queue)@.frames.push(frame@).skip(1) =~= if old(queue)@.frames.len() > 0 {
        old(queue)@.frames.skip(1).push(frame@)
    } else {
        Seq::empty()
    });
}

/// A new queue takes a hundred and twenty-eight frames and a mebibyte, and one with
/// limits of its own those.
pub proof fn queues_have_limits(
    overload: Vec<u8>,
    usual: WtChannelQueue,
    messages: usize,
    bytes: usize,
    limited: WtChannelQueue,
)
    requires
        call_ensures(WtChannelQueue::new, (overload,), usual),
        call_ensures(WtChannelQueue::with_limits, (overload, messages, bytes), limited),
    ensures
        usual@.frames.len() == 0 && !usual@.closing,
        usual@.message_cap == 128,
        usual@.byte_cap == 1_048_576,
        usual@.overload_frame == overload@,
        limited@.frames.len() == 0 && !limited@.closing,
        limited@.message_cap == messages,
        limited@.byte_cap == bytes,
        limited@.overload_frame == overload@,
{
}

/// A queue without room for a frame drops all that waits, hands out one last frame that
/// says so, and is finished.
pub proof fn slow_readers_are_cut_off(
    queue: &mut WtChannelQueue,
    frame: Vec<u8>,
    second: &mut WtChannelQueue,
    last: Next,
    third: &mut WtChannelQueue,
    end: Next,
)
    requires
        call_ensures(WtChannelQueue::push, (queue, frame), ()),
        !old(queue)@.closing,
        old(queue)@.frames.len() >= old(queue)@.message_cap || crate::channels::total(
            old(queue)@.frames,
        ) + frame@.len() > old(queue)@.byte_cap,
        old(second)@ == final(queue)@,
        call_ensures(WtChannelQueue::next, (second,), last),
        old(third)@ == final(second)@,
        call_ensures(WtChannelQueue::next, (third,), end),
    ensures
        last matches Next::Frame(f) && f@ == old(queue)@.overload_frame,
        end == Next::Finished,
{
}

/// A closed queue takes nothing more, but still hands out what waits; an empty one
/// finishes where it is closed, and waits where it is not.
pub proof fn closed_queues_drain(
    queue: &mut WtChannelQueue,
    second: &mut WtChannelQueue,
    frame: Vec<u8>,
    third: &mut WtChannelQueue,
    r: Next,
    open: &mut WtChannelQueue,
    waits: Next,
)
    requires
        call_ensures(WtChannelQueue::close, (queue,), ()),
        old(second)@ == final(queue)@,
        call_ensures(WtChannelQueue::push, (second, frame), ()),
        old(third)@ == final(second)@,
        call_ensures(WtChannelQueue::next, (third,), r),
        old(open)@.frames.len() == 0,
        !old(open)@.closing,
        call_ensures(WtChannelQueue::next, (open,), waits),
    ensures
        final(second)@.frames == old(queue)@.frames,
        old(queue)@.frames.len() == 0 ==> r == Next::Finished,
        old(queue)@.frames.len() > 0 ==> (r matches Next::Frame(f) && f@ == old(queue)@.frames[0]),
        waits == Next::Wait,
{
}

/// Channels are numbered one after the other from zero, each with an empty queue of the
/// usual limits, and the others stay as they are.
pub proof fn channels_are_numbered(
    overload: Vec<u8>,
    fresh: SessionChannels,
    session: &mut SessionChannels,
    r: Option<u64>,
    other: u64,
)
    requires
        call_ensures(SessionChannels::new, (overload,), fresh),
        call_ensures(SessionChannels::register, (session,), r),
    ensures
        fresh@.next_channel == 0,
        fresh@.queues.dom() == Set::<u64>::empty(),
        fresh@.overload_frame == overload@,
        r is Some <==> old(session)@.next_channel < u64::MAX,
        r matches Some(c) ==> {
            &&& c == old(session)@.next_channel
            &&& !old(session)@.queues.dom().contains(c)
            &&& final(session)@.next_channel == c + 1
            &&& final(session)@.queues.dom().contains(c)
            &&& final(session)@.queues[c].frames.len() == 0
            &&& !final(session)@.queues[c].closing
            &&& final(session)@.queues[c].message_cap == 128
            &&& final(session)@.queues[c].byte_cap == 1_048_576
            &&& final(session)@.queues[c].overload_frame == old(session)@.overload_frame
            &&& other != c ==> (final(session)@.queues.dom().contains(other)
                <==> old(session)@.queues.dom().contains(other))
            &&& other != c ==> final(session)@.queues[other] == old(session)@.queues[other]
            &&& final(session)@.overload_frame == old(session)@.overload_frame
        },
        r is None ==> final(session)@ == old(session)@,
{
}

/// What is written to a channel leaves it, and it alone: a frame that was handed to a
/// channel on which nothing waits is the next that its writer gets, and no other channel
/// changes.
pub proof fn frames_reach_their_channel(
    session: &mut SessionChannels,
    channel: u64,
    frame: Vec<u8>,
    second: &mut SessionChannels,
    r: Next,
    other: u64,
)
    requires
        call_ensures(SessionChannels::frame, (session, channel, frame), ()),
        old(second)@ == final(session)@,
        call_ensures(SessionChannels::next, (second, channel), r),
        other != channel,
    ensures
        final(second)@.queues[other] == old(session)@.queues[other],
        final(second)@.queues.dom() == old(session)@.queues.dom(),
        !old(session)@.queues.dom().contains(channel) ==> r == Next::Finished,
        ({
            let queue = old(session)@.queues[channel];
            old(session)@.queues.dom().contains(channel) && !queue.closing && queue.frames.len()
                == 0 && queue.message_cap > 0 && frame@.len() <= queue.byte_cap ==> (
            r matches Next::Frame(f) && f@ == frame@
                && final(second)@.queues[channel].frames.len() == 0)
        }),
{
    assert(final(second)@.queues.dom() =~= old(session)@.queues.dom());
    assert(crate::channels::total(Seq::empty()) == 0);
    if old(session)@.queues[channel].frames.len() == 0 {
        assert(old(session)@.queues[channel].frames =~= Seq::empty());
    }
}

/// The end of the first channel's input ends the session; that of another ends only what
/// is attached to it, and lets its writer finish.
pub proof fn the_first_channel_owns_the_session(
    session: &mut SessionChannels,
    channel: u64,
    end: InputEnd,
    r: (bool, ReaderEnd),
    other: u64,
)
    requires
        call_ensures(SessionChannels::reader_ended, (session, channel, end), r),
        other != channel,
    ensures
        channel == 0 ==> r == (true, ReaderEnd::CloseSession),
        channel != 0 && end is Finished ==> r == (false, ReaderEnd::DetachChannel),
        channel != 0 && end is Refused ==> r == (true, ReaderEnd::DetachChannel),
        channel != 0 && old(session)@.queues.dom().contains(channel)
            ==> final(session)@.queues[channel].closing
            && final(session)@.queues[channel].frames == old(session)@.queues[channel].frames,
        final(session)@.queues[other] == old(session)@.queues[other],
        final(session)@.queues.dom() == old(session)@.queues.dom(),
        final(session)@.next_channel == old(session)@.next_channel,
        final(session)@.overload_frame == old(session)@.overload_frame,
{
    assert(final(session)@.queues.dom() =~= old(session)@.queues.dom());
}

/// A channel whose writer is done is forgotten, the others are not, and its number is not
/// given out again.
pub proof fn finished_channels_are_forgotten(
    session: &mut SessionChannels,
    channel: u64,
    other: u64,
)
    requires
        call_ensures(SessionChannels::writer_finished, (session, channel), ()),
        other != channel,
    ensures
        !final(session)@.queues.dom().contains(channel),
        final(session)@.queues.dom().contains(other) <==> old(session)@.queues.dom().contains(
            other,
        ),
        final(session)@.queues[other] == old(session)@.queues[other],
        final(session)@.next_channel == old(session)@.next_channel,
{
}

/// With the session every channel closes, and still hands out what waits.
pub proof fn finished_sessions_close_every_channel(session: &mut SessionChannels, channel: u64)
    requires
        call_ensures(SessionChannels::finish, (session,), ()),
    ensures
        final(session)@.queues.dom().contains(channel) <==> old(session)@.queues.dom().contains(
            channel,
        ),
        old(session)@.queues.dom().contains(channel) ==> final(session)@.queues[channel].closing
            && final(session)@.queues[channel].frames == old(session)@.queues[channel].frames,
        final(session)@.next_channel == old(session)@.next_channel,
{
}

/// A reader that cannot keep up is told so, and that trying again may help.
pub proof fn too_slow_is_said(r: Envelope)
    requires
        call_ensures(too_slow, (), r),
    ensures
        tells(
            r,
            ErrorCode::ErrTooSlow,
            "attachment output exceeded its bounded transport queue"@,
            true,
        ),
{
}

/// What is wrong with a message is told in words.
pub proof fn framing_errors_are_told(e: &WireError, r: String)
    requires
        call_ensures(WireError::text, (e,), r),
    ensures
        e is BadVarint ==> r@ == "truncated or oversized varint channel prefix"@,
        e is NotExactlyOneFrame ==> r@ == "websocket message did not contain exactly one frame"@,
        e matches WireError::FrameTooLarge { len, max } ==> r@ == "frame of "@
            + crate::text::decimal_nat(len as nat) + " bytes exceeds the limit of "@
            + crate::text::decimal_nat(max as nat),
{
}

} // verus!
