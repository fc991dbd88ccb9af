//! The channels of a session. Each has a bounded queue of its own for what is
//! written to it, so that a blocked one delays no other.

use std::collections::VecDeque;

use vstd::prelude::*;

use crate::assoc::{
    as_map, empty_is_empty, has_key, lookup, push_is_insert, remove_is_remove, unique,
    update_is_insert,
};
use crate::protocol::{error_envelope, Envelope, ErrorCode};

verus! {

/// The most frames that wait on one channel.
pub const WT_CHANNEL_QUEUE_MESSAGES: usize = 128;

/// The most bytes that wait on one channel.
pub const WT_CHANNEL_QUEUE_BYTES: usize = 1_048_576;

/// What a reader is told that cannot keep up.
pub const TOO_SLOW_TEXT: &'static str = "attachment output exceeded its bounded transport queue";

/// How many bytes frames hold together.
pub open spec fn total(frames: Seq<Seq<u8>>) -> nat
    decreases frames.len(),
{
    if frames.len() == 0 {
        0
    } else {
        total(frames.drop_last()) + frames.last().len()
    }
}

proof fn total_first(frames: Seq<Seq<u8>>)
    requires
        frames.len() > 0,
    ensures
        total(frames) == frames[0].len() + total(frames.skip(1)),
    decreases frames.len(),
{
    if frames.len() > 1 {
        total_first(frames.drop_last());
        assert(frames.skip(1).drop_last() =~= frames.drop_last().skip(1));
        assert(frames.skip(1).last() == frames.last());
    } else {
        assert(frames.skip(1) =~= Seq::empty());
        assert(frames.drop_last() =~= Seq::empty());
    }
}

/// What a queue holds, and its limits.
#[verifier::ext_equal]
pub struct QueueView {
    pub frames: Seq<Seq<u8>>,
    pub closing: bool,
    pub message_cap: nat,
    pub byte_cap: nat,
    pub overload_frame: Seq<u8>,
}

impl QueueView {
    /// Whether what waits is within the limits.
    pub open spec fn within(self) -> bool {
        self.frames.len() <= self.message_cap && total(self.frames) <= self.byte_cap
    }

    /// Whether a frame has no room.
    pub open spec fn is_over(self, frame: Seq<u8>) -> bool {
        self.frames.len() >= self.message_cap || total(self.frames) + frame.len() > self.byte_cap
    }

    /// The queue with one frame more. A queue without room for it drops all that
    /// waits, says so in one last frame, and closes; a closing one takes nothing.
    pub open spec fn pushed(self, frame: Seq<u8>) -> QueueView {
        if self.closing {
            self
        } else if self.is_over(frame) {
            QueueView { frames: seq![self.overload_frame], closing: true, ..self }
        } else {
            QueueView { frames: self.frames.push(frame), ..self }
        }
    }

    /// The queue without its first frame.
    pub open spec fn popped(self) -> QueueView {
        QueueView { frames: self.frames.skip(1), ..self }
    }

    /// The queue that takes nothing more.
    pub open spec fn closed(self) -> QueueView {
        QueueView { closing: true, ..self }
    }
}

/// What a channel's writer does next.
#[derive(Debug, Clone, PartialEq, Eq)]
pub enum Next {
    /// Write a frame.
    Frame(Vec<u8>),
    /// Wait for one.
    Wait,
    /// Finish the stream.
    Finished,
}

/// What waits to be written to one channel.
#[derive(Debug)]
pub struct WtChannelQueue {
    frames: VecDeque<Vec<u8>>,
    bytes: usize,
    closing: bool,
    message_cap: usize,
    byte_cap: usize,
    overload_frame: Vec<u8>,
}

/// Frames as what they hold.
pub open spec fn frame_views(frames: Seq<Vec<u8>>) -> Seq<Seq<u8>> {
    Seq::new(frames.len(), |i: int| frames[i]@)
}

impl View for WtChannelQueue {
    type V = QueueView;

    closed spec fn view(&self) -> QueueView {
        QueueView {
            frames: frame_views(self.frames@),
            closing: self.closing,
            message_cap: self.message_cap as nat,
            byte_cap: self.byte_cap as nat,
            overload_frame: self.overload_frame@,
        }
    }
}

impl WtChannelQueue {
    /// Whether the bytes are counted right, and a queue that still takes frames
    /// is within its limits.
    pub closed spec fn wf(&self) -> bool {
        &&& self.bytes as nat == total(frame_views(self.frames@))
        &&& !self.closing ==> self@.within()
    }

    /// An empty queue with the usual limits.
    pub fn new(overload_frame: Vec<u8>) -> (r: WtChannelQueue)
        ensures
            r.wf(),
            r@ == (QueueView {
                frames: Seq::empty(),
                closing: false,
                message_cap: WT_CHANNEL_QUEUE_MESSAGES as nat,
                byte_cap: WT_CHANNEL_QUEUE_BYTES as nat,
                overload_frame: overload_frame@,
            }),
    {
        WtChannelQueue::with_limits(
            overload_frame,
            WT_CHANNEL_QUEUE_MESSAGES,
            WT_CHANNEL_QUEUE_BYTES,
        )
    }

    /// An empty queue with limits.
    pub fn with_limits(overload_frame: Vec<u8>, message_cap: usize, byte_cap: usize) -> (r:
        WtChannelQueue)
        ensures
            r.wf(),
            r@ == (QueueView {
                frames: Seq::empty(),
                closing: false,
                message_cap: message_cap as nat,
                byte_cap: byte_cap as nat,
                overload_frame: overload_frame@,
            }),
    {
        let r = WtChannelQueue {
            frames: VecDeque::new(),
            bytes: 0,
            closing: false,
            message_cap,
            byte_cap,
            overload_frame,
        };
        assert(frame_views(r.frames@) =~= Seq::empty());
        r
    }

    /// Takes a frame, as [`QueueView::pushed`] says.
    pub fn push(&mut self, frame: Vec<u8>)
        requires
            old(self).wf(),
        ensures
            final(self).wf(),
            final(self)@ == old(self)@.pushed(frame@),
    {
        if self.closing {
            return;
        }
        if self.frames.len() >= self.message_cap || frame.len() > self.byte_cap - self.bytes {
            let last: Vec<u8> = crate::bytes::copy_bytes(self.overload_frame.as_slice());
            self.frames.clear();
            self.bytes = last.len();
            self.frames.push_back(last);
            self.closing = true;
            proof {
                let views = frame_views(self.frames@);
                assert(views =~= seq![self.overload_frame@]);
                assert(views.drop_last() =~= Seq::empty());
                assert(total(views.drop_last()) == 0);
                assert(total(views) == total(views.drop_last()) + views.last().len());
            }
        } else {
            let ghost before = frame_views(self.frames@);
            self.bytes = self.bytes + frame.len();
            self.frames.push_back(frame);
            proof {
                let views = frame_views(self.frames@);
                assert(views =~= before.push(frame@));
                assert(views.drop_last() =~= before);
            }
        }
    }

    /// Takes nothing more; what waits is still handed out.
    pub fn close(&mut self)
        requires
            old(self).wf(),
        ensures
            final(self).wf(),
            final(self)@ == old(self)@.closed(),
    {
        self.closing = true;
    }

    /// Hands out the next frame. A closing queue is finished once it is empty.
    pub fn next(&mut self) -> (r: Next)
        requires
            old(self).wf(),
        ensures
            final(self).wf(),
            old(self)@.frames.len() > 0 ==> (r matches Next::Frame(f) && f@ == old(self)@.frames[0]
                && final(self)@ == old(self)@.popped()),
            old(self)@.frames.len() == 0 ==> final(self)@ == old(self)@ && r == (if old(
                self,
            )@.closing {
                Next::Finished
            } else {
                Next::Wait
            }),
    {
        let ghost before = frame_views(self.frames@);
        match self.frames.pop_front() {
            Some(frame) => {
                proof {
                    total_first(before);
                    assert(frame_views(self.frames@) =~= before.skip(1));
                    assert(before[0] == frame@);
                }
                self.bytes = self.bytes - frame.len();
                Next::Frame(frame)
            },
            None => if self.closing {
                Next::Finished
            } else {
                Next::Wait
            },
        }
    }
}

/// What waits on a channel never exceeds its limits, but for the one frame that
/// says that it did.
pub proof fn backlog_is_bounded(queue: QueueView, frame: Seq<u8>)
    requires
        queue.within() || queue.frames == seq![queue.overload_frame],
    ensures
        queue.pushed(frame).within() || queue.pushed(frame).frames == seq![queue.overload_frame],
{
    if !queue.closing && !queue.is_over(frame) {
        assert(queue.frames.push(frame).drop_last() =~= queue.frames);
    }
}

/// A reader that cannot keep up gets one last frame that says so, and nothing
/// after it.
pub proof fn overload_is_the_last_word(queue: QueueView, frame: Seq<u8>, later: Seq<u8>)
    requires
        !queue.closing,
        queue.is_over(frame),
    ensures
        queue.pushed(frame).frames == seq![queue.overload_frame],
        queue.pushed(frame).pushed(later) == queue.pushed(frame),
        queue.pushed(frame).popped().frames.len() == 0,
        queue.pushed(frame).popped().closing,
{
}

/// The envelope that a reader gets that cannot keep up.
pub fn too_slow() -> (r: Envelope)
    ensures
        r.is_error(0, ErrorCode::ErrTooSlow, TOO_SLOW_TEXT@, true),
{
    error_envelope(0, ErrorCode::ErrTooSlow, TOO_SLOW_TEXT, true)
}

/// What the end of a channel's input leads to.
#[derive(Debug, Clone, Copy, PartialEq, Eq, Structural)]
pub enum ReaderEnd {
    /// The session ends: the first channel owns it.
    CloseSession,
    /// Only what is attached to the channel is released.
    DetachChannel,
}

/// How a channel's input ended.
#[derive(Debug, Clone, Copy, PartialEq, Eq, Structural)]
pub enum InputEnd {
    /// The peer finished it or it broke.
    Finished,
    /// It was no sequence of frames, or a frame ended the session.
    Refused,
}

/// Channels as what waits on them.
pub open spec fn queue_views(entries: Seq<(u64, WtChannelQueue)>) -> Seq<(u64, QueueView)> {
    Seq::new(entries.len(), |i: int| (entries[i].0, entries[i].1@))
}

/// The channels of a session: what waits on each that still has a writer, and
/// the number of the next.
pub struct SessionChannels {
    next_channel: u64,
    entries: Vec<(u64, WtChannelQueue)>,
    overload_frame: Vec<u8>,
}

/// The channels of a session.
#[verifier::ext_equal]
pub struct ChannelsView {
    pub next_channel: nat,
    pub queues: Map<u64, QueueView>,
    pub overload_frame: Seq<u8>,
}

impl ChannelsView {
    /// Whether every channel was numbered before.
    pub open spec fn numbered(self) -> bool {
        forall|c: u64| #[trigger] self.queues.dom().contains(c) ==> c < self.next_channel
    }

    /// The queue of a new channel.
    pub open spec fn fresh(self) -> QueueView {
        QueueView {
            frames: Seq::empty(),
            closing: false,
            message_cap: WT_CHANNEL_QUEUE_MESSAGES as nat,
            byte_cap: WT_CHANNEL_QUEUE_BYTES as nat,
            overload_frame: self.overload_frame,
        }
    }

    /// The channels with a queue changed, where the channel has one.
    pub open spec fn with(self, channel: u64, queue: QueueView) -> ChannelsView {
        if self.queues.dom().contains(channel) {
            ChannelsView { queues: self.queues.insert(channel, queue), ..self }
        } else {
            self
        }
    }
}

impl View for SessionChannels {
    type V = ChannelsView;

    closed spec fn view(&self) -> ChannelsView {
        ChannelsView {
            next_channel: self.next_channel as nat,
            queues: as_map(queue_views(self.entries@)),
            overload_frame: self.overload_frame@,
        }
    }
}

impl SessionChannels {
    /// Whether no channel occurs twice, each was numbered before, and each queue
    /// is sound.
    pub closed spec fn wf(&self) -> bool {
        &&& unique(queue_views(self.entries@))
        &&& forall|i: int|
            0 <= i < self.entries@.len() ==> (#[trigger] self.entries@[i]).0 < self.next_channel
                && self.entries@[i].1.wf()
    }

    /// Every channel has a number that was given out before, so that none is
    /// given out twice.
    pub proof fn numbers_are_not_reused(&self)
        requires
            self.wf(),
        ensures
            self@.numbered(),
    {
        let views = queue_views(self.entries@);
        assert forall|c: u64| #[trigger] self@.queues.dom().contains(c) implies c
            < self@.next_channel by {
            assert(has_key(views, c));
            let k = crate::assoc::position(views, c);
            assert(self.entries@[k].0 == c);
        }
    }

    /// A session without channels.
    pub fn new(overload_frame: Vec<u8>) -> (r: SessionChannels)
        ensures
            r.wf(),
            r@ == (ChannelsView {
                next_channel: 0,
                queues: Map::empty(),
                overload_frame: overload_frame@,
            }),
    {
        let r = SessionChannels { next_channel: 0, entries: Vec::new(), overload_frame };
        proof {
            empty_is_empty(queue_views(r.entries@));
        }
        r
    }

    fn find(&self, channel: u64) -> (r: Option<usize>)
        requires
            self.wf(),
        ensures
            r matches Some(i) ==> i < self.entries@.len() && self.entries@[i as int].0 == channel
                && self@.queues.dom().contains(channel) && self@.queues[channel]
                == self.entries@[i as int].1@,
            r is None ==> !self@.queues.dom().contains(channel),
    {
        let mut i: usize = 0;
        while i < self.entries.len()
            invariant
                i <= self.entries.len(),
                self.wf(),
                forall|k: int| 0 <= k < i ==> (#[trigger] self.entries@[k]).0 != channel,
            decreases self.entries.len() - i,
        {
            if self.entries[i].0 == channel {
                proof {
                    lookup(queue_views(self.entries@), i as int);
                }
                return Some(i);
            }
            i = i + 1;
        }
        proof {
            let views = queue_views(self.entries@);
            if has_key(views, channel) {
                let k = crate::assoc::position(views, channel);
                assert(self.entries@[k].0 == channel);
            }
        }
        None
    }

    /// Numbers a new channel and gives it an empty queue. Numbers run from zero
    /// and are never used again; none is left after the last.
    pub fn register(&mut self) -> (r: Option<u64>)
        requires
            old(self).wf(),
        ensures
            final(self).wf(),
            r is Some <==> old(self)@.next_channel < u64::MAX,
            r is None ==> final(self)@ == old(self)@,
            r matches Some(c) ==> c == old(self)@.next_channel && !old(self)@.queues.dom().contains(c)
                && final(self)@ == (ChannelsView {
                next_channel: old(self)@.next_channel + 1,
                queues: old(self)@.queues.insert(c, old(self)@.fresh()),
                ..old(self)@
            }),
    {
        let channel: u64 = self.next_channel;
        if channel == u64::MAX {
            return None;
        }
        let ghost before = queue_views(self.entries@);
        proof {
            if has_key(before, channel) {
                let k = crate::assoc::position(before, channel);
                assert(self.entries@[k].0 == channel);
            }
        }
        let queue = WtChannelQueue::new(
            crate::bytes::copy_bytes(self.overload_frame.as_slice()),
        );
        let ghost queue_view = queue@;
        let ghost list = self.entries@;
        self.next_channel = channel + 1;
        self.entries.push((channel, queue));
        proof {
            push_is_insert(before, channel, queue_view);
            assert(queue_views(self.entries@) =~= before.push((channel, queue_view)));
            assert forall|i: int| 0 <= i < self.entries@.len() implies (
            #[trigger] self.entries@[i]).0 < self.next_channel && self.entries@[i].1.wf() by {
                if i < list.len() {
                    assert(self.entries@[i] == list[i]);
                }
            }
        }
        Some(channel)
    }

    /// Hands a frame to a channel's queue; for a channel that is gone it is
    /// dropped.
    pub fn frame(&mut self, channel: u64, frame: Vec<u8>)
        requires
            old(self).wf(),
        ensures
            final(self).wf(),
            final(self)@ == old(self)@.with(channel, old(self)@.queues[channel].pushed(frame@)),
    {
        match self.find(channel) {
            Some(i) => {
                let ghost before = self.entries@;
                let ghost views = queue_views(before);
                self.entries[i].1.push(frame);
                proof {
                    let changed = self.entries@[i as int].1@;
                    update_is_insert(views, i as int, changed);
                    assert(queue_views(self.entries@) =~= views.update(
                        i as int,
                        (views[i as int].0, changed),
                    ));
                    assert forall|k: int| 0 <= k < self.entries@.len() implies (
                    #[trigger] self.entries@[k]).0 < self.next_channel
                        && self.entries@[k].1.wf() by {
                        assert(before[k].0 < self.next_channel);
                    }
                }
            },
            None => {},
        }
    }

    /// Hands out what a channel's writer does next; the writer of a channel that
    /// is gone finishes.
    pub fn next(&mut self, channel: u64) -> (r: Next)
        requires
            old(self).wf(),
        ensures
            final(self).wf(),
            !old(self)@.queues.dom().contains(channel) ==> r == Next::Finished && final(self)@ == old(
                self,
            )@,
            old(self)@.queues.dom().contains(channel) ==> ({
                let queue = old(self)@.queues[channel];
                if queue.frames.len() > 0 {
                    &&& r matches Next::Frame(f)
                    &&& f@ == queue.frames[0]
                    &&& final(self)@ == old(self)@.with(channel, queue.popped())
                } else {
                    &&& r == (if queue.closing {
                        Next::Finished
                    } else {
                        Next::Wait
                    })
                    &&& final(self)@ == old(self)@
                }
            }),
    {
        match self.find(channel) {
            Some(i) => {
                let ghost before = self.entries@;
                let ghost views = queue_views(before);
                let r = self.entries[i].1.next();
                proof {
                    let changed = self.entries@[i as int].1@;
                    update_is_insert(views, i as int, changed);
                    assert(queue_views(self.entries@) =~= views.update(
                        i as int,
                        (views[i as int].0, changed),
                    ));
                    assert forall|k: int| 0 <= k < self.entries@.len() implies (
                    #[trigger] self.entries@[k]).0 < self.next_channel
                        && self.entries@[k].1.wf() by {
                        assert(before[k].0 < self.next_channel);
                    }
                    if changed == before[i as int].1@ {
                        assert(queue_views(self.entries@) =~= views);
                    }
                }
                r
            },
            None => Next::Finished,
        }
    }

    /// Notes that a channel's input ended. The first channel owns the session:
    /// with it everything ends, as it does where the input was refused. Another
    /// channel lets its writer finish what waits.
    pub fn reader_ended(&mut self, channel: u64, end: InputEnd) -> (r: (bool, ReaderEnd))
        requires
            old(self).wf(),
        ensures
            final(self).wf(),
            r.0 == (channel == 0 || end is Refused),
            r.1 == (if channel == 0 {
                ReaderEnd::CloseSession
            } else {
                ReaderEnd::DetachChannel
            }),
            channel == 0 ==> final(self)@ == old(self)@,
            channel != 0 ==> final(self)@ == old(self)@.with(
                channel,
                old(self)@.queues[channel].closed(),
            ),
    {
        let closes: bool = channel == 0 || match end {
            InputEnd::Refused => true,
            InputEnd::Finished => false,
        };
        if channel == 0 {
            return (closes, ReaderEnd::CloseSession);
        }
        self.close(channel);
        (closes, ReaderEnd::DetachChannel)
    }

    fn close(&mut self, channel: u64)
        requires
            old(self).wf(),
        ensures
            final(self).wf(),
            final(self)@ == old(self)@.with(channel, old(self)@.queues[channel].closed()),
    {
        match self.find(channel) {
            Some(i) => {
                let ghost before = self.entries@;
                let ghost views = queue_views(before);
                self.entries[i].1.close();
                proof {
                    let changed = self.entries@[i as int].1@;
                    update_is_insert(views, i as int, changed);
                    assert(queue_views(self.entries@) =~= views.update(
                        i as int,
                        (views[i as int].0, changed),
                    ));
                    assert forall|k: int| 0 <= k < self.entries@.len() implies (
                    #[trigger] self.entries@[k]).0 < self.next_channel
                        && self.entries@[k].1.wf() by {
                        assert(before[k].0 < self.next_channel);
                    }
                }
            },
            None => {},
        }
    }

    /// Forgets a channel whose writer is done.
    pub fn writer_finished(&mut self, channel: u64)
        requires
            old(self).wf(),
        ensures
            final(self).wf(),
            final(self)@ == (ChannelsView {
                queues: old(self)@.queues.remove(channel),
                ..old(self)@
            }),
    {
        match self.find(channel) {
            Some(i) => {
                let ghost before = self.entries@;
                let ghost views = queue_views(before);
                let _ = self.entries.remove(i);
                proof {
                    remove_is_remove(views, i as int);
                    assert(queue_views(self.entries@) =~= views.remove(i as int));
                    assert forall|k: int| 0 <= k < self.entries@.len() implies (
                    #[trigger] self.entries@[k]).0 < self.next_channel
                        && self.entries@[k].1.wf() by {
                        let j = if k < i {
                            k
                        } else {
                            k + 1
                        };
                        assert(self.entries@[k] == before[j]);
                    }
                }
            },
            None => {
                assert(self@.queues.remove(channel) =~= self@.queues);
            },
        }
    }

    /// Closes every channel: the session is over.
    pub fn finish(&mut self)
        requires
            old(self).wf(),
        ensures
            final(self).wf(),
            final(self)@.next_channel == old(self)@.next_channel,
            final(self)@.overload_frame == old(self)@.overload_frame,
            final(self)@.queues.dom() == old(self)@.queues.dom(),
            forall|c: u64| #[trigger]
                old(self)@.queues.dom().contains(c) ==> final(self)@.queues[c] == old(
                    self,
                )@.queues[c].closed(),
    {
        let ghost first = queue_views(self.entries@);
        let mut i: usize = 0;
        while i < self.entries.len()
            invariant
                i <= self.entries.len(),
                self.wf(),
                self.next_channel == old(self).next_channel,
                self.overload_frame == old(self).overload_frame,
                first == queue_views(old(self).entries@),
                unique(first),
                self.entries@.len() == first.len(),
                forall|k: int|
                    0 <= k < first.len() ==> (#[trigger] self.entries@[k]).0 == first[k].0,
                forall|k: int|
                    0 <= k < i ==> (#[trigger] self.entries@[k]).1@ == first[k].1.closed(),
                forall|k: int|
                    i <= k < first.len() ==> (#[trigger] self.entries@[k]).1@ == first[k].1,
            decreases self.entries.len() - i,
        {
            let ghost before = self.entries@;
            self.entries[i].1.close();
            proof {
                assert forall|k: int| 0 <= k < self.entries@.len() implies (
                #[trigger] self.entries@[k]).0 == first[k].0 && self.entries@[k].0
                    < self.next_channel && self.entries@[k].1.wf() by {
                    assert(before[k].0 == first[k].0);
                    if k != i {
                        assert(self.entries@[k] == before[k]);
                    }
                }
                let views = queue_views(self.entries@);
                assert forall|a: int, b: int|
                    0 <= a < views.len() && 0 <= b < views.len() && views[a].0 == views[b].0
                    implies a == b by {
                    assert(self.entries@[a].0 == first[a].0);
                    assert(self.entries@[b].0 == first[b].0);
                }
            }
            i = i + 1;
        }
        proof {
            let last = queue_views(self.entries@);
            assert forall|c: u64| has_key(last, c) == has_key(first, c) by {
                if has_key(last, c) {
                    let k = crate::assoc::position(last, c);
                    assert(self.entries@[k].0 == first[k].0);
                    assert(first[k].0 == c);
                }
                if has_key(first, c) {
                    let k = crate::assoc::position(first, c);
                    assert(self.entries@[k].0 == first[k].0);
                    assert(last[k].0 == c);
                }
            }
            assert(as_map(last).dom() =~= as_map(first).dom());
            assert forall|c: u64| as_map(first).dom().contains(c) implies as_map(last)[c]
                == as_map(first)[c].closed() by {
                let k = crate::assoc::position(first, c);
                lookup(first, k);
                assert(self.entries@[k].0 == first[k].0);
                lookup(last, k);
            }
        }
    }
}

/// What happens on one channel changes no other.
pub proof fn channels_are_independent(
    session: ChannelsView,
    channel: u64,
    queue: QueueView,
    other: u64,
)
    requires
        other != channel,
    ensures
        session.with(channel, queue).queues.dom().contains(other)
            <==> session.queues.dom().contains(other),
        session.with(channel, queue).queues[other] == session.queues[other],
{
}

/// A closed channel hands out what waits and is then finished.
pub proof fn closed_channels_drain(queue: QueueView, frame: Seq<u8>)
    ensures
        queue.closed().pushed(frame) == queue.closed(),
        queue.closed().frames == queue.frames,
        queue.closed().popped() == queue.popped().closed(),
{
}

} // verus!
