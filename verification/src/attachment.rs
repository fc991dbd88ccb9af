//! An attachment of the client to a shell: what its messages lead to, and which
//! request for history an answer belongs to.

use std::collections::VecDeque;

use vstd::prelude::*;

use crate::client::HistoryPage;
use crate::protocol::Message;
use crate::supervisor::WriterCmd;

verus! {

/// The most requests for history that wait for an answer.
pub const MAX_PENDING_HISTORY: usize = 4;

/// How many commands wait for the writer.
pub const WRITER_QUEUE: usize = 64;

/// The requests for history that wait, by the numbers that their askers gave
/// them. A server answers them one after the other, each with its lines and an
/// end, or with an end alone.
#[derive(Debug)]
pub struct PendingHistory {
    waiting: VecDeque<u64>,
    answered: bool,
}

/// What [`PendingHistory`] holds.
#[verifier::ext_equal]
pub struct HistoryView {
    /// Who waits, longest first.
    pub waiting: Seq<u64>,
    /// Whether lines came whose end is still to come.
    pub answered: bool,
}

impl View for PendingHistory {
    type V = HistoryView;

    closed spec fn view(&self) -> HistoryView {
        HistoryView { waiting: self.waiting@, answered: self.answered }
    }
}

/// What a command leads to at the writer.
#[derive(Debug, Clone, PartialEq, Eq)]
pub enum WriterStep {
    Input(Vec<u8>),
    Resize(u16, u16),
    RequestHistory { before_line_id: u64, max_lines: u32 },
    /// Answer the asker that too many requests wait.
    RefuseHistory,
    /// Detach and stop.
    Detach,
}

/// What a message leads to at the reader.
#[derive(Debug, Clone, PartialEq, Eq)]
pub enum ReaderStep {
    /// Hand bytes to the terminal.
    Output(Vec<u8>),
    /// Answer a ping.
    Pong(u64),
    /// Answer a request for history.
    History { asker: u64, page: HistoryPage },
    /// Forget the shell, say how it ended, and stop.
    Exited(i32),
    Nothing,
}

/// A page without lines.
pub open spec fn is_empty_page(page: HistoryPage) -> bool {
    page.lines@.len() == 0 && page.first_line_id == 0 && !page.truncated_by_eviction
}

/// Who is answered by a message, and with which page; `None` for one without
/// lines. The first lines of an answer go to whoever has waited longest; its end
/// answers only where no lines came.
pub open spec fn answers(before: HistoryView, message: Message) -> Option<
    (u64, Option<HistoryPage>),
> {
    match message {
        Message::HistoryChunk { first_line_id, lines, truncated_by_eviction } => if before.answered
            || before.waiting.len() == 0 {
            None
        } else {
            Some(
                (
                    before.waiting[0],
                    Some(HistoryPage { lines, first_line_id, truncated_by_eviction }),
                ),
            )
        },
        Message::HistoryEnd { .. } => if before.answered || before.waiting.len() == 0 {
            None
        } else {
            Some((before.waiting[0], None))
        },
        _ => None,
    }
}

/// Who waits after a message. Lines that nobody waits for answer nobody, and change
/// nothing.
pub open spec fn heard(before: HistoryView, message: Message) -> HistoryView {
    HistoryView {
        waiting: if answers(before, message) is Some {
            before.waiting.skip(1)
        } else {
            before.waiting
        },
        answered: match message {
            Message::HistoryChunk { .. } => before.answered || before.waiting.len() > 0,
            Message::HistoryEnd { .. } => false,
            _ => before.answered,
        },
    }
}

impl PendingHistory {
    /// Whether no more requests wait than may.
    pub open spec fn wf(&self) -> bool {
        self@.waiting.len() <= MAX_PENDING_HISTORY
    }

    /// None.
    pub fn new() -> (r: PendingHistory)
        ensures
            r.wf(),
            r@ == (HistoryView { waiting: Seq::empty(), answered: false }),
    {
        PendingHistory { waiting: VecDeque::new(), answered: false }
    }

    /// Takes a command for the writer. A request for history waits for its
    /// answer under the asker's number, unless too many wait already.
    pub fn command(&mut self, cmd: WriterCmd, asker: u64) -> (r: WriterStep)
        requires
            old(self).wf(),
        ensures
            final(self).wf(),
            match cmd {
                WriterCmd::Input(bytes) => r == WriterStep::Input(bytes) && final(self)@ == old(self)@,
                WriterCmd::Resize(cols, rows) => r == WriterStep::Resize(cols, rows) && final(self)@
                    == old(self)@,
                WriterCmd::History { before_line_id, max_lines } => if old(self)@.waiting.len()
                    >= MAX_PENDING_HISTORY {
                    r is RefuseHistory && final(self)@ == old(self)@
                } else {
                    r == (WriterStep::RequestHistory { before_line_id, max_lines }) && final(self)@
                        == (HistoryView { waiting: old(self)@.waiting.push(asker), ..old(self)@ })
                },
                WriterCmd::Detach => r is Detach && final(self)@ == old(self)@,
            },
    {
        match cmd {
            WriterCmd::Input(bytes) => WriterStep::Input(bytes),
            WriterCmd::Resize(cols, rows) => WriterStep::Resize(cols, rows),
            WriterCmd::History { before_line_id, max_lines } => {
                if self.waiting.len() >= MAX_PENDING_HISTORY {
                    WriterStep::RefuseHistory
                } else {
                    self.waiting.push_back(asker);
                    WriterStep::RequestHistory { before_line_id, max_lines }
                }
            },
            WriterCmd::Detach => WriterStep::Detach,
        }
    }

    /// Takes whoever has waited longest, unless the answer that is under way was
    /// given already.
    fn next_asker(&mut self) -> (r: Option<u64>)
        ensures
            final(self)@.answered == old(self)@.answered,
            if old(self)@.answered || old(self)@.waiting.len() == 0 {
                r is None && final(self)@.waiting == old(self)@.waiting
            } else {
                r == Some(old(self)@.waiting[0]) && final(self)@.waiting == old(
                    self,
                )@.waiting.skip(1)
            },
    {
        if self.answered {
            return None;
        }
        let ghost before = self.waiting@;
        let asker: Option<u64> = self.waiting.pop_front();
        proof {
            if before.len() > 0 {
                assert(self.waiting@ =~= before.skip(1));
            }
        }
        asker
    }

    /// Takes a message of the attachment.
    pub fn message(&mut self, message: Option<Message>) -> (r: ReaderStep)
        requires
            old(self).wf(),
        ensures
            final(self).wf(),
            message matches Some(m) ==> final(self)@ == heard(old(self)@, m),
            message is None ==> final(self)@ == old(self)@ && r is Nothing,
            message matches Some(m) ==> match m {
                Message::TerminalOutput { data } => r == ReaderStep::Output(data),
                Message::Ping { nonce } => r == ReaderStep::Pong(nonce),
                Message::ShellExited { exit_code, .. } => r == ReaderStep::Exited(exit_code),
                _ => match answers(old(self)@, m) {
                    None => r is Nothing,
                    Some((asker, Some(page))) => r == (ReaderStep::History { asker, page }),
                    Some((asker, None)) => r matches ReaderStep::History { asker: a, page } && a
                        == asker && is_empty_page(page),
                },
            },
    {
        match message {
            Some(Message::TerminalOutput { data }) => ReaderStep::Output(data),
            Some(Message::Ping { nonce }) => ReaderStep::Pong(nonce),
            Some(Message::HistoryChunk { first_line_id, lines, truncated_by_eviction }) => {
                match self.next_asker() {
                    Some(asker) => {
                        self.answered = true;
                        ReaderStep::History {
                            asker,
                            page: HistoryPage { lines, first_line_id, truncated_by_eviction },
                        }
                    },
                    None => ReaderStep::Nothing,
                }
            },
            Some(Message::HistoryEnd { .. }) => {
                let asker: Option<u64> = self.next_asker();
                self.answered = false;
                match asker {
                    Some(asker) => ReaderStep::History {
                        asker,
                        page: HistoryPage {
                            lines: Vec::new(),
                            first_line_id: 0,
                            truncated_by_eviction: false,
                        },
                    },
                    None => ReaderStep::Nothing,
                }
            },
            Some(Message::ShellExited { exit_code, .. }) => ReaderStep::Exited(exit_code),
            _ => ReaderStep::Nothing,
        }
    }
}

/// The answers that messages give, one after the other.
pub open spec fn all_answers(before: HistoryView, messages: Seq<Message>) -> Seq<
    (u64, Option<HistoryPage>),
>
    decreases messages.len(),
{
    if messages.len() == 0 {
        Seq::empty()
    } else {
        let rest = all_answers(heard(before, messages[0]), messages.skip(1));
        match answers(before, messages[0]) {
            Some(answer) => seq![answer] + rest,
            None => rest,
        }
    }
}

/// The messages by which a server answers a request: its lines, where there are
/// any, and an end.
pub open spec fn response(page: Option<HistoryPage>, oldest: u64) -> Seq<Message> {
    let end = Message::HistoryEnd { oldest_available_line_id: oldest };
    match page {
        Some(p) => seq![
            Message::HistoryChunk {
                first_line_id: p.first_line_id,
                lines: p.lines,
                truncated_by_eviction: p.truncated_by_eviction,
            },
            end,
        ],
        None => seq![end],
    }
}

/// The messages by which a server answers requests, one after the other.
pub open spec fn responses(pages: Seq<(Option<HistoryPage>, u64)>) -> Seq<Message>
    decreases pages.len(),
{
    if pages.len() == 0 {
        Seq::empty()
    } else {
        response(pages[0].0, pages[0].1) + responses(pages.skip(1))
    }
}

/// Requests for history and answers pair up, first in, first out: whoever asked
/// first gets the first page, and a page without lines only where the answer had
/// none.
pub proof fn history_is_answered_in_turn(
    before: HistoryView,
    pages: Seq<(Option<HistoryPage>, u64)>,
)
    requires
        !before.answered,
        pages.len() <= before.waiting.len(),
    ensures
        all_answers(before, responses(pages)) == Seq::new(
            pages.len(),
            |i: int| (before.waiting[i], pages[i].0),
        ),
    decreases pages.len(),
{
    let expected = Seq::new(pages.len(), |i: int| (before.waiting[i], pages[i].0));
    if pages.len() == 0 {
        assert(all_answers(before, responses(pages)) =~= expected);
    } else {
        let first = response(pages[0].0, pages[0].1);
        let later = responses(pages.skip(1));
        let messages = first + later;
        let after = HistoryView { waiting: before.waiting.skip(1), answered: false };
        history_is_answered_in_turn(after, pages.skip(1));
        let rest = all_answers(after, later);
        assert(heard(before, first[0]).waiting == before.waiting.skip(1));
        if pages[0].0 is Some {
            let between = heard(before, messages[0]);
            assert(messages.skip(1)[0] == first[1]);
            assert(messages.skip(1).skip(1) =~= later);
            assert(heard(between, messages.skip(1)[0]) == after);
            assert(all_answers(between, messages.skip(1)) == rest);
        } else {
            assert(messages.skip(1) =~= later);
            assert(heard(before, messages[0]) == after);
        }
        assert(all_answers(before, messages) == seq![(before.waiting[0], pages[0].0)] + rest);
        assert(all_answers(before, messages) =~= expected);
    }
}

} // verus!
