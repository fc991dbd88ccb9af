//! TCP forwarding: who may use it, how many connections each user may have, and
//! the flow of one connection.
//!
//! Each direction carries one frame at a time: the next may follow only once the
//! other side has acknowledged the last.

use vstd::prelude::*;
use vstd::seq_lib::*;
use vstd::string::*;
use vstd::utf8::encode_utf8;

use crate::permits::{held, taken, given_back, UserCounts};
use crate::protocol::{error_envelope, respond, Envelope, ErrorCode, Message};
use crate::text::{contains, texts};

verus! {

/// How long connecting may take.
pub const CONNECT_TIMEOUT_MS: u64 = 10_000;

/// How long one read, write or acknowledgement may take.
pub const IO_TIMEOUT_MS: u64 = 30_000;

/// How long a connection may be idle.
pub const IDLE_TIMEOUT_MS: u64 = 300_000;

/// The most connections that one client forwards.
pub const MAX_PER_CONNECTION: usize = 32;

/// The most connections that are forwarded in all.
pub const MAX_GLOBAL: usize = 256;

/// The most connections that are forwarded for one user.
pub const MAX_PER_USER: usize = 64;

/// The most users that may be allowed to forward.
pub const MAX_USERS: usize = 256;

/// The longest name of such a user.
pub const MAX_USER_BYTES: usize = 128;

/// The most bytes of one data frame.
pub const FORWARD_DATA_BYTES_MAX: usize = 8_192;

/// Why a list of users is refused: there are too many, or one is empty or too
/// long.
#[derive(Debug, Clone, Copy, PartialEq, Eq, Structural)]
pub struct InvalidForwardUsers;

/// Whether a user's name is acceptable.
pub open spec fn user_name_fits(name: Seq<char>) -> bool {
    0 < encode_utf8(name).len() <= MAX_USER_BYTES
}

/// Who may forward, and how many connections everybody has.
pub struct ForwardService {
    users: Vec<String>,
    active: UserCounts,
}

/// Holds one place among the connections of a user.
pub struct Permit {
    user: String,
}

impl Permit {
    /// Whose place it is.
    pub closed spec fn user(&self) -> Seq<char> {
        self.user@
    }
}

impl ForwardService {
    /// The users that may forward.
    pub closed spec fn users(&self) -> Set<Seq<char>> {
        texts(self.users@).to_set()
    }

    /// How many connections each user has.
    pub closed spec fn active(&self) -> Map<Seq<char>, nat> {
        self.active@
    }

    /// How many connections there are.
    pub closed spec fn total(&self) -> nat {
        self.active.total()
    }

    /// Whether the counts are sound.
    pub closed spec fn wf(&self) -> bool {
        self.active.wf()
    }

    /// A service for some users, who have no connections yet.
    pub fn new(users: Vec<String>) -> (r: Result<ForwardService, InvalidForwardUsers>)
        ensures
            r is Ok <==> texts(users@).to_set().len() <= MAX_USERS && forall|i: int|
                0 <= i < users@.len() ==> user_name_fits((#[trigger] users@[i])@),
            r matches Ok(s) ==> s.wf() && s.users() == texts(users@).to_set() && s.active()
                == Map::<Seq<char>, nat>::empty() && s.total() == 0,
    {
        let mut kept: Vec<String> = Vec::new();
        let ghost all = texts(users@);
        let mut i: usize = 0;
        assert(texts(kept@).to_set() =~= all.take(0).to_set());
        while i < users.len()
            invariant
                i <= users.len(),
                all == texts(users@),
                texts(kept@).to_set() == all.take(i as int).to_set(),
                texts(kept@).no_duplicates(),
                forall|k: int| 0 <= k < i ==> user_name_fits((#[trigger] users@[k])@),
            decreases users.len() - i,
        {
            let size: usize = users[i].as_str().as_bytes().len();
            if size == 0 || size > MAX_USER_BYTES {
                assert(!user_name_fits(users@[i as int]@));
                return Err(InvalidForwardUsers);
            }
            let ghost before = texts(kept@);
            let known: bool = contains(&kept, users[i].as_str());
            proof {
                crate::grant::among_is_contains(kept@, users@[i as int]@);
                let name = users@[i as int]@;
                assert(all.take(i + 1) =~= all.take(i as int).push(name));
                push_to_set(all.take(i as int), name);
            }
            if !known {
                let name: String = users[i].clone();
                kept.push(name);
                proof {
                    assert(texts(kept@) =~= before.push(users@[i as int]@));
                    push_to_set(before, users@[i as int]@);
                    assert forall|a: int, b: int|
                        0 <= a < b < texts(kept@).len() implies texts(kept@)[a] != texts(
                        kept@,
                    )[b] by {
                        if b == before.len() {
                            assert(before.contains(before[a]));
                        }
                    }
                }
            } else {
                proof {
                    let name = users@[i as int]@;
                    assert(texts(kept@).to_set().contains(name));
                    assert(texts(kept@).to_set().insert(name) =~= texts(kept@).to_set());
                }
            }
            i = i + 1;
        }
        proof {
            assert(all.take(i as int) =~= all);
            texts(kept@).unique_seq_to_set();
        }
        if kept.len() > MAX_USERS {
            return Err(InvalidForwardUsers);
        }
        Ok(ForwardService { users: kept, active: UserCounts::new() })
    }

    /// Whether anybody may forward.
    pub fn enabled(&self) -> (r: bool)
        ensures
            r == !(self.users() =~= Set::<Seq<char>>::empty()),
    {
        proof {
            if self.users@.len() > 0 {
                assert(texts(self.users@)[0] == self.users@[0]@);
                assert(self.users().contains(self.users@[0]@));
            } else {
                assert(self.users() =~= Set::<Seq<char>>::empty());
            }
        }
        self.users.len() > 0
    }

    /// Whether a user may forward.
    pub fn permits(&self, user: &str) -> (r: bool)
        ensures
            r == self.users().contains(user@),
    {
        proof {
            crate::grant::among_is_contains(self.users@, user@);
        }
        contains(&self.users, user)
    }

    /// Takes a place for a user, unless all places are taken, or all of this
    /// user's.
    pub fn acquire(&mut self, user: &str) -> (r: Option<Permit>)
        requires
            old(self).wf(),
        ensures
            final(self).wf(),
            final(self).users() == old(self).users(),
            r is Some <==> old(self).total() < MAX_GLOBAL && held(old(self).active(), user@)
                < MAX_PER_USER,
            r matches Some(p) ==> p.user() == user@ && final(self).active() == taken(
                old(self).active(),
                user@,
            ) && final(self).total() == old(self).total() + 1,
            r is None ==> *final(self) == *old(self),
    {
        if self.active.take(user, MAX_GLOBAL, MAX_PER_USER) {
            Some(Permit { user: user.to_owned() })
        } else {
            None
        }
    }

    /// Gives a place back.
    pub fn release(&mut self, permit: Permit)
        requires
            old(self).wf(),
        ensures
            final(self).wf(),
            final(self).users() == old(self).users(),
            final(self).active() == given_back(old(self).active(), permit.user()),
            final(self).total() == old(self).total() - (if old(self).active().dom().contains(
                permit.user(),
            ) {
                1int
            } else {
                0
            }),
    {
        self.active.give_back(permit.user.as_str());
    }

    /// How many users have connections.
    pub fn active_users(&self) -> (r: usize)
        requires
            self.wf(),
        ensures
            r == self.active().len(),
    {
        self.active.users()
    }
}

proof fn push_to_set(s: Seq<Seq<char>>, e: Seq<char>)
    ensures
        s.push(e).to_set() == s.to_set().insert(e),
{
    let t = s.push(e);
    assert forall|x: Seq<char>| t.to_set().contains(x) == s.to_set().insert(e).contains(x) by {
        if t.contains(x) {
            let i = choose|i: int| 0 <= i < t.len() && t[i] == x;
            if i < s.len() {
                assert(s[i] == x);
            }
        }
        if s.contains(x) {
            let i = choose|i: int| 0 <= i < s.len() && s[i] == x;
            assert(t[i] == x);
        }
        assert(t[s.len() as int] == e);
    }
    assert(t.to_set() =~= s.to_set().insert(e));
}

/// What a forwarded connection reads for its peer.
#[derive(Debug, Clone, Copy, PartialEq, Eq, Structural)]
pub enum Downstream {
    /// The next bytes are being read.
    Reading,
    /// A frame was sent at a time and is not acknowledged yet.
    AwaitingAck { eof: bool, sent_ms: u64 },
    /// The end was sent and acknowledged.
    Done,
}

/// One forwarded connection.
#[derive(Debug, Clone, Copy, PartialEq, Eq, Structural)]
pub struct Forward {
    /// The request that opened it.
    pub request_id: u64,
    /// Whether the peer may send a frame.
    pub input_ready: bool,
    /// Whether the peer owes an acknowledgement.
    pub ack_expected: bool,
    /// What is being written: `Some(true)` for the end.
    pub writing: Option<bool>,
    /// Whether the peer's end was written.
    pub upstream_done: bool,
    /// What is read for the peer.
    pub downstream: Downstream,
    /// When bytes last moved.
    pub last_activity_ms: u64,
}

/// What happens to a forwarded connection.
#[derive(Debug, Clone, PartialEq, Eq)]
pub enum ForwardEvent {
    /// The destination was reached.
    Connected { bound_ip: String, bound_port: u16 },
    /// The peer sent a frame.
    Frame(Envelope),
    /// What was being written is written.
    Written,
    /// Bytes were read; none at the end.
    Read(Vec<u8>),
    /// Connecting, reading, writing or waiting for the peer failed, or took too
    /// long.
    Failed,
    /// Time passed.
    Tick,
}

/// What a forwarded connection asks for.
#[derive(Debug, Clone, PartialEq, Eq)]
pub enum ForwardAction {
    /// Send a message to the peer.
    Send(Envelope),
    /// Write bytes to the destination.
    Write(Vec<u8>),
    /// Tell the destination that no more bytes follow.
    ShutDown,
    /// Close the connection and give its place back.
    End,
}

/// What an acceptable frame of the peer says.
#[derive(Debug, Clone, PartialEq, Eq)]
pub enum FlowInput {
    Data(Vec<u8>),
    Eof,
    Ack,
}

/// What a frame says, wherever the flow stands: data of an acceptable size, an
/// end or an acknowledgement, and nothing where it names a request, a server or
/// a shell.
pub open spec fn frame_says(env: Envelope) -> Option<FlowInput> {
    if env.answers(0) {
        match env.message {
            Some(Message::TcpForwardData { data }) => if 0 < data@.len()
                <= FORWARD_DATA_BYTES_MAX {
                Some(FlowInput::Data(data))
            } else {
                None
            },
            Some(Message::TcpForwardEof) => Some(FlowInput::Eof),
            Some(Message::TcpForwardAck) => Some(FlowInput::Ack),
            _ => None,
        }
    } else {
        None
    }
}

/// What a frame says where the flow allows it.
pub open spec fn frame_accepted(flow: Forward, env: Envelope) -> Option<FlowInput> {
    match frame_says(env) {
        Some(FlowInput::Ack) => if flow.ack_expected {
            Some(FlowInput::Ack)
        } else {
            None
        },
        Some(input) => if flow.input_ready {
            Some(input)
        } else {
            None
        },
        None => None,
    }
}

/// The flow after a frame: what allowed the frame allows no second one.
pub open spec fn frame_consumed(flow: Forward, env: Envelope) -> Forward {
    match frame_says(env) {
        Some(FlowInput::Ack) => Forward { ack_expected: false, ..flow },
        Some(_) => Forward { input_ready: false, ..flow },
        None => flow,
    }
}

/// Whether the flow is sound: the peer may send only while nothing is written,
/// owes an acknowledgement exactly while a frame is out, and sends nothing after
/// its end.
pub open spec fn flow_wf(flow: Forward) -> bool {
    &&& flow.input_ready ==> flow.writing is None && !flow.upstream_done
    &&& flow.ack_expected <==> flow.downstream is AwaitingAck
    &&& flow.writing is Some ==> !flow.upstream_done
}

/// Whether both directions ended.
pub open spec fn finished(flow: Forward) -> bool {
    flow.upstream_done && flow.downstream is Done
}

/// Whether the peer owes the acknowledgement of a frame for too long.
pub fn ack_overdue(sent_ms: u64, now_ms: u64) -> (r: bool)
    ensures
        r == (now_ms >= sent_ms + IO_TIMEOUT_MS),
{
    now_ms >= sent_ms && now_ms - sent_ms >= IO_TIMEOUT_MS
}

/// Whether no bytes moved for too long, or an acknowledgement is owed for too long.
pub open spec fn timed_out(flow: Forward, now_ms: u64) -> bool {
    ||| now_ms >= flow.last_activity_ms + IDLE_TIMEOUT_MS
    ||| (flow.downstream matches Downstream::AwaitingAck { sent_ms, .. } && now_ms >= sent_ms
        + IO_TIMEOUT_MS)
}

/// The flow after an event.
pub open spec fn flow_after(flow: Forward, event: ForwardEvent, now_ms: u64) -> Forward {
    match event {
        ForwardEvent::Connected { .. } => Forward {
            input_ready: flow.writing is None && !flow.upstream_done,
            last_activity_ms: now_ms,
            ..flow
        },
        ForwardEvent::Frame(env) => {
            let rest = frame_consumed(flow, env);
            match frame_accepted(flow, env) {
                Some(FlowInput::Data(_)) => Forward {
                    writing: Some(false),
                    last_activity_ms: now_ms,
                    ..rest
                },
                Some(FlowInput::Eof) => Forward {
                    writing: Some(true),
                    last_activity_ms: now_ms,
                    ..rest
                },
                Some(FlowInput::Ack) => Forward {
                    downstream: if flow.downstream matches Downstream::AwaitingAck { eof: true, .. } {
                        Downstream::Done
                    } else {
                        Downstream::Reading
                    },
                    ..rest
                },
                None => rest,
            }
        },
        ForwardEvent::Written => match flow.writing {
            Some(eof) => Forward { writing: None, input_ready: !eof, upstream_done: eof, ..flow },
            None => flow,
        },
        ForwardEvent::Read(bytes) => if flow.downstream is Reading {
            Forward {
                ack_expected: true,
                downstream: Downstream::AwaitingAck { eof: bytes@.len() == 0, sent_ms: now_ms },
                last_activity_ms: now_ms,
                ..flow
            }
        } else {
            flow
        },
        ForwardEvent::Failed => flow,
        ForwardEvent::Tick => flow,
    }
}

/// Whether a connection ends with an error that tells the peer nothing of the
/// destination.
pub open spec fn fails(actions: Seq<ForwardAction>, request_id: u64) -> bool {
    &&& actions.len() == 2
    &&& actions[0] matches ForwardAction::Send(e)
    &&& e.is_error(
        request_id,
        ErrorCode::ErrServerUnavailable,
        "TCP forwarding failed or timed out"@,
        false,
    )
    &&& actions[1] is End
}

/// Whether one message goes to the peer, and the connection ends where both
/// directions have.
pub open spec fn sends(
    actions: Seq<ForwardAction>,
    request_id: u64,
    message: spec_fn(Message) -> bool,
    ends: bool,
) -> bool {
    &&& actions.len() == if ends {
        2int
    } else {
        1
    }
    &&& actions[0] matches ForwardAction::Send(e)
    &&& e.answers(request_id)
    &&& e.message matches Some(m)
    &&& message(m)
    &&& ends ==> actions[1] is End
}

/// What an event leads to.
pub open spec fn flow_actions(
    flow: Forward,
    event: ForwardEvent,
    now_ms: u64,
    actions: Seq<ForwardAction>,
) -> bool {
    let after = flow_after(flow, event, now_ms);
    match event {
        ForwardEvent::Connected { bound_ip, bound_port } => sends(
            actions,
            flow.request_id,
            |m: Message|
                m matches Message::TcpForwardOpened { bound_ip: ip, bound_port: port } && ip@
                    == bound_ip@ && port == bound_port,
            false,
        ),
        ForwardEvent::Frame(env) => match frame_accepted(flow, env) {
            Some(FlowInput::Data(data)) => {
                &&& actions.len() == 1
                &&& actions[0] == ForwardAction::Write(data)
            },
            Some(FlowInput::Eof) => {
                &&& actions.len() == 1
                &&& actions[0] is ShutDown
            },
            Some(FlowInput::Ack) => if finished(after) {
                &&& actions.len() == 1
                &&& actions[0] is End
            } else {
                actions.len() == 0
            },
            None => {
                &&& actions.len() == 2
                &&& actions[0] matches ForwardAction::Send(e)
                &&& e.is_error(
                    flow.request_id,
                    ErrorCode::ErrInvalidArgument,
                    "invalid forwarding frame"@,
                    false,
                )
                &&& actions[1] is End
            },
        },
        ForwardEvent::Written => if flow.writing is Some {
            sends(actions, 0, |m: Message| m is TcpForwardAck, finished(after))
        } else {
            actions.len() == 0
        },
        ForwardEvent::Read(bytes) => if flow.downstream is Reading {
            if bytes@.len() == 0 {
                sends(actions, 0, |m: Message| m is TcpForwardEof, false)
            } else {
                sends(
                    actions,
                    0,
                    |m: Message| m matches Message::TcpForwardData { data } && data@ == bytes@,
                    false,
                )
            }
        } else {
            actions.len() == 0
        },
        ForwardEvent::Failed => fails(actions, flow.request_id),
        ForwardEvent::Tick => if timed_out(flow, now_ms) {
            fails(actions, flow.request_id)
        } else {
            actions.len() == 0
        },
    }
}

impl Forward {
    /// A connection that is being opened: no frame is acceptable yet.
    pub fn opening(request_id: u64, now_ms: u64) -> (r: Forward)
        ensures
            r == (Forward {
                request_id,
                input_ready: false,
                ack_expected: false,
                writing: None,
                upstream_done: false,
                downstream: Downstream::Reading,
                last_activity_ms: now_ms,
            }),
            flow_wf(r),
    {
        Forward {
            request_id,
            input_ready: false,
            ack_expected: false,
            writing: None,
            upstream_done: false,
            downstream: Downstream::Reading,
            last_activity_ms: now_ms,
        }
    }

    /// Takes a frame of the peer where the flow allows it.
    pub fn message(&mut self, env: Envelope) -> (r: Option<FlowInput>)
        ensures
            r == frame_accepted(*old(self), env),
            *final(self) == frame_consumed(*old(self), env),
    {
        if env.request_id != 0 || env.server_id.len() != 0 || env.shell_id.len() != 0 {
            return None;
        }
        match env.message {
            Some(Message::TcpForwardData { data }) => {
                if data.len() == 0 || data.len() > FORWARD_DATA_BYTES_MAX {
                    return None;
                }
                let ready: bool = self.input_ready;
                self.input_ready = false;
                if ready {
                    Some(FlowInput::Data(data))
                } else {
                    None
                }
            },
            Some(Message::TcpForwardEof) => {
                let ready: bool = self.input_ready;
                self.input_ready = false;
                if ready {
                    Some(FlowInput::Eof)
                } else {
                    None
                }
            },
            Some(Message::TcpForwardAck) => {
                let expected: bool = self.ack_expected;
                self.ack_expected = false;
                if expected {
                    Some(FlowInput::Ack)
                } else {
                    None
                }
            },
            _ => None,
        }
    }

    /// What follows an event.
    pub fn step(&mut self, event: ForwardEvent, now_ms: u64) -> (actions: Vec<ForwardAction>)
        ensures
            *final(self) == flow_after(*old(self), event, now_ms),
            flow_actions(*old(self), event, now_ms, actions@),
    {
        let mut actions: Vec<ForwardAction> = Vec::new();
        match event {
            ForwardEvent::Connected { bound_ip, bound_port } => {
                self.input_ready = self.writing.is_none() && !self.upstream_done;
                self.last_activity_ms = now_ms;
                actions.push(
                    ForwardAction::Send(
                        respond(
                            self.request_id,
                            Message::TcpForwardOpened { bound_ip, bound_port: bound_port as u32 },
                        ),
                    ),
                );
            },
            ForwardEvent::Frame(env) => match self.message(env) {
                Some(FlowInput::Data(data)) => {
                    self.writing = Some(false);
                    self.last_activity_ms = now_ms;
                    actions.push(ForwardAction::Write(data));
                },
                Some(FlowInput::Eof) => {
                    self.writing = Some(true);
                    self.last_activity_ms = now_ms;
                    actions.push(ForwardAction::ShutDown);
                },
                Some(FlowInput::Ack) => {
                    self.downstream = match self.downstream {
                        Downstream::AwaitingAck { eof: true, .. } => Downstream::Done,
                        _ => Downstream::Reading,
                    };
                    if self.is_finished() {
                        actions.push(ForwardAction::End);
                    }
                },
                None => {
                    actions.push(
                        ForwardAction::Send(
                            error_envelope(
                                self.request_id,
                                ErrorCode::ErrInvalidArgument,
                                "invalid forwarding frame",
                                false,
                            ),
                        ),
                    );
                    actions.push(ForwardAction::End);
                },
            },
            ForwardEvent::Written => {
                if let Some(eof) = self.writing {
                    self.writing = None;
                    self.input_ready = !eof;
                    self.upstream_done = eof;
                    actions.push(ForwardAction::Send(respond(0, Message::TcpForwardAck)));
                    if self.is_finished() {
                        actions.push(ForwardAction::End);
                    }
                }
            },
            ForwardEvent::Read(bytes) => {
                if let Downstream::Reading = self.downstream {
                    let eof: bool = bytes.len() == 0;
                    self.ack_expected = true;
                    self.downstream = Downstream::AwaitingAck { eof, sent_ms: now_ms };
                    self.last_activity_ms = now_ms;
                    if eof {
                        actions.push(ForwardAction::Send(respond(0, Message::TcpForwardEof)));
                    } else {
                        actions.push(
                            ForwardAction::Send(
                                respond(0, Message::TcpForwardData { data: bytes }),
                            ),
                        );
                    }
                }
            },
            ForwardEvent::Failed => {
                self.fail(&mut actions);
            },
            ForwardEvent::Tick => {
                if self.is_timed_out(now_ms) {
                    self.fail(&mut actions);
                }
            },
        }
        actions
    }

    fn is_timed_out(&self, now_ms: u64) -> (r: bool)
        ensures
            r == timed_out(*self, now_ms),
    {
        if now_ms >= self.last_activity_ms && now_ms - self.last_activity_ms >= IDLE_TIMEOUT_MS {
            return true;
        }
        match self.downstream {
            Downstream::AwaitingAck { sent_ms, .. } => ack_overdue(sent_ms, now_ms),
            _ => false,
        }
    }

    fn is_finished(&self) -> (r: bool)
        ensures
            r == finished(*self),
    {
        if let Downstream::Done = self.downstream {
            self.upstream_done
        } else {
            false
        }
    }

    fn fail(&self, actions: &mut Vec<ForwardAction>)
        requires
            old(actions)@.len() == 0,
        ensures
            fails(final(actions)@, self.request_id),
    {
        actions.push(
            ForwardAction::Send(
                error_envelope(
                    self.request_id,
                    ErrorCode::ErrServerUnavailable,
                    "TCP forwarding failed or timed out",
                    false,
                ),
            ),
        );
        actions.push(ForwardAction::End);
    }
}

/// Failures tell the peer nothing of the destination or of what went wrong:
/// whatever a connection was opened to, and however it stood, a failure or a timeout
/// sends the same single error as the last message, and gives the place back.
pub proof fn failures_are_alike(
    one: Forward,
    one_event: ForwardEvent,
    one_ms: u64,
    one_actions: Seq<ForwardAction>,
    other: Forward,
    other_event: ForwardEvent,
    other_ms: u64,
    other_actions: Seq<ForwardAction>,
)
    requires
        one.request_id == other.request_id,
        flow_actions(one, one_event, one_ms, one_actions),
        flow_actions(other, other_event, other_ms, other_actions),
        one_event is Failed || (one_event is Tick && timed_out(one, one_ms)),
        other_event is Failed || (other_event is Tick && timed_out(other, other_ms)),
    ensures
        fails(one_actions, one.request_id),
        fails(other_actions, one.request_id),
        one_actions.len() == other_actions.len(),
        one_actions[0]->Send_0.request_id == other_actions[0]->Send_0.request_id,
        one_actions[0]->Send_0.server_id@ == other_actions[0]->Send_0.server_id@,
        one_actions[0]->Send_0.shell_id@ == other_actions[0]->Send_0.shell_id@,
        one_actions[0]->Send_0.message->0->Error_code == other_actions[0]->Send_0.message->0->Error_code,
        one_actions[0]->Send_0.message->0->Error_human_message@
            == other_actions[0]->Send_0.message->0->Error_human_message@,
        one_actions[0]->Send_0.message->0->Error_retryable
            == other_actions[0]->Send_0.message->0->Error_retryable,
{
}

/// Every event keeps the flow sound.
pub proof fn flow_stays_sound(flow: Forward, event: ForwardEvent, now_ms: u64)
    requires
        flow_wf(flow),
    ensures
        flow_wf(flow_after(flow, event, now_ms)),
{
}

/// Once a frame of data or the end is accepted, no other is until the first is
/// written; and after the end none ever is.
pub proof fn one_frame_at_a_time(flow: Forward, env: Envelope, next: Envelope, now_ms: u64)
    requires
        flow_wf(flow),
        frame_accepted(flow, env) is Some,
        !(frame_says(env) matches Some(FlowInput::Ack)),
        !(frame_says(next) matches Some(FlowInput::Ack)),
    ensures
        frame_accepted(flow_after(flow, ForwardEvent::Frame(env), now_ms), next) is None,
        frame_says(env) matches Some(FlowInput::Eof) ==> frame_accepted(
            flow_after(
                flow_after(flow, ForwardEvent::Frame(env), now_ms),
                ForwardEvent::Written,
                now_ms,
            ),
            next,
        ) is None,
{
}

/// An acknowledgement is accepted only while a frame is out, and only once.
pub proof fn acknowledgements_match_frames(flow: Forward, ack: Envelope, now_ms: u64)
    requires
        flow_wf(flow),
        frame_says(ack) matches Some(FlowInput::Ack),
    ensures
        frame_accepted(flow, ack) is Some <==> flow.downstream is AwaitingAck,
        frame_accepted(flow_after(flow, ForwardEvent::Frame(ack), now_ms), ack) is None,
{
}

} // verus!
