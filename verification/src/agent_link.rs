//! What a gateway's messages lead to: on the control stream of an agent's link,
//! and on one stream for each attachment.

use vstd::prelude::*;

use crate::agent::{
    attach_checked, attachment_refusal, is_request_for, map_attachment_session_error,
    map_open_validation_error, map_session_error, open_checked, open_refusal, refusal_view,
    registration_fits, validate_attach_request, validate_open_request, validate_registration,
    validation_refusal, AgentError, AgentLimits, Refusal, RegistrationRequest,
    AGENT_ATTACHMENT_STREAMS_MAX,
};
use crate::grant::GrantVerifier;
use crate::ids::{ServerId, ShellId};
use crate::protocol::{
    exit_code_wire, signed_code, Attachment, AttachmentEvent, Envelope, ErrorCode, HistoryRange,
    Message, OpenShellRequest, OpenedShell, SessionError,
};

verus! {

/// What a control message did.
#[derive(Debug, Clone, Copy, PartialEq, Eq)]
pub enum AgentAction {
    Ping(u64),
    ShellOpened { shell_id: ShellId, reused: bool },
    ShellRejected { code: ErrorCode },
    UnknownRejected,
}

/// What a control message leads to.
#[derive(Debug, Clone, PartialEq, Eq)]
pub enum ControlStep {
    /// The link must close; where there is a reply, it is sent first.
    Close { reply: Option<Envelope>, error: AgentError },
    /// The reply is sent, and the link goes on.
    Reply { reply: Envelope, action: AgentAction },
    /// The shell manager opens a shell; then [`RegisteredLink::shell_opened`].
    OpenShell { request_id: u64, request: OpenShellRequest },
}

/// Whether an envelope belongs to a server and to no shell.
pub open spec fn on_link(e: Envelope, request_id: u64, server_id: Seq<u8>) -> bool {
    e.request_id == request_id && e.server_id@ == server_id && e.shell_id@.len() == 0
}

/// Whether an envelope belongs to a shell of a server.
pub open spec fn on_stream(
    e: Envelope,
    request_id: u64,
    server_id: Seq<u8>,
    shell_id: Seq<u8>,
) -> bool {
    e.request_id == request_id && e.server_id@ == server_id && e.shell_id@ == shell_id
}

/// Whether an envelope carries an error.
pub open spec fn carries_error(e: Envelope, refusal: (ErrorCode, Seq<char>, bool)) -> bool {
    e.message matches Some(Message::Error { code, human_message, retryable }) && code == refusal.0
        && human_message@ == refusal.1 && retryable == refusal.2
}

/// What a [`RegisteredLink`] holds.
pub struct LinkView {
    pub server_id: ServerId,
    pub max_frame_bytes: u32,
    pub keepalive_interval_ms: u32,
    /// How many attachment streams are served.
    pub streams: nat,
    pub limits: AgentLimits,
}

/// A registered link of a server. It owns no shell: where it ends, the shells run
/// on.
pub struct RegisteredLink {
    server_id: ServerId,
    max_frame_bytes: u32,
    keepalive_interval_ms: u32,
    streams: usize,
    limits: AgentLimits,
}

impl View for RegisteredLink {
    type V = LinkView;

    closed spec fn view(&self) -> LinkView {
        LinkView {
            server_id: self.server_id,
            max_frame_bytes: self.max_frame_bytes,
            keepalive_interval_ms: self.keepalive_interval_ms,
            streams: self.streams as nat,
            limits: self.limits,
        }
    }
}

/// What a gateway's answer to a registration leads to: a link, with the limits
/// that the gateway set.
pub open spec fn connect_outcome(
    request: RegistrationRequest,
    response: Envelope,
    limits: AgentLimits,
    r: Result<RegisteredLink, AgentError>,
) -> bool {
    match response.message {
        Some(Message::AgentRegistration(answer)) => if !answer.accepted {
            r matches Err(AgentError::Rejected(why)) && why@ == answer.rejection_reason@
        } else if registration_fits(request.server_id.0@, response.server_id@, answer, limits) {
            r matches Ok(link) && link@ == (LinkView {
                server_id: request.server_id,
                max_frame_bytes: answer.max_frame_bytes,
                keepalive_interval_ms: answer.keepalive_interval_ms,
                streams: 0,
                limits,
            })
        } else {
            r matches Err(e) && e is UnexpectedResponse
        },
        _ => r matches Err(e) && e is UnexpectedResponse,
    }
}

/// What a control message leads to.
pub open spec fn control_outcome(
    link: LinkView,
    request: Envelope,
    public: Seq<u8>,
    audience: Seq<char>,
    now_ms: i64,
    step: ControlStep,
) -> bool {
    let here = link.server_id.0@;
    if request.server_id@.len() != 16 {
        step == (ControlStep::Close { reply: None, error: AgentError::ServerIdentityMismatch })
    } else if request.server_id@ != here {
        &&& step matches ControlStep::Close { reply: Some(reply), error }
        &&& error is ServerIdentityMismatch
        &&& on_link(reply, request.request_id, here)
        &&& carries_error(reply, (ErrorCode::ErrForbidden, "server identity mismatch"@, false))
    } else {
        match request.message {
            Some(Message::AgentPing { nonce }) => {
                &&& step matches ControlStep::Reply { reply, action }
                &&& on_link(reply, request.request_id, here)
                &&& reply.message == Some(Message::AgentPong { nonce })
                &&& action == AgentAction::Ping(nonce)
            },
            Some(Message::AgentOpenShell(open)) => match open_checked(
                open,
                public,
                audience,
                here,
                link.limits,
                now_ms,
            ) {
                Ok(_) => {
                    &&& step matches ControlStep::OpenShell { request_id, request: local }
                    &&& request_id == request.request_id
                    &&& is_request_for(local, open)
                },
                Err(e) => {
                    &&& step matches ControlStep::Reply { reply, action }
                    &&& on_link(reply, request.request_id, here)
                    &&& carries_error(reply, validation_refusal(e))
                    &&& action == (AgentAction::ShellRejected { code: validation_refusal(e).0 })
                },
            },
            _ => {
                &&& step matches ControlStep::Reply { reply, action }
                &&& on_link(reply, request.request_id, here)
                &&& carries_error(
                    reply,
                    (ErrorCode::ErrUnknownMessage, "unexpected agent control message"@, false),
                )
                &&& action is UnknownRejected
            },
        }
    }
}

impl RegisteredLink {
    /// Whether no more streams are served than may be.
    pub closed spec fn wf(&self) -> bool {
        self.streams <= AGENT_ATTACHMENT_STREAMS_MAX
    }

    /// The link that a gateway's answer to a registration makes, if it does.
    pub fn connect(request: &RegistrationRequest, response: Envelope, limits: AgentLimits) -> (r:
        Result<RegisteredLink, AgentError>)
        ensures
            connect_outcome(*request, response, limits, r),
            r matches Ok(link) ==> link.wf(),
    {
        match response.message {
            Some(Message::AgentRegistration(answer)) => {
                validate_registration(
                    request.server_id,
                    response.server_id.as_slice(),
                    &answer,
                    &limits,
                )?;
                Ok(
                    RegisteredLink {
                        server_id: request.server_id,
                        max_frame_bytes: answer.max_frame_bytes,
                        keepalive_interval_ms: answer.keepalive_interval_ms,
                        streams: 0,
                        limits,
                    },
                )
            },
            _ => Err(AgentError::UnexpectedResponse),
        }
    }

    /// The server that is registered.
    pub fn server_id(&self) -> (r: ServerId)
        ensures
            r == self@.server_id,
    {
        self.server_id
    }

    /// The largest control frame of the link.
    pub fn max_frame_bytes(&self) -> (r: u32)
        ensures
            r == self@.max_frame_bytes,
    {
        self.max_frame_bytes
    }

    /// How often the link must show that it is alive.
    pub fn keepalive_interval_ms(&self) -> (r: u32)
        ensures
            r == self@.keepalive_interval_ms,
    {
        self.keepalive_interval_ms
    }

    /// A keepalive; its answer goes through [`crate::agent::check_pong`].
    pub fn ping(&self, nonce: u64) -> (r: Envelope)
        ensures
            on_link(r, 0, self@.server_id.0@),
            r.message == Some(Message::AgentPing { nonce }),
    {
        self.reply(0, Message::AgentPing { nonce })
    }

    /// Whether another attachment stream is served, which then takes a place.
    pub fn accept_stream(&mut self) -> (r: bool)
        requires
            old(self).wf(),
        ensures
            final(self).wf(),
            r <==> old(self)@.streams < AGENT_ATTACHMENT_STREAMS_MAX,
            final(self)@ == (LinkView {
                streams: if r {
                    old(self)@.streams + 1
                } else {
                    old(self)@.streams
                },
                ..old(self)@
            }),
    {
        if self.streams < AGENT_ATTACHMENT_STREAMS_MAX {
            self.streams = self.streams + 1;
            true
        } else {
            false
        }
    }

    /// An attachment stream ended, and its place is free.
    pub fn stream_ended(&mut self)
        requires
            old(self).wf(),
            old(self)@.streams > 0,
        ensures
            final(self).wf(),
            final(self)@ == (LinkView { streams: (old(self)@.streams - 1) as nat, ..old(self)@ }),
    {
        self.streams = self.streams - 1;
    }

    /// A link never serves more attachment streams than it may.
    pub proof fn streams_are_bounded(&self)
        requires
            self.wf(),
        ensures
            self@.streams <= AGENT_ATTACHMENT_STREAMS_MAX,
    {
    }

    fn reply(&self, request_id: u64, message: Message) -> (r: Envelope)
        ensures
            on_link(r, request_id, self@.server_id.0@),
            r.message == Some(message),
    {
        Envelope {
            request_id,
            server_id: self.server_id.to_wire(),
            shell_id: Vec::new(),
            message: Some(message),
        }
    }

    fn error(&self, request_id: u64, refusal: &Refusal) -> (r: Envelope)
        ensures
            on_link(r, request_id, self@.server_id.0@),
            carries_error(r, refusal_view(*refusal)),
    {
        self.reply(
            request_id,
            Message::Error {
                code: refusal.code,
                human_message: refusal.text.to_owned(),
                retryable: refusal.retryable,
            },
        )
    }

    /// What a control message leads to. A message that names another server
    /// closes the link.
    pub fn serve_next(
        &self,
        request: Envelope,
        verify_key: &GrantVerifier,
        grant_audience: &str,
        now_ms: i64,
    ) -> (step: ControlStep)
        ensures
            control_outcome(
                self@,
                request,
                verify_key.public(),
                grant_audience@,
                now_ms,
                step,
            ),
    {
        let request_id: u64 = request.request_id;
        let scoped: ServerId = match ServerId::from_wire(request.server_id.as_slice()) {
            Some(id) => id,
            None => {
                return ControlStep::Close {
                    reply: None,
                    error: AgentError::ServerIdentityMismatch,
                };
            },
        };
        proof {
            assert(scoped.0@ == request.server_id@);
            if scoped.0@ == self.server_id.0@ {
                assert(scoped.0 =~= self.server_id.0);
            }
        }
        if !scoped.same(&self.server_id) {
            return ControlStep::Close {
                reply: Some(
                    self.error(
                        request_id,
                        &Refusal {
                            code: ErrorCode::ErrForbidden,
                            text: "server identity mismatch",
                            retryable: false,
                        },
                    ),
                ),
                error: AgentError::ServerIdentityMismatch,
            };
        }
        match request.message {
            Some(Message::AgentPing { nonce }) => ControlStep::Reply {
                reply: self.reply(request_id, Message::AgentPong { nonce }),
                action: AgentAction::Ping(nonce),
            },
            Some(Message::AgentOpenShell(open)) => match validate_open_request(
                open,
                verify_key,
                grant_audience,
                self.server_id,
                &self.limits,
                now_ms,
            ) {
                Ok(request) => ControlStep::OpenShell { request_id, request },
                Err(e) => {
                    let refusal: Refusal = map_open_validation_error(e);
                    ControlStep::Reply {
                        reply: self.error(request_id, &refusal),
                        action: AgentAction::ShellRejected { code: refusal.code },
                    }
                },
            },
            _ => ControlStep::Reply {
                reply: self.error(
                    request_id,
                    &Refusal {
                        code: ErrorCode::ErrUnknownMessage,
                        text: "unexpected agent control message",
                        retryable: false,
                    },
                ),
                action: AgentAction::UnknownRejected,
            },
        }
    }

    /// A shell is opened for the gateway, or was refused.
    pub fn shell_opened(&self, request_id: u64, result: Result<OpenedShell, SessionError>) -> (r: (
        Envelope,
        AgentAction,
    ))
        ensures
            on_link(r.0, request_id, self@.server_id.0@),
            match result {
                Ok(opened) => {
                    &&& r.0.message matches Some(Message::AgentShellOpened { shell_id, reused })
                    &&& shell_id@ == opened.shell_id.0@
                    &&& reused == opened.reused
                    &&& r.1 == (AgentAction::ShellOpened {
                        shell_id: opened.shell_id,
                        reused: opened.reused,
                    })
                },
                Err(e) => {
                    &&& carries_error(r.0, open_refusal(e.kind))
                    &&& r.1 == (AgentAction::ShellRejected { code: open_refusal(e.kind).0 })
                },
            },
    {
        match result {
            Ok(opened) => (
                self.reply(
                    request_id,
                    Message::AgentShellOpened {
                        shell_id: opened.shell_id.to_wire(),
                        reused: opened.reused,
                    },
                ),
                AgentAction::ShellOpened { shell_id: opened.shell_id, reused: opened.reused },
            ),
            Err(e) => {
                let refusal: Refusal = map_session_error(&e);
                (
                    self.error(request_id, &refusal),
                    AgentAction::ShellRejected { code: refusal.code },
                )
            },
        }
    }
}

/// What follows on an attachment stream.
#[derive(Debug, Clone, PartialEq, Eq)]
pub enum StreamNext {
    /// Wait for the next event.
    Continue,
    /// The stream ends well.
    Done,
    /// The stream ends with an error.
    Failed(AgentError),
    /// Attach a user to a shell; then [`AttachmentStream::attached`].
    Attach { user_id: String, shell_id: ShellId, cols: u16, rows: u16, expires_at_ms: i64 },
    /// Write to a shell; then [`AttachmentStream::operated`].
    WriteInput { request_id: u64, shell_id: ShellId, data: Vec<u8> },
    /// Resize its terminal; then [`AttachmentStream::operated`].
    Resize { request_id: u64, shell_id: ShellId, cols: u16, rows: u16 },
    /// Read its scrollback; then [`AttachmentStream::history_read`].
    ReadHistory {
        request_id: u64,
        shell_id: ShellId,
        before_line_id: u64,
        maximum_lines: u32,
        maximum_bytes: u32,
    },
}

/// What an event on an attachment stream leads to.
#[derive(Debug, Clone, PartialEq, Eq)]
pub struct StreamStep {
    /// What is sent first, in order.
    pub replies: Vec<Envelope>,
    /// What follows.
    pub next: StreamNext,
}

/// The shell that an envelope names, on a stream of a server.
pub open spec fn attachment_scope(envelope: Envelope, server_id: Seq<u8>) -> Result<
    Seq<u8>,
    AgentError,
> {
    if envelope.server_id@ != server_id {
        Err(AgentError::ServerIdentityMismatch)
    } else if envelope.shell_id@.len() != 16 {
        Err(AgentError::AttachmentIdentityMismatch)
    } else {
        Ok(envelope.shell_id@)
    }
}

/// The shell that an envelope names, on a stream of a server.
pub fn validate_attachment_scope(envelope: &Envelope, server_id: ServerId) -> (r: Result<
    ShellId,
    AgentError,
>)
    ensures
        match attachment_scope(*envelope, server_id.0@) {
            Ok(id) => r matches Ok(shell) && shell.0@ == id,
            Err(e) => r == Err::<ShellId, AgentError>(e),
        },
{
    let named: bool = match ServerId::from_wire(envelope.server_id.as_slice()) {
        Some(id) => {
            proof {
                if id.0@ == server_id.0@ {
                    assert(id.0 =~= server_id.0);
                }
            }
            id.same(&server_id)
        },
        None => false,
    };
    if !named {
        return Err(AgentError::ServerIdentityMismatch);
    }
    match ShellId::from_wire(envelope.shell_id.as_slice()) {
        Some(shell) => Ok(shell),
        None => Err(AgentError::AttachmentIdentityMismatch),
    }
}

/// A stream that a gateway opened for a shell.
#[derive(Debug)]
pub struct AttachmentStream {
    pub server_id: ServerId,
    pub shell_id: ShellId,
    pub limits: AgentLimits,
    /// The attachment that the stream holds, once there is one.
    pub attachment_id: Option<u64>,
}

fn silent(next: StreamNext) -> (r: StreamStep)
    ensures
        r.replies@.len() == 0,
        r.next == next,
{
    StreamStep { replies: Vec::new(), next }
}

/// Whether a step sends one error and leads on.
pub open spec fn stream_refuses(
    step: StreamStep,
    request_id: u64,
    server_id: Seq<u8>,
    shell_id: Seq<u8>,
    refusal: (ErrorCode, Seq<char>, bool),
    next: StreamNext,
) -> bool {
    &&& step.replies@.len() == 1
    &&& on_stream(step.replies@[0], request_id, server_id, shell_id)
    &&& carries_error(step.replies@[0], refusal)
    &&& step.next == next
}

/// Whether a step sends nothing and leads on.
pub open spec fn stream_leads(step: StreamStep, next: StreamNext) -> bool {
    step.replies@.len() == 0 && step.next == next
}

/// What the first message of a stream leads to.
pub open spec fn first_outcome(
    first: Envelope,
    server_id: Seq<u8>,
    public: Seq<u8>,
    audience: Seq<char>,
    limits: AgentLimits,
    now_ms: i64,
    step: StreamStep,
) -> bool {
    match attachment_scope(first, server_id) {
        Err(e) => stream_leads(step, StreamNext::Failed(e)),
        Ok(shell_id) => match first.message {
            Some(Message::AgentAttachShell(request)) => match attach_checked(
                request,
                public,
                audience,
                server_id,
                limits,
                now_ms,
            ) {
                Err(e) => stream_refuses(
                    step,
                    first.request_id,
                    server_id,
                    shell_id,
                    validation_refusal(e),
                    StreamNext::Done,
                ),
                Ok(c) => {
                    &&& step.replies@.len() == 0
                    &&& step.next matches StreamNext::Attach {
                        user_id,
                        shell_id: named,
                        cols,
                        rows,
                        expires_at_ms,
                    }
                    &&& user_id@ == request.user_id@
                    &&& named.0@ == shell_id
                    &&& cols == request.cols
                    &&& rows == request.rows
                    &&& expires_at_ms == c.exp_ms
                },
            },
            _ => stream_refuses(
                step,
                first.request_id,
                server_id,
                shell_id,
                (
                    ErrorCode::ErrUnknownMessage,
                    "attachment stream must begin with attach"@,
                    false,
                ),
                StreamNext::Failed(AgentError::UnexpectedAttachmentMessage),
            ),
        },
    }
}

/// What a later message of a stream leads to. It must name the same shell.
pub open spec fn frame_outcome(stream: AttachmentStream, envelope: Envelope, step: StreamStep) -> bool {
    let server = stream.server_id.0@;
    let shell = stream.shell_id.0@;
    let id = envelope.request_id;
    match attachment_scope(envelope, server) {
        Err(e) => stream_leads(step, StreamNext::Failed(e)),
        Ok(named) => if named != shell {
            stream_leads(step, StreamNext::Failed(AgentError::AttachmentIdentityMismatch))
        } else {
            match envelope.message {
                Some(Message::TerminalInput { data }) => if data@.len()
                    > stream.limits.terminal_input_bytes_max {
                    stream_refuses(
                        step,
                        id,
                        server,
                        shell,
                        (ErrorCode::ErrInputOverflow, "terminal input frame too large"@, false),
                        StreamNext::Done,
                    )
                } else {
                    stream_leads(
                        step,
                        StreamNext::WriteInput { request_id: id, shell_id: stream.shell_id, data },
                    )
                },
                Some(Message::TerminalResize { cols, rows }) => if cols > 0xffff || rows > 0xffff {
                    stream_refuses(
                        step,
                        id,
                        server,
                        shell,
                        (ErrorCode::ErrUnknownMessage, "invalid terminal dimensions"@, false),
                        StreamNext::Done,
                    )
                } else {
                    stream_leads(
                        step,
                        StreamNext::Resize {
                            request_id: id,
                            shell_id: stream.shell_id,
                            cols: cols as u16,
                            rows: rows as u16,
                        },
                    )
                },
                Some(Message::RequestHistory { before_line_id, maximum_lines, maximum_bytes }) =>
                    stream_leads(
                        step,
                        StreamNext::ReadHistory {
                            request_id: id,
                            shell_id: stream.shell_id,
                            before_line_id,
                            maximum_lines: crate::conn::least(
                                maximum_lines,
                                stream.limits.history_lines_max,
                            ),
                            maximum_bytes: crate::conn::least(
                                maximum_bytes,
                                stream.limits.attachment_frame_bytes_max / 2,
                            ),
                        },
                    ),
                Some(Message::DetachShell) => stream_leads(step, StreamNext::Done),
                _ => stream_refuses(
                    step,
                    id,
                    server,
                    shell,
                    (ErrorCode::ErrUnknownMessage, "unexpected attachment message"@, false),
                    StreamNext::Done,
                ),
            }
        },
    }
}

impl AttachmentStream {
    fn reply(&self, request_id: u64, message: Message) -> (r: Envelope)
        ensures
            on_stream(r, request_id, self.server_id.0@, self.shell_id.0@),
            r.message == Some(message),
    {
        Envelope {
            request_id,
            server_id: self.server_id.to_wire(),
            shell_id: self.shell_id.to_wire(),
            message: Some(message),
        }
    }

    fn refuse(&self, request_id: u64, refusal: &Refusal, next: StreamNext) -> (r: StreamStep)
        ensures
            stream_refuses(
                r,
                request_id,
                self.server_id.0@,
                self.shell_id.0@,
                refusal_view(*refusal),
                next,
            ),
    {
        let mut replies: Vec<Envelope> = Vec::new();
        replies.push(
            self.reply(
                request_id,
                Message::Error {
                    code: refusal.code,
                    human_message: refusal.text.to_owned(),
                    retryable: refusal.retryable,
                },
            ),
        );
        StreamStep { replies, next }
    }

    fn answer(&self, request_id: u64, message: Message, next: StreamNext) -> (r: StreamStep)
        ensures
            r.replies@.len() == 1,
            on_stream(r.replies@[0], request_id, self.server_id.0@, self.shell_id.0@),
            r.replies@[0].message == Some(message),
            r.next == next,
    {
        let mut replies: Vec<Envelope> = Vec::new();
        replies.push(self.reply(request_id, message));
        StreamStep { replies, next }
    }

    /// The first message of a stream, which must ask for an attachment.
    pub fn begin(
        first: Envelope,
        server_id: ServerId,
        verify_key: &GrantVerifier,
        audience: &str,
        limits: AgentLimits,
        now_ms: i64,
    ) -> (r: (StreamStep, Option<AttachmentStream>))
        ensures
            first_outcome(
                first,
                server_id.0@,
                verify_key.public(),
                audience@,
                limits,
                now_ms,
                r.0,
            ),
            r.1 is Some <==> attachment_scope(first, server_id.0@) is Ok,
            r.1 matches Some(s) ==> s.server_id == server_id && s.shell_id.0@ == first.shell_id@
                && s.limits == limits && s.attachment_id is None,
    {
        let request_id: u64 = first.request_id;
        let shell_id: ShellId = match validate_attachment_scope(&first, server_id) {
            Ok(shell_id) => shell_id,
            Err(e) => {
                return (silent(StreamNext::Failed(e)), None);
            },
        };
        let stream = AttachmentStream { server_id, shell_id, limits, attachment_id: None };
        let step: StreamStep = match first.message {
            Some(Message::AgentAttachShell(request)) => match validate_attach_request(
                request,
                verify_key,
                audience,
                server_id,
                &limits,
                now_ms,
            ) {
                Ok(a) => silent(
                    StreamNext::Attach {
                        user_id: a.user_id,
                        shell_id,
                        cols: a.cols,
                        rows: a.rows,
                        expires_at_ms: a.expires_at_ms,
                    },
                ),
                Err(e) => {
                    let refusal: Refusal = map_open_validation_error(e);
                    stream.refuse(request_id, &refusal, StreamNext::Done)
                },
            },
            _ => stream.refuse(
                request_id,
                &Refusal {
                    code: ErrorCode::ErrUnknownMessage,
                    text: "attachment stream must begin with attach",
                    retryable: false,
                },
                StreamNext::Failed(AgentError::UnexpectedAttachmentMessage),
            ),
        };
        (step, Some(stream))
    }

    /// The shell is attached, or was refused.
    pub fn attached(&mut self, request_id: u64, result: Result<Attachment, SessionError>) -> (step:
        StreamStep)
        ensures
            *final(self) == (AttachmentStream {
                attachment_id: match result {
                    Ok(a) => Some(a.attachment_id),
                    Err(_) => old(self).attachment_id,
                },
                ..*old(self)
            }),
            match result {
                Err(e) => stream_refuses(
                    step,
                    request_id,
                    old(self).server_id.0@,
                    old(self).shell_id.0@,
                    attachment_refusal(e.kind),
                    StreamNext::Done,
                ),
                Ok(a) => {
                    &&& step.replies@.len() == 1
                    &&& on_stream(
                        step.replies@[0],
                        request_id,
                        old(self).server_id.0@,
                        old(self).shell_id.0@,
                    )
                    &&& step.replies@[0].message == Some(
                        Message::AgentShellAttached {
                            screen_snapshot: a.snapshot,
                            screen_revision: a.screen_revision,
                            oldest_history_line_id: a.oldest_history_line_id,
                            newest_history_line_id: a.newest_history_line_id,
                        },
                    )
                    &&& step.next is Continue
                },
            },
    {
        match result {
            Err(e) => {
                let refusal: Refusal = map_attachment_session_error(&e);
                self.refuse(request_id, &refusal, StreamNext::Done)
            },
            Ok(a) => {
                self.attachment_id = Some(a.attachment_id);
                self.answer(
                    request_id,
                    Message::AgentShellAttached {
                        screen_snapshot: a.snapshot,
                        screen_revision: a.screen_revision,
                        oldest_history_line_id: a.oldest_history_line_id,
                        newest_history_line_id: a.newest_history_line_id,
                    },
                    StreamNext::Continue,
                )
            },
        }
    }

    /// The stream is over, however it ended: the attachment that it held, if it
    /// held one, is to be detached. The shell runs on.
    pub fn ended(self) -> (r: Option<(ShellId, u64)>)
        ensures
            r == (match self.attachment_id {
                Some(id) => Some((self.shell_id, id)),
                None => None,
            }),
    {
        match self.attachment_id {
            Some(id) => Some((self.shell_id, id)),
            None => None,
        }
    }

    /// A later message of the stream.
    pub fn frame(&self, envelope: Envelope) -> (step: StreamStep)
        ensures
            frame_outcome(*self, envelope, step),
    {
        let request_id: u64 = envelope.request_id;
        let named: ShellId = match validate_attachment_scope(&envelope, self.server_id) {
            Ok(named) => named,
            Err(e) => {
                return silent(StreamNext::Failed(e));
            },
        };
        proof {
            if named.0@ == self.shell_id.0@ {
                assert(named.0 =~= self.shell_id.0);
            }
        }
        if !named.same(&self.shell_id) {
            return silent(StreamNext::Failed(AgentError::AttachmentIdentityMismatch));
        }
        match envelope.message {
            Some(Message::TerminalInput { data }) => {
                if data.len() > self.limits.terminal_input_bytes_max {
                    self.refuse(
                        request_id,
                        &Refusal {
                            code: ErrorCode::ErrInputOverflow,
                            text: "terminal input frame too large",
                            retryable: false,
                        },
                        StreamNext::Done,
                    )
                } else {
                    silent(StreamNext::WriteInput { request_id, shell_id: self.shell_id, data })
                }
            },
            Some(Message::TerminalResize { cols, rows }) => {
                if cols > 0xffff || rows > 0xffff {
                    self.refuse(
                        request_id,
                        &Refusal {
                            code: ErrorCode::ErrUnknownMessage,
                            text: "invalid terminal dimensions",
                            retryable: false,
                        },
                        StreamNext::Done,
                    )
                } else {
                    silent(
                        StreamNext::Resize {
                            request_id,
                            shell_id: self.shell_id,
                            cols: cols as u16,
                            rows: rows as u16,
                        },
                    )
                }
            },
            Some(Message::RequestHistory { before_line_id, maximum_lines, maximum_bytes }) => {
                let half: u32 = self.limits.attachment_frame_bytes_max / 2;
                silent(
                    StreamNext::ReadHistory {
                        request_id,
                        shell_id: self.shell_id,
                        before_line_id,
                        maximum_lines: if maximum_lines < self.limits.history_lines_max {
                            maximum_lines
                        } else {
                            self.limits.history_lines_max
                        },
                        maximum_bytes: if maximum_bytes < half {
                            maximum_bytes
                        } else {
                            half
                        },
                    },
                )
            },
            Some(Message::DetachShell) => silent(StreamNext::Done),
            _ => self.refuse(
                request_id,
                &Refusal {
                    code: ErrorCode::ErrUnknownMessage,
                    text: "unexpected attachment message",
                    retryable: false,
                },
                StreamNext::Done,
            ),
        }
    }

    /// Input was written or the terminal resized; `Some` where the shell manager
    /// refused it, which ends the stream.
    pub fn operated(&self, request_id: u64, error: Option<SessionError>) -> (step: StreamStep)
        ensures
            match error {
                None => stream_leads(step, StreamNext::Continue),
                Some(e) => stream_refuses(
                    step,
                    request_id,
                    self.server_id.0@,
                    self.shell_id.0@,
                    attachment_refusal(e.kind),
                    StreamNext::Done,
                ),
            },
    {
        match error {
            None => silent(StreamNext::Continue),
            Some(e) => {
                let refusal: Refusal = map_attachment_session_error(&e);
                self.refuse(request_id, &refusal, StreamNext::Done)
            },
        }
    }

    /// Scrollback is read, together with the oldest line that there is, where
    /// that is known. A refusal does not end the stream.
    pub fn history_read(
        &self,
        request_id: u64,
        result: Result<(HistoryRange, Option<u64>), SessionError>,
    ) -> (step: StreamStep)
        ensures
            match result {
                Err(e) => stream_refuses(
                    step,
                    request_id,
                    self.server_id.0@,
                    self.shell_id.0@,
                    attachment_refusal(e.kind),
                    StreamNext::Continue,
                ),
                Ok((range, oldest)) => {
                    &&& step.replies@.len() == 2
                    &&& on_stream(
                        step.replies@[0],
                        request_id,
                        self.server_id.0@,
                        self.shell_id.0@,
                    )
                    &&& step.replies@[0].message == Some(
                        Message::HistoryChunk {
                            first_line_id: range.first_line_id,
                            lines: range.lines,
                            truncated_by_eviction: range.truncated_by_eviction,
                        },
                    )
                    &&& on_stream(
                        step.replies@[1],
                        request_id,
                        self.server_id.0@,
                        self.shell_id.0@,
                    )
                    &&& step.replies@[1].message == Some(
                        Message::HistoryEnd {
                            oldest_available_line_id: match oldest {
                                Some(line) => line,
                                None => 0,
                            },
                        },
                    )
                    &&& step.next is Continue
                },
            },
    {
        match result {
            Err(e) => {
                let refusal: Refusal = map_attachment_session_error(&e);
                self.refuse(request_id, &refusal, StreamNext::Continue)
            },
            Ok((range, oldest)) => {
                let mut step: StreamStep = self.answer(
                    request_id,
                    Message::HistoryChunk {
                        first_line_id: range.first_line_id,
                        lines: range.lines,
                        truncated_by_eviction: range.truncated_by_eviction,
                    },
                    StreamNext::Continue,
                );
                step.replies.push(
                    self.reply(
                        request_id,
                        Message::HistoryEnd {
                            oldest_available_line_id: match oldest {
                                Some(line) => line,
                                None => 0,
                            },
                        },
                    ),
                );
                step
            },
        }
    }

    /// The shell did something; `None` where no more events follow, since the
    /// gateway was too slow.
    pub fn event(&self, event: Option<AttachmentEvent>) -> (step: StreamStep)
        ensures
            match event {
                Some(AttachmentEvent::Output(data)) => if data@.len()
                    > self.limits.terminal_output_bytes_max {
                    stream_leads(
                        step,
                        StreamNext::Failed(
                            AgentError::OversizedTerminalOutput(data@.len() as usize),
                        ),
                    )
                } else {
                    &&& step.replies@.len() == 1
                    &&& on_stream(step.replies@[0], 0, self.server_id.0@, self.shell_id.0@)
                    &&& step.replies@[0].message == Some(Message::TerminalOutput { data })
                    &&& step.next is Continue
                },
                Some(AttachmentEvent::Exited(exit)) => {
                    &&& step.replies@.len() == 1
                    &&& on_stream(step.replies@[0], 0, self.server_id.0@, self.shell_id.0@)
                    &&& step.replies@[0].message matches Some(
                        Message::ShellExited { exit_code, signaled, signal },
                    )
                    &&& exit_code == signed_code(exit.exit_code)
                    &&& signaled == (!exit.success && exit.exit_code == 0)
                    &&& signal@.len() == 0
                    &&& step.next is Done
                },
                None => stream_refuses(
                    step,
                    0,
                    self.server_id.0@,
                    self.shell_id.0@,
                    (ErrorCode::ErrTooSlow, "attachment output queue exceeded"@, true),
                    StreamNext::Done,
                ),
            },
    {
        match event {
            Some(AttachmentEvent::Output(data)) => {
                if data.len() > self.limits.terminal_output_bytes_max {
                    silent(StreamNext::Failed(AgentError::OversizedTerminalOutput(data.len())))
                } else {
                    self.answer(0, Message::TerminalOutput { data }, StreamNext::Continue)
                }
            },
            Some(AttachmentEvent::Exited(exit)) => self.answer(
                0,
                Message::ShellExited {
                    exit_code: exit_code_wire(exit.exit_code),
                    signaled: !exit.success && exit.exit_code == 0,
                    signal: String::new(),
                },
                StreamNext::Done,
            ),
            None => self.refuse(
                0,
                &Refusal {
                    code: ErrorCode::ErrTooSlow,
                    text: "attachment output queue exceeded",
                    retryable: true,
                },
                StreamNext::Done,
            ),
        }
    }

    /// The grant that the stream was opened with ran out.
    pub fn expired(&self) -> (step: StreamStep)
        ensures
            stream_refuses(
                step,
                0,
                self.server_id.0@,
                self.shell_id.0@,
                (ErrorCode::ErrTokenExpired, "connection grant expired"@, true),
                StreamNext::Done,
            ),
    {
        self.refuse(
            0,
            &Refusal {
                code: ErrorCode::ErrTokenExpired,
                text: "connection grant expired",
                retryable: true,
            },
            StreamNext::Done,
        )
    }
}

/// How long a stream may stay open on its grant: until it runs out, and not at
/// all where it has.
pub fn remaining_ms(expires_at_ms: i64, now_ms: i64) -> (r: u64)
    ensures
        r == (if expires_at_ms <= now_ms {
            0int
        } else if expires_at_ms - now_ms > i64::MAX {
            i64::MAX as int
        } else {
            expires_at_ms - now_ms
        }),
{
    if expires_at_ms <= now_ms {
        0
    } else if now_ms < 0 && expires_at_ms > i64::MAX + now_ms {
        i64::MAX as u64
    } else {
        (expires_at_ms - now_ms) as u64
    }
}

/// The shell that the shell manager is asked about, if it is.
pub open spec fn asked_about(next: StreamNext) -> Option<ShellId> {
    match next {
        StreamNext::Attach { shell_id, .. } => Some(shell_id),
        StreamNext::WriteInput { shell_id, .. } => Some(shell_id),
        StreamNext::Resize { shell_id, .. } => Some(shell_id),
        StreamNext::ReadHistory { shell_id, .. } => Some(shell_id),
        _ => None,
    }
}

/// A stream carries nothing of another shell: whatever is asked of the shell
/// manager is about this stream's own shell, and was named by its own server and
/// shell.
pub proof fn streams_keep_to_their_shell(
    stream: AttachmentStream,
    envelope: Envelope,
    step: StreamStep,
)
    requires
        frame_outcome(stream, envelope, step),
        asked_about(step.next) is Some,
    ensures
        asked_about(step.next) == Some(stream.shell_id),
        envelope.server_id@ == stream.server_id.0@,
        envelope.shell_id@ == stream.shell_id.0@,
{
}

/// No shell is opened for a gateway without a grant for it.
pub proof fn opening_needs_a_grant(
    link: LinkView,
    request: Envelope,
    public: Seq<u8>,
    audience: Seq<char>,
    now_ms: i64,
    step: ControlStep,
)
    requires
        control_outcome(link, request, public, audience, now_ms, step),
        step is OpenShell,
    ensures
        request.server_id@ == link.server_id.0@,
        request.message matches Some(Message::AgentOpenShell(open)) && open_checked(
            open,
            public,
            audience,
            link.server_id.0@,
            link.limits,
            now_ms,
        ) is Ok,
{
}

} // verus!
