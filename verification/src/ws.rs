//! The transport over WebSocket messages: what each leads to.

use vstd::prelude::*;

use crate::protocol::{error_envelope, Envelope, ErrorCode};
use crate::text::{decimal_nat, push_decimal, push_text};
use crate::wire::{decode_message, message_decoded, WireError};

verus! {

/// A message of the socket.
#[derive(Debug, Clone, PartialEq, Eq)]
pub enum WsInput {
    Binary(Vec<u8>),
    Close,
    /// Text and pings, which carry nothing here.
    Other,
}

/// What a message leads to.
#[derive(Debug, Clone, PartialEq, Eq)]
pub enum WsStep {
    /// Hand the frame's payload to the connection.
    Dispatch { channel: u64, payload: Vec<u8> },
    /// Read on.
    Ignore,
    /// Close.
    Close,
    /// Tell the peer what was wrong with its message, and close.
    Refuse { text: String },
}

impl WireError {
    /// The error as a text.
    pub open spec fn spec_text(self) -> Seq<char> {
        match self {
            WireError::BadVarint => "truncated or oversized varint channel prefix"@,
            WireError::FrameTooLarge { len, max } => "frame of "@ + decimal_nat(len as nat)
                + " bytes exceeds the limit of "@ + decimal_nat(max as nat),
            WireError::NotExactlyOneFrame => {
                "websocket message did not contain exactly one frame"@
            },
        }
    }

    /// The error as a text.
    pub fn text(&self) -> (r: String)
        ensures
            r@ == self.spec_text(),
    {
        match self {
            WireError::BadVarint => "truncated or oversized varint channel prefix".to_owned(),
            WireError::NotExactlyOneFrame => {
                "websocket message did not contain exactly one frame".to_owned()
            },
            WireError::FrameTooLarge { len, max } => {
                let mut out: String = "frame of ".to_owned();
                push_decimal(&mut out, *len);
                push_text(&mut out, " bytes exceeds the limit of ");
                push_decimal(&mut out, *max as u64);
                assert(out@ =~= self.spec_text());
                out
            },
        }
    }
}

/// What a message leads to. A binary one holds one frame for one channel; what
/// does not ends the connection.
pub fn ws_message(input: WsInput, max_frame_bytes: u32) -> (r: WsStep)
    ensures
        input is Close ==> r == WsStep::Close,
        input is Other ==> r == WsStep::Ignore,
        input matches WsInput::Binary(data) ==> match message_decoded(data@, max_frame_bytes) {
            Ok((c, p)) => r matches WsStep::Dispatch { channel, payload } && channel == c
                && payload@ == p,
            Err(e) => r matches WsStep::Refuse { text } && text@ == e.spec_text(),
        },
{
    match input {
        WsInput::Close => WsStep::Close,
        WsInput::Other => WsStep::Ignore,
        WsInput::Binary(data) => match decode_message(data.as_slice(), max_frame_bytes) {
            Ok((channel, payload)) => WsStep::Dispatch { channel, payload },
            Err(e) => WsStep::Refuse { text: e.text() },
        },
    }
}

/// What a peer is told whose message was refused.
pub fn refusal(text: &str) -> (r: Envelope)
    ensures
        r.is_error(0, ErrorCode::ErrFrameTooLarge, text@, false),
{
    error_envelope(0, ErrorCode::ErrFrameTooLarge, text, false)
}

} // verus!
