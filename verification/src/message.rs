//! Tunnel messages and their wire frames.

use vstd::prelude::*;
use vstd::utf8::*;

verus! {

/// Opcode of a text frame.
pub const OPCODE_TEXT: u8 = 1;

/// Opcode of a binary frame.
pub const OPCODE_BINARY: u8 = 2;

/// Opcode of a close control frame.
pub const OPCODE_CLOSE: u8 = 8;

/// Opcode of a pong control frame.
pub const OPCODE_PONG: u8 = 10;

/// The unit that moves through a connection's queue.
#[derive(Clone, Debug, PartialEq, Eq)]
pub enum WsMessage {
    Text(String),
    Binary(Vec<u8>),
    /// A pong carrying the given data.
    Pong(Vec<u8>),
    /// A close with a status code and a reason.
    Close(u16, String),
}

/// Mathematical value of a [`WsMessage`].
pub enum MessageView {
    Text(Seq<char>),
    Binary(Seq<u8>),
    Pong(Seq<u8>),
    Close(u16, Seq<char>),
}

impl View for WsMessage {
    type V = MessageView;

    open spec fn view(&self) -> MessageView {
        match self {
            WsMessage::Text(text) => MessageView::Text(text@),
            WsMessage::Binary(data) => MessageView::Binary(data@),
            WsMessage::Pong(data) => MessageView::Pong(data@),
            WsMessage::Close(code, reason) => MessageView::Close(*code, reason@),
        }
    }
}

/// A single unfragmented, unmasked transport frame, held as plain values.
#[derive(Clone, Debug, PartialEq, Eq)]
pub struct WireFrame {
    /// Whether this frame ends its message.
    pub fin: bool,
    /// The frame's opcode number.
    pub opcode: u8,
    pub payload: Vec<u8>,
}

/// Mathematical value of a [`WireFrame`].
pub struct FrameView {
    pub fin: bool,
    pub opcode: u8,
    pub payload: Seq<u8>,
}

impl View for WireFrame {
    type V = FrameView;

    open spec fn view(&self) -> FrameView {
        FrameView { fin: self.fin, opcode: self.opcode, payload: self.payload@ }
    }
}

/// The two bytes of a close status code, most significant first.
pub open spec fn status_bytes(code: u16) -> Seq<u8> {
    seq![(code / 256) as u8, (code % 256) as u8]
}

impl MessageView {
    /// The opcode of the frame that carries this message.
    pub open spec fn opcode(self) -> u8 {
        match self {
            MessageView::Text(_) => OPCODE_TEXT,
            MessageView::Binary(_) => OPCODE_BINARY,
            MessageView::Pong(_) => OPCODE_PONG,
            MessageView::Close(_, _) => OPCODE_CLOSE,
        }
    }

    /// The payload of the frame that carries this message: text as UTF-8,
    /// data as it is, a close as its status code followed by the reason.
    pub open spec fn payload(self) -> Seq<u8> {
        match self {
            MessageView::Text(text) => encode_utf8(text),
            MessageView::Binary(data) => data,
            MessageView::Pong(data) => data,
            MessageView::Close(code, reason) => status_bytes(code) + encode_utf8(reason),
        }
    }

    /// The frame that carries this message.
    pub open spec fn frame(self) -> FrameView {
        FrameView { fin: true, opcode: self.opcode(), payload: self.payload() }
    }
}

/// `fastwebsockets::Frame::text`, read back as plain values: a final frame
/// with the text opcode whose payload is the bytes given.
#[verifier::external_body]
fn text_frame(payload: &[u8]) -> (frame: WireFrame)
    ensures
        frame.fin,
        frame.opcode == OPCODE_TEXT,
        frame.payload@ == payload@,
{
    let frame = fastwebsockets::Frame::text(payload.into());
    WireFrame { fin: frame.fin, opcode: frame.opcode as u8, payload: frame.payload.to_vec() }
}

/// `fastwebsockets::Frame::binary`, read back as plain values: a final
/// frame with the binary opcode whose payload is the bytes given.
#[verifier::external_body]
fn binary_frame(payload: &[u8]) -> (frame: WireFrame)
    ensures
        frame.fin,
        frame.opcode == OPCODE_BINARY,
        frame.payload@ == payload@,
{
    let frame = fastwebsockets::Frame::binary(payload.into());
    WireFrame { fin: frame.fin, opcode: frame.opcode as u8, payload: frame.payload.to_vec() }
}

/// `fastwebsockets::Frame::pong`, read back as plain values: a final frame
/// with the pong opcode whose payload is the bytes given.
#[verifier::external_body]
fn pong_frame(payload: &[u8]) -> (frame: WireFrame)
    ensures
        frame.fin,
        frame.opcode == OPCODE_PONG,
        frame.payload@ == payload@,
{
    let frame = fastwebsockets::Frame::pong(payload.into());
    WireFrame { fin: frame.fin, opcode: frame.opcode as u8, payload: frame.payload.to_vec() }
}

/// `fastwebsockets::Frame::close`, read back as plain values: a final frame
/// with the close opcode whose payload is the status code in big-endian
/// order followed by the reason.
#[verifier::external_body]
fn close_frame(code: u16, reason: &[u8]) -> (frame: WireFrame)
    ensures
        frame.fin,
        frame.opcode == OPCODE_CLOSE,
        frame.payload@ == status_bytes(code) + reason@,
{
    let frame = fastwebsockets::Frame::close(code, reason);
    WireFrame { fin: frame.fin, opcode: frame.opcode as u8, payload: frame.payload.to_vec() }
}

impl WsMessage {
    /// Encodes the message as the frame that carries it. Every message has
    /// a frame; nothing is checked and nothing can fail.
    pub fn to_frame(&self) -> (frame: WireFrame)
        ensures
            frame@ == self@.frame(),
    {
        match self {
            WsMessage::Text(text) => text_frame(text.as_str().as_bytes()),
            WsMessage::Binary(data) => binary_frame(data.as_slice()),
            WsMessage::Pong(data) => pong_frame(data.as_slice()),
            WsMessage::Close(code, reason) => close_frame(*code, reason.as_str().as_bytes()),
        }
    }
}

} // verus!
