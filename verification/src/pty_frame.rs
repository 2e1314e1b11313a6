//! A pty session runs over a WebSocket, so every message already carries its
//! own boundary and a frame needs no length prefix: one channel byte, then the
//! payload.
//!
//! The channel set is closed, so a connection never creates channels. It has
//! no stderr because a pty folds stderr into stdout.

use vstd::prelude::*;

use bytes::{Bytes, BytesMut};

use crate::buffers::{
    be_u16, be_u16_bytes, be_u16_value, buffer_freeze, buffer_put_slice, buffer_put_u8, buffer_view,
    buffer_with_capacity, bytes_copy, bytes_empty, bytes_slice, bytes_view, lemma_be_u16_round_trip,
    u16_be_bytes,
};
use crate::process::TerminalSize;

verus! {

/// The session's channels; their ids are wire identifiers.
#[derive(Debug, Clone, Copy, PartialEq, Eq, Hash)]
pub enum Channel {
    Stdin,
    /// With stderr folded in.
    Stdout,
    /// The process outcome, carrying the exit code or an error.
    Exit,
    Resize,
    Close,
}

#[derive(Debug, Clone, Copy, PartialEq, Eq)]
pub enum Direction {
    ClientToServer,
    ServerToClient,
    Bidirectional,
}

pub open spec fn channel_id(c: Channel) -> u8 {
    match c {
        Channel::Stdin => 0,
        Channel::Stdout => 1,
        Channel::Exit => 3,
        Channel::Resize => 4,
        Channel::Close => 255,
    }
}

pub open spec fn channel_of(id: u8) -> Option<Channel> {
    if id == 0 {
        Some(Channel::Stdin)
    } else if id == 1 {
        Some(Channel::Stdout)
    } else if id == 3 {
        Some(Channel::Exit)
    } else if id == 4 {
        Some(Channel::Resize)
    } else if id == 255 {
        Some(Channel::Close)
    } else {
        None
    }
}

/// Every channel's wire id reads back as that channel.
pub proof fn lemma_channel_id_round_trip(c: Channel)
    ensures
        channel_of(channel_id(c)) == Some(c),
{
}

/// An id reads as a channel only when it is that channel's id.
pub proof fn lemma_channel_of_id(id: u8)
    ensures
        channel_of(id) matches Some(c) ==> channel_id(c) == id,
{
}

pub open spec fn direction_of(c: Channel) -> Direction {
    match c {
        Channel::Stdin | Channel::Resize => Direction::ClientToServer,
        Channel::Stdout | Channel::Exit => Direction::ServerToClient,
        Channel::Close => Direction::Bidirectional,
    }
}

#[derive(Debug)]
pub enum FrameError {
    /// An empty message carries no channel byte.
    EmptyMessage,
    UnknownChannel(u8),
    /// The payload is shorter than the channel requires.
    InvalidPayload { channel: Channel, expected: usize, length: usize },
    /// A frame other than close arrived after the exit frame.
    FrameAfterExit,
    /// A frame arrived after the close frame.
    FrameAfterClose,
}

impl Channel {
    pub fn as_u8(self) -> (res: u8)
        ensures
            res == channel_id(self),
    {
        match self {
            Channel::Stdin => 0,
            Channel::Stdout => 1,
            Channel::Exit => 3,
            Channel::Resize => 4,
            Channel::Close => 255,
        }
    }

    pub fn from_u8(id: u8) -> (res: Result<Channel, FrameError>)
        ensures
            match channel_of(id) {
                Some(c) => res matches Ok(d) && d == c,
                None => res matches Err(FrameError::UnknownChannel(x)) && x == id,
            },
    {
        if id == 0 {
            Ok(Channel::Stdin)
        } else if id == 1 {
            Ok(Channel::Stdout)
        } else if id == 3 {
            Ok(Channel::Exit)
        } else if id == 4 {
            Ok(Channel::Resize)
        } else if id == 255 {
            Ok(Channel::Close)
        } else {
            Err(FrameError::UnknownChannel(id))
        }
    }

    pub fn direction(self) -> (res: Direction)
        ensures
            res == direction_of(self),
    {
        match self {
            Channel::Stdin | Channel::Resize => Direction::ClientToServer,
            Channel::Stdout | Channel::Exit => Direction::ServerToClient,
            Channel::Close => Direction::Bidirectional,
        }
    }
}

/// The number of bytes a size occupies on the wire.
pub const WIRE_LEN: usize = 4;

/// Rows then columns, each big-endian.
pub open spec fn size_wire(size: TerminalSize) -> Seq<u8> {
    be_u16_bytes(size.rows) + be_u16_bytes(size.cols)
}

/// The size the leading four bytes spell; trailing bytes are ignored, so a
/// later, larger encoding stays decodable.
pub open spec fn size_from_wire(payload: Seq<u8>) -> Option<TerminalSize> {
    if payload.len() < WIRE_LEN {
        None
    } else {
        Some(
            TerminalSize {
                rows: be_u16_value(payload[0], payload[1]),
                cols: be_u16_value(payload[2], payload[3]),
            },
        )
    }
}

impl TerminalSize {
    pub fn to_wire(self) -> (res: [u8; 4])
        ensures
            res@ == size_wire(self),
    {
        let (r0, r1) = u16_be_bytes(self.rows);
        let (c0, c1) = u16_be_bytes(self.cols);
        let res = [r0, r1, c0, c1];
        assert(res@ =~= size_wire(self));
        res
    }

    pub fn from_wire(payload: &[u8]) -> (res: Option<TerminalSize>)
        ensures
            res == size_from_wire(payload@),
    {
        if payload.len() < WIRE_LEN {
            return None;
        }
        Some(
            TerminalSize {
                rows: be_u16(payload[0], payload[1]),
                cols: be_u16(payload[2], payload[3]),
            },
        )
    }
}

/// One message of the session.
#[derive(Debug, PartialEq, Eq)]
pub enum Frame {
    Stdin(Bytes),
    Stdout(Bytes),
    /// Ends the output stream; the payload is the JSON encoding of the status.
    Exit(Bytes),
    Resize(TerminalSize),
    Close,
}

pub open spec fn frame_channel(f: Frame) -> Channel {
    match f {
        Frame::Stdin(_) => Channel::Stdin,
        Frame::Stdout(_) => Channel::Stdout,
        Frame::Exit(_) => Channel::Exit,
        Frame::Resize(_) => Channel::Resize,
        Frame::Close => Channel::Close,
    }
}

pub open spec fn frame_payload(f: Frame) -> Seq<u8> {
    match f {
        Frame::Stdin(b) => bytes_view(b),
        Frame::Stdout(b) => bytes_view(b),
        Frame::Exit(b) => bytes_view(b),
        Frame::Resize(size) => size_wire(size),
        Frame::Close => Seq::empty(),
    }
}

/// The message a frame is sent as.
pub open spec fn encoded(f: Frame) -> Seq<u8> {
    seq![channel_id(frame_channel(f))] + frame_payload(f)
}

/// What a message decodes to.
pub enum FrameView {
    Stdin(Seq<u8>),
    Stdout(Seq<u8>),
    Exit(Seq<u8>),
    Resize(TerminalSize),
    Close,
}

pub open spec fn frame_view(f: Frame) -> FrameView {
    match f {
        Frame::Stdin(b) => FrameView::Stdin(bytes_view(b)),
        Frame::Stdout(b) => FrameView::Stdout(bytes_view(b)),
        Frame::Exit(b) => FrameView::Exit(bytes_view(b)),
        Frame::Resize(size) => FrameView::Resize(size),
        Frame::Close => FrameView::Close,
    }
}

/// The outcome of decoding a message.
pub enum DecodeView {
    Empty,
    UnknownChannel(u8),
    ShortResize(nat),
    Decoded(FrameView),
}

pub open spec fn decode_message(m: Seq<u8>) -> DecodeView {
    if m.len() == 0 {
        DecodeView::Empty
    } else {
        let payload = m.skip(1);
        match channel_of(m[0]) {
            None => DecodeView::UnknownChannel(m[0]),
            Some(Channel::Stdin) => DecodeView::Decoded(FrameView::Stdin(payload)),
            Some(Channel::Stdout) => DecodeView::Decoded(FrameView::Stdout(payload)),
            Some(Channel::Exit) => DecodeView::Decoded(FrameView::Exit(payload)),
            Some(Channel::Resize) => match size_from_wire(payload) {
                Some(size) => DecodeView::Decoded(FrameView::Resize(size)),
                None => DecodeView::ShortResize(payload.len()),
            },
            // A close signal carries no information, so any payload is ignored.
            Some(Channel::Close) => DecodeView::Decoded(FrameView::Close),
        }
    }
}

/// Whether a decode result is what the message decodes to.
pub open spec fn decoded_as(res: Result<Frame, FrameError>, m: Seq<u8>) -> bool {
    match decode_message(m) {
        DecodeView::Empty => res matches Err(FrameError::EmptyMessage),
        DecodeView::UnknownChannel(id) => res matches Err(FrameError::UnknownChannel(x)) && x == id,
        DecodeView::ShortResize(n) => res matches Err(FrameError::InvalidPayload { channel, expected, length })
            && channel == Channel::Resize && expected == WIRE_LEN && length == n,
        DecodeView::Decoded(v) => res matches Ok(f) && frame_view(f) == v,
    }
}

impl Frame {
    pub fn channel(&self) -> (res: Channel)
        ensures
            res == frame_channel(*self),
    {
        match self {
            Frame::Stdin(_) => Channel::Stdin,
            Frame::Stdout(_) => Channel::Stdout,
            Frame::Exit(_) => Channel::Exit,
            Frame::Resize(_) => Channel::Resize,
            Frame::Close => Channel::Close,
        }
    }

    pub fn direction(&self) -> (res: Direction)
        ensures
            res == direction_of(frame_channel(*self)),
    {
        self.channel().direction()
    }

    /// The message this frame is sent as.
    pub fn encode(&self) -> (res: Bytes)
        requires
            frame_payload(*self).len() + 1 <= isize::MAX,
        ensures
            bytes_view(res) == encoded(*self),
    {
        let channel = self.channel().as_u8();
        let wire: [u8; 4];
        let payload: &[u8] = match self {
            Frame::Stdin(b) => bytes_slice(b),
            Frame::Stdout(b) => bytes_slice(b),
            Frame::Exit(b) => bytes_slice(b),
            Frame::Resize(size) => {
                wire = size.to_wire();
                wire.as_slice()
            },
            Frame::Close => &[],
        };
        assert(payload@ == frame_payload(*self));
        let mut message = buffer_with_capacity(1 + payload.len());
        buffer_put_u8(&mut message, channel);
        buffer_put_slice(&mut message, payload);
        let res = buffer_freeze(message);
        assert(bytes_view(res) =~= encoded(*self));
        res
    }

    /// The frame a message carries.
    pub fn decode(message: &[u8]) -> (res: Result<Frame, FrameError>)
        ensures
            decoded_as(res, message@),
    {
        if message.len() == 0 {
            return Err(FrameError::EmptyMessage);
        }
        let id = message[0];
        let payload = vstd::slice::slice_subrange(message, 1, message.len());
        assert(payload@ =~= message@.skip(1));
        let channel = Channel::from_u8(id)?;
        match channel {
            Channel::Stdin => Ok(Frame::Stdin(bytes_copy(payload))),
            Channel::Stdout => Ok(Frame::Stdout(bytes_copy(payload))),
            Channel::Exit => Ok(Frame::Exit(bytes_copy(payload))),
            Channel::Resize => match TerminalSize::from_wire(payload) {
                Some(size) => Ok(Frame::Resize(size)),
                None => Err(
                    FrameError::InvalidPayload {
                        channel: Channel::Resize,
                        expected: WIRE_LEN,
                        length: payload.len(),
                    },
                ),
            },
            Channel::Close => Ok(Frame::Close),
        }
    }
}

/// Decoding a frame's own message gives the frame back.
pub proof fn lemma_decode_encoded(f: Frame)
    ensures
        decode_message(encoded(f)) == DecodeView::Decoded(frame_view(f)),
{
    let m = encoded(f);
    assert(m.skip(1) =~= frame_payload(f));
    if let Frame::Resize(size) = f {
        lemma_be_u16_round_trip(size.rows);
        lemma_be_u16_round_trip(size.cols);
        assert(size_from_wire(size_wire(size)) == Some(size));
    }
}

/// Decoding a size's own encoding gives the size back.
pub proof fn lemma_size_round_trip(size: TerminalSize)
    ensures
        size_from_wire(size_wire(size)) == Some(size),
{
    lemma_be_u16_round_trip(size.rows);
    lemma_be_u16_round_trip(size.cols);
}

/// The exit frame ends the output, leaving only close, and nothing follows
/// close.
#[derive(Debug)]
pub struct SessionFrames {
    exited: bool,
    closed: bool,
}

impl SessionFrames {
    pub closed spec fn spec_exited(&self) -> bool {
        self.exited
    }

    pub closed spec fn spec_closed(&self) -> bool {
        self.closed
    }

    pub fn new() -> (res: Self)
        ensures
            !res.spec_exited(),
            !res.spec_closed(),
    {
        SessionFrames { exited: false, closed: false }
    }

    /// Decodes the next message, enforcing the session's order.
    pub fn decode(&mut self, message: &[u8]) -> (res: Result<Frame, FrameError>)
        ensures
            old(self).spec_closed() ==> {
                &&& res matches Err(FrameError::FrameAfterClose)
                &&& final(self).spec_closed()
                &&& final(self).spec_exited() == old(self).spec_exited()
            },
            !old(self).spec_closed() ==> match decode_message(message@) {
                DecodeView::Decoded(FrameView::Close) => {
                    &&& res matches Ok(Frame::Close)
                    &&& final(self).spec_closed()
                    &&& final(self).spec_exited() == old(self).spec_exited()
                },
                DecodeView::Decoded(v) => if old(self).spec_exited() {
                    &&& res matches Err(FrameError::FrameAfterExit)
                    &&& final(self).spec_exited()
                    &&& !final(self).spec_closed()
                } else {
                    &&& res matches Ok(f)
                    &&& frame_view(f) == v
                    &&& final(self).spec_exited() == (v is Exit)
                    &&& !final(self).spec_closed()
                },
                _ => {
                    &&& decoded_as(res, message@)
                    &&& res is Err
                    &&& final(self).spec_exited() == old(self).spec_exited()
                    &&& final(self).spec_closed() == old(self).spec_closed()
                },
            },
    {
        if self.closed {
            return Err(FrameError::FrameAfterClose);
        }
        let frame = Frame::decode(message)?;
        match &frame {
            Frame::Close => self.closed = true,
            Frame::Exit(_) => {
                if self.exited {
                    return Err(FrameError::FrameAfterExit);
                }
                self.exited = true;
            },
            _ => {
                if self.exited {
                    return Err(FrameError::FrameAfterExit);
                }
            },
        }
        Ok(frame)
    }

    pub fn exited(&self) -> (res: bool)
        ensures
            res == self.spec_exited(),
    {
        self.exited
    }

    pub fn is_closed(&self) -> (res: bool)
        ensures
            res == self.spec_closed(),
    {
        self.closed
    }
}

impl Default for SessionFrames {
    fn default() -> (res: Self)
        ensures
            !res.spec_exited(),
            !res.spec_closed(),
    {
        SessionFrames::new()
    }
}

} // verus!
