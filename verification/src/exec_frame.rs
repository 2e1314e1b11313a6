//! The frame stream carried by an upgraded exec response. Frames are
//! length-prefixed rather than separated, because command output may contain
//! any byte a separator would use: one channel byte, a big-endian `u32`
//! length, then the payload.
//!
//! Every stream ends with exactly one terminal status frame; without it the
//! stream was truncated, not successful, which [`FrameStream`] enforces.

use vstd::prelude::*;

use bytes::{Bytes, BytesMut};

use crate::buffers::{
    be_u32, be_u32_bytes, be_u32_value, buffer_advance, buffer_extend, buffer_freeze, buffer_new,
    buffer_put_slice, buffer_put_u32, buffer_put_u8, buffer_slice, buffer_split_to, buffer_view,
    buffer_with_capacity, bytes_slice, bytes_view, lemma_be_u32_round_trip,
};

verus! {

pub const HEADER_LEN: usize = 5;

/// The peer controls the advertised length, so decoding rejects anything
/// larger before allocating.
pub const MAX_PAYLOAD_LEN: usize = 4194304;

/// The exec stream's channels. The ids are wire identifiers shared with the pty
/// session, whose stdin is id `0`; exec reserves it because it carries no input.
#[derive(Debug, Clone, Copy, PartialEq, Eq, Hash)]
pub enum Channel {
    Stdout,
    Stderr,
    /// The terminal status, carrying success as well as failure.
    Error,
}

pub open spec fn channel_id(c: Channel) -> u8 {
    match c {
        Channel::Stdout => 1,
        Channel::Stderr => 2,
        Channel::Error => 3,
    }
}

pub open spec fn channel_of(id: u8) -> Option<Channel> {
    if id == 1 {
        Some(Channel::Stdout)
    } else if id == 2 {
        Some(Channel::Stderr)
    } else if id == 3 {
        Some(Channel::Error)
    } else {
        None
    }
}

/// Every channel's wire id reads back as that channel.
pub proof fn lemma_channel_id_round_trip(c: Channel)
    ensures
        channel_of(channel_id(c)) == Some(c),
{
}

/// An id reads as a channel only when it is that channel's id.
pub proof fn lemma_channel_of_id(id: u8)
    ensures
        channel_of(id) matches Some(c) ==> channel_id(c) == id,
{
}

#[derive(Debug)]
pub enum FrameError {
    UnknownChannel(u8),
    PayloadTooLarge(usize),
    /// A frame arrived after the terminal status frame.
    FrameAfterStatus,
    /// The stream ended without a terminal status frame.
    MissingStatus,
}

impl Channel {
    pub fn as_u8(self) -> (res: u8)
        ensures
            res == channel_id(self),
    {
        match self {
            Channel::Stdout => 1,
            Channel::Stderr => 2,
            Channel::Error => 3,
        }
    }

    pub fn from_u8(id: u8) -> (res: Result<Channel, FrameError>)
        ensures
            match channel_of(id) {
                Some(c) => res matches Ok(d) && d == c,
                None => res matches Err(FrameError::UnknownChannel(x)) && x == id,
            },
    {
        if id == 1 {
            Ok(Channel::Stdout)
        } else if id == 2 {
            Ok(Channel::Stderr)
        } else if id == 3 {
            Ok(Channel::Error)
        } else {
            Err(FrameError::UnknownChannel(id))
        }
    }
}

/// One frame of the stream.
#[derive(Debug, PartialEq, Eq)]
pub enum Frame {
    Stdout(Bytes),
    Stderr(Bytes),
    /// On the error channel: the JSON encoding of the command's status. Exactly
    /// one ends every stream, whether the command succeeded or failed.
    Status(Bytes),
}

pub open spec fn frame_channel(f: Frame) -> Channel {
    match f {
        Frame::Stdout(_) => Channel::Stdout,
        Frame::Stderr(_) => Channel::Stderr,
        Frame::Status(_) => Channel::Error,
    }
}

pub open spec fn frame_payload(f: Frame) -> Seq<u8> {
    match f {
        Frame::Stdout(b) => bytes_view(b),
        Frame::Stderr(b) => bytes_view(b),
        Frame::Status(b) => bytes_view(b),
    }
}

/// The wire form of a frame; the length field wraps as `as u32` does.
pub open spec fn encoded(f: Frame) -> Seq<u8> {
    seq![channel_id(frame_channel(f))] + be_u32_bytes(frame_payload(f).len() as u32) + frame_payload(f)
}

/// The payload length a header advertises.
pub open spec fn advertised_len(b: Seq<u8>) -> u32 {
    be_u32_value(b[1], b[2], b[3], b[4])
}

/// What decoding the front of `b` yields: nothing while a header or payload is
/// incomplete, an error for an unknown channel or an oversized payload, and
/// otherwise the first frame's channel and payload.
pub enum DecodeView {
    Incomplete,
    UnknownChannel(u8),
    TooLarge(u32),
    Complete(Channel, Seq<u8>),
}

pub open spec fn decode_front(b: Seq<u8>) -> DecodeView {
    if b.len() < HEADER_LEN {
        DecodeView::Incomplete
    } else if channel_of(b[0]) is None {
        DecodeView::UnknownChannel(b[0])
    } else if advertised_len(b) > MAX_PAYLOAD_LEN {
        DecodeView::TooLarge(advertised_len(b))
    } else if b.len() < HEADER_LEN + advertised_len(b) {
        DecodeView::Incomplete
    } else {
        DecodeView::Complete(channel_of(b[0])->0, b.subrange(HEADER_LEN as int, HEADER_LEN + advertised_len(b)))
    }
}

impl Frame {
    pub fn channel(&self) -> (res: Channel)
        ensures
            res == frame_channel(*self),
    {
        match self {
            Frame::Stdout(_) => Channel::Stdout,
            Frame::Stderr(_) => Channel::Stderr,
            Frame::Status(_) => Channel::Error,
        }
    }

    fn payload(&self) -> (res: &Bytes)
        ensures
            bytes_view(*res) == frame_payload(*self),
    {
        match self {
            Frame::Stdout(b) => b,
            Frame::Stderr(b) => b,
            Frame::Status(b) => b,
        }
    }

    pub fn payload_len(&self) -> (res: usize)
        ensures
            res == frame_payload(*self).len(),
    {
        bytes_slice(self.payload()).len()
    }

    /// The wire form. Splitting payloads above [`MAX_PAYLOAD_LEN`] is the
    /// producer's responsibility, since only the decoder enforces that bound.
    pub fn encode(&self) -> (res: Bytes)
        requires
            frame_payload(*self).len() + HEADER_LEN <= isize::MAX,
        ensures
            bytes_view(res) == encoded(*self),
    {
        let payload = bytes_slice(self.payload());
        let len = payload.len();
        let mut buffer = buffer_with_capacity(HEADER_LEN + len);
        buffer_put_u8(&mut buffer, self.channel().as_u8());
        buffer_put_u32(&mut buffer, #[verifier::truncate] (len as u32));
        buffer_put_slice(&mut buffer, payload);
        let res = buffer_freeze(buffer);
        assert(bytes_view(res) =~= encoded(*self));
        res
    }

    /// The frame a channel and payload make.
    fn from_payload(channel: Channel, payload: Bytes) -> (res: Frame)
        ensures
            frame_channel(res) == channel,
            frame_payload(res) == bytes_view(payload),
    {
        match channel {
            Channel::Stdout => Frame::Stdout(payload),
            Channel::Stderr => Frame::Stderr(payload),
            Channel::Error => Frame::Status(payload),
        }
    }

    /// Removes the first frame from `buffer`, or returns `None` while `buffer`
    /// holds less than a complete frame, leaving it untouched for a later
    /// retry. This is the raw reader; it does not track the terminal status.
    pub fn decode(buffer: &mut BytesMut) -> (res: Result<Option<Frame>, FrameError>)
        ensures
            match decode_front(buffer_view(*old(buffer))) {
                DecodeView::Incomplete => res matches Ok(None) && buffer_view(*final(buffer)) == buffer_view(
                    *old(buffer),
                ),
                DecodeView::UnknownChannel(id) => res matches Err(FrameError::UnknownChannel(x)) && x == id
                    && buffer_view(*final(buffer)) == buffer_view(*old(buffer)),
                DecodeView::TooLarge(n) => res matches Err(FrameError::PayloadTooLarge(x)) && x == n
                    && buffer_view(*final(buffer)) == buffer_view(*old(buffer)),
                DecodeView::Complete(c, p) => res matches Ok(Some(f)) && frame_channel(f) == c
                    && frame_payload(f) == p && buffer_view(*final(buffer)) == buffer_view(*old(buffer)).skip(
                    HEADER_LEN + p.len(),
                ),
            },
    {
        let view = buffer_slice(buffer);
        if view.len() < HEADER_LEN {
            return Ok(None);
        }
        let channel = Channel::from_u8(view[0])?;
        let length = be_u32(view[1], view[2], view[3], view[4]) as usize;
        if length > MAX_PAYLOAD_LEN {
            return Err(FrameError::PayloadTooLarge(length));
        }
        if view.len() < HEADER_LEN + length {
            return Ok(None);
        }
        buffer_advance(buffer, HEADER_LEN);
        let payload = buffer_freeze(buffer_split_to(buffer, length));
        assert(buffer_view(*old(buffer)).skip(HEADER_LEN as int).take(length as int) =~= buffer_view(
            *old(buffer),
        ).subrange(HEADER_LEN as int, HEADER_LEN + length));
        assert(buffer_view(*old(buffer)).skip(HEADER_LEN as int).skip(length as int) =~= buffer_view(
            *old(buffer),
        ).skip(HEADER_LEN + length));
        Ok(Some(Frame::from_payload(channel, payload)))
    }
}

/// Decoding a frame's own encoding, with anything after it, gives the frame
/// back and leaves what followed.
pub proof fn lemma_decode_encoded(f: Frame, rest: Seq<u8>)
    requires
        frame_payload(f).len() <= MAX_PAYLOAD_LEN,
    ensures
        decode_front(encoded(f) + rest) == DecodeView::Complete(frame_channel(f), frame_payload(f)),
        (encoded(f) + rest).skip(HEADER_LEN + frame_payload(f).len()) == rest,
{
    let p = frame_payload(f);
    let b = encoded(f) + rest;
    let n = p.len() as u32;
    lemma_be_u32_round_trip(n);
    assert(b[1] == be_u32_bytes(n)[0]);
    assert(b[2] == be_u32_bytes(n)[1]);
    assert(b[3] == be_u32_bytes(n)[2]);
    assert(b[4] == be_u32_bytes(n)[3]);
    assert(advertised_len(b) == p.len());
    assert(b.subrange(HEADER_LEN as int, HEADER_LEN + p.len()) =~= p);
    assert(b.skip(HEADER_LEN + p.len()) =~= rest);
}

/// Enforces the terminal status rule that [`Frame::decode`] cannot: the status
/// frame is last, and its absence means the stream was truncated.
#[derive(Debug)]
pub struct FrameStream {
    buffer: BytesMut,
    finished: bool,
}

impl FrameStream {
    pub closed spec fn pending(&self) -> Seq<u8> {
        buffer_view(self.buffer)
    }

    pub closed spec fn spec_finished(&self) -> bool {
        self.finished
    }

    pub fn new() -> (res: Self)
        ensures
            res.pending() == Seq::<u8>::empty(),
            !res.spec_finished(),
    {
        FrameStream { buffer: buffer_new(), finished: false }
    }

    /// Appends received bytes.
    pub fn feed(&mut self, chunk: &[u8])
        requires
            old(self).pending().len() + chunk@.len() <= isize::MAX,
        ensures
            final(self).pending() == old(self).pending() + chunk@,
            final(self).spec_finished() == old(self).spec_finished(),
    {
        buffer_extend(&mut self.buffer, chunk);
    }

    /// The next frame, or `None` when more bytes are needed. A call after the
    /// status frame is an error, so readers stop at the status.
    pub fn decode(&mut self) -> (res: Result<Option<Frame>, FrameError>)
        ensures
            old(self).spec_finished() ==> (res matches Err(FrameError::FrameAfterStatus)),
            old(self).spec_finished() ==> final(self).pending() == old(self).pending(),
            old(self).spec_finished() ==> final(self).spec_finished(),
            !old(self).spec_finished() ==> match decode_front(old(self).pending()) {
                DecodeView::Incomplete => res matches Ok(None) && final(self).pending() == old(self).pending()
                    && !final(self).spec_finished(),
                DecodeView::UnknownChannel(id) => res matches Err(FrameError::UnknownChannel(x)) && x == id
                    && final(self).pending() == old(self).pending() && !final(self).spec_finished(),
                DecodeView::TooLarge(n) => res matches Err(FrameError::PayloadTooLarge(x)) && x == n
                    && final(self).pending() == old(self).pending() && !final(self).spec_finished(),
                DecodeView::Complete(c, p) => res matches Ok(Some(f)) && frame_channel(f) == c
                    && frame_payload(f) == p && final(self).pending() == old(self).pending().skip(
                    HEADER_LEN + p.len(),
                ) && final(self).spec_finished() == (c == Channel::Error),
            },
    {
        if self.finished {
            return Err(FrameError::FrameAfterStatus);
        }
        let frame = Frame::decode(&mut self.buffer)?;
        if let Some(Frame::Status(_)) = &frame {
            self.finished = true;
        }
        Ok(frame)
    }

    pub fn is_finished(&self) -> (res: bool)
        ensures
            res == self.spec_finished(),
    {
        self.finished
    }

    /// Errors if the stream ended before its status frame arrived.
    pub fn finish(self) -> (res: Result<(), FrameError>)
        ensures
            res is Ok <==> self.spec_finished(),
            res matches Err(e) ==> e is MissingStatus,
    {
        if self.finished {
            Ok(())
        } else {
            Err(FrameError::MissingStatus)
        }
    }
}

impl Default for FrameStream {
    fn default() -> (res: Self)
        ensures
            res.pending() == Seq::<u8>::empty(),
            !res.spec_finished(),
    {
        FrameStream::new()
    }
}

} // verus!
