//! The process endpoints' own decisions: which request format a body names,
//! whether a run is answered directly or as a frame stream, what a direct
//! answer holds, and the handshake value of a pty attach.

use base64::Engine as _;
use bytes::Bytes;
use sha1::{Digest, Sha1};

use vstd::prelude::*;

use crate::api::AppError;
use crate::buffers::{bytes_slice, bytes_view};
use crate::exec_frame::{frame_payload, Frame};

verus! {

/// Bytes a run may print before a direct answer turns into a stream.
pub const DIRECT_RESPONSE_LIMIT: usize = 4194304;

/// The largest request body read, in bytes.
pub const MAX_REQUEST_BODY: usize = 65536;

/// The `format` member of a request body, as parsed.
#[derive(Debug, Clone, PartialEq, Eq)]
pub enum FormatField {
    Absent,
    Text(String),
    /// Present but not a string.
    Other,
}

/// The payload a request body carries.
#[derive(Debug, Clone, Copy, PartialEq, Eq)]
pub enum RequestFormat {
    Exec,
    Shell,
}

/// The format a body names: `exec` when absent; a name other than `exec` or
/// `shell` is unsupported, and a value that is not a string is invalid.
pub fn request_format(field: &FormatField) -> (res: Result<RequestFormat, AppError>)
    ensures
        match *field {
            FormatField::Absent => res == Ok::<RequestFormat, AppError>(RequestFormat::Exec),
            FormatField::Text(name) => if name@ == "exec"@ {
                res == Ok::<RequestFormat, AppError>(RequestFormat::Exec)
            } else if name@ == "shell"@ {
                res == Ok::<RequestFormat, AppError>(RequestFormat::Shell)
            } else {
                res matches Err(AppError::UnsupportedType(n)) && n@ == name@
            },
            FormatField::Other => res matches Err(AppError::InvalidRequest(m)) && m@ == "`format` must be a string"@,
        },
{
    match field {
        FormatField::Absent => Ok(RequestFormat::Exec),
        FormatField::Text(name) => {
            if crate::text::text_eq(name, "exec") {
                Ok(RequestFormat::Exec)
            } else if crate::text::text_eq(name, "shell") {
                Ok(RequestFormat::Shell)
            } else {
                Err(AppError::UnsupportedType(name.clone()))
            }
        },
        FormatField::Other => Err(AppError::InvalidRequest(String::from_str("`format` must be a string"))),
    }
}

/// What to do after the next frame, or the lack of one.
#[derive(Debug)]
pub enum ProbeStep {
    /// Wait for the next frame.
    Continue,
    /// The run finished in time: answer with one body.
    Direct,
    /// Too slow or too much output: stream what was buffered, then the rest.
    Stream,
    /// The stream ended without a status.
    MissingStatus,
}

/// The frames buffered while deciding how to answer a run.
pub struct ResponseProbe {
    limit: usize,
    buffered: Vec<Frame>,
    bytes: usize,
    decided: bool,
}

/// The payload bytes of `frames` in all.
pub open spec fn payload_total(frames: Seq<Frame>) -> nat
    decreases frames.len(),
{
    if frames.len() == 0 {
        0
    } else {
        payload_total(frames.drop_last()) + frame_payload(frames.last()).len()
    }
}

impl ResponseProbe {
    pub closed spec fn spec_buffered(&self) -> Seq<Frame> {
        self.buffered@
    }

    pub closed spec fn spec_limit(&self) -> nat {
        self.limit as nat
    }

    pub closed spec fn spec_decided(&self) -> bool {
        self.decided
    }

    pub closed spec fn wf(&self) -> bool {
        !self.decided ==> self.bytes == payload_total(self.buffered@) && self.bytes <= self.limit
    }

    pub fn new(limit: usize) -> (res: Self)
        ensures
            res.wf(),
            res.spec_buffered() == Seq::<Frame>::empty(),
            res.spec_limit() == limit,
            !res.spec_decided(),
    {
        ResponseProbe { limit, buffered: Vec::new(), bytes: 0, decided: false }
    }

    /// Buffers the next frame: a status makes the answer direct; output past
    /// the limit makes it a stream.
    pub fn on_frame(&mut self, frame: Frame) -> (res: ProbeStep)
        requires
            old(self).wf(),
            !old(self).spec_decided(),
        ensures
            final(self).wf(),
            final(self).spec_limit() == old(self).spec_limit(),
            final(self).spec_buffered() == old(self).spec_buffered().push(frame),
            frame is Status ==> res is Direct && final(self).spec_decided(),
            !(frame is Status) ==> if payload_total(final(self).spec_buffered()) > old(self).spec_limit() {
                res is Stream && final(self).spec_decided()
            } else {
                res is Continue && !final(self).spec_decided()
            },
    {
        let n = frame.payload_len();
        let complete = match &frame {
            Frame::Status(_) => true,
            _ => false,
        };
        let ghost before = self.buffered@;
        self.buffered.push(frame);
        assert(self.buffered@.drop_last() =~= before);
        if complete {
            self.decided = true;
            return ProbeStep::Direct;
        }
        if n > self.limit - self.bytes {
            self.decided = true;
            return ProbeStep::Stream;
        }
        self.bytes = self.bytes + n;
        ProbeStep::Continue
    }

    /// The stream ended without a status.
    pub fn on_end(&mut self) -> (res: ProbeStep)
        ensures
            res is MissingStatus,
    {
        ProbeStep::MissingStatus
    }

    /// The wait expired: stream what was buffered.
    pub fn on_timeout(&mut self) -> (res: ProbeStep)
        ensures
            res is Stream,
    {
        ProbeStep::Stream
    }

    /// The frames buffered so far, in order.
    pub fn into_frames(self) -> (res: Vec<Frame>)
        ensures
            res@ == self.spec_buffered(),
    {
        self.buffered
    }
}

/// The output a direct answer reports: each channel's bytes in order, and
/// the status frame's payload.
pub open spec fn channel_bytes(frames: Seq<Frame>, stderr: bool) -> Seq<u8>
    decreases frames.len(),
{
    if frames.len() == 0 {
        Seq::empty()
    } else {
        let prev = channel_bytes(frames.drop_last(), stderr);
        match frames.last() {
            Frame::Stdout(b) => if stderr {
                prev
            } else {
                prev + bytes_view(b)
            },
            Frame::Stderr(b) => if stderr {
                prev + bytes_view(b)
            } else {
                prev
            },
            Frame::Status(_) => prev,
        }
    }
}

/// The payload of the last status frame, if any.
pub open spec fn last_status(frames: Seq<Frame>) -> Option<Seq<u8>>
    decreases frames.len(),
{
    if frames.len() == 0 {
        None
    } else {
        match frames.last() {
            Frame::Status(b) => Some(bytes_view(b)),
            _ => last_status(frames.drop_last()),
        }
    }
}

/// A direct answer: the status payload and each output decoded lossily.
#[derive(Debug, Clone, PartialEq, Eq)]
pub struct DirectResult {
    /// The JSON encoding of the status.
    pub status: Vec<u8>,
    pub stdout: String,
    pub stderr: String,
}

pub open spec fn missing_status_message() -> Seq<char> {
    "the command stream ended without a terminal status"@
}

/// Appends `data` to `out`.
fn extend_bytes(out: &mut Vec<u8>, data: &[u8])
    ensures
        final(out)@ == old(out)@ + data@,
{
    let mut i: usize = 0;
    while i < data.len()
        invariant
            0 <= i <= data.len(),
            out@ == old(out)@ + data@.take(i as int),
        decreases data.len() - i,
    {
        out.push(data[i]);
        assert(data@.take(i + 1) =~= data@.take(i as int).push(data@[i as int]));
        i = i + 1;
    }
    assert(data@.take(i as int) =~= data@);
}

/// The direct answer of a finished run.
pub fn direct_result(frames: &Vec<Frame>) -> (res: Result<DirectResult, AppError>)
    ensures
        match last_status(frames@) {
            None => res matches Err(AppError::Internal(m)) && m@ == missing_status_message(),
            Some(s) => res matches Ok(r) && r.status@ == s && crate::command::lossy_decoded(
                r.stdout@,
                channel_bytes(frames@, false),
            ) && crate::command::lossy_decoded(r.stderr@, channel_bytes(frames@, true)),
        },
{
    let mut out: Vec<u8> = Vec::new();
    let mut err: Vec<u8> = Vec::new();
    let mut status: Option<Vec<u8>> = None;
    let mut i: usize = 0;
    while i < frames.len()
        invariant
            0 <= i <= frames.len(),
            out@ == channel_bytes(frames@.take(i as int), false),
            err@ == channel_bytes(frames@.take(i as int), true),
            match last_status(frames@.take(i as int)) {
                None => status is None,
                Some(s) => status matches Some(v) && v@ == s,
            },
        decreases frames.len() - i,
    {
        assert(frames@.take(i + 1).drop_last() =~= frames@.take(i as int));
        assert(frames@.take(i + 1).last() == frames@[i as int]);
        match &frames[i] {
            Frame::Stdout(b) => {
                extend_bytes(&mut out, bytes_slice(b));
            },
            Frame::Stderr(b) => {
                extend_bytes(&mut err, bytes_slice(b));
            },
            Frame::Status(b) => {
                let mut v: Vec<u8> = Vec::new();
                extend_bytes(&mut v, bytes_slice(b));
                status = Some(v);
            },
        }
        i = i + 1;
    }
    assert(frames@.take(i as int) =~= frames@);
    match status {
        None => Err(AppError::Internal(String::from_str("the command stream ended without a terminal status"))),
        Some(s) => Ok(
            DirectResult {
                status: s,
                stdout: crate::command::utf8_lossy(out.as_slice()),
                stderr: crate::command::utf8_lossy(err.as_slice()),
            },
        ),
    }
}

/// The SHA-1 digest of `data`.
pub uninterp spec fn sha1_digest(data: Seq<u8>) -> Seq<u8>;

/// `Sha1::digest`: the twenty-byte SHA-1 digest of `data`.
#[verifier::external_body]
fn sha1(data: &[u8]) -> (res: Vec<u8>)
    ensures
        res@ == sha1_digest(data@),
        res@.len() == 20,
{
    Sha1::digest(data).to_vec()
}

/// The standard base64 alphabet.
pub open spec fn b64_char(v: nat) -> char {
    if v < 26 {
        (('A' as nat) + v) as char
    } else if v < 52 {
        (('a' as nat) + (v - 26)) as char
    } else if v < 62 {
        (('0' as nat) + (v - 52)) as char
    } else if v == 62 {
        '+'
    } else {
        '/'
    }
}

/// Standard base64 with `=` padding.
pub open spec fn base64_text(s: Seq<u8>) -> Seq<char>
    decreases s.len(),
{
    if s.len() == 0 {
        Seq::empty()
    } else if s.len() == 1 {
        seq![b64_char(s[0] as nat / 4), b64_char((s[0] as nat % 4) * 16), '=', '=']
    } else if s.len() == 2 {
        seq![
            b64_char(s[0] as nat / 4),
            b64_char((s[0] as nat % 4) * 16 + s[1] as nat / 16),
            b64_char((s[1] as nat % 16) * 4),
            '=',
        ]
    } else {
        seq![
            b64_char(s[0] as nat / 4),
            b64_char((s[0] as nat % 4) * 16 + s[1] as nat / 16),
            b64_char((s[1] as nat % 16) * 4 + s[2] as nat / 64),
            b64_char(s[2] as nat % 64),
        ] + base64_text(s.skip(3))
    }
}

/// `STANDARD.encode`: `bytes` in standard base64 with padding.
#[verifier::external_body]
fn base64_standard(bytes: &[u8]) -> (res: String)
    ensures
        res@ == base64_text(bytes@),
{
    base64::engine::general_purpose::STANDARD.encode(bytes)
}

/// The bytes of the handshake GUID.
fn guid_bytes() -> (res: Vec<u8>)
    ensures
        res@ == websocket_guid_bytes(),
{
    let v: Vec<u8> = vec![50, 53, 56, 69, 65, 70, 65, 53, 45, 69, 57, 49, 52, 45, 52, 55, 68, 65, 45, 57, 53, 67, 65, 45, 67, 53, 65, 66, 48, 68, 67, 56, 53, 66, 49, 49];
    assert(v@ =~= websocket_guid_bytes());
    v
}

/// The GUID `258EAFA5-E914-47DA-95CA-C5AB0DC85B11` as ASCII bytes.
pub open spec fn websocket_guid_bytes() -> Seq<u8> {
    seq![50, 53, 56, 69, 65, 70, 65, 53, 45, 69, 57, 49, 52, 45, 52, 55, 68, 65, 45, 57, 53, 67, 65, 45, 67, 53, 65, 66, 48, 68, 67, 56, 53, 66, 49, 49]
}

/// The `Sec-WebSocket-Accept` value for a client's key: the base64 of the
/// SHA-1 of the key followed by the handshake GUID.
pub fn websocket_accept(key: &[u8]) -> (res: String)
    ensures
        res@ == base64_text(sha1_digest(key@ + websocket_guid_bytes())),
{
    let mut data: Vec<u8> = Vec::new();
    extend_bytes(&mut data, key);
    let guid = guid_bytes();
    extend_bytes(&mut data, guid.as_slice());
    let digest = sha1(data.as_slice());
    base64_standard(digest.as_slice())
}

/// The output of a direct answer keeps every chunk: a channel's bytes over
/// two runs of frames are those of the first followed by those of the second.
pub proof fn channel_bytes_concatenate(a: Seq<Frame>, b: Seq<Frame>, stderr: bool)
    ensures
        channel_bytes(a + b, stderr) == channel_bytes(a, stderr) + channel_bytes(b, stderr),
    decreases b.len(),
{
    if b.len() == 0 {
        assert(a + b =~= a);
        assert(channel_bytes(a, stderr) + Seq::<u8>::empty() =~= channel_bytes(a, stderr));
    } else {
        channel_bytes_concatenate(a, b.drop_last(), stderr);
        assert((a + b).drop_last() =~= a + b.drop_last());
        assert((a + b).last() == b.last());
        let pa = channel_bytes(a, stderr);
        let pb = channel_bytes(b.drop_last(), stderr);
        match b.last() {
            Frame::Stdout(x) => {
                assert(pa + pb + bytes_view(x) =~= pa + (pb + bytes_view(x)));
            },
            Frame::Stderr(x) => {
                assert(pa + pb + bytes_view(x) =~= pa + (pb + bytes_view(x)));
            },
            Frame::Status(_) => {},
        }
    }
}

/// One frame adds its payload to its own channel and nothing to the other;
/// a status frame adds nothing to either.
pub proof fn channel_bytes_of_one_frame(f: Frame)
    ensures
        channel_bytes(seq![f], false) == match f {
            Frame::Stdout(x) => bytes_view(x),
            _ => Seq::<u8>::empty(),
        },
        channel_bytes(seq![f], true) == match f {
            Frame::Stderr(x) => bytes_view(x),
            _ => Seq::<u8>::empty(),
        },
{
    let s = seq![f];
    assert(s.drop_last() =~= Seq::<Frame>::empty());
    assert(s.last() == f);
    assert(channel_bytes(s.drop_last(), false) =~= Seq::<u8>::empty());
    assert(channel_bytes(s.drop_last(), true) =~= Seq::<u8>::empty());
    match f {
        Frame::Stdout(x) => {
            assert(Seq::<u8>::empty() + bytes_view(x) =~= bytes_view(x));
        },
        Frame::Stderr(x) => {
            assert(Seq::<u8>::empty() + bytes_view(x) =~= bytes_view(x));
        },
        Frame::Status(_) => {},
    }
}

/// Appending a frame to a run appends its payload to its channel: stdout is
/// every stdout chunk, in order.
pub proof fn channel_bytes_append(frames: Seq<Frame>, f: Frame, stderr: bool)
    ensures
        channel_bytes(frames.push(f), stderr) == channel_bytes(frames, stderr) + channel_bytes(seq![f], stderr),
{
    assert(frames.push(f) =~= frames + seq![f]);
    channel_bytes_concatenate(frames, seq![f], stderr);
}

/// The status of a direct answer is the last status frame's: a status frame
/// replaces any before it, and output frames after it leave it in place.
pub proof fn the_last_status_frame_counts(frames: Seq<Frame>, f: Frame)
    ensures
        f matches Frame::Status(b) ==> last_status(frames.push(f)) == Some(bytes_view(b)),
        !(f is Status) ==> last_status(frames.push(f)) == last_status(frames),
{
    assert(frames.push(f).drop_last() =~= frames);
}

} // verus!
