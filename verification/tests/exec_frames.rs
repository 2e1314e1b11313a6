use bytes::{BufMut, Bytes, BytesMut};
use sandbox_toolkit::exec_frame::{Channel, Frame, FrameError, FrameStream, MAX_PAYLOAD_LEN};

/// The JSON a status frame carries for `{"status":"exited","exit_code":3}`.
const EXITED_3: &[u8] = br#"{"status":"exited","exit_code":3}"#;
const EXITED_0: &[u8] = br#"{"status":"exited","exit_code":0}"#;

fn exec_samples() -> Vec<Frame> {
    vec![
        Frame::Stdout(Bytes::from_static(b"out")),
        Frame::Stderr(Bytes::from_static(b"err")),
        Frame::Status(Bytes::from_static(EXITED_3)),
    ]
}

#[test]
fn frame_channel_ids_are_wire_stable() {
    assert_eq!(Channel::Stdout.as_u8(), 1);
    assert_eq!(Channel::Stderr.as_u8(), 2);
    assert_eq!(Channel::Error.as_u8(), 3);
}

#[test]
fn frame_round_trips_every_frame() {
    for frame in exec_samples() {
        let mut buffer = BytesMut::from(frame.encode().as_ref());
        assert_eq!(Frame::decode(&mut buffer).unwrap(), Some(frame));
        assert!(buffer.is_empty());
    }
}

#[test]
fn frame_round_trips_every_status() {
    let statuses: [&'static [u8]; 3] = [
        EXITED_0,
        br#"{"status":"exited","exit_code":1}"#,
        br#"{"status":"failed","message":"spawn failed"}"#,
    ];

    for status in statuses {
        let frame = Frame::Status(Bytes::from_static(status));
        let mut buffer = BytesMut::from(frame.encode().as_ref());
        assert_eq!(Frame::decode(&mut buffer).unwrap(), Some(frame));
        assert!(buffer.is_empty());
    }
}

#[test]
fn decodes_concatenated_frames() {
    let frames = exec_samples();
    let mut buffer = BytesMut::new();
    for frame in &frames {
        buffer.extend_from_slice(&frame.encode());
    }

    for frame in frames {
        assert_eq!(Frame::decode(&mut buffer).unwrap(), Some(frame));
    }
    assert!(buffer.is_empty());
}

#[test]
fn waits_until_a_frame_is_complete() {
    let encoded = Frame::Stdout(Bytes::from_static(b"hello")).encode();

    for prefix in 0..encoded.len() {
        let mut buffer = BytesMut::from(&encoded[..prefix]);
        assert_eq!(Frame::decode(&mut buffer).unwrap(), None);
        assert_eq!(buffer.len(), prefix, "an incomplete frame is left in place");
    }
}

#[test]
fn frame_rejects_an_unknown_channel() {
    for id in [0, 4] {
        let mut buffer = BytesMut::new();
        buffer.put_u8(id);
        buffer.put_u32(0);

        assert!(matches!(
            Frame::decode(&mut buffer),
            Err(FrameError::UnknownChannel(unknown)) if unknown == id
        ));
    }
}

#[test]
fn rejects_an_oversized_payload() {
    let mut buffer = BytesMut::new();
    buffer.put_u8(Channel::Stdout.as_u8());
    buffer.put_u32(MAX_PAYLOAD_LEN as u32 + 1);

    assert!(matches!(
        Frame::decode(&mut buffer),
        Err(FrameError::PayloadTooLarge(_))
    ));
}

#[test]
fn accepts_a_stream_that_ends_with_a_status_frame() {
    let mut stream = FrameStream::default();
    stream.feed(&Frame::Stdout(Bytes::from_static(b"out")).encode());
    stream.feed(&Frame::Status(Bytes::from_static(EXITED_0)).encode());

    assert_eq!(
        stream.decode().unwrap(),
        Some(Frame::Stdout(Bytes::from_static(b"out")))
    );
    assert!(!stream.is_finished());

    assert_eq!(
        stream.decode().unwrap(),
        Some(Frame::Status(Bytes::from_static(EXITED_0)))
    );
    assert!(stream.is_finished());

    stream.finish().unwrap();
}

#[test]
fn rejects_a_frame_after_the_status_frame() {
    let mut stream = FrameStream::default();
    stream.feed(&Frame::Status(Bytes::from_static(EXITED_0)).encode());
    stream.feed(&Frame::Stdout(Bytes::from_static(b"late")).encode());

    assert!(matches!(stream.decode().unwrap(), Some(Frame::Status(_))));
    assert!(matches!(stream.decode(), Err(FrameError::FrameAfterStatus)));
}

#[test]
fn rejects_a_stream_without_a_status_frame() {
    let mut stream = FrameStream::default();
    stream.feed(&Frame::Stderr(Bytes::from_static(b"truncated")).encode());

    assert!(matches!(stream.decode().unwrap(), Some(Frame::Stderr(_))));
    assert!(matches!(stream.finish(), Err(FrameError::MissingStatus)));
}

#[test]
fn encodes_the_channel_then_a_big_endian_length() {
    let encoded = Frame::Stderr(Bytes::from_static(b"ab")).encode();
    assert_eq!(encoded.as_ref(), b"\x02\x00\x00\x00\x02ab");
    assert_eq!(Frame::Stderr(Bytes::from_static(b"ab")).payload_len(), 2);
    assert_eq!(Frame::Stderr(Bytes::from_static(b"ab")).channel(), Channel::Stderr);
}

#[test]
fn channel_ids_read_back() {
    for channel in [Channel::Stdout, Channel::Stderr, Channel::Error] {
        assert_eq!(Channel::from_u8(channel.as_u8()).unwrap(), channel);
    }
    assert!(matches!(Channel::from_u8(9), Err(FrameError::UnknownChannel(9))));
}

#[test]
fn a_payload_at_the_limit_is_accepted() {
    let mut buffer = BytesMut::new();
    buffer.put_u8(Channel::Stdout.as_u8());
    buffer.put_u32(MAX_PAYLOAD_LEN as u32);
    // The header alone is complete but the payload is not yet there.
    assert_eq!(Frame::decode(&mut buffer).unwrap(), None);
}
