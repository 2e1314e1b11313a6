use bytes::Bytes;
use sandbox_toolkit::process::{terminal_program, TerminalSize};
use sandbox_toolkit::pty_frame::{Channel, Direction, Frame, FrameError, SessionFrames};

const EXITED_3: &[u8] = br#"{"status":"exited","exit_code":3}"#;
const EXITED_0: &[u8] = br#"{"status":"exited","exit_code":0}"#;

fn pty_samples() -> Vec<Frame> {
    vec![
        Frame::Stdin(Bytes::from_static(b"in")),
        Frame::Stdout(Bytes::from_static(b"out")),
        Frame::Exit(Bytes::from_static(EXITED_3)),
        Frame::Resize(TerminalSize { rows: 24, cols: 80 }),
        Frame::Close,
    ]
}

#[test]
fn pty_channel_ids_are_wire_stable() {
    assert_eq!(Channel::Stdin.as_u8(), 0);
    assert_eq!(Channel::Stdout.as_u8(), 1);
    assert_eq!(Channel::Exit.as_u8(), 3);
    assert_eq!(Channel::Resize.as_u8(), 4);
    assert_eq!(Channel::Close.as_u8(), 255);
}

#[test]
fn channels_carry_their_direction() {
    assert_eq!(Channel::Stdin.direction(), Direction::ClientToServer);
    assert_eq!(Channel::Resize.direction(), Direction::ClientToServer);
    assert_eq!(Channel::Stdout.direction(), Direction::ServerToClient);
    assert_eq!(Channel::Exit.direction(), Direction::ServerToClient);
    assert_eq!(Channel::Close.direction(), Direction::Bidirectional);
}

#[test]
fn pty_round_trips_every_frame() {
    for frame in pty_samples() {
        assert_eq!(Frame::decode(&frame.encode()).unwrap(), frame);
    }
}

#[test]
fn pty_round_trips_every_status() {
    let statuses: [&'static [u8]; 3] = [
        EXITED_0,
        br#"{"status":"exited","exit_code":1}"#,
        br#"{"status":"failed","message":"spawn failed"}"#,
    ];

    for status in statuses {
        let frame = Frame::Exit(Bytes::from_static(status));
        assert_eq!(Frame::decode(&frame.encode()).unwrap(), frame);
    }
}

#[test]
fn a_message_is_a_whole_frame() {
    assert_eq!(
        Frame::Stdin(Bytes::from_static(b"hi")).encode().as_ref(),
        b"\x00hi"
    );
    assert_eq!(Frame::Close.encode().as_ref(), b"\xff");
}

#[test]
fn rejects_an_empty_message() {
    assert!(matches!(Frame::decode(&[]), Err(FrameError::EmptyMessage)));
}

#[test]
fn rejects_a_stderr_channel() {
    assert!(matches!(
        Frame::decode(&[2]),
        Err(FrameError::UnknownChannel(2))
    ));
}

#[test]
fn pty_rejects_an_unknown_channel() {
    assert!(matches!(
        Frame::decode(&[5]),
        Err(FrameError::UnknownChannel(5))
    ));
}

#[test]
fn rejects_a_resize_payload_shorter_than_two_integers() {
    assert!(matches!(
        Frame::decode(&[Channel::Resize.as_u8(), 0, 0, 0]),
        Err(FrameError::InvalidPayload {
            channel: Channel::Resize,
            expected: 4,
            length: 3,
        })
    ));
}

#[test]
fn accepts_a_resize_payload_with_trailing_bytes() {
    let frame = Frame::decode(&[Channel::Resize.as_u8(), 0, 24, 0, 80, 9, 9]).unwrap();

    assert_eq!(frame, Frame::Resize(TerminalSize { rows: 24, cols: 80 }));
}

#[test]
fn ignores_the_payload_of_a_close_signal() {
    assert_eq!(
        Frame::decode(&[Channel::Close.as_u8(), 1, 2]).unwrap(),
        Frame::Close
    );
}

#[test]
fn only_close_follows_the_exit_frame() {
    let mut frames = SessionFrames::default();
    frames
        .decode(&Frame::Exit(Bytes::from_static(EXITED_0)).encode())
        .unwrap();
    assert!(frames.exited());

    assert!(matches!(
        frames.decode(&Frame::Stdout(Bytes::from_static(b"late")).encode()),
        Err(FrameError::FrameAfterExit)
    ));
    assert!(matches!(
        frames.decode(&Frame::Exit(Bytes::from_static(EXITED_0)).encode()),
        Err(FrameError::FrameAfterExit)
    ));

    frames.decode(&Frame::Close.encode()).unwrap();
    assert!(frames.is_closed());
}

#[test]
fn nothing_follows_the_close_frame() {
    let mut frames = SessionFrames::default();
    frames
        .decode(&Frame::Stdout(Bytes::from_static(b"out")).encode())
        .unwrap();
    frames.decode(&Frame::Close.encode()).unwrap();

    assert!(matches!(
        frames.decode(&Frame::Stdin(Bytes::from_static(b"in")).encode()),
        Err(FrameError::FrameAfterClose)
    ));
    assert!(matches!(
        frames.decode(&Frame::Close.encode()),
        Err(FrameError::FrameAfterClose)
    ));
}

#[test]
fn terminal_sizes_are_two_big_endian_integers() {
    let size = TerminalSize { rows: 300, cols: 2 };
    assert_eq!(size.to_wire(), [1, 44, 0, 2]);
    assert_eq!(TerminalSize::from_wire(&size.to_wire()), Some(size));
    assert_eq!(TerminalSize::from_wire(&[1, 2, 3]), None);
    assert_eq!(TerminalSize::default(), TerminalSize { rows: 24, cols: 80 });
}

#[test]
fn a_fresh_session_has_neither_exited_nor_closed() {
    let frames = SessionFrames::new();
    assert!(!frames.exited());
    assert!(!frames.is_closed());
}

#[test]
fn a_terminal_needs_a_program_and_may_rename_it() {
    assert_eq!(terminal_program("", &None), Err("missing program for PTY spawn".to_string()));
    assert_eq!(terminal_program("", &Some("sh".to_string())), Err("missing program for PTY spawn".to_string()));
    assert_eq!(terminal_program("/bin/bash", &None), Ok("/bin/bash".to_string()));
    assert_eq!(terminal_program("/bin/bash", &Some("-bash".to_string())), Ok("-bash".to_string()));
}
