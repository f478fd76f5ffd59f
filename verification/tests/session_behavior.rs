use animgif::session::{PollOutcome, Session, SessionState};
use animgif::types::{Error, LoopMode};

fn solid_frame(pixels: usize, rgba: [u8; 4]) -> Vec<u8> {
    let mut v = Vec::new();
    for _ in 0..pixels {
        v.extend_from_slice(&rgba);
    }
    v
}

#[test]
fn create_session_valid_starts_collecting() {
    let cases = [(1u32, 1u32, 0u8), (2, 2, 100), (65535, 1, 50), (1, 65535, 99), (320, 200, 1)];
    for (w, h, q) in cases {
        let s = Session::create_session(w, h, q, LoopMode::Infinite).unwrap();
        assert!(s.state == SessionState::Collecting);
        assert_eq!(s.frames.len(), 0);
        assert_eq!(s.width as u32, w);
        assert_eq!(s.height as u32, h);
    }
}

#[test]
fn create_session_invalid_settings_fail() {
    let cases = [(0u32, 2u32, 100u8), (2, 0, 100), (65536, 2, 100), (2, 65536, 100), (2, 2, 101)];
    for (w, h, q) in cases {
        match Session::create_session(w, h, q, LoopMode::Once) {
            Err(e) => assert_eq!(e, Error::EncodingError),
            Ok(_) => panic!("settings {} {} {} were accepted", w, h, q),
        }
    }
}

#[test]
fn wrong_size_always_invalid_frame_size() {
    let mut s = Session::create_session(2, 2, 100, LoopMode::Infinite).unwrap();
    // 2 * 2 * 4 = 16 bytes expected; anything else fails, whatever it holds.
    assert_eq!(s.submit_frame(&[], 10).unwrap_err(), Error::InvalidFrameSize);
    assert_eq!(s.submit_frame(&[0u8; 15], 10).unwrap_err(), Error::InvalidFrameSize);
    assert_eq!(s.submit_frame(&[255u8; 17], 10).unwrap_err(), Error::InvalidFrameSize);
    assert_eq!(s.submit_frame(&[7u8; 32], 10).unwrap_err(), Error::InvalidFrameSize);
    assert_eq!(s.frames.len(), 0);
    // The right size is accepted.
    assert!(s.submit_frame(&[0u8; 16], 10).is_ok());
    assert_eq!(s.frames.len(), 1);
}

#[test]
fn poll_before_finalize_never_ready_never_errors() {
    let mut s = Session::create_session(2, 2, 100, LoopMode::Infinite).unwrap();
    for _ in 0..5 {
        assert!(matches!(s.poll_result(), PollOutcome::NotReady));
    }
    // Polling changed nothing: the session still accepts frames.
    assert!(s.submit_frame(&solid_frame(4, [1, 2, 3, 255]), 5).is_ok());
    assert!(matches!(s.poll_result(), PollOutcome::NotReady));
}

#[test]
fn submit_after_finalize_fails_session_closed() {
    let mut s = Session::create_session(2, 2, 100, LoopMode::Infinite).unwrap();
    let frame = solid_frame(4, [9, 9, 9, 255]);
    assert!(s.submit_frame(&frame, 5).is_ok());
    s.finalize();
    assert_eq!(s.submit_frame(&frame, 5).unwrap_err(), Error::SessionClosed);
    // A closed session reports the closed state even for a wrong-size buffer.
    assert_eq!(s.submit_frame(&[0u8; 3], 5).unwrap_err(), Error::SessionClosed);
}

#[test]
fn finalize_twice_same_as_once() {
    let frame = solid_frame(4, [20, 40, 60, 255]);
    let mut once = Session::create_session(2, 2, 100, LoopMode::Infinite).unwrap();
    let mut twice = Session::create_session(2, 2, 100, LoopMode::Infinite).unwrap();
    once.submit_frame(&frame, 7).unwrap();
    twice.submit_frame(&frame, 7).unwrap();
    once.finalize();
    twice.finalize();
    twice.finalize();
    assert!(once.state == twice.state);
    let a = match once.poll_result() {
        PollOutcome::Ready(b) => b,
        _ => panic!("expected output"),
    };
    let b = match twice.poll_result() {
        PollOutcome::Ready(b) => b,
        _ => panic!("expected output"),
    };
    assert_eq!(a, b);
}

#[test]
fn zero_frames_finalized_fails_encoding_error() {
    let mut s = Session::create_session(4, 4, 100, LoopMode::Infinite).unwrap();
    s.finalize();
    assert!(matches!(s.poll_result(), PollOutcome::Failed(Error::EncodingError)));
    // The failure is sticky.
    assert!(matches!(s.poll_result(), PollOutcome::Failed(Error::EncodingError)));
}

#[test]
fn output_starts_with_gif89a_signature() {
    for n in 1..4usize {
        let mut s = Session::create_session(3, 2, 100, LoopMode::Infinite).unwrap();
        for k in 0..n {
            let frame = solid_frame(6, [(k * 40) as u8, 0, 100, 255]);
            s.submit_frame(&frame, 10).unwrap();
        }
        s.finalize();
        match s.poll_result() {
            PollOutcome::Ready(bytes) => {
                assert_eq!(&bytes[0..6], b"GIF89a");
            },
            _ => panic!("expected output"),
        }
    }
}

#[test]
fn second_retrieval_fails_already_retrieved() {
    let mut s = Session::create_session(2, 2, 100, LoopMode::Infinite).unwrap();
    s.submit_frame(&solid_frame(4, [1, 1, 1, 255]), 5).unwrap();
    s.finalize();
    assert!(matches!(s.poll_result(), PollOutcome::Ready(_)));
    assert!(matches!(s.poll_result(), PollOutcome::Failed(Error::AlreadyRetrieved)));
    assert!(matches!(s.poll_result(), PollOutcome::Failed(Error::AlreadyRetrieved)));
}
