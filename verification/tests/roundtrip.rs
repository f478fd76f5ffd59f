use animgif::session::{PollOutcome, Session};
use animgif::types::LoopMode;

struct DecodedFrame {
    delay: u16,
    canvas: Vec<u8>,
}

/// Decode a GIF and composite each frame onto the running canvas,
/// honoring frame rectangles and transparency, returning one full RGBA
/// canvas per frame.
fn decode_composited(bytes: &[u8], width: usize, height: usize) -> Vec<DecodedFrame> {
    let mut options = gif::DecodeOptions::new();
    options.set_color_output(gif::ColorOutput::RGBA);
    let mut decoder = options.read_info(std::io::Cursor::new(bytes)).unwrap();
    let mut canvas = vec![0u8; width * height * 4];
    let mut out = Vec::new();
    while let Some(frame) = decoder.read_next_frame().unwrap() {
        let fw = frame.width as usize;
        let fh = frame.height as usize;
        let top = frame.top as usize;
        let left = frame.left as usize;
        assert!(left + fw <= width && top + fh <= height);
        for y in 0..fh {
            for x in 0..fw {
                let src = (y * fw + x) * 4;
                if frame.buffer[src + 3] != 0 {
                    let dst = ((top + y) * width + left + x) * 4;
                    canvas[dst..dst + 4].copy_from_slice(&frame.buffer[src..src + 4]);
                }
            }
        }
        out.push(DecodedFrame { delay: frame.delay, canvas: canvas.clone() });
    }
    out
}

fn seconds_to_cs(seconds: f64) -> u16 {
    (seconds * 100.0).round() as u16
}

#[test]
fn single_red_frame_loops_forever() {
    let mut s = Session::create_session(2, 2, 100, LoopMode::Infinite).unwrap();
    let red: Vec<u8> = vec![255, 0, 0, 255, 255, 0, 0, 255, 255, 0, 0, 255, 255, 0, 0, 255];
    s.submit_frame(&red, seconds_to_cs(0.5)).unwrap();
    s.finalize();
    let bytes = loop {
        match s.poll_result() {
            PollOutcome::Ready(b) => break b,
            PollOutcome::NotReady => continue,
            PollOutcome::Failed(e) => panic!("encoding failed: {:?}", e),
        }
    };
    assert_eq!(&bytes[0..6], b"GIF89a");
    // The loop-forever extension is present.
    assert!(bytes.windows(11).any(|w| w == b"NETSCAPE2.0"));
    let mut options = gif::DecodeOptions::new();
    options.set_color_output(gif::ColorOutput::RGBA);
    let mut decoder = options.read_info(std::io::Cursor::new(&bytes[..])).unwrap();
    assert!(matches!(decoder.repeat(), gif::Repeat::Infinite));
    let frame = decoder.read_next_frame().unwrap().unwrap();
    assert_eq!(frame.delay, 50);
    assert_eq!(frame.width, 2);
    assert_eq!(frame.height, 2);
    for px in frame.buffer.chunks(4) {
        assert_eq!(px, [255, 0, 0, 255]);
    }
    assert!(decoder.read_next_frame().unwrap().is_none());
}

#[test]
fn frames_and_delays_round_trip() {
    // 3 x 2 canvas, few colors: quantization is lossless.
    let a: Vec<u8> = vec![
        10, 20, 30, 255, 40, 50, 60, 255, 70, 80, 90, 255, 10, 20, 30, 255, 40, 50, 60, 255, 70,
        80, 90, 255,
    ];
    // Second frame changes exactly one pixel.
    let mut b = a.clone();
    b[4] = 200;
    b[5] = 210;
    b[6] = 220;
    let mut s = Session::create_session(3, 2, 100, LoopMode::Once).unwrap();
    s.submit_frame(&a, 10).unwrap();
    s.submit_frame(&b, 20).unwrap();
    s.finalize();
    let bytes = match s.poll_result() {
        PollOutcome::Ready(b) => b,
        _ => panic!("expected output"),
    };
    let decoded = decode_composited(&bytes, 3, 2);
    assert_eq!(decoded.len(), 2);
    assert_eq!(decoded[0].delay, 10);
    assert_eq!(decoded[1].delay, 20);
    assert_eq!(decoded[0].canvas, a);
    assert_eq!(decoded[1].canvas, b);
}

#[test]
fn many_colors_quantize_to_two_bits_per_channel() {
    // 16 x 16 pixels with more than 127 distinct colors: the quantizer
    // falls back to keeping the two high bits of each channel.
    let mut data: Vec<u8> = Vec::new();
    for i in 0..256usize {
        data.extend_from_slice(&[i as u8, (i * 3) as u8, (i * 7) as u8, 255]);
    }
    let mut s = Session::create_session(16, 16, 100, LoopMode::Once).unwrap();
    s.submit_frame(&data, 5).unwrap();
    s.finalize();
    let bytes = match s.poll_result() {
        PollOutcome::Ready(b) => b,
        _ => panic!("expected output"),
    };
    let decoded = decode_composited(&bytes, 16, 16);
    assert_eq!(decoded.len(), 1);
    for (px, orig) in decoded[0].canvas.chunks(4).zip(data.chunks(4)) {
        assert_eq!(px[0], (orig[0] / 64) * 64);
        assert_eq!(px[1], (orig[1] / 64) * 64);
        assert_eq!(px[2], (orig[2] / 64) * 64);
        assert_eq!(px[3], 255);
    }
}

#[test]
fn transparent_pixel_keeps_previous_content() {
    // Frame 2 marks one pixel transparent; a decoder keeps frame 1's
    // color there, so both composited frames show solid blue.
    let blue: Vec<u8> = vec![0, 0, 255, 255].repeat(4);
    let mut second = blue.clone();
    second[0] = 90;
    second[3] = 0;  // alpha below 128: transparent
    let mut s = Session::create_session(2, 2, 100, LoopMode::Once).unwrap();
    s.submit_frame(&blue, 10).unwrap();
    s.submit_frame(&second, 10).unwrap();
    s.finalize();
    let bytes = match s.poll_result() {
        PollOutcome::Ready(b) => b,
        _ => panic!("expected output"),
    };
    let decoded = decode_composited(&bytes, 2, 2);
    assert_eq!(decoded.len(), 2);
    assert_eq!(decoded[0].canvas, blue);
    assert_eq!(decoded[1].canvas, blue);
}

#[test]
fn low_quality_truncates_high_quality_exact() {
    let data: Vec<u8> = vec![10, 200, 35, 255].repeat(4);
    let mut lo = Session::create_session(2, 2, 10, LoopMode::Once).unwrap();
    let mut hi = Session::create_session(2, 2, 100, LoopMode::Once).unwrap();
    lo.submit_frame(&data, 5).unwrap();
    hi.submit_frame(&data, 5).unwrap();
    lo.finalize();
    hi.finalize();
    let lo_bytes = match lo.poll_result() {
        PollOutcome::Ready(b) => b,
        _ => panic!("expected output"),
    };
    let hi_bytes = match hi.poll_result() {
        PollOutcome::Ready(b) => b,
        _ => panic!("expected output"),
    };
    let lo_dec = decode_composited(&lo_bytes, 2, 2);
    let hi_dec = decode_composited(&hi_bytes, 2, 2);
    assert_eq!(&lo_dec[0].canvas[0..4], &[0, 192, 0, 255]);
    assert_eq!(&hi_dec[0].canvas[0..4], &[10, 200, 35, 255]);
}

#[test]
fn identical_frames_round_trip() {
    // Nothing changes between the frames: the planner emits a minimal
    // patch and the canvas must stay intact.
    let image: Vec<u8> = vec![5, 10, 15, 255, 20, 25, 30, 255, 35, 40, 45, 255, 50, 55, 60, 255];
    let mut s = Session::create_session(2, 2, 100, LoopMode::Once).unwrap();
    s.submit_frame(&image, 8).unwrap();
    s.submit_frame(&image, 9).unwrap();
    s.finalize();
    let bytes = match s.poll_result() {
        PollOutcome::Ready(b) => b,
        _ => panic!("expected output"),
    };
    let decoded = decode_composited(&bytes, 2, 2);
    assert_eq!(decoded.len(), 2);
    assert_eq!(decoded[0].delay, 8);
    assert_eq!(decoded[1].delay, 9);
    assert_eq!(decoded[0].canvas, image);
    assert_eq!(decoded[1].canvas, image);
}
