use cowatcher::h264::{
    encoder_choice, frame_has_size, rgba_to_bgra, Decoder, Encoder, EncoderChoice, EncoderUsage,
    RateControl, StreamSettings,
};
use openh264::encoder::FrameRate;

/// An encoder for `settings`, at the clamped rate as OpenH264 takes it.
fn encoder_for(settings: StreamSettings) -> Encoder {
    let rate = FrameRate::from_hz(settings.clamped().fps as f32);
    Encoder::new(settings, rate).expect("encoder")
}

/// A BGRA test image with a hard vertical edge, which survives H.264 recognisably.
fn test_frame(width: u32, height: u32) -> Vec<u8> {
    let mut pixels = Vec::with_capacity((width * height * 4) as usize);
    for _ in 0..height {
        for x in 0..width {
            let v = if x < width / 2 { 16 } else { 235 };
            pixels.extend_from_slice(&[v, v, v, 255]);
        }
    }
    pixels
}

#[test]
fn a_wrongly_sized_frame_is_refused_rather_than_encoded_as_garbage() {
    let mut encoder = encoder_for(StreamSettings { width: 320, height: 240, fps: 15, kbps: 500 });
    let err = encoder.encode(&[0u8; 10]).unwrap_err();
    assert_eq!(err.0, "frame is 10 bytes, expected 307200 for 320x240");
}

#[test]
fn the_encoder_keeps_the_clamped_settings() {
    let encoder = encoder_for(StreamSettings { width: 99_999, height: 1081, fps: 999, kbps: 10 });
    assert_eq!(
        encoder.settings(),
        StreamSettings { width: 3840, height: 1080, fps: 60, kbps: 200 }
    );
}

#[test]
fn a_frame_survives_an_encode_and_decode_round_trip() {
    let (w, h) = (320u32, 240u32);
    let mut encoder = encoder_for(StreamSettings { width: w, height: h, fps: 15, kbps: 1_000 });
    let mut decoder = Decoder::new().expect("decoder");
    let frame = test_frame(w, h);
    let mut decoded = None;
    for _ in 0..3 {
        let packet = encoder.encode(&frame).expect("encode");
        assert!(!packet.is_empty(), "the encoder produced no data");
        if let Some(out) = decoder.decode(&packet).expect("decode") {
            decoded = Some(out);
        }
    }
    let (pixels, dw, dh) = decoded.expect("no frame decoded from three packets");
    assert_eq!((dw, dh), (w, h), "decoded size must match");
    assert_eq!(pixels.len(), (w * h * 4) as usize);
    let row = (h / 2) as usize * w as usize * 4;
    let left = pixels[row + 4 * 20];
    let right = pixels[row + 4 * (w as usize - 20)];
    assert!(left < 90, "left half should stay dark, got {left}");
    assert!(right > 160, "right half should stay light, got {right}");
}

#[test]
fn the_decoder_reports_opaque_pixels() {
    let (w, h) = (320u32, 240u32);
    let mut encoder = encoder_for(StreamSettings { width: w, height: h, fps: 15, kbps: 800 });
    let mut decoder = Decoder::new().expect("decoder");
    let frame = test_frame(w, h);
    for _ in 0..3 {
        let packet = encoder.encode(&frame).expect("encode");
        if let Some((pixels, _, _)) = decoder.decode(&packet).expect("decode") {
            assert!(pixels.chunks_exact(4).all(|p| p[3] == 255));
            return;
        }
    }
    panic!("nothing decoded");
}

#[test]
fn encoding_a_moving_picture_costs_far_less_than_the_first_frame() {
    let (w, h) = (320u32, 240u32);
    let mut encoder = encoder_for(StreamSettings { width: w, height: h, fps: 15, kbps: 1_000 });
    let frame = test_frame(w, h);
    let first = encoder.encode(&frame).expect("first").len();
    let mut later = 0;
    for _ in 0..5 {
        later = encoder.encode(&frame).expect("later").len();
    }
    assert!(
        later * 4 < first,
        "an unchanged frame ({later} bytes) should be far smaller than the keyframe ({first})"
    );
}

#[test]
fn garbage_is_not_a_picture() {
    let mut decoder = Decoder::new().expect("decoder");
    match decoder.decode(&[0u8, 1, 2, 3]) {
        Ok(None) => {}
        Ok(Some(_)) => panic!("four bytes decoded to a picture"),
        Err(e) => assert!(e.0.starts_with("H.264 decode: ")),
    }
}

#[test]
fn settings_clamp_absurd_requests_and_force_even_sides() {
    let got = StreamSettings {
        width: 99_999,
        height: 1081,
        fps: 999,
        kbps: 10,
    }
    .clamped();
    assert_eq!(got.width, StreamSettings::MAX_WIDTH);
    assert_eq!(got.height % 2, 0, "H.264 needs even dimensions");
    assert_eq!(got.fps, StreamSettings::MAX_FPS);
    assert_eq!(got.kbps, StreamSettings::MIN_KBPS);
}

#[test]
fn the_frame_interval_follows_the_rate() {
    let s = StreamSettings {
        fps: 30,
        ..StreamSettings::default()
    };
    assert_eq!(s.frame_interval().as_micros(), 33_333);
}

#[test]
fn an_odd_side_inside_the_range_is_rounded_down_to_even() {
    let got = StreamSettings { width: 1281, height: 721, fps: 30, kbps: 2_000 }.clamped();
    assert_eq!((got.width, got.height), (1280, 720));
}

#[test]
fn tiny_requests_are_raised_to_the_floor() {
    let got = StreamSettings { width: 1, height: 0, fps: 0, kbps: 0 }.clamped();
    assert_eq!(got, StreamSettings { width: 160, height: 160, fps: 1, kbps: 200 });
}

#[test]
fn clamping_twice_is_clamping_once() {
    let once = StreamSettings { width: 5000, height: 99, fps: 61, kbps: 30_000 }.clamped();
    assert_eq!(once.clamped(), once);
}

#[test]
fn a_zero_rate_lasts_a_whole_second() {
    let s = StreamSettings { fps: 0, ..StreamSettings::default() };
    assert_eq!(s.frame_interval().as_micros(), 1_000_000);
}

#[test]
fn the_default_stream_is_720p30_at_two_megabits() {
    assert_eq!(
        StreamSettings::default(),
        StreamSettings { width: 1280, height: 720, fps: 30, kbps: 2_000 }
    );
}

#[test]
fn a_frame_must_have_exactly_four_bytes_a_pixel() {
    assert!(frame_has_size(320 * 240 * 4, 320, 240));
    assert!(!frame_has_size(10, 320, 240));
    assert!(!frame_has_size(320 * 240 * 3, 320, 240));
}

#[test]
fn rgba_comes_back_as_opaque_bgra() {
    let rgba = [1u8, 2, 3, 4, 10, 20, 30, 40];
    assert_eq!(rgba_to_bgra(&rgba, 2, 1), vec![3, 2, 1, 255, 30, 20, 10, 255]);
}

#[test]
fn screens_are_encoded_as_real_time_screen_content_at_the_stream_bitrate() {
    let settings = StreamSettings { width: 1280, height: 720, fps: 30, kbps: 2_000 };
    assert_eq!(
        encoder_choice(&settings),
        EncoderChoice {
            usage: EncoderUsage::ScreenContentRealTime,
            rate_control: RateControl::Bitrate,
            bps: 2_000_000,
        }
    );
}
