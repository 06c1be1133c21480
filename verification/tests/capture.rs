use cowatcher::capture::{
    bgra_from_rgb, bgra_of_decoded, decode_to_bgra, encode_bgra, jpeg_of_window_frame,
    CaptureError, JpegReadError,
};

fn flat_jpeg(width: u16, height: u16, bgr: [u8; 3]) -> Vec<u8> {
    let mut bgra = Vec::new();
    for _ in 0..(u32::from(width) * u32::from(height)) {
        bgra.extend_from_slice(&[bgr[0], bgr[1], bgr[2], 255]);
    }
    let mut out = Vec::new();
    jpeg_encoder::Encoder::new(&mut out, 90)
        .encode(&bgra, width, height, jpeg_encoder::ColorType::Bgra)
        .expect("encode");
    out
}

#[test]
fn a_frame_survives_the_round_trip_at_the_right_size() {
    let jpeg = flat_jpeg(64, 32, [10, 20, 200]);
    let (pixels, width, height) = decode_to_bgra(&jpeg).expect("decode");
    assert_eq!((width, height), (64, 32));
    assert_eq!(pixels.len(), 64 * 32 * 4);
}

#[test]
fn colours_come_back_in_bgra_order_not_rgba() {
    let jpeg = flat_jpeg(16, 16, [0, 0, 255]);
    let (pixels, _, _) = decode_to_bgra(&jpeg).expect("decode");
    let middle = (16 * 8 + 8) * 4;
    let pixel = &pixels[middle..middle + 4];
    assert!(pixel[2] > 200, "red channel should be high, got {pixel:?}");
    assert!(pixel[0] < 60, "blue channel should be low, got {pixel:?}");
    assert_eq!(pixel[3], 255, "alpha is opaque");
}

#[test]
fn every_pixel_is_opaque_so_nothing_shows_through_a_broadcast() {
    let jpeg = flat_jpeg(8, 8, [90, 90, 90]);
    let (pixels, _, _) = decode_to_bgra(&jpeg).expect("decode");
    assert!(pixels.chunks_exact(4).all(|p| p[3] == 255));
}

#[test]
fn junk_is_refused_rather_than_panicking() {
    assert!(decode_to_bgra(&[]).is_err());
    assert!(decode_to_bgra(b"this is not a jpeg at all").is_err());
    assert!(decode_to_bgra(&[0xFF, 0xD8, 0xFF, 0xD9]).is_err());
}

#[test]
fn rgb_becomes_bgra_and_short_data_is_refused() {
    assert_eq!(bgra_from_rgb(&[1, 2, 3, 4, 5, 6], 2, 1), Ok((vec![3, 2, 1, 255, 6, 5, 4, 255], 2, 1)));
    assert_eq!(bgra_from_rgb(&[1, 2], 1, 1), Err(CaptureError("JPEG decoded short".to_string())));
}

#[test]
fn encoding_refuses_short_or_empty_frames() {
    assert!(encode_bgra(&[0u8; 10], 4, 4).is_err());
    assert!(encode_bgra(&[], 0, 0).is_err());
    let jpeg = encode_bgra(&vec![128u8; 8 * 8 * 4], 8, 8).expect("encode");
    assert_eq!(&jpeg[..2], &[0xFF, 0xD8]);
    let (_, w, h) = decode_to_bgra(&jpeg).expect("decode");
    assert_eq!((w, h), (8, 8));
}

#[test]
fn a_wide_window_frame_is_scaled_down_before_encoding() {
    let frame = vec![200u8; 64 * 32 * 4];
    let jpeg = jpeg_of_window_frame(frame, 64, 32, 16).expect("encode");
    let (_, w, h) = decode_to_bgra(&jpeg).expect("decode");
    assert_eq!((w, h), (16, 8));
}


#[test]
fn each_decoder_failure_has_its_message() {
    let text = |r: Result<(Vec<u8>, u32, u32), CaptureError>| r.err().map(|e| e.0);
    assert_eq!(
        text(bgra_of_decoded(Err(JpegReadError::Headers("no SOI".to_string())))),
        Some("not a readable JPEG: no SOI".to_string())
    );
    assert_eq!(
        text(bgra_of_decoded(Err(JpegReadError::NoDimensions))),
        Some("JPEG has no dimensions".to_string())
    );
    assert_eq!(
        text(bgra_of_decoded(Err(JpegReadError::Decode("bad huffman".to_string())))),
        Some("JPEG decode failed: bad huffman".to_string())
    );
    assert_eq!(
        text(bgra_of_decoded(Ok((vec![1, 2, 3], 2, 1)))),
        Some("JPEG decoded short".to_string())
    );
    let (px, w, h) = bgra_of_decoded(Ok((vec![1, 2, 3], 1, 1))).ok().expect("one pixel");
    assert_eq!((px, w, h), (vec![3, 2, 1, 255], 1, 1));
}
