use cowatcher::gdi::{downscale, looks_blank};

#[test]
fn downscale_halves_and_keeps_four_channels() {
    let pixels: Vec<u8> = (0..4 * 2 * 4).map(|i| i as u8).collect();
    let (out, w, h) = downscale(&pixels, 4, 2, 2);
    assert_eq!((w, h), (2, 1));
    assert_eq!(out.len(), 2 * 4, "2 pixels x 4 channels");
    assert_eq!(&out[..4], &pixels[..4], "first pixel is sampled as-is");
}

#[test]
fn downscale_never_upscales_or_divides_by_zero() {
    let pixels = vec![9u8; 2 * 2 * 4];
    let (out, w, h) = downscale(&pixels, 2, 2, 4096);
    assert_eq!((w, h), (2, 2), "smaller than the cap stays unchanged");
    assert_eq!(out.len(), pixels.len());
}

#[test]
fn the_second_sample_comes_from_the_step_not_the_neighbour() {
    let pixels: Vec<u8> = (0..4 * 2 * 4).map(|i| i as u8).collect();
    let (out, _, _) = downscale(&pixels, 4, 2, 2);
    assert_eq!(&out[4..8], &pixels[8..12]);
}

#[test]
fn a_zero_cap_is_taken_as_one_pixel_wide() {
    let pixels: Vec<u8> = (0..3 * 3 * 4).map(|i| i as u8).collect();
    let (out, w, h) = downscale(&pixels, 3, 3, 0);
    assert_eq!((w, h), (1, 1));
    assert_eq!(out, pixels[..4].to_vec());
}

#[test]
fn a_flat_window_looks_blank() {
    let pixels = vec![7u8; 100 * 50 * 4];
    assert!(looks_blank(&pixels, 100, 50));
}

#[test]
fn a_window_with_detail_on_the_sampled_row_is_not_blank() {
    let (w, h) = (100usize, 50usize);
    let mut pixels = vec![7u8; w * h * 4];
    let row = h * 3 / 5;
    pixels[(row * w + 10) * 4] = 200;
    assert!(!looks_blank(&pixels, w as i32, h as i32));
}

#[test]
fn short_or_empty_images_look_blank() {
    assert!(looks_blank(&[], 0, 0));
    assert!(looks_blank(&[1, 2, 3], 1, 1));
    assert!(looks_blank(&[1, 2, 3, 4], -1, 1));
}
