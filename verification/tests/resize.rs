use cowatcher::resize::{area_average, fit_within, CHANNELS};

/// Builds a BGRA image from a per-pixel grey value.
fn grey_image(width: u32, height: u32, value: impl Fn(u32, u32) -> u8) -> Vec<u8> {
    let mut out = Vec::with_capacity((width * height) as usize * CHANNELS);
    for y in 0..height {
        for x in 0..width {
            let v = value(x, y);
            out.extend_from_slice(&[v, v, v, 255]);
        }
    }
    out
}

#[test]
fn shrinking_two_by_two_to_one_pixel_averages_all_four() {
    let src = grey_image(2, 2, |x, y| if (x + y) % 2 == 0 { 0 } else { 200 });
    let out = area_average(&src, 2, 2, 1, 1);
    assert_eq!(out.len(), CHANNELS);
    assert_eq!(out[0], 100, "average of 0,200,200,0");
}

#[test]
fn a_fine_checkerboard_becomes_flat_grey_rather_than_aliasing() {
    let src = grey_image(64, 64, |x, y| if (x + y) % 2 == 0 { 0 } else { 255 });
    let out = area_average(&src, 64, 64, 8, 8);
    assert_eq!(out.len(), 8 * 8 * CHANNELS);
    for pixel in out.chunks_exact(CHANNELS) {
        assert!(
            (126..=129).contains(&pixel[0]),
            "expected mid grey, got {}",
            pixel[0]
        );
    }
}

#[test]
fn the_exact_target_size_is_produced_even_for_a_fractional_ratio() {
    let src = grey_image(256, 144, |_, _| 128);
    let out = area_average(&src, 256, 144, 192, 108);
    assert_eq!(out.len(), 192 * 108 * CHANNELS);
    assert!(
        out.chunks_exact(CHANNELS).all(|p| p[0] == 128),
        "a flat image must stay flat"
    );
}

#[test]
fn the_alpha_channel_survives() {
    let src = grey_image(4, 4, |_, _| 10);
    let out = area_average(&src, 4, 4, 2, 2);
    assert!(out.chunks_exact(CHANNELS).all(|p| p[3] == 255));
}

#[test]
fn a_same_size_request_returns_the_frame_unchanged() {
    let src = grey_image(8, 8, |x, _| x as u8);
    assert_eq!(area_average(&src, 8, 8, 8, 8), src);
}

#[test]
fn a_malformed_frame_returns_nothing_instead_of_panicking() {
    assert!(area_average(&[1, 2, 3], 100, 100, 10, 10).is_empty());
    assert!(area_average(&[], 0, 0, 10, 10).is_empty());
    assert!(area_average(&[0; 64], 4, 4, 0, 10).is_empty());
}

#[test]
fn a_gradient_keeps_its_shape_when_halved() {
    let src = grey_image(8, 2, |x, _| if x < 4 { 0 } else { 200 });
    let out = area_average(&src, 8, 2, 4, 1);
    let values: Vec<u8> = out.chunks_exact(CHANNELS).map(|p| p[0]).collect();
    assert_eq!(values, vec![0, 0, 200, 200]);
}

#[test]
fn fit_within_keeps_the_aspect_ratio_of_a_16_by_9_screen() {
    assert_eq!(fit_within(2560, 1440, 1920, 1080), (1920, 1080));
    assert_eq!(fit_within(2560, 1440, 1280, 1280), (1280, 720));
    assert_eq!(fit_within(1920, 1200, 1280, 720), (1152, 720));
}

#[test]
fn fit_within_never_enlarges() {
    assert_eq!(fit_within(1280, 720, 3840, 2160), (1280, 720));
}

#[test]
fn fit_within_returns_even_dimensions_for_encoders() {
    let (w, h) = fit_within(1919, 1079, 1000, 1000);
    assert_eq!(w % 2, 0, "width {w} must be even");
    assert_eq!(h % 2, 0, "height {h} must be even");
}

#[test]
fn fit_within_survives_nonsense_input() {
    assert_eq!(fit_within(0, 0, 100, 100), (1, 1));
    assert_eq!(fit_within(100, 100, 0, 0), (100, 100));
}

#[test]
fn a_three_to_two_shrink_weighs_partial_pixels() {
    // 3 source columns into 2: the middle source pixel is split half and half.
    let src = grey_image(3, 1, |x, _| [0u8, 100, 200][x as usize]);
    let out = area_average(&src, 3, 1, 2, 1);
    // left = (0*2 + 100*1) / 3 = 33.3 -> 33; right = (100*1 + 200*2) / 3 = 166.7 -> 167
    assert_eq!(out[0], 33);
    assert_eq!(out[4], 167);
}

#[test]
fn a_flat_frame_shrunk_to_a_ragged_size_stays_flat() {
    let src = grey_image(7, 5, |_, _| 77);
    let out = area_average(&src, 7, 5, 3, 2);
    assert_eq!(out.len(), 3 * 2 * CHANNELS);
    assert!(out.chunks_exact(CHANNELS).all(|p| p[0] == 77 && p[3] == 255));
}
