use cowatcher::streaming::{next_frame, Captured, QUEUE_FRAMES};

#[test]
fn the_queue_stays_small_enough_to_keep_video_live() {
    assert!(QUEUE_FRAMES <= 4);
}

#[test]
fn a_grab_of_the_stream_size_is_sent_as_it_is_and_kept() {
    let mut previous = None;
    let pixels = vec![7u8; 2 * 2 * 4];
    let frame = next_frame(Captured::Frame(pixels.clone(), 2, 2), 2, 2, &mut previous);
    assert_eq!(frame, Some(pixels.clone()));
    assert_eq!(previous, Some(pixels));
}

#[test]
fn a_larger_grab_is_averaged_down() {
    let mut previous = None;
    // A 2x1 frame of one black and one white pixel averages to one grey pixel.
    let pixels = vec![0, 0, 0, 255, 200, 200, 200, 255];
    let frame = next_frame(Captured::Frame(pixels, 2, 1), 1, 1, &mut previous);
    assert_eq!(frame, Some(vec![100, 100, 100, 255]));
}

#[test]
fn an_unchanged_screen_or_a_missed_grab_resends_the_previous_picture() {
    let mut previous = Some(vec![1u8, 2, 3, 4]);
    assert_eq!(next_frame(Captured::Unchanged, 1, 1, &mut previous), Some(vec![1, 2, 3, 4]));
    assert_eq!(next_frame(Captured::Missed, 1, 1, &mut previous), Some(vec![1, 2, 3, 4]));
    assert_eq!(previous, Some(vec![1, 2, 3, 4]));
}

#[test]
fn nothing_is_sent_before_the_first_picture() {
    let mut previous = None;
    assert_eq!(next_frame(Captured::Missed, 4, 4, &mut previous), None);
    // A grab too short for its stated size scales to nothing and is skipped.
    assert_eq!(next_frame(Captured::Frame(vec![0u8; 3], 2, 2), 1, 1, &mut previous), None);
    assert_eq!(previous, None);
}
