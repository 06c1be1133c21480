use cowatcher::audio::{decimated_format, downmix, mix_into, mix_samples_into, push_newest, AudioFormat};
use std::collections::VecDeque;

fn drain(sink: &VecDeque<i16>) -> Vec<i16> {
    sink.iter().copied().collect()
}

#[test]
fn downmixes_stereo_to_mono() {
    let mut sink = VecDeque::new();
    mix_into(&mut sink, &[100i16, 200, -100, -200], 2, 1, 1000, |s| s);
    assert_eq!(drain(&sink), vec![150, -150]);
}

#[test]
fn decimation_keeps_one_frame_in_factor() {
    let mut sink = VecDeque::new();
    mix_into(&mut sink, &[0i16, 1, 2, 3, 4, 5], 1, 3, 1000, |s| s);
    assert_eq!(drain(&sink), vec![0, 3]);
}

#[test]
fn old_audio_is_dropped_when_nobody_collects_it() {
    let mut sink = VecDeque::new();
    for value in 0i16..10 {
        mix_into(&mut sink, &[value], 1, 1, 4, |s| s);
    }
    assert_eq!(drain(&sink), vec![6, 7, 8, 9]);
}

#[test]
fn float_samples_are_scaled_and_clamped() {
    let mut sink = VecDeque::new();
    mix_into(&mut sink, &[0.0f32, 1.0, -1.0, 2.0], 1, 1, 1000, |s| {
        (s.clamp(-1.0, 1.0) * f32::from(i16::MAX)) as i16
    });
    assert_eq!(drain(&sink), vec![0, i16::MAX, -i16::MAX, i16::MAX]);
}

#[test]
fn a_negative_average_rounds_toward_zero() {
    assert_eq!(downmix(&[-1, -2], 2, 1), vec![-1]);
    assert_eq!(downmix(&[1, 2], 2, 1), vec![1]);
}

#[test]
fn a_trailing_partial_frame_is_dropped() {
    assert_eq!(downmix(&[10, 20, 30], 2, 1), vec![15]);
}

#[test]
fn zero_channels_are_taken_as_one() {
    let mut sink = VecDeque::new();
    mix_into(&mut sink, &[5i16, 6], 0, 1, 10, |s| s);
    assert_eq!(drain(&sink), vec![5, 6]);
}

#[test]
fn extreme_samples_average_without_overflow() {
    assert_eq!(downmix(&[i16::MAX, i16::MAX, i16::MIN, i16::MIN], 2, 1), vec![i16::MAX, i16::MIN]);
}

#[test]
fn playback_keeps_only_the_newest_samples() {
    let mut queue: VecDeque<i16> = (0..5).collect();
    push_newest(&mut queue, &[5, 6, 7], 4);
    assert_eq!(drain(&queue), vec![4, 5, 6, 7]);
    push_newest(&mut queue, &[], 10);
    assert_eq!(drain(&queue), vec![4, 5, 6, 7]);
}

#[test]
fn a_48k_device_decimated_by_three_keeps_three_seconds_at_16k() {
    let (format, capacity) = decimated_format(48_000, 3);
    assert_eq!(format, AudioFormat { sample_rate: 16_000, channels: 1 });
    assert_eq!(capacity, 48_000);
}

#[test]
fn every_kept_frame_gives_its_own_average_in_order() {
    // Three channels, keep one frame in two: frames 0 and 2 are kept, frame 1 and the partial
    // frame at the end are not.
    let data = [3i16, 6, 9, -1, -1, -1, -3, -4, -4, 7, 7];
    let mono = downmix(&data, 3, 2);
    assert_eq!(mono, vec![6, -3]);
}

#[test]
fn sixteen_bit_samples_mix_without_a_conversion() {
    let mut sink = VecDeque::new();
    for value in 0..10i16 {
        mix_samples_into(&mut sink, &[value, value], 2, 1, 4);
    }
    assert_eq!(drain(&sink), vec![6, 7, 8, 9]);
    let mut stereo = VecDeque::new();
    mix_samples_into(&mut stereo, &[10, 20, 30, 40, 50], 0, 1, 10);
    assert_eq!(drain(&stereo), vec![10, 20, 30, 40, 50]);
}
