use cowatcher::recording::{
    clamp_options, directory, ffmpeg_params, file_name, finish_problem, parse_codec, parse_preset,
    parse_scaler, Codec, Preset, RecordOptions, Scaler,
};
use std::path::Path;

#[test]
fn recordings_live_in_their_own_folder() {
    let dir = directory(Path::new("C:\\state"));
    assert!(dir.ends_with("recordings"));
}

fn options() -> RecordOptions {
    RecordOptions {
        max_width: 1920,
        max_height: 1080,
        fps: 30,
        codec: Codec::H264,
        preset: Preset::Medium,
        quality: 23,
        bframes: 3,
        scaler: Scaler::Lanczos,
        two_pass: false,
    }
}

#[test]
fn absurd_options_are_clamped_and_sizes_made_even() {
    let got = clamp_options(RecordOptions {
        max_width: 99_999,
        max_height: 1081,
        fps: 144,
        quality: 200,
        bframes: 99,
        ..options()
    });
    assert_eq!(got.max_width, 3840);
    assert_eq!(got.max_height, 1080);
    assert_eq!(got.fps, 30);
    assert_eq!(got.quality, 51);
    assert_eq!(got.bframes, 16);
    assert_eq!(clamp_options(got), got);
}

#[test]
fn av1_gets_a_numbered_preset_and_no_bframes() {
    let (lib, preset, bframes, scaler) = ffmpeg_params(&RecordOptions {
        codec: Codec::Av1,
        preset: Preset::Slow,
        scaler: Scaler::Bicubic,
        ..options()
    });
    assert_eq!((lib.as_str(), preset.as_str(), bframes, scaler.as_str()), ("libsvtav1", "5", false, "bicubic"));
}

#[test]
fn x265_keeps_the_named_preset_and_bframes() {
    let (lib, preset, bframes, scaler) = ffmpeg_params(&RecordOptions {
        codec: Codec::H265,
        preset: Preset::Veryfast,
        ..options()
    });
    assert_eq!((lib.as_str(), preset.as_str(), bframes, scaler.as_str()), ("libx265", "veryfast", true, "lanczos"));
}

#[test]
fn form_names_fall_back_to_the_defaults() {
    assert_eq!(parse_codec("av1"), Codec::Av1);
    assert_eq!(parse_codec("mpeg2"), Codec::H264);
    assert_eq!(parse_preset("slower"), Preset::Slower);
    assert_eq!(parse_preset("?"), Preset::Medium);
    assert_eq!(parse_scaler("neighbor"), Scaler::Neighbor);
    assert_eq!(parse_scaler(""), Scaler::Lanczos);
}

#[test]
fn recording_files_are_named_by_id_and_container() {
    assert_eq!(file_name("0192abcd", true), "recording-0192abcd.mp4");
    assert_eq!(file_name("0192abcd", false), "recording-0192abcd.avi");
}

#[test]
fn a_slow_pc_is_told_it_recorded_at_its_own_rate() {
    assert_eq!(
        finish_problem(12, 30, None).as_deref(),
        Some("this PC managed 12 fps, not 30; the file plays at 12 fps so it is the right speed")
    );
    assert_eq!(finish_problem(30, 30, None), None);
    assert_eq!(
        finish_problem(12, 30, Some("disk full")).as_deref(),
        Some("closing the recording failed: disk full")
    );
}
