use cowatcher::ffmpeg::{ffmpeg_args, FfmpegOptions};

fn options<'a>(use_bframes: bool, codec_lib: &'a str, preset: &'a str) -> FfmpegOptions<'a> {
    FfmpegOptions {
        out_width: 1280,
        out_height: 720,
        fps: 15,
        codec_lib,
        preset,
        crf: 23,
        bframes: 3,
        use_bframes,
        scaler: "lanczos",
    }
}

#[test]
fn x264_arguments_read_raw_bgra_from_stdin_and_pass_b_frames() {
    let args = ffmpeg_args(2560, 1440, &options(true, "libx264", "medium"));
    let expected = [
        "-y", "-f", "rawvideo", "-pixel_format", "bgra", "-video_size", "2560x1440",
        "-framerate", "15", "-i", "pipe:0", "-vf", "scale=1280:720:flags=lanczos", "-c:v",
        "libx264", "-preset", "medium", "-crf", "23", "-bf", "3", "-pix_fmt", "yuv420p",
    ];
    assert_eq!(args, expected.iter().map(|s| s.to_string()).collect::<Vec<_>>());
}

#[test]
fn av1_arguments_leave_out_b_frames() {
    let args = ffmpeg_args(1920, 1080, &options(false, "libsvtav1", "8"));
    assert!(!args.iter().any(|a| a == "-bf"));
    assert_eq!(args.len(), 21);
    assert_eq!(args[6], "1920x1080");
    assert_eq!(args[14], "libsvtav1");
    assert_eq!(args[16], "8");
    assert_eq!(args[19], "-pix_fmt");
}
