//! The settings of a screen recording made on a student PC, and how they reach the encoder.
//!
//! A teacher's choices are clamped into what the recorder can deliver before use, and the clamped
//! values are what the Console is told, so asking for 144 fps shows that 30 is what is recorded.
//! When an `ffmpeg` is present, the codec, preset and scaler become its arguments; otherwise the
//! built-in Motion-JPEG writer records.

use crate::h264::{clamp_spec, clamp_u32, even_down};
use crate::paths::{join, path_join};
use crate::recorder::RecordingSettings;
use crate::text::{chars_of, decimal, is_word, lower_ascii, lower_eq, push_decimal, word};
use std::path::{Path, PathBuf};
use vstd::prelude::*;
use vstd::string::StringExecFns;

verus! {

/// The video codec of a recording.
#[derive(Debug, Clone, Copy, PartialEq, Eq, Structural)]
pub enum Codec {
    H264,
    H265,
    Av1,
}

/// The encoder's speed/size trade-off, fastest first.
#[derive(Debug, Clone, Copy, PartialEq, Eq, Structural)]
pub enum Preset {
    Ultrafast,
    Superfast,
    Veryfast,
    Faster,
    Fast,
    Medium,
    Slow,
    Slower,
    Veryslow,
}

/// The scaling filter used to reach the recorded size.
#[derive(Debug, Clone, Copy, PartialEq, Eq, Structural)]
pub enum Scaler {
    Bilinear,
    Bicubic,
    Lanczos,
    Neighbor,
}

/// What a teacher asks a recording to be.
#[derive(Debug, Clone, Copy, PartialEq, Eq, Structural)]
pub struct RecordOptions {
    pub max_width: u32,
    pub max_height: u32,
    pub fps: u32,
    pub codec: Codec,
    pub preset: Preset,
    /// Constant quality (CRF): lower is better and larger.
    pub quality: u8,
    /// Maximum consecutive B-frames.
    pub bframes: u8,
    pub scaler: Scaler,
    /// Re-encode the finished file in two passes for a smaller one.
    pub two_pass: bool,
}

/// The options [`clamp_options`] gives: sizes held to the recorder's range and rounded down to
/// even, the rate held to its range, quality at most 51 and at most 16 B-frames.
pub open spec fn clamp_options_spec(o: RecordOptions) -> RecordOptions {
    RecordOptions {
        max_width: even_down(
            clamp_spec(o.max_width, RecordingSettings::MIN_WIDTH, RecordingSettings::MAX_WIDTH),
        ),
        max_height: even_down(
            clamp_spec(o.max_height, RecordingSettings::MIN_WIDTH, RecordingSettings::MAX_HEIGHT),
        ),
        fps: clamp_spec(o.fps, RecordingSettings::MIN_FPS, RecordingSettings::MAX_FPS),
        quality: if o.quality > 51 {
            51
        } else {
            o.quality
        },
        bframes: if o.bframes > 16 {
            16
        } else {
            o.bframes
        },
        ..o
    }
}

/// Clamps the teacher's choices into ranges the recorder can deliver.
pub fn clamp_options(o: RecordOptions) -> (c: RecordOptions)
    ensures
        c == clamp_options_spec(o),
{
    let w = clamp_u32(o.max_width, RecordingSettings::MIN_WIDTH, RecordingSettings::MAX_WIDTH);
    let h = clamp_u32(o.max_height, RecordingSettings::MIN_WIDTH, RecordingSettings::MAX_HEIGHT);
    RecordOptions {
        max_width: w - w % 2,
        max_height: h - h % 2,
        fps: clamp_u32(o.fps, RecordingSettings::MIN_FPS, RecordingSettings::MAX_FPS),
        quality: if o.quality > 51 {
            51
        } else {
            o.quality
        },
        bframes: if o.bframes > 16 {
            16
        } else {
            o.bframes
        },
        ..o
    }
}

/// Clamped options are left alone by clamping them again.
pub proof fn lemma_clamp_options_idempotent(o: RecordOptions)
    ensures
        clamp_options_spec(clamp_options_spec(o)) == clamp_options_spec(o),
{
}

/// The encoder library for a codec.
pub open spec fn codec_lib(c: Codec) -> Seq<char> {
    match c {
        Codec::H264 => "libx264"@,
        Codec::H265 => "libx265"@,
        Codec::Av1 => "libsvtav1"@,
    }
}

/// The x264/x265 name of a preset.
pub open spec fn x264_preset(p: Preset) -> Seq<char> {
    match p {
        Preset::Ultrafast => "ultrafast"@,
        Preset::Superfast => "superfast"@,
        Preset::Veryfast => "veryfast"@,
        Preset::Faster => "faster"@,
        Preset::Fast => "fast"@,
        Preset::Medium => "medium"@,
        Preset::Slow => "slow"@,
        Preset::Slower => "slower"@,
        Preset::Veryslow => "veryslow"@,
    }
}

/// The SVT-AV1 preset number for a preset: 0 is slowest, 13 fastest.
pub open spec fn av1_preset(p: Preset) -> Seq<char> {
    match p {
        Preset::Ultrafast => "12"@,
        Preset::Superfast => "11"@,
        Preset::Veryfast => "10"@,
        Preset::Faster => "9"@,
        Preset::Fast => "8"@,
        Preset::Medium => "7"@,
        Preset::Slow => "5"@,
        Preset::Slower => "3"@,
        Preset::Veryslow => "1"@,
    }
}

/// The ffmpeg name of a scaling filter.
pub open spec fn scaler_name(s: Scaler) -> Seq<char> {
    match s {
        Scaler::Bilinear => "bilinear"@,
        Scaler::Bicubic => "bicubic"@,
        Scaler::Lanczos => "lanczos"@,
        Scaler::Neighbor => "neighbor"@,
    }
}

fn codec_lib_of(c: Codec) -> (s: &'static str)
    ensures
        s@ == codec_lib(c),
{
    match c {
        Codec::H264 => "libx264",
        Codec::H265 => "libx265",
        Codec::Av1 => "libsvtav1",
    }
}

fn x264_preset_of(p: Preset) -> (s: &'static str)
    ensures
        s@ == x264_preset(p),
{
    match p {
        Preset::Ultrafast => "ultrafast",
        Preset::Superfast => "superfast",
        Preset::Veryfast => "veryfast",
        Preset::Faster => "faster",
        Preset::Fast => "fast",
        Preset::Medium => "medium",
        Preset::Slow => "slow",
        Preset::Slower => "slower",
        Preset::Veryslow => "veryslow",
    }
}

fn av1_preset_of(p: Preset) -> (s: &'static str)
    ensures
        s@ == av1_preset(p),
{
    match p {
        Preset::Ultrafast => "12",
        Preset::Superfast => "11",
        Preset::Veryfast => "10",
        Preset::Faster => "9",
        Preset::Fast => "8",
        Preset::Medium => "7",
        Preset::Slow => "5",
        Preset::Slower => "3",
        Preset::Veryslow => "1",
    }
}

fn scaler_of(s: Scaler) -> (n: &'static str)
    ensures
        n@ == scaler_name(s),
{
    match s {
        Scaler::Bilinear => "bilinear",
        Scaler::Bicubic => "bicubic",
        Scaler::Lanczos => "lanczos",
        Scaler::Neighbor => "neighbor",
    }
}

/// Maps the codec, preset and scaler to the ffmpeg encoder library, the preset string, whether
/// `-bf` applies (not for AV1), and the scale filter name.
pub fn ffmpeg_params(o: &RecordOptions) -> (r: (String, String, bool, String))
    ensures
        r.0@ == codec_lib(o.codec),
        r.1@ == (if o.codec == Codec::Av1 {
            av1_preset(o.preset)
        } else {
            x264_preset(o.preset)
        }),
        r.2 == (o.codec != Codec::Av1),
        r.3@ == scaler_name(o.scaler),
{
    let (preset, use_bframes) = match o.codec {
        Codec::Av1 => (String::from_str(av1_preset_of(o.preset)), false),
        _ => (String::from_str(x264_preset_of(o.preset)), true),
    };
    (String::from_str(codec_lib_of(o.codec)), preset, use_bframes, String::from_str(scaler_of(o.scaler)))
}

/// The codec a form names: `h265` and `av1` by name, anything else H.264.
pub fn parse_codec(s: &str) -> (c: Codec)
    ensures
        c == (if s@ == "h265"@ {
            Codec::H265
        } else if s@ == "av1"@ {
            Codec::Av1
        } else {
            Codec::H264
        }),
{
    let v = crate::text::chars_of(s);
    if is_word(&v, "h265") {
        Codec::H265
    } else if is_word(&v, "av1") {
        Codec::Av1
    } else {
        Codec::H264
    }
}

/// The preset a form names: each by its x264 name, anything else `medium`.
pub fn parse_preset(s: &str) -> (p: Preset)
    ensures
        p == (if s@ == "ultrafast"@ {
            Preset::Ultrafast
        } else if s@ == "superfast"@ {
            Preset::Superfast
        } else if s@ == "veryfast"@ {
            Preset::Veryfast
        } else if s@ == "faster"@ {
            Preset::Faster
        } else if s@ == "fast"@ {
            Preset::Fast
        } else if s@ == "slow"@ {
            Preset::Slow
        } else if s@ == "slower"@ {
            Preset::Slower
        } else if s@ == "veryslow"@ {
            Preset::Veryslow
        } else {
            Preset::Medium
        }),
{
    let v = crate::text::chars_of(s);
    if is_word(&v, "ultrafast") {
        Preset::Ultrafast
    } else if is_word(&v, "superfast") {
        Preset::Superfast
    } else if is_word(&v, "veryfast") {
        Preset::Veryfast
    } else if is_word(&v, "faster") {
        Preset::Faster
    } else if is_word(&v, "fast") {
        Preset::Fast
    } else if is_word(&v, "slow") {
        Preset::Slow
    } else if is_word(&v, "slower") {
        Preset::Slower
    } else if is_word(&v, "veryslow") {
        Preset::Veryslow
    } else {
        Preset::Medium
    }
}

/// The scaler a form names: `bilinear`, `bicubic` and `neighbor` by name, anything else Lanczos.
pub fn parse_scaler(s: &str) -> (r: Scaler)
    ensures
        r == (if s@ == "bilinear"@ {
            Scaler::Bilinear
        } else if s@ == "bicubic"@ {
            Scaler::Bicubic
        } else if s@ == "neighbor"@ {
            Scaler::Neighbor
        } else {
            Scaler::Lanczos
        }),
{
    let v = crate::text::chars_of(s);
    if is_word(&v, "bilinear") {
        Scaler::Bilinear
    } else if is_word(&v, "bicubic") {
        Scaler::Bicubic
    } else if is_word(&v, "neighbor") {
        Scaler::Neighbor
    } else {
        Scaler::Lanczos
    }
}

/// Where recordings are kept on this PC.
pub fn directory(data_dir: &Path) -> (p: PathBuf)
    ensures
        p == path_join(data_dir, "recordings"@),
{
    join(data_dir, "recordings")
}

/// The file name of a recording with the compact id `id`: an `.mp4` where ffmpeg encodes it, an
/// `.avi` for the built-in writer.
pub fn file_name(id: &str, with_ffmpeg: bool) -> (name: String)
    ensures
        name@ == "recording-"@ + id@ + (if with_ffmpeg {
            ".mp4"@
        } else {
            ".avi"@
        }),
{
    let mut name = String::from_str("recording-");
    name.append(id);
    if with_ffmpeg {
        name.append(".mp4");
    } else {
        name.append(".avi");
    }
    name
}

/// What a finished recording reports as its problem: a failure to close the file wins; else,
/// where the PC managed fewer frames a second than asked, that it did and that the file still
/// plays at the right speed; else nothing.
pub fn finish_problem(real_fps: u32, asked_fps: u32, close_error: Option<&str>) -> (p: Option<String>)
    ensures
        close_error matches Some(e) ==> (p matches Some(m) && m@ == "closing the recording failed: "@
            + e@),
        close_error is None && real_fps < asked_fps ==> (p matches Some(m) && m@
            == "this PC managed "@ + decimal(real_fps as nat) + " fps, not "@ + decimal(asked_fps as nat)
            + "; the file plays at "@ + decimal(real_fps as nat) + " fps so it is the right speed"@),
        close_error is None && real_fps >= asked_fps ==> p is None,
{
    if let Some(e) = close_error {
        let mut m = String::from_str("closing the recording failed: ");
        m.append(e);
        return Some(m);
    }
    if real_fps < asked_fps {
        let mut m = String::from_str("this PC managed ");
        push_decimal(&mut m, real_fps as u64);
        m.append(" fps, not ");
        push_decimal(&mut m, asked_fps as u64);
        m.append("; the file plays at ");
        push_decimal(&mut m, real_fps as u64);
        m.append(" fps so it is the right speed");
        return Some(m);
    }
    None
}


/// `prefix` followed by `detail`.
fn prefixed(prefix: &str, detail: &str) -> (m: String)
    ensures
        m@ == prefix@ + detail@,
{
    let mut m = String::from_str(prefix);
    m.append(detail);
    m
}

/// Why a recording could not start: there is no screen capture, or its first frame could not be
/// taken, or the sink could not be opened (whose own message is kept).
pub enum StartFailure {
    /// The screen capturer could not be created.
    NoCapture(String),
    /// The first frame could not be taken.
    FirstFrame(String),
    /// The file or encoder could not be opened.
    Sink(String),
}

/// The problem a recording that could not start reports.
pub fn start_problem(failure: &StartFailure) -> (m: String)
    ensures
        match failure {
            StartFailure::NoCapture(e) => m@ == "no screen capture: "@ + e@,
            StartFailure::FirstFrame(e) => m@ == "capture failed: "@ + e@,
            StartFailure::Sink(e) => m@ == e@,
        },
{
    match failure {
        StartFailure::NoCapture(e) => prefixed("no screen capture: ", e.as_str()),
        StartFailure::FirstFrame(e) => prefixed("capture failed: ", e.as_str()),
        StartFailure::Sink(e) => e.clone(),
    }
}

/// What one tick of the recording loop came to.
pub enum Tick {
    /// A frame was captured and written.
    Written,
    /// The frame could not be captured, for this reason.
    Missed(String),
    /// The captured frame could not be written, for this reason.
    WriteFailed(String),
}

/// What the recording loop does after a tick.
pub enum TickAction {
    /// Keep recording; where there is a problem, report it and try again on the next tick.
    Continue(Option<String>),
    /// End the recording with this problem.
    Stop(String),
}

/// The recording loop's decision after a tick: a missed frame (a UAC prompt, a mode change) is
/// reported and the recording goes on; a frame that cannot be written ends it.
pub fn after_tick(tick: &Tick) -> (a: TickAction)
    ensures
        match tick {
            Tick::Written => a matches TickAction::Continue(None),
            Tick::Missed(e) => a matches TickAction::Continue(Some(m)) && m@ == "a frame was missed: "@
                + e@,
            Tick::WriteFailed(e) => a matches TickAction::Stop(m) && m@
                == "writing the recording failed: "@ + e@,
        },
{
    match tick {
        Tick::Written => TickAction::Continue(None),
        Tick::Missed(e) => TickAction::Continue(Some(prefixed("a frame was missed: ", e.as_str()))),
        Tick::WriteFailed(e) => TickAction::Stop(prefixed("writing the recording failed: ", e.as_str())),
    }
}

/// When the next frame is due, in the loop's clock: one interval after the last one was due, but
/// never in the past, so a capture slower than the frame interval is not caught up in a burst.
/// `now` is the clock after waiting.
pub fn next_frame_due(due: u64, interval: u64, now: u64) -> (next: u64)
    ensures
        next == (if due + interval >= u64::MAX {
            u64::MAX as int
        } else if due + interval < now {
            now as int
        } else {
            due + interval
        }),
{
    let next = due.saturating_add(interval);
    if next < now {
        now
    } else {
        next
    }
}

/// Whether a finished recording is re-encoded in a second pass for a smaller file: only where it
/// finished cleanly, two passes were asked for, the file is an `.mp4` (any case) and an `ffmpeg`
/// is at hand.
pub fn wants_second_pass(finished_ok: bool, two_pass: bool, extension: Option<&str>, has_ffmpeg: bool) -> (b: bool)
    ensures
        b == (finished_ok && two_pass && has_ffmpeg && (extension matches Some(e) && lower_ascii(e@)
            == "mp4"@)),
{
    if !(finished_ok && two_pass && has_ffmpeg) {
        return false;
    }
    match extension {
        Some(e) => {
            let v = chars_of(e);
            let w = word("mp4");
            proof {
                assert(v@.subrange(0, v@.len() as int) =~= v@);
            }
            lower_eq(v.as_slice(), 0, v.len(), w.as_slice())
        },
        None => false,
    }
}

} // verus!
