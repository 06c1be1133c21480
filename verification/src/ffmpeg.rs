//! The command line of an external `ffmpeg` that records the screen.
//!
//! ffmpeg is not linked: raw BGRA frames go to its standard input, and it scales them with the
//! chosen filter and encodes them. What the library decides is the argument list; starting the
//! process and feeding it stay with the application.

use crate::text::{decimal, push_decimal};
use vstd::prelude::*;
use vstd::string::StringExecFns;

verus! {

/// How ffmpeg should encode, as plain values.
pub struct FfmpegOptions<'a> {
    /// Output width in pixels (even).
    pub out_width: u32,
    /// Output height in pixels (even).
    pub out_height: u32,
    /// Frame rate the input is fed and the output is tagged at.
    pub fps: u32,
    /// The video encoder library, such as `libx264`.
    pub codec_lib: &'a str,
    /// The encoder preset.
    pub preset: &'a str,
    /// Constant-quality value (CRF): lower is better and larger.
    pub crf: u8,
    /// Maximum consecutive B-frames.
    pub bframes: u8,
    /// Whether `-bf` is passed (x264 and x265 honour it; svtav1 does not).
    pub use_bframes: bool,
    /// The scaling filter, such as `lanczos`.
    pub scaler: &'a str,
}

/// The arguments before the output file: raw BGRA of `src_w`x`src_h` from standard input, scaled
/// to the output size with the chosen filter, encoded at constant quality, in yuv420p.
pub open spec fn ffmpeg_args_spec(
    src_w: nat,
    src_h: nat,
    out_w: nat,
    out_h: nat,
    fps: nat,
    codec_lib: Seq<char>,
    preset: Seq<char>,
    crf: nat,
    bframes: nat,
    use_bframes: bool,
    scaler: Seq<char>,
) -> Seq<Seq<char>> {
    seq![
        "-y"@,
        "-f"@,
        "rawvideo"@,
        "-pixel_format"@,
        "bgra"@,
        "-video_size"@,
        decimal(src_w) + "x"@ + decimal(src_h),
        "-framerate"@,
        decimal(fps),
        "-i"@,
        "pipe:0"@,
        "-vf"@,
        "scale="@ + decimal(out_w) + ":"@ + decimal(out_h) + ":flags="@ + scaler,
        "-c:v"@,
        codec_lib,
        "-preset"@,
        preset,
        "-crf"@,
        decimal(crf),
    ] + (if use_bframes {
        seq!["-bf"@, decimal(bframes)]
    } else {
        Seq::empty()
    }) + seq!["-pix_fmt"@, "yuv420p"@]
}

/// The strings of a list of arguments.
pub open spec fn views(v: Seq<String>) -> Seq<Seq<char>> {
    v.map_values(|s: String| s@)
}

fn text(s: &str) -> (r: String)
    ensures
        r@ == s@,
{
    String::from_str(s)
}

fn number(n: u64) -> (r: String)
    ensures
        r@ == decimal(n as nat),
{
    let mut r = String::new();
    push_decimal(&mut r, n);
    proof {
        assert(r@ =~= decimal(n as nat));
    }
    r
}

/// The ffmpeg arguments for a recording of `src_w`x`src_h` frames with `opts`, all but the output
/// file, which comes last.
pub fn ffmpeg_args(src_w: u32, src_h: u32, opts: &FfmpegOptions) -> (args: Vec<String>)
    ensures
        views(args@) == ffmpeg_args_spec(
            src_w as nat,
            src_h as nat,
            opts.out_width as nat,
            opts.out_height as nat,
            opts.fps as nat,
            opts.codec_lib@,
            opts.preset@,
            opts.crf as nat,
            opts.bframes as nat,
            opts.use_bframes,
            opts.scaler@,
        ),
{
    let mut args: Vec<String> = Vec::new();
    args.push(text("-y"));
    args.push(text("-f"));
    args.push(text("rawvideo"));
    args.push(text("-pixel_format"));
    args.push(text("bgra"));
    args.push(text("-video_size"));
    let mut size = number(src_w as u64);
    size.append("x");
    size.append(number(src_h as u64).as_str());
    args.push(size);
    args.push(text("-framerate"));
    args.push(number(opts.fps as u64));
    args.push(text("-i"));
    args.push(text("pipe:0"));
    args.push(text("-vf"));
    let mut filter = text("scale=");
    filter.append(number(opts.out_width as u64).as_str());
    filter.append(":");
    filter.append(number(opts.out_height as u64).as_str());
    filter.append(":flags=");
    filter.append(opts.scaler);
    args.push(filter);
    args.push(text("-c:v"));
    args.push(text(opts.codec_lib));
    args.push(text("-preset"));
    args.push(text(opts.preset));
    args.push(text("-crf"));
    args.push(number(opts.crf as u64));
    if opts.use_bframes {
        args.push(text("-bf"));
        args.push(number(opts.bframes as u64));
    }
    args.push(text("-pix_fmt"));
    args.push(text("yuv420p"));
    proof {
        assert(views(args@) =~= ffmpeg_args_spec(
            src_w as nat,
            src_h as nat,
            opts.out_width as nat,
            opts.out_height as nat,
            opts.fps as nat,
            opts.codec_lib@,
            opts.preset@,
            opts.crf as nat,
            opts.bframes as nat,
            opts.use_bframes,
            opts.scaler@,
        ));
    }
    args
}

} // verus!
