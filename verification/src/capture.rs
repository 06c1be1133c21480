//! Screen and window frames as JPEG, and JPEG back into pixels.
//!
//! Frames are packed top-down BGRA, four bytes a pixel, which is what the capture path produces and
//! what the window drawing calls want. JPEG is written by `jpeg-encoder` and read by `zune-jpeg`;
//! the library decides sizes, checks what comes back and reorders the channels.

use crate::resize::{area_average, area_average_spec, fit_within, fit_within_spec};
use vstd::prelude::*;
use zune_jpeg::zune_core::{bytestream::ZCursor, colorspace::ColorSpace, options::DecoderOptions};
use vstd::string::StringExecFns;

verus! {

/// A capture failure, with its message.
#[derive(Debug, Clone, PartialEq, Eq)]
pub struct CaptureError(pub String);

impl CaptureError {
    /// A capture failure saying `what`.
    pub fn new(what: &str) -> (e: Self)
        ensures
            e.0@ == what@,
    {
        CaptureError(String::from_str(what))
    }

    /// The message a user sees: `capture failed: ` and the reason.
    pub fn message(&self) -> (m: String)
        ensures
            m@ == "capture failed: "@ + self.0@,
    {
        let mut m = String::from_str("capture failed: ");
        m.append(self.0.as_str());
        m
    }
}

/// One attached monitor.
#[derive(Debug, Clone, Copy, PartialEq, Eq, Structural)]
pub struct MonitorInfo {
    /// Index to pass to capture calls.
    pub index: u8,
    /// Native width in pixels.
    pub width: u32,
    /// Native height in pixels.
    pub height: u32,
    /// Whether this is the primary monitor.
    pub primary: bool,
}

/// A window a teacher could broadcast.
#[derive(Debug, Clone, PartialEq, Eq)]
pub struct WindowInfo {
    /// Opaque handle (the window handle as an integer) the capture calls take.
    pub id: u64,
    /// The window title, for the picker.
    pub title: String,
}

/// The JPEG quality of thumbnails and recorded frames.
pub const QUALITY: u8 = 60;

/// What `jpeg_encoder::Encoder::encode` writes for BGRA `pixels` of `width` by `height` at
/// `quality`. Without the crate's `simd` feature, which is off here, the encoder takes one code
/// path on every machine, so the bytes are a function of these arguments alone.
pub uninterp spec fn jpeg_of(pixels: Seq<u8>, width: u16, height: u16, quality: u8) -> Seq<u8>;

/// `jpeg_encoder::Encoder::new` on an empty buffer at `quality`, then `encode` of BGRA `pixels`:
/// the JPEG bytes, or the encoder's error text. The encoder refuses a zero side or fewer bytes than
/// the picture needs, and otherwise writes into the buffer, which cannot fail.
#[verifier::external_body]
fn encode_jpeg(pixels: &[u8], width: u16, height: u16, quality: u8) -> (r: Result<Vec<u8>, String>)
    ensures
        match r {
            Ok(out) => out@ == jpeg_of(pixels@, width, height, quality),
            Err(_) => width == 0 || height == 0 || pixels@.len() < width * height * 4,
        },
        (width == 0 || height == 0 || pixels@.len() < width * height * 4) ==> r is Err,
{
    let mut out = Vec::new();
    jpeg_encoder::Encoder::new(&mut out, quality)
        .encode(pixels, width, height, jpeg_encoder::ColorType::Bgra)
        .map_err(|e| e.to_string())?;
    Ok(out)
}

/// Encodes packed BGRA pixels as JPEG at [`QUALITY`]; each side is taken modulo 65536, as the
/// encoder takes 16-bit sides.
pub fn encode_bgra(pixels: &[u8], width: u32, height: u32) -> (r: Result<Vec<u8>, CaptureError>)
    ensures
        match r {
            Ok(out) => out@ == jpeg_of(pixels@, width as u16, height as u16, QUALITY),
            Err(_) => width as u16 == 0 || height as u16 == 0 || pixels@.len() < (width as u16) * (
            height as u16) * 4,
        },
        (width as u16 == 0 || height as u16 == 0 || pixels@.len() < (width as u16) * (height as u16)
            * 4) ==> r is Err,
{
    match encode_jpeg(pixels, width as u16, height as u16, QUALITY) {
        Ok(out) => Ok(out),
        Err(text) => Err(CaptureError(text)),
    }
}

/// The size a window frame of `width` by `height` is scaled to for a JPEG no wider than
/// `max_width` (a cap of zero is taken as one).
pub open spec fn window_jpeg_size(width: u32, height: u32, max_width: u16) -> (int, int) {
    fit_within_spec(width as int, height as int, if max_width == 0 {
        1
    } else {
        max_width as int
    }, u32::MAX as int)
}

/// What a captured window frame becomes: the frame itself where it already fits, else its area
/// average at the fitted size; an empty result is refused, and the rest is encoded.
pub open spec fn window_pixels(bgra: Seq<u8>, width: u32, height: u32, max_width: u16) -> Seq<u8> {
    let (dw, dh) = window_jpeg_size(width, height, max_width);
    if dw == width && dh == height {
        bgra
    } else {
        area_average_spec(bgra, width as int, height as int, dw, dh)
    }
}

/// Turns a captured window frame of `width` by `height` into a JPEG no wider than `max_width`,
/// preserving its aspect ratio.
pub fn jpeg_of_window_frame(bgra: Vec<u8>, width: u32, height: u32, max_width: u16) -> (r: Result<
    Vec<u8>,
    CaptureError,
>)
    requires
        (if width == 0 {
            1
        } else {
            width as int
        }) * (if height == 0 {
            1
        } else {
            height as int
        }) * 4 <= usize::MAX,
    ensures
        ({
            let (dw, dh) = window_jpeg_size(width, height, max_width);
            let pixels = window_pixels(bgra@, width, height, max_width);
            if pixels.len() == 0 {
                r matches Err(e) && e.0@ == "the window produced an empty frame"@
            } else {
                match r {
                    Ok(out) => out@ == jpeg_of(pixels, dw as u16, dh as u16, QUALITY),
                    Err(_) => dw as u16 == 0 || dh as u16 == 0 || pixels.len() < (dw as u16) * (
                    dh as u16) * 4,
                }
            }
        }),
{
    let cap: u32 = if max_width == 0 {
        1
    } else {
        max_width as u32
    };
    let (dw, dh) = fit_within(width, height, cap, u32::MAX);
    proof {
        let ww: int = if width == 0 {
            1
        } else {
            width as int
        };
        let hh: int = if height == 0 {
            1
        } else {
            height as int
        };
        assert(dw <= ww && dh <= hh);
        assert(dw * dh * 4 <= ww * hh * 4) by (nonlinear_arith)
            requires
                0 <= dw <= ww,
                0 <= dh <= hh,
        ;
    }
    let scaled = if dw == width && dh == height {
        bgra
    } else {
        area_average(bgra.as_slice(), width, height, dw, dh)
    };
    if scaled.len() == 0 {
        return Err(CaptureError::new("the window produced an empty frame"));
    }
    encode_bgra(scaled.as_slice(), dw, dh)
}

/// Why reading a JPEG failed, at the stage it failed.
#[derive(Debug, Clone, PartialEq, Eq)]
pub enum JpegReadError {
    /// The headers could not be read; the decoder's text.
    Headers(String),
    /// The headers gave no dimensions.
    NoDimensions,
    /// The picture could not be decoded; the decoder's text.
    Decode(String),
}

/// `zune_jpeg::JpegDecoder::new_with_options` over the bytes, asking for RGB output, then
/// `decode_headers`, `dimensions` and `decode`: the RGB pixels and the picture's width and height,
/// or the stage that failed. The sides are those `dimensions` reads from the header's 16-bit
/// fields, and the pixels fill the buffer `decode` sizes for them, three bytes each. The pixels depend on the decoder's build for the machine, so nothing is stated of them.
/// This contract holds where the call returns. The decoder holds `unwrap`, `expect` and
/// `unreachable!` sites on its inner paths (in `decode`, its workers and its IDCT), and neither its
/// source nor its documentation shows that no bytes reach one, so that a corrupt frame from a PC
/// cannot make it panic is not stated.
#[verifier::external_body]
fn zune_decode_rgb(jpeg: &[u8]) -> (r: Result<(Vec<u8>, usize, usize), JpegReadError>)
    ensures
        r matches Ok((rgb, w, h)) ==> w <= u16::MAX && h <= u16::MAX && rgb@.len() == w * h * 3,
{
    let options = DecoderOptions::default().jpeg_set_out_colorspace(ColorSpace::RGB);
    let mut decoder = zune_jpeg::JpegDecoder::new_with_options(ZCursor::new(jpeg), options);
    decoder.decode_headers().map_err(|e| JpegReadError::Headers(e.to_string()))?;
    let (width, height) = decoder.dimensions().ok_or(JpegReadError::NoDimensions)?;
    let rgb = decoder.decode().map_err(|e| JpegReadError::Decode(e.to_string()))?;
    Ok((rgb, width, height))
}

/// Packed BGRA for `pixels` RGB pixels: each pixel's channels reversed and made opaque.
pub open spec fn bgra_of_rgb(rgb: Seq<u8>, pixels: nat) -> Seq<u8> {
    Seq::new(
        pixels * 4,
        |i: int|
            {
                let p = i / 4;
                let c = i % 4;
                if c == 0 {
                    rgb[3 * p + 2]
                } else if c == 1 {
                    rgb[3 * p + 1]
                } else if c == 2 {
                    rgb[3 * p]
                } else {
                    255u8
                }
            },
    )
}

/// What a decoded RGB picture of `width` by `height` becomes: refused if the decoder returned
/// fewer bytes than the picture needs, else its BGRA form with the sides as `u32` (zero where a
/// side does not fit).
pub open spec fn bgra_result(rgb: Seq<u8>, width: usize, height: usize) -> Option<(Seq<u8>, u32, u32)> {
    if rgb.len() < width * height * 3 {
        None
    } else {
        Some(
            (
                bgra_of_rgb(rgb, (width * height) as nat),
                if width <= u32::MAX {
                    width as u32
                } else {
                    0
                },
                if height <= u32::MAX {
                    height as u32
                } else {
                    0
                },
            ),
        )
    }
}

/// Turns decoded RGB pixels into packed BGRA, checking there are enough of them.
pub fn bgra_from_rgb(rgb: &[u8], width: usize, height: usize) -> (r: Result<
    (Vec<u8>, u32, u32),
    CaptureError,
>)
    requires
        width * height * 4 <= usize::MAX,
    ensures
        match bgra_result(rgb@, width, height) {
            None => r matches Err(e) && e.0@ == "JPEG decoded short"@,
            Some((px, w, h)) => r matches Ok((out, ow, oh)) && out@ == px && ow == w && oh == h,
        },
{
    let pixels: usize = width * height;
    if rgb.len() < pixels * 3 {
        return Err(CaptureError::new("JPEG decoded short"));
    }
    let mut bgra: Vec<u8> = Vec::new();
    let mut p: usize = 0;
    while p < pixels
        invariant
            pixels == width * height,
            pixels * 4 <= usize::MAX,
            rgb@.len() >= pixels * 3,
            p <= pixels,
            bgra@.len() == 4 * p,
            forall|i: int| 0 <= i < 4 * p ==> #[trigger] bgra@[i] == bgra_of_rgb(rgb@, pixels as nat)[i],
        decreases pixels - p,
    {
        let base: usize = 3 * p;
        bgra.push(rgb[base + 2]);
        bgra.push(rgb[base + 1]);
        bgra.push(rgb[base]);
        bgra.push(255u8);
        proof {
            assert forall|i: int| 4 * p <= i < 4 * p + 4 implies #[trigger] bgra@[i] == bgra_of_rgb(
                rgb@,
                pixels as nat,
            )[i] by {
                assert(i / 4 == p as int);
            }
        }
        p = p + 1;
    }
    assert(bgra@ =~= bgra_of_rgb(rgb@, pixels as nat));
    let w: u32 = if width <= u32::MAX as usize {
        width as u32
    } else {
        0
    };
    let h: u32 = if height <= u32::MAX as usize {
        height as u32
    } else {
        0
    };
    Ok((bgra, w, h))
}

/// A capture result as values: the pixels and sides, or the error's text.
pub open spec fn capture_view(r: Result<(Vec<u8>, u32, u32), CaptureError>) -> Result<
    (Seq<u8>, u32, u32),
    Seq<char>,
> {
    match r {
        Ok((px, w, h)) => Ok((px@, w, h)),
        Err(e) => Err(e.0@),
    }
}

/// What a decoder's outcome becomes: each failure its message, and decoded RGB pixels their BGRA
/// form, unless the picture is too big to address or the decoder gave too few bytes.
pub open spec fn bgra_of_decoded_spec(d: Result<(Vec<u8>, usize, usize), JpegReadError>) -> Result<
    (Seq<u8>, u32, u32),
    Seq<char>,
> {
    match d {
        Err(JpegReadError::Headers(t)) => Err("not a readable JPEG: "@ + t@),
        Err(JpegReadError::NoDimensions) => Err("JPEG has no dimensions"@),
        Err(JpegReadError::Decode(t)) => Err("JPEG decode failed: "@ + t@),
        Ok((rgb, w, h)) => if w * h * 4 > usize::MAX {
            Err("JPEG decoded short"@)
        } else {
            match bgra_result(rgb@, w, h) {
                None => Err("JPEG decoded short"@),
                Some(x) => Ok(x),
            }
        },
    }
}

/// Turns a decoder's outcome into packed BGRA or the message for its failure.
pub fn bgra_of_decoded(d: Result<(Vec<u8>, usize, usize), JpegReadError>) -> (r: Result<
    (Vec<u8>, u32, u32),
    CaptureError,
>)
    ensures
        capture_view(r) == bgra_of_decoded_spec(d),
{
    proof {
        reveal_strlit("JPEG decoded short");
    }
    match d {
        Err(JpegReadError::Headers(text)) => {
            let mut m = String::from_str("not a readable JPEG: ");
            m.append(text.as_str());
            Err(CaptureError(m))
        },
        Err(JpegReadError::NoDimensions) => Err(CaptureError::new("JPEG has no dimensions")),
        Err(JpegReadError::Decode(text)) => {
            let mut m = String::from_str("JPEG decode failed: ");
            m.append(text.as_str());
            Err(CaptureError(m))
        },
        Ok((rgb, width, height)) => {
            let fits = match width.checked_mul(height) {
                Some(n) => n.checked_mul(4).is_some(),
                None => false,
            };
            if !fits {
                return Err(CaptureError::new("JPEG decoded short"));
            }
            bgra_from_rgb(rgb.as_slice(), width, height)
        },
    }
}

/// Decodes JPEG bytes into packed BGRA, returning the pixels, the width and the height: what
/// [`bgra_of_decoded`] makes of the decoder's outcome, whose sides fit 16 bits and whose pixels
/// are three bytes each.
pub fn decode_to_bgra(jpeg: &[u8]) -> (r: Result<(Vec<u8>, u32, u32), CaptureError>)
    ensures
        exists|d: Result<(Vec<u8>, usize, usize), JpegReadError>|
            {
                &&& (d matches Ok((rgb, w, h)) ==> w <= u16::MAX && h <= u16::MAX && rgb@.len() == w
                    * h * 3)
                &&& capture_view(r) == bgra_of_decoded_spec(d)
            },
        r matches Ok((px, w, h)) ==> px@.len() == (w as nat) * (h as nat) * 4 && forall|i: int|
            0 <= i < px@.len() && i % 4 == 3 ==> #[trigger] px@[i] == 255,
{
    let d = zune_decode_rgb(jpeg);
    let ghost dd = d;
    let r = bgra_of_decoded(d);
    proof {
        if let Ok((rgb, w, h)) = dd {
            let n = (w * h) as nat;
            assert(r matches Ok((px, ow, oh)) ==> px@.len() == n * 4 && ow as nat == w as nat
                && oh as nat == h as nat);
        }
    }
    r
}

} // verus!
