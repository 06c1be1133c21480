//! The settings of an H.264 stream, and the pixel work around the codec.
//!
//! A remote peer chooses the stream settings, so they are clamped on arrival into what the encoder
//! can deliver, with even sides because 4:2:0 chroma needs them. The codec itself works in RGBA;
//! everything else in this crate is BGRA, so decoded frames are swizzled here.
//!
//! Encoding and decoding themselves are OpenH264's: the library checks what goes in, and turns
//! what comes out into frames and errors of its own.

use crate::capture::CaptureError;
use crate::supervisor::{duration_nanos, from_micros};
use crate::text::{decimal, push_decimal};
use openh264::decoder::Decoder as OpenDecoder;
use openh264::encoder::{Encoder as OpenEncoder, FrameRate, RateControlMode, UsageType};
use openh264::formats::YUVSource;
use std::time::Duration;
use vstd::prelude::*;
use vstd::string::StringExecFns;

verus! {

/// `v` held to `lo..=hi`.
pub open spec fn clamp_spec(v: u32, lo: u32, hi: u32) -> u32 {
    if v < lo {
        lo
    } else if v > hi {
        hi
    } else {
        v
    }
}

/// `v` rounded down to an even number.
pub open spec fn even_down(v: u32) -> u32 {
    (v - v % 2) as u32
}

/// `v.clamp(lo, hi)`.
pub fn clamp_u32(v: u32, lo: u32, hi: u32) -> (r: u32)
    requires
        lo <= hi,
    ensures
        r == clamp_spec(v, lo, hi),
        lo <= r <= hi,
{
    if v < lo {
        lo
    } else if v > hi {
        hi
    } else {
        v
    }
}

/// The length of one frame, in microseconds, at `fps` frames a second (a rate of zero counts as
/// one).
pub open spec fn frame_micros(fps: u32) -> nat {
    (1_000_000int / (if fps == 0 {
        1
    } else {
        fps as int
    })) as nat
}

/// `Duration::from_micros(1_000_000 / fps.max(1))`: how long one frame lasts at `fps`.
pub fn frame_interval_for(fps: u32) -> (d: Duration)
    ensures
        duration_nanos(d) == frame_micros(fps) * 1_000,
{
    let rate: u64 = if fps == 0 {
        1
    } else {
        fps as u64
    };
    from_micros(1_000_000 / rate)
}

/// How a stream should look. Clamped on arrival, because a remote peer chooses it.
#[derive(Debug, Clone, Copy, PartialEq, Eq, Structural)]
pub struct StreamSettings {
    /// Frame width in pixels. Must be even (H.264 chroma is subsampled).
    pub width: u32,
    /// Frame height in pixels. Must be even.
    pub height: u32,
    /// Target frames per second.
    pub fps: u32,
    /// Target bitrate in kbit/s.
    pub kbps: u32,
}

impl StreamSettings {
    /// Smallest sensible frame.
    pub const MIN_SIDE: u32 = 160;
    /// Largest we will encode.
    pub const MAX_WIDTH: u32 = 3840;
    /// Tallest we will encode.
    pub const MAX_HEIGHT: u32 = 2160;
    /// Slowest useful rate.
    pub const MIN_FPS: u32 = 1;
    /// Fastest we will encode; past this the encoder, not the network, is the limit.
    pub const MAX_FPS: u32 = 60;
    /// Floor for bitrate; below this 1080p is unwatchable mush.
    pub const MIN_KBPS: u32 = 200;
    /// Ceiling, so one PC cannot saturate a school uplink.
    pub const MAX_KBPS: u32 = 20_000;

    /// What [`StreamSettings::clamped`] gives for `self`.
    pub open spec fn clamped_spec(self) -> StreamSettings {
        StreamSettings {
            width: even_down(clamp_spec(self.width, Self::MIN_SIDE, Self::MAX_WIDTH)),
            height: even_down(clamp_spec(self.height, Self::MIN_SIDE, Self::MAX_HEIGHT)),
            fps: clamp_spec(self.fps, Self::MIN_FPS, Self::MAX_FPS),
            kbps: clamp_spec(self.kbps, Self::MIN_KBPS, Self::MAX_KBPS),
        }
    }

    /// Whether every field lies in the range the encoder delivers, with even sides.
    pub open spec fn deliverable(self) -> bool {
        &&& Self::MIN_SIDE <= self.width <= Self::MAX_WIDTH
        &&& Self::MIN_SIDE <= self.height <= Self::MAX_HEIGHT
        &&& self.width % 2 == 0
        &&& self.height % 2 == 0
        &&& Self::MIN_FPS <= self.fps <= Self::MAX_FPS
        &&& Self::MIN_KBPS <= self.kbps <= Self::MAX_KBPS
    }

    /// Clamps everything into a range the encoder can deliver, and forces even dimensions.
    pub fn clamped(self) -> (s: Self)
        ensures
            s == self.clamped_spec(),
            s.deliverable(),
    {
        let width = clamp_u32(self.width, Self::MIN_SIDE, Self::MAX_WIDTH);
        let height = clamp_u32(self.height, Self::MIN_SIDE, Self::MAX_HEIGHT);
        StreamSettings {
            width: width - width % 2,
            height: height - height % 2,
            fps: clamp_u32(self.fps, Self::MIN_FPS, Self::MAX_FPS),
            kbps: clamp_u32(self.kbps, Self::MIN_KBPS, Self::MAX_KBPS),
        }
    }

    /// How long one frame lasts at this rate.
    pub fn frame_interval(self) -> (d: Duration)
        ensures
            duration_nanos(d) == frame_micros(self.fps) * 1_000,
    {
        frame_interval_for(self.fps)
    }
}

impl Default for StreamSettings {
    /// 720p30 at 2 Mbit/s: smooth, readable, and comfortable on a school LAN.
    fn default() -> (s: Self)
        ensures
            s == (StreamSettings { width: 1280, height: 720, fps: 30, kbps: 2_000 }),
    {
        StreamSettings { width: 1280, height: 720, fps: 30, kbps: 2_000 }
    }
}

/// Clamping settings that are already deliverable changes nothing, so clamping twice is clamping
/// once.
pub proof fn lemma_stream_clamp_idempotent(s: StreamSettings)
    ensures
        s.clamped_spec().clamped_spec() == s.clamped_spec(),
        s.deliverable() ==> s.clamped_spec() == s,
{
}

/// The number of bytes a BGRA frame of `width` by `height` pixels takes.
pub open spec fn frame_len(width: nat, height: nat) -> nat {
    width * height * 4
}

/// Checks that a BGRA frame has exactly the size the encoder was configured for.
pub fn frame_has_size(len: usize, width: u32, height: u32) -> (ok: bool)
    ensures
        ok == (len as nat == frame_len(width as nat, height as nat)),
{
    let w: u128 = width as u128;
    let h: u128 = height as u128;
    assert(w * h * 4 <= u32::MAX as nat * u32::MAX as nat * 4) by (nonlinear_arith)
        requires
            w <= u32::MAX,
            h <= u32::MAX,
    ;
    let expected: u128 = w * h * 4;
    len as u128 == expected
}

/// The BGRA frame for an RGBA frame of `pixels` pixels: red and blue swapped, every pixel opaque.
pub open spec fn bgra_of_rgba(rgba: Seq<u8>, pixels: nat) -> Seq<u8> {
    Seq::new(
        pixels * 4,
        |i: int|
            {
                let p = i / 4;
                let c = i % 4;
                if c == 0 {
                    rgba[4 * p + 2]
                } else if c == 1 {
                    rgba[4 * p + 1]
                } else if c == 2 {
                    rgba[4 * p]
                } else {
                    255u8
                }
            },
    )
}

/// Turns the codec's RGBA output for a `width` by `height` frame into BGRA, opaque.
pub fn rgba_to_bgra(rgba: &[u8], width: usize, height: usize) -> (bgra: Vec<u8>)
    requires
        width * height * 4 <= usize::MAX,
        rgba@.len() >= width * height * 4,
    ensures
        bgra@ == bgra_of_rgba(rgba@, (width * height) as nat),
{
    let pixels: usize = width * height;
    let mut bgra: Vec<u8> = Vec::new();
    let mut p: usize = 0;
    while p < pixels
        invariant
            pixels == width * height,
            pixels * 4 <= usize::MAX,
            rgba@.len() >= pixels * 4,
            p <= pixels,
            bgra@.len() == 4 * p,
            forall|i: int|
                0 <= i < 4 * p ==> #[trigger] bgra@[i] == bgra_of_rgba(rgba@, pixels as nat)[i],
        decreases pixels - p,
    {
        let base: usize = 4 * p;
        bgra.push(rgba[base + 2]);
        bgra.push(rgba[base + 1]);
        bgra.push(rgba[base]);
        bgra.push(255u8);
        proof {
            assert forall|i: int| 4 * p <= i < 4 * p + 4 implies #[trigger] bgra@[i]
                == bgra_of_rgba(rgba@, pixels as nat)[i] by {
                assert(i / 4 == p as int);
            }
        }
        p = p + 1;
    }
    assert(bgra@ =~= bgra_of_rgba(rgba@, pixels as nat));
    bgra
}

#[verifier::external_type_specification]
#[verifier::external_body]
pub struct ExOpenEncoder(OpenEncoder);

#[verifier::external_type_specification]
#[verifier::external_body]
pub struct ExOpenDecoder(OpenDecoder);

#[verifier::external_type_specification]
#[verifier::external_body]
pub struct ExFrameRate(FrameRate);

/// What OpenH264 is told the pictures are, as its `UsageType` names them.
#[derive(Debug, Clone, Copy, PartialEq, Eq, Structural)]
pub enum EncoderUsage {
    CameraVideoRealTime,
    ScreenContentRealTime,
    CameraVideoNonRealTime,
    ScreenContentNonRealTime,
    InputContentTypeAll,
}

/// How OpenH264 controls the rate, as its `RateControlMode` names it.
#[derive(Debug, Clone, Copy, PartialEq, Eq, Structural)]
pub enum RateControl {
    Quality,
    Bitrate,
    Bufferbased,
    Timestamp,
    BitrateModePostSkip,
    Off,
}

/// The configuration an encoder is opened with.
#[derive(Debug, Clone, Copy, PartialEq, Eq, Structural)]
pub struct EncoderChoice {
    /// What the pictures are.
    pub usage: EncoderUsage,
    /// How the rate is controlled.
    pub rate_control: RateControl,
    /// The bitrate aimed at, in bits a second.
    pub bps: u32,
}

/// The configuration for a stream with `settings`: desktop pictures in real time (text and
/// sharp edges, not camera footage), held to the stream's bitrate.
pub fn encoder_choice(settings: &StreamSettings) -> (c: EncoderChoice)
    requires
        settings.kbps * 1000 <= u32::MAX,
    ensures
        c == (EncoderChoice {
            usage: EncoderUsage::ScreenContentRealTime,
            rate_control: RateControl::Bitrate,
            bps: (settings.kbps * 1000) as u32,
        }),
{
    EncoderChoice {
        usage: EncoderUsage::ScreenContentRealTime,
        rate_control: RateControl::Bitrate,
        bps: settings.kbps * 1000,
    }
}

#[verifier::external_type_specification]
#[verifier::external_body]
pub struct ExUsageType(UsageType);

#[verifier::external_type_specification]
#[verifier::external_body]
pub struct ExRateControlMode(RateControlMode);

/// The `UsageType` variant of the same name as `u`.
#[verifier::external_body]
fn usage_type(u: EncoderUsage) -> UsageType {
    match u {
        EncoderUsage::CameraVideoRealTime => UsageType::CameraVideoRealTime,
        EncoderUsage::ScreenContentRealTime => UsageType::ScreenContentRealTime,
        EncoderUsage::CameraVideoNonRealTime => UsageType::CameraVideoNonRealTime,
        EncoderUsage::ScreenContentNonRealTime => UsageType::ScreenContentNonRealTime,
        EncoderUsage::InputContentTypeAll => UsageType::InputContentTypeAll,
    }
}

/// The `RateControlMode` variant of the same name as `r`.
#[verifier::external_body]
fn rate_control_mode(r: RateControl) -> RateControlMode {
    match r {
        RateControl::Quality => RateControlMode::Quality,
        RateControl::Bitrate => RateControlMode::Bitrate,
        RateControl::Bufferbased => RateControlMode::Bufferbased,
        RateControl::Timestamp => RateControlMode::Timestamp,
        RateControl::BitrateModePostSkip => RateControlMode::BitrateModePostSkip,
        RateControl::Off => RateControlMode::Off,
    }
}

/// `openh264::encoder::Encoder::with_api_config` on the built-in OpenH264 with usage type
/// `usage`, rate-control mode `rate`, `bps` bits a second and at most `max_frame_rate` frames a
/// second: the encoder, or the text of OpenH264's error. Whether OpenH264 accepts the
/// configuration is not stated.
#[verifier::external_body]
fn open_encoder(
    usage: UsageType,
    rate: RateControlMode,
    bps: u32,
    max_frame_rate: FrameRate,
) -> Result<OpenEncoder, String> {
    let config = openh264::encoder::EncoderConfig::new().usage_type(usage).rate_control_mode(rate)
        .bitrate(openh264::encoder::BitRate::from_bps(bps)).max_frame_rate(max_frame_rate);
    OpenEncoder::with_api_config(openh264::OpenH264API::from_source(), config).map_err(|e| e.to_string())
}

/// `YUVBuffer::from_bgra8_source` on the BGRA `pixels` of a `width` by `height` frame, then
/// `openh264::encoder::Encoder::encode` and `to_vec` of the bitstream: an Annex-B packet, or the
/// text of OpenH264's error. The conversion panics unless the sides are even and the pixels fill
/// the frame exactly, so those are required. The packet depends on the frames encoded before, so
/// nothing is stated of its bytes.
#[verifier::external_body]
fn encode_frame(encoder: &mut OpenEncoder, pixels: &[u8], width: usize, height: usize) -> Result<
    Vec<u8>,
    String,
>
    requires
        width % 2 == 0,
        height % 2 == 0,
        pixels@.len() == width * height * 4,
{
    let frame = openh264::formats::BgraSliceU8::new(pixels, (width, height));
    let yuv = openh264::formats::YUVBuffer::from_bgra8_source(frame);
    match encoder.encode(&yuv) {
        Ok(packet) => Ok(packet.to_vec()),
        Err(e) => Err(e.to_string()),
    }
}

/// The message of an encoder's refusal of a frame of `len` bytes where a `width` by `height`
/// frame was expected.
pub open spec fn wrong_size_message(len: nat, width: nat, height: nat) -> Seq<char> {
    "frame is "@ + decimal(len) + " bytes, expected "@ + decimal(frame_len(width, height))
        + " for "@ + decimal(width) + "x"@ + decimal(height)
}

/// Encodes BGRA frames into H.264 packets.
pub struct Encoder {
    encoder: OpenEncoder,
    settings: StreamSettings,
}

impl Encoder {
    /// The settings in use.
    pub closed spec fn stream(self) -> StreamSettings {
        self.settings
    }

    /// Builds an encoder for `settings`, clamped first, with OpenH264 tuned for desktop content and
    /// rate-controlled to the clamped bitrate. `max_frame_rate` is the clamped rate in hertz, as
    /// OpenH264 takes it.
    pub fn new(settings: StreamSettings, max_frame_rate: FrameRate) -> (r: Result<Self, CaptureError>)
        ensures
            r matches Ok(e) ==> e.stream() == settings.clamped_spec() && e.stream().deliverable(),
            r matches Err(e) ==> "H.264 encoder: "@.is_prefix_of(e.0@),
    {
        let settings = settings.clamped();
        let choice = encoder_choice(&settings);
        let usage = usage_type(choice.usage);
        let rate = rate_control_mode(choice.rate_control);
        match open_encoder(usage, rate, choice.bps, max_frame_rate) {
            Ok(encoder) => Ok(Encoder { encoder, settings }),
            Err(text) => {
                let mut m = String::from_str("H.264 encoder: ");
                m.append(text.as_str());
                proof {
                    reveal_strlit("H.264 encoder: ");
                }
                Err(CaptureError(m))
            },
        }
    }

    /// The settings actually in use, after clamping.
    pub fn settings(&self) -> (s: StreamSettings)
        ensures
            s == self.stream(),
    {
        self.settings
    }

    /// Encodes one BGRA frame of exactly the configured size into an Annex-B H.264 packet. A frame
    /// of any other length is refused with a message that gives both lengths; OpenH264's own
    /// failure comes back after `H.264 encode: `.
    pub fn encode(&mut self, pixels: &[u8]) -> (r: Result<Vec<u8>, CaptureError>)
        requires
            old(self).stream().deliverable(),
        ensures
            final(self).stream() == old(self).stream(),
            pixels@.len() != frame_len(old(self).stream().width as nat, old(self).stream().height as nat)
                ==> (r matches Err(e) && e.0@ == wrong_size_message(
                pixels@.len(),
                old(self).stream().width as nat,
                old(self).stream().height as nat,
            )),
            pixels@.len() == frame_len(old(self).stream().width as nat, old(self).stream().height as nat)
                ==> (r matches Err(e) ==> "H.264 encode: "@.is_prefix_of(e.0@)),
    {
        let width: u32 = self.settings.width;
        let height: u32 = self.settings.height;
        if !frame_has_size(pixels.len(), width, height) {
            let mut m = String::from_str("frame is ");
            push_decimal(&mut m, pixels.len() as u64);
            m.append(" bytes, expected ");
            assert(width as nat * height as nat * 4 <= 3840 * 2160 * 4) by (nonlinear_arith)
                requires
                    width <= 3840,
                    height <= 2160,
            ;
            push_decimal(&mut m, (width as u64) * (height as u64) * 4);
            m.append(" for ");
            push_decimal(&mut m, width as u64);
            m.append("x");
            push_decimal(&mut m, height as u64);
            return Err(CaptureError(m));
        }
        match encode_frame(&mut self.encoder, pixels, width as usize, height as usize) {
            Ok(packet) => Ok(packet),
            Err(text) => {
                let mut m = String::from_str("H.264 encode: ");
                m.append(text.as_str());
                proof {
                    reveal_strlit("H.264 encode: ");
                }
                Err(CaptureError(m))
            },
        }
    }
}

/// `openh264::decoder::Decoder::new` with the built-in OpenH264: the decoder, or the text of
/// OpenH264's error. Whether it starts is not stated.
#[verifier::external_body]
fn open_decoder() -> Result<OpenDecoder, String> {
    OpenDecoder::new().map_err(|e| e.to_string())
}

/// `openh264::decoder::Decoder::decode` of `packet`, then, where a picture came out,
/// `write_rgba8` of it into `rgba`, resized to the picture's `rgba8_len`: the picture's width and
/// height, `None` where the packet completed no picture, or the text of OpenH264's error. The
/// write panics unless the buffer holds width times height times four bytes, so where that
/// product fits a `usize` the buffer has that length. The pixels depend on the packets decoded
/// before, so nothing more is stated of them.
#[verifier::external_body]
fn decode_packet(decoder: &mut OpenDecoder, packet: &[u8], rgba: &mut Vec<u8>) -> (r: Result<
    Option<(usize, usize)>,
    String,
>)
    ensures
        r matches Ok(Some((w, h))) ==> (w * h * 4 <= usize::MAX ==> final(rgba)@.len() == w * h
            * 4),
{
    let Some(yuv) = decoder.decode(packet).map_err(|e| e.to_string())? else {
        return Ok(None);
    };
    rgba.resize(yuv.rgba8_len(), 0);
    yuv.write_rgba8(rgba);
    Ok(Some(yuv.dimensions()))
}

/// Decodes H.264 packets back into BGRA frames.
pub struct Decoder {
    decoder: OpenDecoder,
    rgba: Vec<u8>,
}

impl Decoder {
    /// The RGBA pixels OpenH264 last wrote for a picture.
    pub closed spec fn picture(&self) -> Seq<u8> {
        self.rgba@
    }

    /// Creates a decoder.
    pub fn new() -> (r: Result<Self, CaptureError>)
        ensures
            r matches Err(e) ==> "H.264 decoder: "@.is_prefix_of(e.0@),
    {
        match open_decoder() {
            Ok(decoder) => Ok(Decoder { decoder, rgba: Vec::new() }),
            Err(text) => {
                let mut m = String::from_str("H.264 decoder: ");
                m.append(text.as_str());
                proof {
                    reveal_strlit("H.264 decoder: ");
                }
                Err(CaptureError(m))
            },
        }
    }

    /// Decodes one packet into BGRA, returning the pixels, the width and the height, or `None`
    /// when the packet carried no complete picture, as the first packets of a stream, which set
    /// up the parameters, do. The pixels are the codec's RGBA picture with red and blue swapped,
    /// and every one is opaque.
    pub fn decode(&mut self, packet: &[u8]) -> (r: Result<Option<(Vec<u8>, u32, u32)>, CaptureError>)
        ensures
            r matches Ok(Some((px, w, h))) ==> px@ == bgra_of_rgba(
                final(self).picture(),
                (w as nat) * (h as nat),
            ),
            r matches Ok(Some((px, w, h))) ==> px@.len() == (w as nat) * (h as nat) * 4 && forall|i: int|
                0 <= i < px@.len() && i % 4 == 3 ==> #[trigger] px@[i] == 255,
            r matches Err(e) ==> "H.264 decode: "@.is_prefix_of(e.0@),
    {
        match decode_packet(&mut self.decoder, packet, &mut self.rgba) {
            Err(text) => {
                let mut m = String::from_str("H.264 decode: ");
                m.append(text.as_str());
                proof {
                    reveal_strlit("H.264 decode: ");
                }
                Err(CaptureError(m))
            },
            Ok(None) => Ok(None),
            Ok(Some((width, height))) => {
                let fits = match width.checked_mul(height) {
                    Some(n) => n.checked_mul(4).is_some(),
                    None => false,
                };
                if !fits || width > u32::MAX as usize || height > u32::MAX as usize {
                    proof {
                        reveal_strlit("H.264 decode: picture too large");
                        reveal_strlit("H.264 decode: ");
                    }
                    return Err(CaptureError::new("H.264 decode: picture too large"));
                }
                let bgra = rgba_to_bgra(self.rgba.as_slice(), width, height);
                Ok(Some((bgra, width as u32, height as u32)))
            },
        }
    }
}

} // verus!
