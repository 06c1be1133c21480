//! Recording settings, and the layout of a Motion-JPEG AVI file.
//!
//! A recording is an AVI file: a fixed header of [`HEADER_BYTES`] bytes, one `00dc` chunk per JPEG
//! frame inside the `movi` list, and an `idx1` index after the frames. The index and header are
//! rewritten every [`INDEX_EVERY`] frames, so a file cut off by a power failure is already a
//! complete AVI as of the last rewrite. [`AviLayout`] keeps the bookkeeping and produces every byte
//! of the container; the program around it only writes those bytes and the JPEG data to disk.

use crate::h264::{clamp_spec, clamp_u32, frame_interval_for, frame_micros};
use crate::supervisor::duration_nanos;
use std::time::Duration;
use vstd::prelude::*;
use vstd::string::StringExecFns;

verus! {

/// How often the header and index are rewritten, in frames.
pub const INDEX_EVERY: u32 = 30;

/// Exact size of everything written before the first frame chunk: 12 (RIFF) + 12 (hdrl LIST) +
/// 64 (avih) + 12 (strl LIST) + 64 (strh) + 48 (strf) + 12 (movi LIST).
pub const HEADER_BYTES: u32 = 224;

/// Errors writing a recording.
#[derive(Debug, Clone, PartialEq, Eq)]
pub enum RecorderError {
    /// The file could not be created or written.
    Io(String),
    /// The requested settings are impossible.
    BadSettings(String),
}

impl RecorderError {
    /// The message a user sees for this error.
    pub fn message(&self) -> (m: String)
        ensures
            m@ == (match self {
                RecorderError::Io(detail) => "recording file: "@ + detail@,
                RecorderError::BadSettings(detail) => detail@,
            }),
    {
        match self {
            RecorderError::Io(detail) => {
                let mut m = String::from_str("recording file: ");
                m.append(detail.as_str());
                m
            },
            RecorderError::BadSettings(detail) => detail.clone(),
        }
    }
}

/// What a recording should look like. Clamped on arrival so a remote peer cannot ask for nonsense.
#[derive(Debug, Clone, Copy, PartialEq, Eq, Structural)]
pub struct RecordingSettings {
    /// Longest edge of the saved video, in pixels. The real size keeps the screen's aspect ratio.
    pub max_width: u32,
    /// Tallest the saved video may be.
    pub max_height: u32,
    /// Frames per second to capture and to write into the file's header.
    pub fps: u32,
}

impl RecordingSettings {
    /// The smallest sensible recording.
    pub const MIN_WIDTH: u32 = 160;
    /// 4K is past anything a classroom needs and a lot of disk.
    pub const MAX_WIDTH: u32 = 3840;
    /// The tallest we will write.
    pub const MAX_HEIGHT: u32 = 2160;
    /// One frame a second still shows what a student was doing.
    pub const MIN_FPS: u32 = 1;
    /// Above 30 the file grows fast and adds nothing for a lesson recording.
    pub const MAX_FPS: u32 = 30;

    /// What [`RecordingSettings::clamped`] gives for `self`.
    pub open spec fn clamped_spec(self) -> RecordingSettings {
        RecordingSettings {
            max_width: clamp_spec(self.max_width, Self::MIN_WIDTH, Self::MAX_WIDTH),
            max_height: clamp_spec(self.max_height, Self::MIN_WIDTH, Self::MAX_HEIGHT),
            fps: clamp_spec(self.fps, Self::MIN_FPS, Self::MAX_FPS),
        }
    }

    /// Clamps every field into a range this recorder can actually deliver.
    pub fn clamped(self) -> (s: Self)
        ensures
            s == self.clamped_spec(),
            Self::MIN_WIDTH <= s.max_width <= Self::MAX_WIDTH,
            Self::MIN_WIDTH <= s.max_height <= Self::MAX_HEIGHT,
            Self::MIN_FPS <= s.fps <= Self::MAX_FPS,
    {
        RecordingSettings {
            max_width: clamp_u32(self.max_width, Self::MIN_WIDTH, Self::MAX_WIDTH),
            max_height: clamp_u32(self.max_height, Self::MIN_WIDTH, Self::MAX_HEIGHT),
            fps: clamp_u32(self.fps, Self::MIN_FPS, Self::MAX_FPS),
        }
    }

    /// How long to wait between frames.
    pub fn frame_interval(self) -> (d: Duration)
        ensures
            duration_nanos(d) == frame_micros(self.fps) * 1_000,
    {
        frame_interval_for(self.fps)
    }
}

impl Default for RecordingSettings {
    /// 720p at 10 fps: legible, and about a gigabyte an hour.
    fn default() -> (s: Self)
        ensures
            s == (RecordingSettings { max_width: 1280, max_height: 720, fps: 10 }),
    {
        RecordingSettings { max_width: 1280, max_height: 720, fps: 10 }
    }
}

/// Clamping recording settings twice is clamping them once.
pub proof fn lemma_recording_clamp_idempotent(s: RecordingSettings)
    ensures
        s.clamped_spec().clamped_spec() == s.clamped_spec(),
{
}

/// The four little-endian bytes of `v`.
pub open spec fn le32(v: u32) -> Seq<u8> {
    seq![
        (v % 256) as u8,
        ((v / 256) % 256) as u8,
        ((v / 65536) % 256) as u8,
        (v / 16777216) as u8,
    ]
}

/// The two little-endian bytes of `v`.
pub open spec fn le16(v: u16) -> Seq<u8> {
    seq![(v % 256) as u8, (v / 256) as u8]
}

fn push_le32(out: &mut Vec<u8>, v: u32)
    ensures
        final(out)@ == old(out)@ + le32(v),
{
    out.push((v % 256) as u8);
    out.push(((v / 256) % 256) as u8);
    out.push(((v / 65536) % 256) as u8);
    out.push((v / 16777216) as u8);
}

fn push_le16(out: &mut Vec<u8>, v: u16)
    ensures
        final(out)@ == old(out)@ + le16(v),
{
    out.push((v % 256) as u8);
    out.push((v / 256) as u8);
}

fn push_list(out: &mut Vec<u8>, size: u32, a: u8, b: u8, c: u8, d: u8)
    ensures
        final(out)@ == old(out)@ + (seq![76u8, 73u8, 83u8, 84u8] + le32(size) + seq![a, b, c, d]),
{
    let ghost start = out@;
    push_tag(out, 76, 73, 83, 84);
    push_le32(out, size);
    push_tag(out, a, b, c, d);
    assert(out@ =~= start + (seq![76u8, 73u8, 83u8, 84u8] + le32(size) + seq![a, b, c, d]));
}

fn push_tag(out: &mut Vec<u8>, a: u8, b: u8, c: u8, d: u8)
    ensures
        final(out)@ == old(out)@ + seq![a, b, c, d],
{
    out.push(a);
    out.push(b);
    out.push(c);
    out.push(d);
}

/// A four-character code.
pub open spec fn tag(a: char, b: char, c: char, d: char) -> Seq<u8> {
    seq![a as u8, b as u8, c as u8, d as u8]
}

/// The bytes a frame chunk of `length` bytes takes in the `movi` list: the `00dc` code, the length,
/// the data and a pad byte where the length is odd.
pub open spec fn chunk_bytes(length: u32) -> nat {
    (8 + length + length % 2) as nat
}

/// The bytes the chunks of `frames` take, in order.
pub open spec fn chunks_len(frames: Seq<(u32, u32)>) -> nat
    decreases frames.len(),
{
    if frames.len() == 0 {
        0
    } else {
        chunks_len(frames.drop_last()) + chunk_bytes(frames.last().1)
    }
}

/// The longest frame length in `frames`, or zero.
pub open spec fn largest_len(frames: Seq<(u32, u32)>) -> u32
    decreases frames.len(),
{
    if frames.len() == 0 {
        0
    } else {
        let rest = largest_len(frames.drop_last());
        if frames.last().1 > rest {
            frames.last().1
        } else {
            rest
        }
    }
}

/// What an [`AviLayout`] has recorded: the picture size and rate, the offset and length of every
/// frame, the bytes of the `movi` list so far, and the longest frame.
pub struct AviView {
    pub width: u32,
    pub height: u32,
    pub fps: u32,
    pub frames: Seq<(u32, u32)>,
    pub movi_bytes: u32,
    pub largest_frame: u32,
}

/// The value of the RIFF size field: everything after the size field itself.
pub open spec fn riff_size(v: AviView) -> nat {
    (HEADER_BYTES - 12 + v.movi_bytes + (16 * v.frames.len() + 8)) as nat
}

/// The length of the file once the index is written after the frames: the header, the frame
/// chunks (the `movi` code is part of the header) and the index.
pub open spec fn file_len(v: AviView) -> nat {
    (HEADER_BYTES + (v.movi_bytes - 4) + (8 + 16 * v.frames.len())) as nat
}

/// The RIFF code, the RIFF size and the `AVI ` form type.
pub open spec fn riff_part(v: AviView) -> Seq<u8> {
    tag('R', 'I', 'F', 'F') + le32(riff_size(v) as u32) + tag('A', 'V', 'I', ' ')
}

/// The head of a list of `size` bytes of the kind `kind`.
pub open spec fn list_part(size: u32, kind: Seq<u8>) -> Seq<u8> {
    tag('L', 'I', 'S', 'T') + le32(size) + kind
}

/// The main AVI header: frame duration, data rate, the has-index flag, frame count, one stream,
/// the largest frame and the picture size.
pub open spec fn avih_part(v: AviView) -> Seq<u8> {
    tag('a', 'v', 'i', 'h') + le32(56) + le32((1_000_000int / (v.fps as int)) as u32) + le32(
        (v.largest_frame * v.fps) as u32,
    ) + le32(0) + le32(16) + le32(v.frames.len() as u32) + le32(0) + le32(1) + le32(
        v.largest_frame,
    ) + le32(v.width) + le32(v.height) + le32(0) + le32(0) + le32(0) + le32(0)
}

/// The stream header: a video stream of MJPG frames at `fps` frames a second.
pub open spec fn strh_part(v: AviView) -> Seq<u8> {
    tag('s', 't', 'r', 'h') + le32(56) + tag('v', 'i', 'd', 's') + tag('M', 'J', 'P', 'G') + le32(
        0,
    ) + le16(0) + le16(0) + le32(0) + le32(1) + le32(v.fps) + le32(0) + le32(
        v.frames.len() as u32,
    ) + le32(v.largest_frame) + le32(0xFFFF_FFFF) + le32(0) + le16(0) + le16(0) + le16(
        v.width as u16,
    ) + le16(v.height as u16)
}

/// The stream format: a BITMAPINFOHEADER for 24-bit MJPG frames.
pub open spec fn strf_part(v: AviView) -> Seq<u8> {
    tag('s', 't', 'r', 'f') + le32(40) + le32(40) + le32(v.width) + le32(v.height) + le16(1)
        + le16(24) + tag('M', 'J', 'P', 'G') + le32((v.width * v.height * 3) as u32) + le32(0)
        + le32(0) + le32(0) + le32(0)
}

/// The 224 header bytes for the recording `v` describes.
pub open spec fn header_spec(v: AviView) -> Seq<u8> {
    riff_part(v) + list_part(208, tag('h', 'd', 'r', 'l')) + avih_part(v) + list_part(
        132,
        tag('s', 't', 'r', 'l'),
    ) + strh_part(v) + strf_part(v) + list_part(v.movi_bytes, tag('m', 'o', 'v', 'i'))
}

/// The index entries of `frames`: the chunk code, the keyframe flag, the offset and the length.
pub open spec fn index_entries(frames: Seq<(u32, u32)>) -> Seq<u8>
    decreases frames.len(),
{
    if frames.len() == 0 {
        Seq::empty()
    } else {
        index_entries(frames.drop_last()) + tag('0', '0', 'd', 'c') + le32(16) + le32(
            frames.last().0,
        ) + le32(frames.last().1)
    }
}

/// The `idx1` chunk for `frames`.
pub open spec fn index_spec(frames: Seq<(u32, u32)>) -> Seq<u8> {
    tag('i', 'd', 'x', '1') + le32((16 * frames.len()) as u32) + index_entries(frames)
}

/// The bytes that precede a frame's data in the `movi` list.
pub open spec fn chunk_header_spec(length: u32) -> Seq<u8> {
    tag('0', '0', 'd', 'c') + le32(length)
}

/// The bookkeeping of a Motion-JPEG AVI file being written: what the header and index must say.
pub struct AviLayout {
    width: u32,
    height: u32,
    fps: u32,
    frames: Vec<(u32, u32)>,
    movi_bytes: u32,
    largest_frame: u32,
}

impl View for AviLayout {
    type V = AviView;

    closed spec fn view(&self) -> AviView {
        AviView {
            width: self.width,
            height: self.height,
            fps: self.fps,
            frames: self.frames@,
            movi_bytes: self.movi_bytes,
            largest_frame: self.largest_frame,
        }
    }
}

/// Whether the header of a recording with `frames` frames and `movi_bytes` bytes of frame data
/// can still be written: its sizes fit in the 32-bit fields.
pub open spec fn sizes_fit(movi_bytes: nat, frames: nat) -> bool {
    HEADER_BYTES - 12 + movi_bytes + 16 * frames + 8 <= u32::MAX
}

/// Whether the picture fields of the header fit in their 32-bit fields.
pub open spec fn picture_fits(width: u32, height: u32, largest_frame: u32, fps: u32) -> bool {
    &&& width * height * 3 <= u32::MAX
    &&& largest_frame * fps <= u32::MAX
}

/// The invariant of a layout: a non-zero picture, a rate of at least one, every frame's offset just
/// after the chunks before it, the `movi` size the sum of all chunks, the largest frame tracked,
/// and the sizes in the header in range.
pub open spec fn layout_wf(v: AviView) -> bool {
    &&& v.width > 0
    &&& v.height > 0
    &&& v.fps >= 1
    &&& v.movi_bytes == 4 + chunks_len(v.frames)
    &&& forall|i: int|
        0 <= i < v.frames.len() ==> #[trigger] v.frames[i].0 == 4 + chunks_len(v.frames.take(i))
    &&& v.largest_frame == largest_len(v.frames)
    &&& sizes_fit(v.movi_bytes as nat, v.frames.len())
}

proof fn lemma_largest_bound(frames: Seq<(u32, u32)>)
    ensures
        forall|i: int| 0 <= i < frames.len() ==> #[trigger] frames[i].1 <= largest_len(frames),
    decreases frames.len(),
{
    if frames.len() > 0 {
        lemma_largest_bound(frames.drop_last());
        assert forall|i: int| 0 <= i < frames.len() implies #[trigger] frames[i].1 <= largest_len(
            frames,
        ) by {
            if i < frames.len() - 1 {
                assert(frames.drop_last()[i] == frames[i]);
            }
        }
    }
}

impl AviLayout {
    /// Whether the layout satisfies its invariant.
    pub open spec fn wf(&self) -> bool {
        layout_wf(self@)
    }

    /// A layout for a recording of `width` by `height` pixels at `fps` frames a second (a rate of
    /// zero is taken as one). A zero-sized picture is refused.
    pub fn new(width: u32, height: u32, fps: u32) -> (r: Result<Self, RecorderError>)
        ensures
            r is Err <==> (width == 0 || height == 0),
            r matches Err(e) ==> e is BadSettings,
            r matches Ok(l) ==> {
                &&& l.wf()
                &&& l@.width == width
                &&& l@.height == height
                &&& l@.fps == (if fps == 0 {
                    1
                } else {
                    fps
                })
                &&& l@.frames.len() == 0
                &&& l@.movi_bytes == 4
            },
    {
        if width == 0 || height == 0 {
            return Err(RecorderError::BadSettings(String::from_str("a recording needs a non-zero size")));
        }
        let fps = if fps == 0 {
            1
        } else {
            fps
        };
        let l = AviLayout {
            width,
            height,
            fps,
            frames: Vec::new(),
            movi_bytes: 4,
            largest_frame: 0,
        };
        assert(l@.frames =~= Seq::<(u32, u32)>::empty());
        Ok(l)
    }

    /// How many frames have been recorded.
    pub fn frame_count(&self) -> (n: u32)
        requires
            self.wf(),
        ensures
            n == self@.frames.len(),
    {
        proof {
            assert(self@.frames.len() <= u32::MAX);
        }
        self.frames.len() as u32
    }

    /// The frame rate the file will declare.
    pub fn fps(&self) -> (f: u32)
        ensures
            f == self@.fps,
    {
        self.fps
    }

    /// The bytes of frame data written so far, counting the `movi` code itself.
    pub fn movi_bytes(&self) -> (m: u32)
        ensures
            m == self@.movi_bytes,
    {
        self.movi_bytes
    }

    /// Whether a frame of `length` bytes can be appended with the header still writable.
    pub open spec fn can_push(&self, length: nat) -> bool {
        &&& length <= u32::MAX
        &&& sizes_fit((self@.movi_bytes + 8 + length + length % 2) as nat, self@.frames.len() + 1)
    }

    /// Whether a frame of `length` bytes can be appended: [`AviLayout::can_push`] as a test.
    pub fn fits(&self, length: usize) -> (ok: bool)
        requires
            self.wf(),
        ensures
            ok == self.can_push(length as nat),
    {
        if length > u32::MAX as usize {
            return false;
        }
        let len: u64 = length as u64;
        let n: u64 = self.frames.len() as u64;
        let total: u64 = 212 + self.movi_bytes as u64 + 8 + len + len % 2 + 16 * (n + 1) + 8;
        total <= u32::MAX as u64
    }

    /// Records a frame of `length` bytes and returns the bytes that precede its data in the file:
    /// the `00dc` code and the length. The data follows, then [`padding`] of the length.
    pub fn push_frame(&mut self, length: usize) -> (prefix: Vec<u8>)
        requires
            old(self).wf(),
            old(self).can_push(length as nat),
        ensures
            final(self).wf(),
            prefix@ == chunk_header_spec(length as u32),
            final(self)@.frames == old(self)@.frames.push((old(self)@.movi_bytes, length as u32)),
            final(self)@.movi_bytes == old(self)@.movi_bytes + chunk_bytes(length as u32),
            final(self)@.width == old(self)@.width,
            final(self)@.height == old(self)@.height,
            final(self)@.fps == old(self)@.fps,
    {
        let length = length as u32;
        let mut prefix: Vec<u8> = Vec::new();
        push_tag(&mut prefix, 48, 48, 100, 99);
        push_le32(&mut prefix, length);
        let ghost old_frames = self.frames@;
        let padding = length % 2;
        self.frames.push((self.movi_bytes, length));
        self.movi_bytes = self.movi_bytes + 8 + length + padding;
        if length > self.largest_frame {
            self.largest_frame = length;
        }
        proof {
            let fr = self.frames@;
            assert(fr.drop_last() =~= old_frames);
            assert forall|i: int| 0 <= i < fr.len() implies #[trigger] fr[i].0 == 4 + chunks_len(
                fr.take(i),
            ) by {
                if i < fr.len() - 1 {
                    assert(fr.take(i) =~= old_frames.take(i));
                    assert(fr[i] == old_frames[i]);
                } else {
                    assert(fr.take(i) =~= old_frames);
                }
            }
        }
        prefix
    }

    /// Whether the header and index are due to be rewritten: every [`INDEX_EVERY`] frames.
    pub fn index_due(&self) -> (due: bool)
        requires
            self.wf(),
        ensures
            due == (self@.frames.len() % INDEX_EVERY as nat == 0),
    {
        self.frame_count() % INDEX_EVERY == 0
    }

    /// Corrects the declared frame rate to the rate measured over the recording, held to
    /// `1..=`[`RecordingSettings::MAX_FPS`]. Ignored when fewer than two frames were captured,
    /// where there is no rate to measure.
    pub fn set_measured_fps(&mut self, measured: u32)
        requires
            old(self).wf(),
        ensures
            final(self).wf(),
            final(self)@.fps == (if old(self)@.frames.len() < 2 {
                old(self)@.fps
            } else {
                clamp_spec(measured, 1, RecordingSettings::MAX_FPS)
            }),
            final(self)@.frames == old(self)@.frames,
            final(self)@.movi_bytes == old(self)@.movi_bytes,
            final(self)@.width == old(self)@.width,
            final(self)@.height == old(self)@.height,
            final(self)@.largest_frame == old(self)@.largest_frame,
    {
        if self.frame_count() < 2 {
            return;
        }
        self.fps = clamp_u32(measured, 1, RecordingSettings::MAX_FPS);
    }

    /// The byte offset just past the last frame, where the index goes.
    pub fn movi_end(&self) -> (pos: u64)
        requires
            self.wf(),
        ensures
            pos == HEADER_BYTES + self@.movi_bytes - 4,
    {
        HEADER_BYTES as u64 + self.movi_bytes as u64 - 4
    }

    /// Whether the header's computed fields fit: the data rate and the image size.
    pub open spec fn header_fits(&self) -> bool {
        picture_fits(self@.width, self@.height, self@.largest_frame, self@.fps)
    }

    /// Whether the header can be written: [`AviLayout::header_fits`] as a test.
    pub fn can_write_header(&self) -> (ok: bool)
        ensures
            ok == self.header_fits(),
    {
        let (w, h): (u128, u128) = (self.width as u128, self.height as u128);
        let (l, f): (u128, u128) = (self.largest_frame as u128, self.fps as u128);
        assert(w * h <= 0xffff_ffff * 0xffff_ffff) by (nonlinear_arith)
            requires
                w <= 0xffff_ffff,
                h <= 0xffff_ffff,
        ;
        assert(l * f <= 0xffff_ffff * 0xffff_ffff) by (nonlinear_arith)
            requires
                l <= 0xffff_ffff,
                f <= 0xffff_ffff,
        ;
        w * h * 3 <= u32::MAX as u128 && l * f <= u32::MAX as u128
    }

    fn push_riff(&self, h: &mut Vec<u8>)
        requires
            self.wf(),
        ensures
            final(h)@ == old(h)@ + riff_part(self@),
    {
        let frames = self.frame_count();
        let riff = HEADER_BYTES - 12 + self.movi_bytes + (frames * 16 + 8);
        let ghost start = h@;
        push_tag(h, 82, 73, 70, 70);
        push_le32(h, riff);
        push_tag(h, 65, 86, 73, 32);
        assert(h@ =~= start + riff_part(self@));
    }

    fn push_avih(&self, h: &mut Vec<u8>)
        requires
            self.wf(),
            self.header_fits(),
        ensures
            final(h)@ == old(h)@ + avih_part(self@),
    {
        let frames = self.frame_count();
        push_tag(h, 97, 118, 105, 104);
        push_le32(h, 56);
        push_le32(h, 1_000_000 / self.fps);
        push_le32(h, self.largest_frame * self.fps);
        push_le32(h, 0);
        push_le32(h, 16);
        push_le32(h, frames);
        push_le32(h, 0);
        push_le32(h, 1);
        push_le32(h, self.largest_frame);
        push_le32(h, self.width);
        push_le32(h, self.height);
        push_le32(h, 0);
        push_le32(h, 0);
        push_le32(h, 0);
        push_le32(h, 0);
    }

    fn push_strh(&self, h: &mut Vec<u8>)
        requires
            self.wf(),
        ensures
            final(h)@ == old(h)@ + strh_part(self@),
    {
        let frames = self.frame_count();
        push_tag(h, 115, 116, 114, 104);
        push_le32(h, 56);
        push_tag(h, 118, 105, 100, 115);
        push_tag(h, 77, 74, 80, 71);
        push_le32(h, 0);
        push_le16(h, 0);
        push_le16(h, 0);
        push_le32(h, 0);
        push_le32(h, 1);
        push_le32(h, self.fps);
        push_le32(h, 0);
        push_le32(h, frames);
        push_le32(h, self.largest_frame);
        push_le32(h, 0xFFFF_FFFF);
        push_le32(h, 0);
        push_le16(h, 0);
        push_le16(h, 0);
        push_le16(h, self.width as u16);
        push_le16(h, self.height as u16);
    }

    fn push_strf(&self, h: &mut Vec<u8>)
        requires
            self.wf(),
            self.header_fits(),
        ensures
            final(h)@ == old(h)@ + strf_part(self@),
    {
        push_tag(h, 115, 116, 114, 102);
        push_le32(h, 40);
        push_le32(h, 40);
        push_le32(h, self.width);
        push_le32(h, self.height);
        push_le16(h, 1);
        push_le16(h, 24);
        push_tag(h, 77, 74, 80, 71);
        push_le32(h, self.width * self.height * 3);
        push_le32(h, 0);
        push_le32(h, 0);
        push_le32(h, 0);
        push_le32(h, 0);
    }

    /// The RIFF/AVI header for the current frame count and sizes.
    pub fn header(&self) -> (out: Vec<u8>)
        requires
            self.wf(),
            self.header_fits(),
        ensures
            out@ == header_spec(self@),
            out@.len() == HEADER_BYTES,
            le_value(out@, 128) == 1,
            le_value(out@, 132) == self@.fps,
    {
        let mut h: Vec<u8> = Vec::new();
        self.push_riff(&mut h);
        push_list(&mut h, 208, 104, 100, 114, 108);
        self.push_avih(&mut h);
        push_list(&mut h, 132, 115, 116, 114, 108);
        self.push_strh(&mut h);
        self.push_strf(&mut h);
        push_list(&mut h, self.movi_bytes, 109, 111, 118, 105);
        assert(h@ =~= header_spec(self@));
        proof {
            lemma_header_len(self@);
            lemma_header_declares_frame_rate(self@);
        }
        h
    }

    /// The `idx1` chunk: one entry per frame, each flagged as a keyframe.
    pub fn index(&self) -> (out: Vec<u8>)
        requires
            self.wf(),
        ensures
            out@ == index_spec(self@.frames),
            out@.len() == 8 + 16 * self@.frames.len(),
    {
        let n = self.frame_count();
        let mut out: Vec<u8> = Vec::new();
        push_tag(&mut out, 105, 100, 120, 49);
        push_le32(&mut out, n * 16);
        let ghost head = out@;
        let mut i: usize = 0;
        while i < self.frames.len()
            invariant
                i <= self.frames@.len(),
                head.len() == 8,
                out@ == head + index_entries(self.frames@.take(i as int)),
                index_entries(self.frames@.take(i as int)).len() == 16 * i,
            decreases self.frames@.len() - i,
        {
            let (offset, length) = self.frames[i];
            proof {
                let t = self.frames@.take(i as int + 1);
                assert(t.drop_last() =~= self.frames@.take(i as int));
                assert(t.last() == (offset, length));
            }
            push_tag(&mut out, 48, 48, 100, 99);
            push_le32(&mut out, 16);
            push_le32(&mut out, offset);
            push_le32(&mut out, length);
            i = i + 1;
        }
        assert(self.frames@.take(self.frames@.len() as int) =~= self.frames@);
        out
    }
}

/// The pad byte that follows a frame of `length` bytes: one zero where the length is odd.
pub fn padding(length: usize) -> (pad: Vec<u8>)
    ensures
        pad@ == (if length % 2 == 1 {
            seq![0u8]
        } else {
            Seq::<u8>::empty()
        }),
{
    let mut pad: Vec<u8> = Vec::new();
    if length % 2 == 1 {
        pad.push(0u8);
    }
    pad
}

/// The number the four bytes of `s` from `at` spell, least significant first.
pub open spec fn le_value(s: Seq<u8>, at: int) -> int {
    s[at] + 256 * s[at + 1] + 65536 * s[at + 2] + 16777216 * s[at + 3]
}

proof fn lemma_le32_value(v: u32)
    ensures
        le_value(le32(v), 0) == v,
{
    assert(le_value(le32(v), 0) == v) by (nonlinear_arith)
        requires
            le32(v)[0] == v % 256,
            le32(v)[1] == (v / 256) % 256,
            le32(v)[2] == (v / 65536) % 256,
            le32(v)[3] == v / 16777216,
    ;
}

/// The header declares the recording's frame rate: the stream header's scale (bytes 128 to 131)
/// is 1 and its rate (bytes 132 to 135) is the frame rate, so players show `rate / scale = fps`
/// frames a second; and the main header's frame duration (bytes 32 to 35) is a second divided by
/// it, in microseconds.
pub proof fn lemma_header_declares_frame_rate(v: AviView)
    requires
        v.fps > 0,
    ensures
        le_value(header_spec(v), 128) == 1,
        le_value(header_spec(v), 132) == v.fps,
        le_value(header_spec(v), 32) == 1_000_000int / (v.fps as int),
{
    let h = header_spec(v);
    lemma_header_len(v);
    let strh = strh_part(v);
    let pre = riff_part(v) + list_part(208, tag('h', 'd', 'r', 'l')) + avih_part(v) + list_part(
        132,
        tag('s', 't', 'r', 'l'),
    );
    assert(riff_part(v).len() == 12);
    assert(avih_part(v).len() == 64);
    assert(pre.len() == 100);
    assert(strh.len() == 64);
    assert(strh.subrange(28, 32) =~= le32(1));
    assert(strh.subrange(32, 36) =~= le32(v.fps));
    assert(avih_part(v).subrange(8, 12) =~= le32((1_000_000int / (v.fps as int)) as u32));
    assert(h.subrange(128, 132) =~= strh.subrange(28, 32));
    assert(h.subrange(132, 136) =~= strh.subrange(32, 36));
    assert(h.subrange(32, 36) =~= avih_part(v).subrange(8, 12));
    lemma_le32_value(1);
    lemma_le32_value(v.fps);
    lemma_le32_value((1_000_000int / (v.fps as int)) as u32);
    assert(le_value(h, 128) == le_value(h.subrange(128, 132), 0));
    assert(le_value(h, 132) == le_value(h.subrange(132, 136), 0));
    assert(le_value(h, 32) == le_value(h.subrange(32, 36), 0));
}

/// The header is exactly [`HEADER_BYTES`] long, whatever the recording.
pub proof fn lemma_header_len(v: AviView)
    ensures
        header_spec(v).len() == HEADER_BYTES,
{
    assert(riff_part(v).len() == 12);
    assert(avih_part(v).len() == 64);
    assert(strh_part(v).len() == 64);
    assert(strf_part(v).len() == 48);
}

/// The header written at any point is exactly [`HEADER_BYTES`] long, and the RIFF size it declares
/// is the length of the whole file, less the eight bytes of the RIFF code and size, once the index
/// follows the frames.
pub proof fn lemma_riff_size_describes_the_file(v: AviView)
    requires
        layout_wf(v),
    ensures
        header_spec(v).len() == HEADER_BYTES,
        riff_size(v) + 8 == file_len(v),
        riff_size(v) <= u32::MAX,
{
    lemma_header_len(v);
}

/// Each frame's offset in the index points just past the chunks before it, so the chunks of
/// consecutive frames follow one another without gap or overlap, each starting on an even offset.
pub proof fn lemma_frames_are_contiguous(v: AviView, i: int)
    requires
        layout_wf(v),
        0 <= i < v.frames.len() - 1,
    ensures
        v.frames[i + 1].0 == v.frames[i].0 + chunk_bytes(v.frames[i].1),
        v.frames[i].0 % 2 == 0,
{
    assert(v.frames.take(i + 1).drop_last() =~= v.frames.take(i));
    assert(v.frames[i + 1].0 == 4 + chunks_len(v.frames.take(i + 1)));
    assert(v.frames[i].0 == 4 + chunks_len(v.frames.take(i)));
    lemma_chunks_even(v.frames.take(i));
}

/// Every chunk takes an even number of bytes, so the total is even.
pub proof fn lemma_chunks_even(frames: Seq<(u32, u32)>)
    ensures
        chunks_len(frames) % 2 == 0,
    decreases frames.len(),
{
    if frames.len() > 0 {
        lemma_chunks_even(frames.drop_last());
    }
}

/// The largest frame the header declares is at least as long as every recorded frame.
pub proof fn lemma_largest_frame_bounds_all(v: AviView)
    requires
        layout_wf(v),
    ensures
        forall|i: int| 0 <= i < v.frames.len() ==> #[trigger] v.frames[i].1 <= v.largest_frame,
{
    lemma_largest_bound(v.frames);
}

} // verus!
