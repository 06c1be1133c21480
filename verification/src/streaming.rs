//! Choosing the frame a live H.264 stream encodes next.
//!
//! The capture, the encoder and the channel to the network run on the application's worker
//! thread. What the library decides, each tick, is which picture goes to the encoder: a fresh grab
//! scaled to the stream size, or, when nothing changed or a grab was missed, the previous picture
//! again, which keeps the stream flowing for the decoder at almost no cost.

use crate::resize::{area_average, area_average_spec};
use vstd::prelude::*;

verus! {

/// How many encoded frames may wait for the network before new ones are dropped: about a tenth
/// of a second at 30 fps, enough to ride out a scheduling hiccup and too little to build a visible
/// delay.
pub const QUEUE_FRAMES: usize = 3;

/// What one grab of the screen gave.
pub enum Captured {
    /// A new picture: BGRA pixels, width and height.
    Frame(Vec<u8>, u32, u32),
    /// Nothing changed on screen since the last grab.
    Unchanged,
    /// The grab failed (a UAC prompt, a mode change); one miss must not end the stream.
    Missed,
}

/// The picture a grab of `w`x`h` pixels becomes at the stream size: itself where the sizes agree,
/// else its area average.
pub open spec fn scaled_spec(pixels: Seq<u8>, w: u32, h: u32, width: u32, height: u32) -> Seq<u8> {
    if w == width && h == height {
        pixels
    } else {
        area_average_spec(pixels, w as int, h as int, width as int, height as int)
    }
}

/// The pixels an optional frame holds.
pub open spec fn frame_view(f: Option<Vec<u8>>) -> Option<Seq<u8>> {
    match f {
        Some(v) => Some(v@),
        None => None,
    }
}

fn copy_frame(previous: &Option<Vec<u8>>) -> (r: Option<Vec<u8>>)
    ensures
        frame_view(r) == frame_view(*previous),
{
    match previous {
        Some(p) => Some(p.clone()),
        None => None,
    }
}

/// The frame to encode after `captured`, for a stream of `width`x`height`, and the picture kept
/// for reuse. A fresh grab is scaled to the stream size and kept; one that scales to nothing (a
/// zero side, too few bytes) is skipped and the kept picture stays. When nothing changed or the
/// grab was missed, the kept picture is sent again, if there is one.
pub fn next_frame(captured: Captured, width: u32, height: u32, previous: &mut Option<Vec<u8>>) -> (frame:
    Option<Vec<u8>>)
    requires
        width * height * 4 <= usize::MAX,
    ensures
        match captured {
            Captured::Frame(pixels, w, h) => {
                let s = scaled_spec(pixels@, w, h, width, height);
                if s.len() == 0 {
                    frame is None && frame_view(*final(previous)) == frame_view(*old(previous))
                } else {
                    frame_view(frame) == Some(s) && frame_view(*final(previous)) == Some(s)
                }
            },
            _ => frame_view(frame) == frame_view(*old(previous)) && frame_view(*final(previous))
                == frame_view(*old(previous)),
        },
{
    match captured {
        Captured::Frame(pixels, w, h) => {
            let scaled = if w == width && h == height {
                pixels
            } else {
                area_average(pixels.as_slice(), w, h, width, height)
            };
            if scaled.len() == 0 {
                None
            } else {
                *previous = Some(scaled.clone());
                Some(scaled)
            }
        },
        Captured::Unchanged => copy_frame(previous),
        Captured::Missed => copy_frame(previous),
    }
}

} // verus!
