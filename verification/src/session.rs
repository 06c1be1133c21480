//! The decisions of one watched connection, turn by turn: what to ask a PC for, when to resend the
//! blocklist, when to take or give up control, and what to do about listening.
//!
//! The connection itself, and the waiting between turns, are the program's; each turn it asks
//! these functions what to do and does it.

use crate::encoding::{base64, base64_spec};
use crate::supervisor::{duration_nanos, from_micros};
use std::time::Duration;
use vstd::prelude::*;
use vstd::string::StringExecFns;

verus! {

/// Width requested for the tiles in the grid, until the teacher changes it.
pub const DEFAULT_GRID_WIDTH: u16 = 480;

/// Width requested for the one opened screen, until the teacher changes it.
pub const DEFAULT_FOCUSED_WIDTH: u16 = 1280;

/// How much sound is collected per turn, in milliseconds.
pub const AUDIO_CHUNK_MS: u32 = 200;

/// How much sound may queue for the speakers before the oldest is dropped, in milliseconds.
pub const AUDIO_QUEUE_MS: u32 = 600;

/// What the teacher is looking at: the grid and opened widths, and which PC is opened, listened
/// to or driven. Each of the last three is exclusive: one PC at a time.
#[derive(Debug, Clone, Copy, PartialEq, Eq)]
pub struct Preview {
    pub grid_width: u16,
    pub focused_width: u16,
    pub focused: Option<[u8; 32]>,
    pub listening: Option<[u8; 32]>,
    pub controlling: Option<[u8; 32]>,
}

impl Default for Preview {
    /// The default widths, nothing opened, listened to or driven.
    fn default() -> (p: Self)
        ensures
            p.grid_width == DEFAULT_GRID_WIDTH,
            p.focused_width == DEFAULT_FOCUSED_WIDTH,
            p.focused is None,
            p.listening is None,
            p.controlling is None,
    {
        Preview {
            grid_width: DEFAULT_GRID_WIDTH,
            focused_width: DEFAULT_FOCUSED_WIDTH,
            focused: None,
            listening: None,
            controlling: None,
        }
    }
}

fn same_key(a: &Option<[u8; 32]>, key: &[u8; 32]) -> (b: bool)
    ensures
        b == (a matches Some(k) && k@ == key@),
{
    match a {
        None => false,
        Some(k) => {
            let mut i: usize = 0;
            while i < 32
                invariant
                    i <= 32,
                    *a == Some(*k),
                    forall|j: int| 0 <= j < i ==> k@[j] == key@[j],
                decreases 32 - i,
            {
                if k[i] != key[i] {
                    proof {
                        assert(k@[i as int] != key@[i as int]);
                    }
                    return false;
                }
                i = i + 1;
            }
            assert(k@ =~= key@);
            true
        },
    }
}

/// Whether `slot` holds the key `key`.
pub open spec fn holds_key(slot: Option<[u8; 32]>, key: [u8; 32]) -> bool {
    slot matches Some(k) && k@ == key@
}

/// What to ask the PC with `key` for: its chosen monitor, the width (the opened width where it is
/// the opened screen, else the grid width), and whether it is the opened one.
pub fn request_shape(preview: &Preview, monitor: u8, key: &[u8; 32]) -> (r: (u8, u16, bool))
    ensures
        r.2 == holds_key(preview.focused, *key),
        r.0 == monitor,
        r.1 == (if r.2 {
            preview.focused_width
        } else {
            preview.grid_width
        }),
{
    let focused = same_key(&preview.focused, key);
    let width = if focused {
        preview.focused_width
    } else {
        preview.grid_width
    };
    (monitor, width, focused)
}

/// How long to wait before the next turn: a quarter second for the opened screen, a second for
/// the grid.
pub fn refresh_interval(focused: bool) -> (d: Duration)
    ensures
        duration_nanos(d) == (if focused {
            250_000_000nat
        } else {
            1_000_000_000nat
        }),
{
    if focused {
        from_micros(250_000)
    } else {
        from_micros(1_000_000)
    }
}

/// The monitor to show after a PC reports its monitors: the chosen one if it still exists, else
/// the first reported, else 0.
pub fn choose_monitor(current: u8, reported: &[u8]) -> (m: u8)
    ensures
        reported@.contains(current) ==> m == current,
        !reported@.contains(current) ==> m == (if reported@.len() > 0 {
            reported@[0]
        } else {
            0
        }),
{
    let mut i: usize = 0;
    while i < reported.len()
        invariant
            i <= reported@.len(),
            forall|j: int| 0 <= j < i ==> reported@[j] != current,
        decreases reported@.len() - i,
    {
        if reported[i] == current {
            return current;
        }
        i = i + 1;
    }
    if reported.len() > 0 {
        reported[0]
    } else {
        0
    }
}

/// Whether the blocklist must be sent this turn: its version moved since the last send.
pub fn blocklist_due(sent_version: u64, current_version: u64) -> (due: bool)
    ensures
        due == (sent_version != current_version),
{
    sent_version != current_version
}

/// Whether to ask for control this turn, and for what: only when what the teacher wants differs
/// from what this connection has.
pub fn control_change(wants: bool, controlling: bool) -> (r: Option<bool>)
    ensures
        r == (if wants != controlling {
            Some(wants)
        } else {
            None
        }),
{
    if wants != controlling {
        Some(wants)
    } else {
        None
    }
}

/// What to do about sound this turn.
#[derive(Debug, Clone, Copy, PartialEq, Eq, Structural)]
pub enum AudioStep {
    /// Not listening, nothing running: nothing to do.
    Idle,
    /// The teacher stopped listening: tell the PC to stop.
    Stop,
    /// The teacher started listening: tell the PC to start, then open the speakers.
    Start,
    /// Listening: collect at most `max_samples` and queue them, keeping at most `queue_cap`.
    Collect { max_samples: u32, queue_cap: usize },
}

/// The sound step for a PC, given whether the teacher listens to it and the sample rate already
/// running, if any.
pub fn audio_step(wanted: bool, running_rate: Option<u32>) -> (s: AudioStep)
    requires
        running_rate matches Some(r) ==> r * AUDIO_QUEUE_MS <= u32::MAX,
    ensures
        s == (match (wanted, running_rate) {
            (false, None) => AudioStep::Idle,
            (false, Some(_)) => AudioStep::Stop,
            (true, None) => AudioStep::Start,
            (true, Some(r)) => AudioStep::Collect {
                max_samples: (r * AUDIO_CHUNK_MS / 1000) as u32,
                queue_cap: (r * AUDIO_QUEUE_MS / 1000) as usize,
            },
        }),
{
    match (wanted, running_rate) {
        (false, None) => AudioStep::Idle,
        (false, Some(_)) => AudioStep::Stop,
        (true, None) => AudioStep::Start,
        (true, Some(r)) => AudioStep::Collect {
            max_samples: r * AUDIO_CHUNK_MS / 1000,
            queue_cap: (r * AUDIO_QUEUE_MS / 1000) as usize,
        },
    }
}

/// The screen as a `data:` URL an `<img>` can show directly.
pub fn screen_url(jpeg: &[u8]) -> (url: String)
    ensures
        url@ == "data:image/jpeg;base64,"@ + base64_spec(jpeg@),
{
    let mut url = String::from_str("data:image/jpeg;base64,");
    let b = base64(jpeg);
    url.append(b.as_str());
    url
}


/// What a PC answered when asked for its screen.
pub enum ThumbnailReply {
    /// The screen, as a JPEG.
    Jpeg(Vec<u8>),
    /// The screen cannot be captured just now: it is locked, or a UAC prompt is up.
    ScreenUnavailable,
    /// The request failed, for this reason.
    Failed(String),
}

/// What the screen loop does with a PC's answer.
pub enum ThumbnailStep {
    /// Show this `data:` URL; the PC is live.
    Show(String),
    /// Keep the connection and the last frame; the screen comes back on a later turn.
    KeepLast,
    /// End the session with this error.
    End(String),
}

/// The screen loop's decision on a PC's answer: a screen is shown, a screen that is momentarily
/// uncapturable keeps the session (dropping it would make the PC reconnect over and over), and
/// any other failure ends the session.
pub fn after_thumbnail(reply: ThumbnailReply) -> (step: ThumbnailStep)
    ensures
        match reply {
            ThumbnailReply::Jpeg(j) => step matches ThumbnailStep::Show(u) && u@
                == "data:image/jpeg;base64,"@ + base64_spec(j@),
            ThumbnailReply::ScreenUnavailable => step is KeepLast,
            ThumbnailReply::Failed(e) => step matches ThumbnailStep::End(m) && m@ == e@,
        },
{
    match reply {
        ThumbnailReply::Jpeg(j) => ThumbnailStep::Show(screen_url(j.as_slice())),
        ThumbnailReply::ScreenUnavailable => ThumbnailStep::KeepLast,
        ThumbnailReply::Failed(e) => ThumbnailStep::End(e),
    }
}

} // verus!
