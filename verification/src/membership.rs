//! Which room a PC belongs to, and the rule for taking it out again.
//!
//! Joining is one click for the teacher. Leaving is not: a student must not be able to unenrol
//! their own PC in the middle of a lesson, so leaving needs the room password, every wrong attempt
//! is counted, and after [`MAX_ATTEMPTS`] wrong ones in a row every attempt, even a right one, waits
//! out a lockout of [`LOCKOUT_SECONDS`]. The count survives a reboot in a small file, whose text
//! this module reads and writes; the files themselves and the password hash live with the program.

use crate::encoding::push_char;
use crate::text::{chars_of, next_word, parse_u64, parse_unsigned, push_decimal, decimal, string_of, word_at};
use crate::paths::{join, path_join};
use std::path::{Path, PathBuf};
use vstd::prelude::*;
use vstd::string::StringExecFns;

verus! {

/// Where the membership file lives in the Agent's data directory.
pub fn path(dir: &Path) -> (p: PathBuf)
    ensures
        p == path_join(dir, "room.txt"@),
{
    join(dir, "room.txt")
}

/// The file recording failed leave attempts, so a reboot does not reset the lockout.
pub fn attempts_path(dir: &Path) -> (p: PathBuf)
    ensures
        p == path_join(dir, "leave-attempts.txt"@),
{
    join(dir, "leave-attempts.txt")
}

/// How long to refuse attempts after [`MAX_ATTEMPTS`] wrong ones in a row.
pub const LOCKOUT_SECONDS: u64 = 60;

/// Wrong attempts allowed before the lockout applies.
pub const MAX_ATTEMPTS: u32 = 5;

/// Why leaving a room was refused.
#[derive(Debug, Clone, PartialEq, Eq)]
pub enum LeaveError {
    /// This device is not in a room, so there is nothing to leave.
    NotInARoom,
    /// The password did not match.
    WrongPassword,
    /// Too many wrong attempts recently.
    LockedOut {
        /// Seconds still to wait.
        seconds: u64,
    },
    /// The stored hash is unusable.
    CorruptSecret,
    /// Files could not be updated.
    Io(String),
}

impl LeaveError {
    /// The message a user sees for this error.
    pub fn message(&self) -> (m: String)
        ensures
            m@ == (match self {
                LeaveError::NotInARoom => "this PC is not in a room"@,
                LeaveError::WrongPassword => "wrong room password"@,
                LeaveError::LockedOut { seconds } => "too many wrong attempts; try again in "@
                    + decimal(*seconds as nat) + " s"@,
                LeaveError::CorruptSecret =>
                    "the stored room password is unreadable; the PC must be re-enrolled"@,
                LeaveError::Io(detail) => "could not update this PC's files: "@ + detail@,
            }),
    {
        match self {
            LeaveError::NotInARoom => String::from_str("this PC is not in a room"),
            LeaveError::WrongPassword => String::from_str("wrong room password"),
            LeaveError::LockedOut { seconds } => {
                let mut m = String::from_str("too many wrong attempts; try again in ");
                push_decimal(&mut m, *seconds);
                m.append(" s");
                m
            },
            LeaveError::CorruptSecret => String::from_str(
                "the stored room password is unreadable; the PC must be re-enrolled",
            ),
            LeaveError::Io(detail) => {
                let mut m = String::from_str("could not update this PC's files: ");
                m.append(detail.as_str());
                m
            },
        }
    }
}

/// The seconds still to wait before an attempt is allowed: none below [`MAX_ATTEMPTS`] failures,
/// else what is left of [`LOCKOUT_SECONDS`] since the last failure (a clock that went backwards
/// counts as no time passed).
pub open spec fn lockout_spec(failures: u32, last_failure_s: u64, now_s: u64) -> nat {
    if failures < MAX_ATTEMPTS {
        0
    } else {
        let elapsed: int = if now_s >= last_failure_s {
            now_s - last_failure_s
        } else {
            0
        };
        if elapsed >= LOCKOUT_SECONDS {
            0
        } else {
            (LOCKOUT_SECONDS - elapsed) as nat
        }
    }
}

/// Decides whether an attempt is allowed right now, given the failure history.
pub fn lockout_remaining(failures: u32, last_failure_s: u64, now_s: u64) -> (s: u64)
    ensures
        s == lockout_spec(failures, last_failure_s, now_s),
        s <= LOCKOUT_SECONDS,
{
    if failures < MAX_ATTEMPTS {
        return 0;
    }
    let elapsed = now_s.saturating_sub(last_failure_s);
    LOCKOUT_SECONDS.saturating_sub(elapsed)
}

/// The lockout is bounded and ends: it never exceeds [`LOCKOUT_SECONDS`], it is zero below
/// [`MAX_ATTEMPTS`] failures, it shrinks as the clock moves on, and it is over once
/// [`LOCKOUT_SECONDS`] have passed since the last failure.
pub proof fn lemma_lockout_is_bounded(failures: u32, last: u64, now: u64, later: u64)
    requires
        now <= later,
    ensures
        lockout_spec(failures, last, now) <= LOCKOUT_SECONDS,
        failures < MAX_ATTEMPTS ==> lockout_spec(failures, last, now) == 0,
        lockout_spec(failures, last, later) <= lockout_spec(failures, last, now),
        now >= last + LOCKOUT_SECONDS ==> lockout_spec(failures, last, now) == 0,
{
}

/// What checking a password against the stored hash found.
#[derive(Debug, Clone, Copy, PartialEq, Eq, Structural)]
pub enum PasswordCheck {
    /// The password matches.
    Matches,
    /// The password does not match.
    Wrong,
    /// The stored hash cannot be read.
    CorruptHash,
}

/// Whether a leave attempt may go on to check the password: only for a PC in a room, and not
/// while locked out.
pub fn leave_gate(in_room: bool, failures: u32, last_failure_s: u64, now_s: u64) -> (r: Result<
    (),
    LeaveError,
>)
    ensures
        !in_room ==> r == Err::<(), LeaveError>(LeaveError::NotInARoom),
        in_room && lockout_spec(failures, last_failure_s, now_s) > 0 ==> r == Err::<
            (),
            LeaveError,
        >(LeaveError::LockedOut { seconds: lockout_spec(failures, last_failure_s, now_s) as u64 }),
        in_room && lockout_spec(failures, last_failure_s, now_s) == 0 ==> r is Ok,
{
    if !in_room {
        return Err(LeaveError::NotInARoom);
    }
    let remaining = lockout_remaining(failures, last_failure_s, now_s);
    if remaining > 0 {
        return Err(LeaveError::LockedOut { seconds: remaining });
    }
    Ok(())
}

/// What a checked password leads to: the failure count and time to record (a wrong password
/// counts one more failure, saturating, timed now), and whether the PC leaves its room.
pub fn after_check(check: PasswordCheck, failures: u32, now_s: u64) -> (r: (
    Result<(), LeaveError>,
    Option<(u32, u64)>,
))
    ensures
        check == PasswordCheck::Matches ==> r.0 is Ok && r.1 is None,
        check == PasswordCheck::CorruptHash ==> r.0 == Err::<(), LeaveError>(
            LeaveError::CorruptSecret,
        ) && r.1 is None,
        check == PasswordCheck::Wrong ==> r.0 == Err::<(), LeaveError>(LeaveError::WrongPassword)
            && r.1 == Some((if failures == u32::MAX {
            failures
        } else {
            (failures + 1) as u32
        }, now_s)),
{
    match check {
        PasswordCheck::Matches => (Ok(()), None),
        PasswordCheck::CorruptHash => (Err(LeaveError::CorruptSecret), None),
        PasswordCheck::Wrong => (
            Err(LeaveError::WrongPassword),
            Some((failures.saturating_add(1), now_s)),
        ),
    }
}

/// Guessing is rate-limited: after [`MAX_ATTEMPTS`] wrong passwords in a row, timed `now`, every
/// attempt at the same moment is refused for the whole [`LOCKOUT_SECONDS`], and attempts are
/// allowed again once they have passed.
pub proof fn lemma_guessing_locks_out(failures: u32, now: u64)
    requires
        failures + 1 >= MAX_ATTEMPTS,
        failures < u32::MAX,
        now + LOCKOUT_SECONDS <= u64::MAX,
    ensures
        lockout_spec((failures + 1) as u32, now, now) == LOCKOUT_SECONDS,
        lockout_spec((failures + 1) as u32, now, (now + LOCKOUT_SECONDS) as u64) == 0,
{
}

/// The failure count and time that `text` records: two whitespace-separated numbers, or no
/// failures where the text is anything else.
pub open spec fn attempts_spec(t: Seq<char>) -> (u32, u64) {
    match word_at(t, 0) {
        None => (0, 0),
        Some((a1, b1)) => match word_at(t, b1) {
            None => (0, 0),
            Some((a2, b2)) => match (parse_unsigned(t, a1, b1), parse_unsigned(t, a2, b2)) {
                (Some(n), Some(at)) => if n <= u32::MAX && at <= u64::MAX {
                    (n as u32, at as u64)
                } else {
                    (0, 0)
                },
                _ => (0, 0),
            },
        },
    }
}

/// Reads the failure count and the time of the last failure from the attempts file's text.
pub fn parse_attempts(text: &str) -> (r: (u32, u64))
    ensures
        r == attempts_spec(text@),
{
    let t = chars_of(text);
    let (a1, b1) = match next_word(t.as_slice(), 0) {
        Some(w) => w,
        None => return (0, 0),
    };
    let (a2, b2) = match next_word(t.as_slice(), b1) {
        Some(w) => w,
        None => return (0, 0),
    };
    let count = match parse_u64(t.as_slice(), a1, b1) {
        Some(n) => n,
        None => return (0, 0),
    };
    let at = match parse_u64(t.as_slice(), a2, b2) {
        Some(n) => n,
        None => return (0, 0),
    };
    if count > u32::MAX as u64 {
        return (0, 0);
    }
    (count as u32, at)
}

/// The attempts file's text for `count` failures, the last at `at_s`.
pub fn attempts_text(count: u32, at_s: u64) -> (s: String)
    ensures
        s@ == decimal(count as nat) + " "@ + decimal(at_s as nat),
{
    let mut s = String::new();
    push_decimal(&mut s, count as u64);
    push_char(&mut s, ' ');
    push_decimal(&mut s, at_s);
    proof {
        assert(" "@ == seq![' ']) by {
            reveal_strlit(" ");
        }
    }
    s
}

/// The end of the line of `t` starting at `from` (the next newline or the end), and where the
/// next line starts, if the text goes on.
pub open spec fn line_bounds(t: Seq<char>, from: int) -> (int, Option<int>) {
    match crate::text::find_char(t, from, t.len() as int, '\n') {
        Some(i) => (i, if i + 1 < t.len() {
            Some(i + 1)
        } else {
            None
        }),
        None => (t.len() as int, None),
    }
}

/// A line of `t` from `from` to `end`, as `str::lines` yields it: without a carriage return that
/// precedes its newline.
pub open spec fn line_text(t: Seq<char>, from: int, end: int) -> Seq<char> {
    if end < t.len() && end > from && t[end - 1] == '\r' {
        t.subrange(from, end - 1)
    } else {
        t.subrange(from, end)
    }
}

/// The room and the stored secret a membership file holds: its first two lines, both non-empty.
pub open spec fn membership_spec(t: Seq<char>) -> Option<(Seq<char>, Seq<char>)> {
    if t.len() == 0 {
        None
    } else {
        let (end1, next) = line_bounds(t, 0);
        match next {
            None => None,
            Some(start2) => {
                let (end2, _) = line_bounds(t, start2);
                let room = line_text(t, 0, end1);
                let secret = line_text(t, start2, end2);
                if room.len() == 0 || secret.len() == 0 {
                    None
                } else {
                    Some((room, secret))
                }
            },
        }
    }
}

fn line_of(t: &[char], from: usize) -> (r: (usize, usize, Option<usize>))
    requires
        from <= t@.len(),
    ensures
        r.2 == (match line_bounds(t@, from as int).1 {
            Some(i) => Some(i as usize),
            None => None::<usize>,
        }),
        r.1 == line_bounds(t@, from as int).0,
        from <= r.0 <= r.1 <= t@.len(),
        t@.subrange(from as int, r.0 as int) == line_text(t@, from as int, r.1 as int),
        r.2 matches Some(n) ==> n <= t@.len(),
{
    let len = t.len();
    match crate::text::find(t, from, len, '\n') {
        Some(i) => {
            let stop = if i > from && t[i - 1] == '\r' {
                i - 1
            } else {
                i
            };
            let next = if i + 1 < len {
                Some(i + 1)
            } else {
                None
            };
            (stop, i, next)
        },
        None => (len, len, None),
    }
}

/// Reads the room name and the stored secret from a membership file's text.
pub fn parse_membership(text: &str) -> (r: Option<(String, String)>)
    ensures
        match r {
            Some((room, secret)) => membership_spec(text@) == Some((room@, secret@)),
            None => membership_spec(text@) is None,
        },
{
    let t = chars_of(text);
    if t.len() == 0 {
        return None;
    }
    let (stop1, _, next) = line_of(t.as_slice(), 0);
    let start2 = match next {
        Some(n) => n,
        None => return None,
    };
    let (stop2, _, _) = line_of(t.as_slice(), start2);
    if stop1 == 0 || stop2 == start2 {
        return None;
    }
    Some((string_of(t.as_slice(), 0, stop1), string_of(t.as_slice(), start2, stop2)))
}

/// The membership file's text for a room and its stored secret: the room on the first line, the
/// secret on the second.
pub fn membership_text(room: &str, secret: &str) -> (s: String)
    ensures
        s@ == room@ + "\n"@ + secret@,
{
    let mut s = String::from_str(room);
    s.append("\n");
    s.append(secret);
    s
}

/// A file written for a room and a secret reads back as the same room and secret, as long as
/// neither is empty nor holds a line break.
pub proof fn lemma_membership_round_trip(room: Seq<char>, secret: Seq<char>)
    requires
        room.len() > 0,
        secret.len() > 0,
        forall|i: int| 0 <= i < room.len() ==> room[i] != '\n' && room[i] != '\r',
        forall|i: int| 0 <= i < secret.len() ==> secret[i] != '\n',
    ensures
        membership_spec(room + "\n"@ + secret) == Some((room, secret)),
{
    reveal_strlit("\n");
    let t = room + "\n"@ + secret;
    assert(t[room.len() as int] == '\n');
    lemma_find_first(t, 0, room.len() as int);
    lemma_find_none(t, room.len() as int + 1, t.len() as int);
    assert(t.subrange(0, room.len() as int) =~= room);
    assert(t.subrange(room.len() as int + 1, t.len() as int) =~= secret);
}

proof fn lemma_find_first(t: Seq<char>, from: int, at: int)
    requires
        0 <= from <= at < t.len(),
        t[at] == '\n',
        forall|i: int| from <= i < at ==> t[i] != '\n',
    ensures
        crate::text::find_char(t, from, t.len() as int, '\n') == Some(at),
    decreases at - from,
{
    if from < at {
        lemma_find_first(t, from + 1, at);
    }
}

proof fn lemma_find_none(t: Seq<char>, from: int, to: int)
    requires
        0 <= from <= to <= t.len(),
        forall|i: int| from <= i < to ==> t[i] != '\n',
    ensures
        crate::text::find_char(t, from, to, '\n') is None,
    decreases to - from,
{
    if from < to {
        lemma_find_none(t, from + 1, to);
    }
}

/// A reboot keeps the lockout: the attempts file written for a failure count and the time of the
/// last failure reads back as the same count and time.
pub proof fn lemma_attempts_round_trip(count: u32, at_s: u64)
    ensures
        attempts_spec(decimal(count as nat) + " "@ + decimal(at_s as nat)) == (count, at_s),
{
    reveal_strlit(" ");
    let d1 = decimal(count as nat);
    let d2 = decimal(at_s as nat);
    let t = d1 + " "@ + d2;
    crate::text::lemma_decimal_reads_back(count as nat);
    crate::text::lemma_decimal_reads_back(at_s as nat);
    let b1 = d1.len() as int;
    let len = t.len() as int;
    assert(t[b1] == ' ');
    assert forall|i: int| 0 <= i < b1 implies !crate::text::is_ws(#[trigger] t[i]) && '0' <= t[i] <= '9' by {
        assert(t[i] == d1[i]);
    }
    assert forall|i: int| b1 + 1 <= i < len implies !crate::text::is_ws(#[trigger] t[i]) && '0' <= t[i] <= '9' by {
        assert(t[i] == d2[i - b1 - 1]);
    }
    crate::text::lemma_next_ws_run(t, 0, b1, len);
    crate::text::lemma_next_ws_run(t, b1 + 1, len, len);
    assert(crate::text::skip_ws(t, 0, len) == 0);
    assert(crate::text::skip_ws(t, b1 + 1, len) == b1 + 1);
    assert(crate::text::skip_ws(t, b1, len) == b1 + 1);
    assert(word_at(t, 0) == Some((0int, b1)));
    assert(word_at(t, b1) == Some((b1 + 1, len)));
    crate::text::lemma_digits_shift(t, 0, b1);
    crate::text::lemma_digits_shift(t, b1 + 1, len);
    assert(t.subrange(0, b1) == d1);
    assert(t.subrange(b1 + 1, len) == d2);
    assert(crate::text::all_digits(t, 0, b1));
    assert(crate::text::all_digits(t, b1 + 1, len));
    assert(parse_unsigned(t, 0, b1) == Some(count as nat));
    assert(parse_unsigned(t, b1 + 1, len) == Some(at_s as nat));
}

} // verus!
