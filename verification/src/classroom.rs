//! Classrooms, each a separate profile directory under one base directory.
//!
//! The base directory itself is the `default` classroom; every other classroom lives in
//! `<base>/classrooms/<slug>`. A slug is derived from the teacher-typed name: lower-case ASCII
//! letters and digits, other runs becoming a single dash, never empty and never `default`.

use crate::encoding::push_char;
use crate::paths::{join, path_exists, path_join, path_of, as_path, owned, path_owned};
use crate::text::{
    chars_eq, chars_of, decimal, lower, lower_char, push_decimal, strip_both, strip_bounds,
    string_of, trim_bounds, trim_spec, word,
};
use std::path::{Path, PathBuf};
use crate::order::SortKey;
use vstd::prelude::*;
use vstd::string::StringExecFns;

verus! {

/// The slug of the always-present classroom that lives in the base directory itself.
pub const DEFAULT_SLUG: &'static str = "default";

/// One classroom for the switcher.
#[derive(Debug, Clone, PartialEq, Eq)]
pub struct ClassroomInfo {
    /// Stable folder-safe id, used on the command line and to switch.
    pub slug: String,
    /// The teacher-facing label.
    pub name: String,
    /// True for the classroom this console instance is currently showing.
    pub active: bool,
}

/// What `str::to_lowercase` gives for `s`: its lower-case form by Unicode's rules.
pub uninterp spec fn lowercase(s: Seq<char>) -> Seq<char>;

/// `str::to_lowercase`: `s` in lower case, as Unicode defines it.
#[verifier::external_body]
fn to_lowercase(s: &str) -> (r: String)
    ensures
        r@ == lowercase(s@),
{
    s.to_lowercase()
}

impl SortKey for ClassroomInfo {
    /// Classrooms are listed by their label, regardless of case.
    open spec fn sort_key(&self) -> Seq<char> {
        lowercase(self.name@)
    }

    fn key_text(&self) -> (k: String) {
        to_lowercase(self.name.as_str())
    }
}

/// Whether `c` is an ASCII letter or digit.
pub open spec fn is_alnum(c: char) -> bool {
    ('a' <= c <= 'z') || ('A' <= c <= 'Z') || ('0' <= c <= '9')
}

/// The slug built from `s` before its dashes are trimmed, and whether it ends in a dash run:
/// letters and digits lower-cased, every other run a single dash, no dash at the start.
pub open spec fn slug_fold(s: Seq<char>) -> (Seq<char>, bool)
    decreases s.len(),
{
    if s.len() == 0 {
        (Seq::empty(), false)
    } else {
        let (slug, last_dash) = slug_fold(s.drop_last());
        let c = s.last();
        if is_alnum(c) {
            (slug.push(lower_char(c)), false)
        } else if !last_dash && slug.len() > 0 {
            (slug.push('-'), true)
        } else {
            (slug, last_dash)
        }
    }
}

/// The folder-safe slug for a name: [`slug_fold`] with dashes trimmed from both ends, or `room`
/// where nothing is left.
pub open spec fn sanitize_spec(name: Seq<char>) -> Seq<char> {
    let t = strip_both(slug_fold(name).0, '-');
    if t.len() == 0 {
        "room"@
    } else {
        t
    }
}

/// Whether every character of `s` is a lower-case ASCII letter, a digit or a dash.
pub open spec fn slug_chars(s: Seq<char>) -> bool {
    forall|i: int|
        0 <= i < s.len() ==> ('a' <= #[trigger] s[i] <= 'z') || ('0' <= s[i] <= '9') || s[i]
            == '-'
}

proof fn lemma_slug_fold_chars(s: Seq<char>)
    ensures
        slug_chars(slug_fold(s).0),
    decreases s.len(),
{
    if s.len() > 0 {
        lemma_slug_fold_chars(s.drop_last());
    }
}

/// A slug is never empty and holds only lower-case ASCII letters, digits and dashes, so it is a
/// safe directory name on every file system.
pub proof fn lemma_sanitize_is_folder_safe(name: Seq<char>)
    ensures
        sanitize_spec(name).len() > 0,
        slug_chars(sanitize_spec(name)),
{
    reveal_strlit("room");
    lemma_slug_fold_chars(name);
    let f = slug_fold(name).0;
    let a = crate::text::drop_leading(f, 0, f.len() as int, '-');
    crate::text::lemma_drop_bounds(f, 0, f.len() as int, '-');
    crate::text::lemma_drop_bounds(f, a, f.len() as int, '-');
    let t = strip_both(f, '-');
    assert forall|i: int| 0 <= i < t.len() implies ('a' <= #[trigger] t[i] <= 'z') || ('0' <= t[i]
        <= '9') || t[i] == '-' by {
        assert(t[i] == f[a + i]);
    }
}

/// Turns a name into a folder-safe slug.
pub fn sanitize(name: &str) -> (slug: String)
    ensures
        slug@ == sanitize_spec(name@),
{
    let v = chars_of(name);
    let mut raw: Vec<char> = Vec::new();
    let mut last_dash = false;
    let mut i: usize = 0;
    while i < v.len()
        invariant
            i <= v@.len(),
            (raw@, last_dash) == slug_fold(v@.take(i as int)),
        decreases v@.len() - i,
    {
        let ch = v[i];
        proof {
            assert(v@.take(i as int + 1).drop_last() =~= v@.take(i as int));
        }
        if ('a' <= ch && ch <= 'z') || ('A' <= ch && ch <= 'Z') || ('0' <= ch && ch <= '9') {
            raw.push(lower(ch));
            last_dash = false;
        } else if !last_dash && raw.len() > 0 {
            raw.push('-');
            last_dash = true;
        }
        i = i + 1;
    }
    assert(v@.take(v@.len() as int) =~= v@);
    let (a, b) = strip_bounds(raw.as_slice(), '-');
    if a == b {
        String::from_str("room")
    } else {
        string_of(raw.as_slice(), a, b)
    }
}

/// Whether `slug` names the default classroom: `default`, or nothing at all.
pub open spec fn is_default_slug(slug: Seq<char>) -> bool {
    slug == "default"@ || slug.len() == 0
}

fn is_default(slug: &str) -> (b: bool)
    ensures
        b == is_default_slug(slug@),
{
    let v = chars_of(slug);
    let d = word("default");
    proof {
        assert(v@.subrange(0, v@.len() as int) =~= v@);
    }
    v.len() == 0 || chars_eq(v.as_slice(), 0, v.len(), d.as_slice())
}

/// The data directory for one classroom slug. The default classroom is the base directory itself;
/// any other lives under `classrooms`, by its sanitized slug.
pub fn dir_for(base: &Path, slug: &str) -> (dir: PathBuf)
    ensures
        is_default_slug(slug@) ==> dir == path_owned(base),
        !is_default_slug(slug@) ==> dir == path_join(
            path_of(&path_join(base, "classrooms"@)),
            sanitize_spec(slug@),
        ),
{
    if is_default(slug) {
        owned(base)
    } else {
        let classrooms = join(base, "classrooms");
        let safe = sanitize(slug);
        join(as_path(&classrooms), safe.as_str())
    }
}

/// The slug a new classroom starts from: the sanitized name, or `default-room` where that would be
/// `default`.
pub open spec fn base_slug_spec(name: Seq<char>) -> Seq<char> {
    if sanitize_spec(name) == "default"@ {
        sanitize_spec(name) + "-room"@
    } else {
        sanitize_spec(name)
    }
}

/// The `k`-th slug tried for a base slug: the base itself first, then `<base>-2`, `<base>-3`, ...
pub open spec fn slug_candidate(base: Seq<char>, k: nat) -> Seq<char> {
    if k <= 1 {
        base
    } else {
        base + "-"@ + decimal(k)
    }
}

fn candidate(base: &String, k: u64) -> (s: String)
    requires
        k >= 2,
    ensures
        s@ == slug_candidate(base@, k as nat),
{
    let mut s = base.clone();
    push_char(&mut s, '-');
    push_decimal(&mut s, k);
    proof {
        reveal_strlit("-");
        assert(base@ + "-"@ =~= base@.push('-'));
    }
    s
}

/// A slug that is not `default` and not already taken on disk: the first candidate (the base,
/// then `-2`, `-3`, ...) whose directory does not exist, as [`first_free`] chooses it.
pub fn unique_slug(base: &Path, name: &str) -> (slug: String)
    ensures
        exists|k: nat| 1 <= k < i32::MAX && slug@ == slug_candidate(base_slug_spec(name@), k),
{
    let mut base_slug = sanitize(name);
    let d = word("default");
    let bs = chars_of(base_slug.as_str());
    if chars_eq(bs.as_slice(), 0, bs.len(), d.as_slice()) {
        proof {
            assert(bs@.subrange(0, bs@.len() as int) =~= bs@);
        }
        base_slug.append("-room");
    } else {
        proof {
            assert(bs@.subrange(0, bs@.len() as int) =~= bs@);
        }
    }
    let k = first_free(
        |k: u64| path_exists(as_path(&dir_for(base, candidate_slug(&base_slug, k).as_str()))),
    );
    let slug = candidate_slug(&base_slug, k);
    assert(base_slug@ == base_slug_spec(name@));
    assert(slug@ == slug_candidate(base_slug_spec(name@), k as nat));
    slug
}

/// The `k`-th slug tried for `base_slug`: the base itself for the first, `<base>-<k>` after.
pub fn candidate_slug(base_slug: &String, k: u64) -> (s: String)
    ensures
        s@ == slug_candidate(base_slug@, k as nat),
{
    if k <= 1 {
        base_slug.clone()
    } else {
        candidate(base_slug, k)
    }
}

/// The first candidate that is free: candidates `1, 2, 3, ...` are tried in turn with `taken`,
/// and the first it answers `false` for is chosen. The search stops at the last candidate whose
/// number fits an `i32` less one, which is then chosen unasked.
pub fn first_free(taken: impl Fn(u64) -> bool) -> (k: u64)
    requires
        forall|j: u64| taken.requires((j,)),
    ensures
        1 <= k < i32::MAX,
        forall|j: u64| 1 <= j < k ==> call_ensures(taken, (j,), true),
        k < i32::MAX - 1 ==> call_ensures(taken, (k,), false),
{
    let mut k: u64 = 1;
    while k < (i32::MAX - 1) as u64
        invariant
            1 <= k <= i32::MAX - 1,
            forall|j: u64| taken.requires((j,)),
            forall|j: u64| 1 <= j < k ==> call_ensures(taken, (j,), true),
        decreases i32::MAX - k,
    {
        if !taken(k) {
            return k;
        }
        k = k + 1;
    }
    k
}

/// Checks a teacher-typed classroom name: trimmed, it must not be empty nor longer than
/// `max_chars` characters. Gives the trimmed name, or the message that says what is wrong.
pub fn check_name(name: &str, max_chars: usize) -> (r: Result<String, String>)
    ensures
        trim_spec(name@, 0, name@.len() as int).len() == 0 ==> (r matches Err(m) && m@
            == "the classroom needs a name"@),
        trim_spec(name@, 0, name@.len() as int).len() > max_chars ==> (r matches Err(m) && m@
            == "the classroom name may be at most "@ + decimal(max_chars as nat) + " characters"@),
        0 < trim_spec(name@, 0, name@.len() as int).len() <= max_chars ==> (r matches Ok(t) && t@
            == trim_spec(name@, 0, name@.len() as int)),
{
    let v = chars_of(name);
    let (a, b) = trim_bounds(v.as_slice(), 0, v.len());
    if a == b {
        return Err(String::from_str("the classroom needs a name"));
    }
    if b - a > max_chars {
        let mut m = String::from_str("the classroom name may be at most ");
        push_decimal(&mut m, max_chars as u64);
        m.append(" characters");
        return Err(m);
    }
    Ok(string_of(v.as_slice(), a, b))
}

/// The label of a classroom from the text of its label file, if it could be read: the text
/// trimmed, or, where that is empty, `Classroom` for the default classroom and the slug otherwise.
pub fn label_from(file_text: Option<&str>, slug: &str) -> (label: String)
    ensures
        (file_text matches Some(t) && trim_spec(t@, 0, t@.len() as int).len() > 0) ==> label@
            == trim_spec(file_text.unwrap()@, 0, file_text.unwrap()@.len() as int),
        !(file_text matches Some(t) && trim_spec(t@, 0, t@.len() as int).len() > 0) ==> label@
            == (if slug@ == "default"@ {
            "Classroom"@
        } else {
            slug@
        }),
{
    if let Some(t) = file_text {
        let v = chars_of(t);
        let (a, b) = trim_bounds(v.as_slice(), 0, v.len());
        if a < b {
            return string_of(v.as_slice(), a, b);
        }
    }
    let s = chars_of(slug);
    let d = word("default");
    let is_def = chars_eq(s.as_slice(), 0, s.len(), d.as_slice());
    proof {
        assert(s@.subrange(0, s@.len() as int) =~= s@);
    }
    if is_def {
        String::from_str("Classroom")
    } else {
        String::from_str(slug)
    }
}

/// The slug asked for on the command line: the argument trimmed and sanitized, where it is not
/// blank.
pub fn slug_from_arg(arg: Option<&str>) -> (r: Option<String>)
    ensures
        match arg {
            None => r is None,
            Some(a) => if trim_spec(a@, 0, a@.len() as int).len() == 0 {
                r is None
            } else {
                (r matches Some(s) && s@ == sanitize_spec(trim_spec(a@, 0, a@.len() as int)))
            },
        },
{
    match arg {
        None => None,
        Some(a) => {
            let v = chars_of(a);
            let (x, y) = trim_bounds(v.as_slice(), 0, v.len());
            if x == y {
                None
            } else {
                let t = string_of(v.as_slice(), x, y);
                Some(sanitize(t.as_str()))
            }
        },
    }
}

} // verus!
