//! Character-level helpers shared by the small text formats: conversion between strings and
//! character vectors, Unicode whitespace, trimming and ASCII lower-casing.

use crate::encoding::push_char;
use vstd::prelude::*;

verus! {

broadcast use vstd::string::group_string_axioms;

/// The characters of `s`, in order.
pub fn chars_of(s: &str) -> (v: Vec<char>)
    ensures
        v@ == s@,
{
    let mut v: Vec<char> = Vec::new();
    for c in iter: s.chars()
        invariant
            iter.seq() == s@,
            v@ == iter.seq().take(iter.index() as int),
    {
        v.push(c);
        proof {
            assert(iter.seq().take(iter.index() as int + 1) =~= v@);
        }
    }
    assert(v@ =~= s@);
    v
}

/// A string of the characters `v[from..to]`.
pub fn string_of(v: &[char], from: usize, to: usize) -> (s: String)
    requires
        from <= to <= v@.len(),
    ensures
        s@ == v@.subrange(from as int, to as int),
{
    let mut s = String::new();
    let mut i: usize = from;
    while i < to
        invariant
            from <= i <= to <= v@.len(),
            s@ == v@.subrange(from as int, i as int),
        decreases to - i,
    {
        push_char(&mut s, v[i]);
        proof {
            assert(v@.subrange(from as int, i + 1) =~= v@.subrange(from as int, i as int).push(
                v@[i as int],
            ));
        }
        i = i + 1;
    }
    s
}

/// Whether `c` is whitespace as Unicode's White_Space property defines it, which is what
/// `char::is_whitespace` tests.
pub open spec fn is_ws(c: char) -> bool {
    let n = c as u32;
    ||| 0x09 <= n <= 0x0D
    ||| n == 0x20
    ||| n == 0x85
    ||| n == 0xA0
    ||| n == 0x1680
    ||| 0x2000 <= n <= 0x200A
    ||| n == 0x2028
    ||| n == 0x2029
    ||| n == 0x202F
    ||| n == 0x205F
    ||| n == 0x3000
}

/// `char::is_whitespace`.
pub fn is_whitespace(c: char) -> (b: bool)
    ensures
        b == is_ws(c),
{
    let n = c as u32;
    (0x09 <= n && n <= 0x0D) || n == 0x20 || n == 0x85 || n == 0xA0 || n == 0x1680 || (0x2000 <= n
        && n <= 0x200A) || n == 0x2028 || n == 0x2029 || n == 0x202F || n == 0x205F || n == 0x3000
}

/// The index of the first character of `s` at or after `from` that is not whitespace, or `to`.
pub open spec fn skip_ws(s: Seq<char>, from: int, to: int) -> int
    decreases to - from,
{
    if from >= to {
        to
    } else if is_ws(s[from]) {
        skip_ws(s, from + 1, to)
    } else {
        from
    }
}

/// The index just past the last character of `s[from..to]` that is not whitespace, or `from`.
pub open spec fn skip_ws_back(s: Seq<char>, from: int, to: int) -> int
    decreases to - from,
{
    if to <= from {
        from
    } else if is_ws(s[to - 1]) {
        skip_ws_back(s, from, to - 1)
    } else {
        to
    }
}

/// `s[from..to]` with leading and trailing whitespace removed, as `str::trim` does.
pub open spec fn trim_spec(s: Seq<char>, from: int, to: int) -> Seq<char> {
    let a = skip_ws(s, from, to);
    s.subrange(a, skip_ws_back(s, a, to))
}

pub proof fn lemma_skip_ws_bounds(s: Seq<char>, from: int, to: int)
    requires
        from <= to,
    ensures
        from <= skip_ws(s, from, to) <= to,
        from <= skip_ws_back(s, from, to) <= to,
    decreases to - from,
{
    if from < to {
        lemma_skip_ws_bounds(s, from + 1, to);
        lemma_skip_ws_bounds(s, from, to - 1);
    }
}

/// The bounds of `v[from..to]` trimmed of whitespace at both ends.
pub fn trim_bounds(v: &[char], from: usize, to: usize) -> (r: (usize, usize))
    requires
        from <= to <= v@.len(),
    ensures
        r.0 == skip_ws(v@, from as int, to as int),
        r.1 == skip_ws_back(v@, r.0 as int, to as int),
        from <= r.0 <= r.1 <= to,
        v@.subrange(r.0 as int, r.1 as int) == trim_spec(v@, from as int, to as int),
{
    let mut a: usize = from;
    while a < to && is_whitespace(v[a])
        invariant
            from <= a <= to <= v@.len(),
            skip_ws(v@, a as int, to as int) == skip_ws(v@, from as int, to as int),
        decreases to - a,
    {
        a = a + 1;
    }
    let mut b: usize = to;
    while b > a && is_whitespace(v[b - 1])
        invariant
            a <= b <= to <= v@.len(),
            skip_ws_back(v@, a as int, b as int) == skip_ws_back(v@, a as int, to as int),
        decreases b - a,
    {
        b = b - 1;
    }
    proof {
        lemma_skip_ws_bounds(v@, from as int, to as int);
        lemma_skip_ws_bounds(v@, a as int, to as int);
    }
    (a, b)
}

/// `c` lower-cased if it is an ASCII capital.
pub open spec fn lower_char(c: char) -> char {
    if 'A' <= c <= 'Z' {
        ((c as u32) + 32) as char
    } else {
        c
    }
}

/// `s` with ASCII capitals lower-cased, as `str::to_ascii_lowercase` does.
pub open spec fn lower_ascii(s: Seq<char>) -> Seq<char> {
    Seq::new(s.len(), |i: int| lower_char(s[i]))
}

/// `char::to_ascii_lowercase`.
pub fn lower(c: char) -> (l: char)
    ensures
        l == lower_char(c),
{
    if 'A' <= c && c <= 'Z' {
        ((c as u32) + 32) as u8 as char
    } else {
        c
    }
}

/// Whether `v[from..to]`, lower-cased, reads `word`.
pub fn lower_eq(v: &[char], from: usize, to: usize, word: &[char]) -> (b: bool)
    requires
        from <= to <= v@.len(),
    ensures
        b == (lower_ascii(v@.subrange(from as int, to as int)) == word@),
{
    if to - from != word.len() {
        proof {
            assert(lower_ascii(v@.subrange(from as int, to as int)).len() != word@.len());
        }
        return false;
    }
    let mut i: usize = 0;
    while i < word.len()
        invariant
            to - from == word@.len(),
            from <= to <= v@.len(),
            i <= word@.len(),
            forall|k: int| 0 <= k < i ==> lower_char(v@[from + k]) == #[trigger] word@[k],
        decreases word@.len() - i,
    {
        if lower(v[from + i]) != word[i] {
            proof {
                assert(lower_ascii(v@.subrange(from as int, to as int))[i as int] != word@[i as int]);
            }
            return false;
        }
        i = i + 1;
    }
    assert(lower_ascii(v@.subrange(from as int, to as int)) =~= word@);
    true
}

/// Whether `v[from..to]` reads exactly `word`.
pub fn chars_eq(v: &[char], from: usize, to: usize, word: &[char]) -> (b: bool)
    requires
        from <= to <= v@.len(),
    ensures
        b == (v@.subrange(from as int, to as int) == word@),
{
    if to - from != word.len() {
        return false;
    }
    let mut i: usize = 0;
    while i < word.len()
        invariant
            to - from == word@.len(),
            from <= to <= v@.len(),
            i <= word@.len(),
            forall|k: int| 0 <= k < i ==> v@[from + k] == #[trigger] word@[k],
        decreases word@.len() - i,
    {
        if v[from + i] != word[i] {
            proof {
                assert(v@.subrange(from as int, to as int)[i as int] != word@[i as int]);
            }
            return false;
        }
        i = i + 1;
    }
    assert(v@.subrange(from as int, to as int) =~= word@);
    true
}

/// The index of the first `c` in `s[from..to]`, if any.
pub open spec fn find_char(s: Seq<char>, from: int, to: int, c: char) -> Option<int>
    decreases to - from,
{
    if from >= to {
        None
    } else if s[from] == c {
        Some(from)
    } else {
        find_char(s, from + 1, to, c)
    }
}

/// The index of the first `c` in `v[from..to]`, if any.
pub fn find(v: &[char], from: usize, to: usize, c: char) -> (r: Option<usize>)
    requires
        from <= to <= v@.len(),
    ensures
        r matches Some(i) ==> find_char(v@, from as int, to as int, c) == Some(i as int),
        r is None ==> find_char(v@, from as int, to as int, c) is None,
        r matches Some(i) ==> from <= i < to,
{
    let mut i: usize = from;
    while i < to
        invariant
            from <= i <= to <= v@.len(),
            find_char(v@, i as int, to as int, c) == find_char(v@, from as int, to as int, c),
        decreases to - i,
    {
        if v[i] == c {
            return Some(i);
        }
        i = i + 1;
    }
    None
}

/// The index of the first whitespace character of `s` at or after `from`, or `to`.
pub open spec fn next_ws(s: Seq<char>, from: int, to: int) -> int
    decreases to - from,
{
    if from >= to {
        to
    } else if is_ws(s[from]) {
        from
    } else {
        next_ws(s, from + 1, to)
    }
}

proof fn lemma_next_ws_bounds(s: Seq<char>, from: int, to: int)
    requires
        from <= to,
    ensures
        from <= next_ws(s, from, to) <= to,
    decreases to - from,
{
    if from < to && !is_ws(s[from]) {
        lemma_next_ws_bounds(s, from + 1, to);
    }
}

/// The bounds of the first whitespace-separated word of `s` at or after `from`, as
/// `str::split_whitespace` yields them, or `None` where only whitespace is left.
pub open spec fn word_at(s: Seq<char>, from: int) -> Option<(int, int)> {
    let a = skip_ws(s, from, s.len() as int);
    if a >= s.len() {
        None
    } else {
        Some((a, next_ws(s, a, s.len() as int)))
    }
}

/// The bounds of the next whitespace-separated word of `v` at or after `from`.
pub fn next_word(v: &[char], from: usize) -> (r: Option<(usize, usize)>)
    requires
        from <= v@.len(),
    ensures
        match r {
            Some((a, b)) => word_at(v@, from as int) == Some((a as int, b as int)) && from <= a < b
                <= v@.len(),
            None => word_at(v@, from as int) is None,
        },
{
    let len = v.len();
    let (a, _) = trim_bounds(v, from, len);
    if a >= len {
        return None;
    }
    let mut b: usize = a;
    while b < len && !is_whitespace(v[b])
        invariant
            a <= b <= len == v@.len(),
            a < len,
            !is_ws(v@[a as int]) || b > a || true,
            next_ws(v@, b as int, len as int) == next_ws(v@, a as int, len as int),
        decreases len - b,
    {
        b = b + 1;
    }
    proof {
        lemma_skip_ws_bounds(v@, from as int, len as int);
        lemma_skip_ws_is_word(v@, from as int, len as int);
    }
    Some((a, b))
}

proof fn lemma_skip_ws_is_word(s: Seq<char>, from: int, to: int)
    requires
        from <= to,
        skip_ws(s, from, to) < to,
    ensures
        !is_ws(s[skip_ws(s, from, to)]),
        next_ws(s, skip_ws(s, from, to), to) > skip_ws(s, from, to),
    decreases to - from,
{
    if is_ws(s[from]) {
        lemma_skip_ws_is_word(s, from + 1, to);
    } else {
        lemma_next_ws_bounds(s, from + 1, to);
    }
}

/// The value of the decimal digits `s[from..to]`.
pub open spec fn digits_value(s: Seq<char>, from: int, to: int) -> nat
    decreases to - from,
{
    if to <= from {
        0
    } else {
        digits_value(s, from, to - 1) * 10 + ((s[to - 1] as u32) - 48) as nat
    }
}

/// Whether every character of `s[from..to]` is an ASCII digit.
pub open spec fn all_digits(s: Seq<char>, from: int, to: int) -> bool {
    forall|i: int| from <= i < to ==> '0' <= #[trigger] s[i] <= '9'
}

/// The number `str::parse` reads from `s[from..to]` for an unsigned type: an optional `+`, then
/// at least one ASCII digit and nothing else.
pub open spec fn parse_unsigned(s: Seq<char>, from: int, to: int) -> Option<nat> {
    let start = if from < to && s[from] == '+' {
        from + 1
    } else {
        from
    };
    if start < to && all_digits(s, start, to) {
        Some(digits_value(s, start, to))
    } else {
        None
    }
}

/// `str::parse::<u64>` on `v[from..to]`: the number, or `None` where the text is not a number or
/// the number does not fit.
pub fn parse_u64(v: &[char], from: usize, to: usize) -> (r: Option<u64>)
    requires
        from <= to <= v@.len(),
    ensures
        r == (match parse_unsigned(v@, from as int, to as int) {
            Some(n) => if n <= u64::MAX {
                Some(n as u64)
            } else {
                None
            },
            None => None,
        }),
{
    let start: usize = if from < to && v[from] == '+' {
        from + 1
    } else {
        from
    };
    if start >= to {
        return None;
    }
    let mut value: u64 = 0;
    let mut i: usize = start;
    let mut overflow = false;
    while i < to
        invariant
            start <= i <= to <= v@.len(),
            start == (if from < to && v@[from as int] == '+' {
                from + 1
            } else {
                from as int
            }),
            all_digits(v@, start as int, i as int),
            !overflow ==> value == digits_value(v@, start as int, i as int),
            overflow ==> digits_value(v@, start as int, i as int) > u64::MAX,
        decreases to - i,
    {
        let c = v[i];
        if c < '0' || c > '9' {
            proof {
                assert(!all_digits(v@, start as int, to as int));
            }
            return None;
        }
        let d = (c as u32 - 48) as u64;
        proof {
            lemma_digits_grow(v@, start as int, i as int);
        }
        if overflow || value > (u64::MAX - d) / 10 {
            overflow = true;
        } else {
            value = value * 10 + d;
        }
        i = i + 1;
    }
    if overflow {
        None
    } else {
        Some(value)
    }
}

proof fn lemma_digits_grow(s: Seq<char>, from: int, i: int)
    requires
        from <= i < s.len(),
        '0' <= s[i] <= '9',
    ensures
        digits_value(s, from, i + 1) >= digits_value(s, from, i) * 10,
        digits_value(s, from, i + 1) == digits_value(s, from, i) * 10 + (s[i] as u32 - 48),
{
}

/// The decimal digits of `n`, most significant first, with no leading zeros.
pub open spec fn decimal(n: nat) -> Seq<char>
    decreases n,
{
    if n < 10 {
        seq![((n + 48) as u8) as char]
    } else {
        decimal(n / 10).push((((n % 10) + 48) as u8) as char)
    }
}

/// Appends the decimal digits of `n` to `s`, as `format!("{n}")` writes them.
pub fn push_decimal(s: &mut String, n: u64)
    ensures
        final(s)@ == old(s)@ + decimal(n as nat),
    decreases n,
{
    if n >= 10 {
        push_decimal(s, n / 10);
    }
    push_char(s, ((n % 10) as u8 + 48) as char);
    proof {
        if n >= 10 {
            assert(old(s)@ + decimal(n as nat) =~= (old(s)@ + decimal((n / 10) as nat)).push(
                (((n % 10) + 48) as u8) as char,
            ));
        } else {
            assert(old(s)@ + decimal(n as nat) =~= old(s)@.push(((n + 48) as u8) as char));
        }
    }
}

/// The index just past the last character of `s[from..to]` that is not `c`, or `from`.
pub open spec fn drop_trailing(s: Seq<char>, from: int, to: int, c: char) -> int
    decreases to - from,
{
    if to <= from {
        from
    } else if s[to - 1] == c {
        drop_trailing(s, from, to - 1, c)
    } else {
        to
    }
}

/// The index of the first character of `s[from..to]` that is not `c`, or `to`.
pub open spec fn drop_leading(s: Seq<char>, from: int, to: int, c: char) -> int
    decreases to - from,
{
    if from >= to {
        to
    } else if s[from] == c {
        drop_leading(s, from + 1, to, c)
    } else {
        from
    }
}

pub proof fn lemma_drop_bounds(s: Seq<char>, from: int, to: int, c: char)
    requires
        from <= to,
    ensures
        from <= drop_trailing(s, from, to, c) <= to,
        from <= drop_leading(s, from, to, c) <= to,
    decreases to - from,
{
    if from < to {
        lemma_drop_bounds(s, from, to - 1, c);
        lemma_drop_bounds(s, from + 1, to, c);
    }
}

/// `s` trimmed of whitespace at both ends, then of every trailing `c`: `s.trim().trim_end_matches(c)`.
pub open spec fn trim_then_strip_end(s: Seq<char>, c: char) -> Seq<char> {
    let a = skip_ws(s, 0, s.len() as int);
    let b = skip_ws_back(s, a, s.len() as int);
    s.subrange(a, drop_trailing(s, a, b, c))
}

/// `s.trim().trim_end_matches(c)` as a new string.
pub fn trim_strip_end(s: &str, c: char) -> (r: String)
    ensures
        r@ == trim_then_strip_end(s@, c),
{
    let v = chars_of(s);
    let (a, b) = trim_bounds(v.as_slice(), 0, v.len());
    let mut e: usize = b;
    while e > a && v[e - 1] == c
        invariant
            a <= e <= b <= v@.len(),
            drop_trailing(v@, a as int, e as int, c) == drop_trailing(v@, a as int, b as int, c),
        decreases e - a,
    {
        e = e - 1;
    }
    string_of(v.as_slice(), a, e)
}

/// `s` with every leading and trailing `c` removed: `s.trim_matches(c)`.
pub open spec fn strip_both(s: Seq<char>, c: char) -> Seq<char> {
    let a = drop_leading(s, 0, s.len() as int, c);
    s.subrange(a, drop_trailing(s, a, s.len() as int, c))
}

/// `v.trim_matches(c)` as bounds into `v`.
pub fn strip_bounds(v: &[char], c: char) -> (r: (usize, usize))
    ensures
        r.0 <= r.1 <= v@.len(),
        v@.subrange(r.0 as int, r.1 as int) == strip_both(v@, c),
{
    let len = v.len();
    let mut a: usize = 0;
    while a < len && v[a] == c
        invariant
            a <= len == v@.len(),
            drop_leading(v@, a as int, len as int, c) == drop_leading(v@, 0, len as int, c),
        decreases len - a,
    {
        a = a + 1;
    }
    let mut e: usize = len;
    while e > a && v[e - 1] == c
        invariant
            a <= e <= len == v@.len(),
            drop_trailing(v@, a as int, e as int, c) == drop_trailing(v@, a as int, len as int, c),
        decreases e - a,
    {
        e = e - 1;
    }
    proof {
        lemma_drop_bounds(v@, 0, len as int, c);
    }
    (a, e)
}

/// Whether `s` is empty or all whitespace, so that trimming leaves nothing.
pub open spec fn blank(s: Seq<char>) -> bool {
    trim_spec(s, 0, s.len() as int).len() == 0
}

/// `s.trim()` as a new string.
pub fn trimmed(s: &str) -> (r: String)
    ensures
        r@ == trim_spec(s@, 0, s@.len() as int),
{
    let v = chars_of(s);
    let (a, b) = trim_bounds(v.as_slice(), 0, v.len());
    string_of(v.as_slice(), a, b)
}

/// The characters of a string literal, for comparing against.
pub fn word(s: &str) -> (v: Vec<char>)
    ensures
        v@ == s@,
{
    chars_of(s)
}

/// Whether the characters `v` are exactly the word `w`.
pub fn is_word(v: &Vec<char>, w: &str) -> (b: bool)
    ensures
        b == (v@ == w@),
{
    let target = word(w);
    proof {
        assert(v@.subrange(0, v@.len() as int) =~= v@);
    }
    chars_eq(v.as_slice(), 0, v.len(), target.as_slice())
}

/// The decimal digits of a number are ASCII digits, at least one, and read back as the number.
pub proof fn lemma_decimal_reads_back(n: nat)
    ensures
        decimal(n).len() >= 1,
        all_digits(decimal(n), 0, decimal(n).len() as int),
        digits_value(decimal(n), 0, decimal(n).len() as int) == n,
    decreases n,
{
    if n >= 10 {
        lemma_decimal_reads_back(n / 10);
        let s = decimal(n / 10);
        let c = (((n % 10) + 48) as u8) as char;
        lemma_digits_prefix(s, c, s.len() as int);
        let t = s.push(c);
        assert(decimal(n) == t);
        assert((c as u32) - 48 == n % 10);
        assert(t[s.len() as int] == c);
        assert(digits_value(t, 0, t.len() as int) == digits_value(t, 0, s.len() as int) * 10 + ((
        t[s.len() as int] as u32) - 48) as nat);
        assert((n / 10) * 10 + n % 10 == n);
        assert forall|i: int| 0 <= i < t.len() implies '0' <= #[trigger] t[i] <= '9' by {
            if i < s.len() {
                assert(t[i] == s[i]);
            }
        }
    } else {
        let c = ((n + 48) as u8) as char;
        let t = seq![c];
        assert(decimal(n) == t);
        assert((c as u32) - 48 == n);
        assert(digits_value(t, 0, 1) == digits_value(t, 0, 0) * 10 + ((t[0] as u32) - 48) as nat);
    }
}

/// The value of the digits before `to` does not change when a character is appended.
proof fn lemma_digits_prefix(s: Seq<char>, c: char, to: int)
    requires
        0 <= to <= s.len(),
    ensures
        digits_value(s.push(c), 0, to) == digits_value(s, 0, to),
    decreases to,
{
    if to > 0 {
        lemma_digits_prefix(s, c, to - 1);
        assert(s.push(c)[to - 1] == s[to - 1]);
    }
}

/// The value of the digits `s[from..to]` is that of the same digits on their own.
pub proof fn lemma_digits_shift(s: Seq<char>, from: int, to: int)
    requires
        0 <= from <= to <= s.len(),
    ensures
        digits_value(s, from, to) == digits_value(s.subrange(from, to), 0, to - from),
    decreases to - from,
{
    if to > from {
        lemma_digits_shift(s, from, to - 1);
        let t = s.subrange(from, to);
        assert(s.subrange(from, to - 1) == t.subrange(0, to - 1 - from));
        lemma_digits_shift(t, 0, to - 1 - from);
        assert(t.subrange(0, to - 1 - from).len() == to - 1 - from);
        lemma_digits_same(t, to - 1 - from);
    }
}

/// The value of the first `k` digits of `t` is that of `t.subrange(0, k)`.
proof fn lemma_digits_same(t: Seq<char>, k: int)
    requires
        0 <= k <= t.len(),
    ensures
        digits_value(t, 0, k) == digits_value(t.subrange(0, k), 0, k),
    decreases k,
{
    if k > 0 {
        lemma_digits_same(t, k - 1);
        lemma_digits_same(t.subrange(0, k), k - 1);
        assert(t.subrange(0, k).subrange(0, k - 1) == t.subrange(0, k - 1));
    }
}

/// Where a run of characters that are not whitespace ends at `end`, by whitespace or by `to`, the
/// next whitespace from inside the run is at `end`.
pub proof fn lemma_next_ws_run(s: Seq<char>, from: int, end: int, to: int)
    requires
        0 <= from <= end <= to <= s.len(),
        forall|i: int| from <= i < end ==> !is_ws(#[trigger] s[i]),
        end == to || is_ws(s[end]),
    ensures
        next_ws(s, from, to) == end,
    decreases end - from,
{
    if from < end {
        lemma_next_ws_run(s, from + 1, end, to);
    }
}

} // verus!
