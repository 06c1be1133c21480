//! The "no games" list: normalising the rules, keeping them on disk, and remembering what was
//! closed.
//!
//! Blocking must keep working after the Console disconnects and after a reboot with no network, so
//! the rules live on disk, one per line, and a background thread of the program enforces them.

use crate::text::{
    chars_of, is_ws, lemma_skip_ws_bounds, lower, lower_ascii, lower_char, skip_ws, skip_ws_back,
    string_of, trim_bounds, trim_spec,
};
use vstd::prelude::*;
use vstd::string::StringExecFns;

verus! {

/// Most recently closed names remembered for reporting, so the list cannot grow without bound if
/// a Console never reads it.
pub const CLOSED_MEMORY: usize = 64;

/// A rule as it is kept: the entry trimmed and lower-cased.
pub open spec fn rule_of(entry: Seq<char>) -> Seq<char> {
    lower_ascii(trim_spec(entry, 0, entry.len() as int))
}

/// The rules kept from `entries` in order, and whether the cap was reached: each entry trimmed and
/// lower-cased, blanks and repeats dropped, and the rest of the list ignored once `max` rules
/// are kept.
pub open spec fn clean_fold(entries: Seq<String>, max: nat) -> (Seq<Seq<char>>, bool)
    decreases entries.len(),
{
    if entries.len() == 0 {
        (Seq::empty(), false)
    } else {
        let (out, done) = clean_fold(entries.drop_last(), max);
        if done {
            (out, done)
        } else {
            let name = rule_of(entries.last()@);
            let out2 = if name.len() > 0 && !out.contains(name) {
                out.push(name)
            } else {
                out
            };
            (out2, out2.len() == max)
        }
    }
}

/// The views of a list of strings.
pub open spec fn views(s: Seq<String>) -> Seq<Seq<char>> {
    Seq::new(s.len(), |i: int| s[i]@)
}

fn lowered(s: &String) -> (r: String)
    ensures
        r@ == rule_of(s@),
{
    let v = chars_of(s.as_str());
    let (a, b) = trim_bounds(v.as_slice(), 0, v.len());
    let mut l: Vec<char> = Vec::new();
    let mut k: usize = a;
    while k < b
        invariant
            a <= k <= b <= v@.len(),
            l@ == lower_ascii(v@.subrange(a as int, k as int)),
        decreases b - k,
    {
        l.push(lower(v[k]));
        proof {
            assert(l@ =~= lower_ascii(v@.subrange(a as int, k + 1)));
        }
        k = k + 1;
    }
    string_of(l.as_slice(), 0, l.len())
}

fn contains_str(list: &Vec<String>, s: &String) -> (b: bool)
    ensures
        b == views(list@).contains(s@),
{
    let mut i: usize = 0;
    while i < list.len()
        invariant
            i <= list@.len(),
            forall|k: int| 0 <= k < i ==> list@[k]@ != s@,
        decreases list@.len() - i,
    {
        if list[i] == *s {
            proof {
                assert(views(list@)[i as int] == s@);
            }
            return true;
        }
        i = i + 1;
    }
    proof {
        if views(list@).contains(s@) {
            let k = choose|k: int| 0 <= k < views(list@).len() && views(list@)[k] == s@;
            assert(list@[k]@ == s@);
        }
    }
    false
}

proof fn lemma_done_stays(entries: Seq<String>, max: nat, i: int, j: int)
    requires
        0 <= i <= j <= entries.len(),
        clean_fold(entries.take(i), max).1,
    ensures
        clean_fold(entries.take(j), max) == clean_fold(entries.take(i), max),
    decreases j - i,
{
    if j > i {
        lemma_done_stays(entries, max, i, j - 1);
        assert(entries.take(j).drop_last() =~= entries.take(j - 1));
    }
}

/// Normalises a rule list: trims, lower-cases, drops blanks and duplicates, and keeps at most
/// `max` rules.
pub fn clean(programs: Vec<String>, max: usize) -> (out: Vec<String>)
    ensures
        views(out@) == clean_fold(programs@, max as nat).0,
        max >= 1 ==> views(out@) == distinct_rules(programs@).take(
            at_most(max as nat, distinct_rules(programs@).len()) as int,
        ),
        max >= 1 ==> out@.len() <= max,
        max >= 1 ==> forall|i: int| 0 <= i < out@.len() ==> (#[trigger] out@[i])@.len() > 0,
        max >= 1 ==> forall|i: int, j: int|
            0 <= i < j < out@.len() ==> (#[trigger] out@[i])@ != (#[trigger] out@[j])@,
        max >= 1 ==> clean_fold(out@, max as nat).0 == views(out@),
{
    let mut out: Vec<String> = Vec::new();
    let mut i: usize = 0;
    let mut done = false;
    while i < programs.len() && !done
        invariant
            i <= programs@.len(),
            (views(out@), done) == clean_fold(programs@.take(i as int), max as nat),
        decreases programs@.len() - i,
    {
        let name = lowered(&programs[i]);
        proof {
            let t = programs@.take(i as int + 1);
            assert(t.drop_last() =~= programs@.take(i as int));
        }
        let keep = chars_of(name.as_str()).len() > 0 && !contains_str(&out, &name);
        let ghost before = out@;
        if keep {
            out.push(name);
            proof {
                assert(views(out@) =~= views(before).push(name@));
            }
        }
        done = out.len() == max;
        i = i + 1;
    }
    proof {
        if done {
            lemma_done_stays(programs@, max as nat, i as int, programs@.len() as int);
        }
        assert(programs@.take(programs@.len() as int) =~= programs@);
        if max >= 1 {
            lemma_clean_keeps_the_first_distinct_rules(programs@, max as nat);
            lemma_clean_is_normal(programs@, max as nat);
            lemma_clean_is_idempotent(programs@, max as nat, out@);
            assert forall|i: int| 0 <= i < out@.len() implies (#[trigger] out@[i])@.len() > 0 by {
                assert(views(out@)[i] == out@[i]@);
            }
            assert forall|i: int, j: int| 0 <= i < j < out@.len() implies (#[trigger] out@[i])@
                != (#[trigger] out@[j])@ by {
                assert(views(out@)[i] == out@[i]@ && views(out@)[j] == out@[j]@);
            }
        }
    }
    out
}

/// A cleaned list holds no blank rule and no rule twice, every rule is trimmed and lower-case, and
/// it never holds more than `max` rules (where `max` is at least one).
pub proof fn lemma_clean_is_normal(entries: Seq<String>, max: nat)
    requires
        max >= 1,
    ensures
        clean_fold(entries, max).0.len() <= max,
        forall|i: int|
            0 <= i < clean_fold(entries, max).0.len() ==> #[trigger] clean_fold(entries, max).0[i].len()
                > 0,
        forall|i: int, j: int|
            0 <= i < j < clean_fold(entries, max).0.len() ==> #[trigger] clean_fold(entries, max).0[i]
                != #[trigger] clean_fold(entries, max).0[j],
        forall|i: int|
            0 <= i < clean_fold(entries, max).0.len() ==> exists|k: int|
                0 <= k < entries.len() && #[trigger] clean_fold(entries, max).0[i] == rule_of(
                    entries[k]@,
                ),
        clean_fold(entries, max).1 ==> clean_fold(entries, max).0.len() == max,
    decreases entries.len(),
{
    if entries.len() > 0 {
        let d = entries.drop_last();
        lemma_clean_is_normal(d, max);
        let (out, done) = clean_fold(d, max);
        assert forall|i: int| 0 <= i < out.len() implies exists|k: int|
            0 <= k < entries.len() && #[trigger] out[i] == rule_of(entries[k]@) by {
            let k = choose|k: int| 0 <= k < d.len() && out[i] == rule_of(d[k]@);
            assert(entries[k] == d[k]);
        }
        if !done {
            let name = rule_of(entries.last()@);
            if name.len() > 0 && !out.contains(name) {
                let o2 = out.push(name);
                assert(o2[out.len() as int] == rule_of(entries[entries.len() - 1]@));
                assert forall|i: int, j: int| 0 <= i < j < o2.len() implies #[trigger] o2[i]
                    != #[trigger] o2[j] by {
                    if j == out.len() {
                        assert(!out.contains(name));
                        assert(o2[i] == out[i]);
                    } else {
                        assert(o2[i] == out[i] && o2[j] == out[j]);
                    }
                }
                assert forall|i: int| 0 <= i < o2.len() implies exists|k: int|
                    0 <= k < entries.len() && #[trigger] o2[i] == rule_of(entries[k]@) by {
                    if i < out.len() {
                        assert(o2[i] == out[i]);
                        let k = choose|k: int| 0 <= k < entries.len() && out[i] == rule_of(entries[k]@);
                    } else {
                        assert(o2[i] == rule_of(entries[entries.len() - 1]@));
                    }
                }
            }
        }
    }
}

/// Every distinct non-blank rule of `entries`, in the order of first occurrence, with no cap.
pub open spec fn distinct_rules(entries: Seq<String>) -> Seq<Seq<char>>
    decreases entries.len(),
{
    if entries.len() == 0 {
        Seq::empty()
    } else {
        let out = distinct_rules(entries.drop_last());
        let name = rule_of(entries.last()@);
        if name.len() > 0 && !out.contains(name) {
            out.push(name)
        } else {
            out
        }
    }
}

/// The smaller of two numbers.
pub open spec fn at_most(a: nat, b: nat) -> nat {
    if a <= b {
        a
    } else {
        b
    }
}

/// Cleaning keeps exactly the first `max` distinct non-blank rules, in the order they first
/// occur (where `max` is at least one), and stops exactly when `max` rules are kept.
pub proof fn lemma_clean_keeps_the_first_distinct_rules(entries: Seq<String>, max: nat)
    requires
        max >= 1,
    ensures
        clean_fold(entries, max).0 == distinct_rules(entries).take(
            at_most(max, distinct_rules(entries).len()) as int,
        ),
        clean_fold(entries, max).1 == (clean_fold(entries, max).0.len() == max),
    decreases entries.len(),
{
    let all = distinct_rules(entries);
    if entries.len() == 0 {
        assert(all.take(0) =~= Seq::<Seq<char>>::empty());
    } else {
        let d = entries.drop_last();
        lemma_clean_keeps_the_first_distinct_rules(d, max);
        lemma_clean_is_normal(d, max);
        let (out, done) = clean_fold(d, max);
        let prev = distinct_rules(d);
        assert(prev.len() <= all.len());
        assert forall|i: int| 0 <= i < prev.len() implies #[trigger] all[i] == prev[i] by {}
        if done {
            assert(all.take(max as int) =~= prev.take(max as int));
        } else {
            assert(prev.take(prev.len() as int) =~= prev);
            assert(all.take(all.len() as int) =~= all);
        }
    }
}

/// Every non-blank entry's rule is among the distinct rules.
pub proof fn lemma_distinct_rules_cover_every_entry(entries: Seq<String>, k: int)
    requires
        0 <= k < entries.len(),
        rule_of(entries[k]@).len() > 0,
    ensures
        distinct_rules(entries).contains(rule_of(entries[k]@)),
    decreases entries.len(),
{
    let d = entries.drop_last();
    let prev = distinct_rules(d);
    let all = distinct_rules(entries);
    if k < entries.len() - 1 {
        lemma_distinct_rules_cover_every_entry(d, k);
        assert(d[k] == entries[k]);
        let j = choose|j: int| 0 <= j < prev.len() && prev[j] == rule_of(entries[k]@);
        assert(all[j] == prev[j]);
    } else {
        let name = rule_of(entries.last()@);
        if !prev.contains(name) {
            assert(all[prev.len() as int] == name);
        } else {
            let j = choose|j: int| 0 <= j < prev.len() && prev[j] == name;
            assert(all[j] == prev[j]);
        }
    }
}

/// Trimming a string that neither starts nor ends with whitespace changes nothing.
proof fn lemma_trim_of_trimmed(z: Seq<char>)
    requires
        z.len() > 0 ==> !is_ws(z[0]) && !is_ws(z[z.len() - 1]),
    ensures
        trim_spec(z, 0, z.len() as int) == z,
{
    if z.len() > 0 {
        assert(skip_ws(z, 0, z.len() as int) == 0);
        assert(skip_ws_back(z, 0, z.len() as int) == z.len());
    }
    assert(z.subrange(0, z.len() as int) =~= z);
}

/// A trimmed string neither starts nor ends with whitespace.
proof fn lemma_trimmed_ends(x: Seq<char>, from: int, to: int)
    requires
        0 <= from <= to <= x.len(),
    ensures
        ({
            let y = trim_spec(x, from, to);
            y.len() > 0 ==> !is_ws(y[0]) && !is_ws(y[y.len() - 1])
        }),
    decreases to - from,
{
    lemma_skip_ws_bounds(x, from, to);
    let a = skip_ws(x, from, to);
    lemma_skip_ws_bounds(x, a, to);
    lemma_skip_ws_first(x, from, to);
    lemma_skip_ws_back_last(x, a, to);
}

proof fn lemma_skip_ws_first(x: Seq<char>, from: int, to: int)
    requires
        0 <= from <= to <= x.len(),
    ensures
        skip_ws(x, from, to) < to ==> !is_ws(x[skip_ws(x, from, to)]),
    decreases to - from,
{
    if from < to && is_ws(x[from]) {
        lemma_skip_ws_first(x, from + 1, to);
    }
}

proof fn lemma_skip_ws_back_last(x: Seq<char>, from: int, to: int)
    requires
        0 <= from <= to <= x.len(),
    ensures
        skip_ws_back(x, from, to) > from ==> !is_ws(x[skip_ws_back(x, from, to) - 1]),
    decreases to - from,
{
    if to > from && is_ws(x[to - 1]) {
        lemma_skip_ws_back_last(x, from, to - 1);
    }
}

/// A rule is already in its kept form: keeping it again changes nothing.
pub proof fn lemma_rule_of_idempotent(x: Seq<char>)
    ensures
        rule_of(rule_of(x)) == rule_of(x),
{
    let y = trim_spec(x, 0, x.len() as int);
    lemma_trimmed_ends(x, 0, x.len() as int);
    let z = lower_ascii(y);
    assert forall|c: char| #[trigger] is_ws(lower_char(c)) == is_ws(c) by {}
    if z.len() > 0 {
        assert(z[0] == lower_char(y[0]));
        assert(z[z.len() - 1] == lower_char(y[y.len() - 1]));
    }
    lemma_trim_of_trimmed(z);
    assert(lower_ascii(z) =~= z);
}

/// Rules survive a restart through their file: cleaning a list that cleaning produced gives the
/// same list back.
pub proof fn lemma_clean_is_idempotent(entries: Seq<String>, max: nat, rules: Seq<String>)
    requires
        max >= 1,
        views(rules) == clean_fold(entries, max).0,
    ensures
        clean_fold(rules, max).0 == views(rules),
{
    lemma_clean_is_normal(entries, max);
    let out = views(rules);
    assert forall|i: int| 0 <= i < out.len() implies rule_of(#[trigger] out[i]) == out[i] by {
        let k = choose|k: int| 0 <= k < entries.len() && out[i] == rule_of(entries[k]@);
        lemma_rule_of_idempotent(entries[k]@);
    }
    lemma_clean_prefix(rules, max, rules.len() as int);
    assert(rules.take(rules.len() as int) =~= rules);
    assert(out.take(out.len() as int) =~= out);
}

proof fn lemma_clean_prefix(rules: Seq<String>, max: nat, k: int)
    requires
        0 <= k <= rules.len(),
        1 <= max,
        rules.len() <= max,
        forall|i: int| 0 <= i < rules.len() ==> #[trigger] views(rules)[i].len() > 0,
        forall|i: int, j: int|
            0 <= i < j < rules.len() ==> #[trigger] views(rules)[i] != #[trigger] views(rules)[j],
        forall|i: int| 0 <= i < rules.len() ==> rule_of(#[trigger] views(rules)[i]) == views(rules)[i],
    ensures
        clean_fold(rules.take(k), max) == (views(rules).take(k), k == max),
    decreases k,
{
    let out = views(rules);
    if k > 0 {
        lemma_clean_prefix(rules, max, k - 1);
        let t = rules.take(k);
        assert(t.drop_last() =~= rules.take(k - 1));
        assert(t.last() == rules[k - 1]);
        assert(out[k - 1] == rules[k - 1]@);
        let prev = out.take(k - 1);
        assert(!prev.contains(out[k - 1])) by {
            if prev.contains(out[k - 1]) {
                let j = choose|j: int| 0 <= j < prev.len() && prev[j] == out[k - 1];
                assert(out[j] == out[k - 1]);
            }
        }
        assert(prev.push(out[k - 1]) =~= out.take(k));
    } else {
        assert(rules.take(0) =~= Seq::<String>::empty());
        assert(out.take(0) =~= Seq::<Seq<char>>::empty());
    }
}

/// The pieces of `s` between its newlines: one more than there are newlines.
pub open spec fn split_nl(s: Seq<char>) -> Seq<Seq<char>>
    decreases s.len(),
{
    if s.len() == 0 {
        seq![Seq::empty()]
    } else {
        let r = split_nl(s.drop_last());
        if s.last() == '\n' {
            r.push(Seq::empty())
        } else {
            r.update(r.len() - 1, r.last().push(s.last()))
        }
    }
}

/// A line without the carriage return that ended it, if it had one.
pub open spec fn strip_cr(l: Seq<char>) -> Seq<char> {
    if l.len() > 0 && l.last() == '\r' {
        l.drop_last()
    } else {
        l
    }
}

/// The lines of `s` as `str::lines` gives them: split at each `\n`, a `\r` before it dropped, and
/// no empty line after a final `\n` (so an empty text has no lines).
pub open spec fn lines_spec(s: Seq<char>) -> Seq<Seq<char>> {
    let p = split_nl(s);
    let init = p.drop_last();
    let ended = Seq::new(init.len(), |k: int| strip_cr(init[k]));
    if p.last().len() == 0 {
        ended
    } else {
        ended.push(p.last())
    }
}

proof fn lemma_split_nl_nonempty(s: Seq<char>)
    ensures
        split_nl(s).len() >= 1,
    decreases s.len(),
{
    if s.len() > 0 {
        lemma_split_nl_nonempty(s.drop_last());
    }
}

/// The lines of `text`, as `str::lines` gives them.
pub fn lines_of(text: &str) -> (lines: Vec<String>)
    ensures
        views(lines@) == lines_spec(text@),
{
    let v = chars_of(text);
    let mut lines: Vec<String> = Vec::new();
    let mut start: usize = 0;
    let mut i: usize = 0;
    let ghost mut raw: Seq<Seq<char>> = Seq::empty();
    proof {
        assert(v@.take(0) =~= Seq::<char>::empty());
        assert(v@.subrange(0, 0) =~= Seq::<char>::empty());
        assert(raw.push(v@.subrange(0, 0)) =~= seq![Seq::<char>::empty()]);
    }
    while i < v.len()
        invariant
            start <= i <= v@.len(),
            split_nl(v@.take(i as int)) == raw.push(v@.subrange(start as int, i as int)),
            views(lines@) == Seq::new(raw.len(), |k: int| strip_cr(raw[k])),
        decreases v@.len() - i,
    {
        proof {
            let t = v@.take(i + 1);
            assert(t.drop_last() =~= v@.take(i as int));
            assert(t.last() == v@[i as int]);
        }
        if v[i] == '\n' {
            let end = if i > start && v[i - 1] == '\r' {
                i - 1
            } else {
                i
            };
            let line = string_of(v.as_slice(), start, end);
            let ghost piece = v@.subrange(start as int, i as int);
            let ghost before = lines@;
            lines.push(line);
            proof {
                assert(strip_cr(piece) =~= v@.subrange(start as int, end as int));
                let old_raw = raw;
                raw = raw.push(piece);
                assert(views(lines@) =~= views(before).push(strip_cr(piece)));
                assert forall|k: int| 0 <= k < raw.len() implies views(lines@)[k] == strip_cr(
                    raw[k],
                ) by {
                    if k < old_raw.len() {
                        assert(raw[k] == old_raw[k]);
                        assert(views(lines@)[k] == views(before)[k]);
                    }
                }
                assert(views(lines@) =~= Seq::new(raw.len(), |k: int| strip_cr(raw[k])));
                assert(v@.subrange(i + 1, i + 1) =~= Seq::<char>::empty());
            }
            start = i + 1;
        } else {
            proof {
                assert(v@.subrange(start as int, i + 1) =~= v@.subrange(start as int, i as int).push(
                    v@[i as int],
                ));
            }
        }
        i = i + 1;
    }
    proof {
        assert(v@.take(v@.len() as int) =~= v@);
    }
    if start < v.len() {
        let ghost before = lines@;
        let line = string_of(v.as_slice(), start, v.len());
        lines.push(line);
        proof {
            assert(views(lines@) =~= views(before).push(v@.subrange(start as int, v@.len() as int)));
        }
    }
    proof {
        let p = split_nl(v@);
        assert(p.drop_last() =~= raw);
        assert(views(lines@) =~= lines_spec(v@));
    }
    lines
}

/// The rules kept in a file's `text`: its lines, cleaned to at most `max`.
pub fn rules_from_text(text: &str, max: usize) -> (rules: Vec<String>)
    ensures
        exists|read: Seq<String>|
            views(read) == lines_spec(text@) && views(rules@) == clean_fold(read, max as nat).0,
{
    let lines = lines_of(text);
    let ghost read = lines@;
    clean(lines, max)
}

/// Cleaning looks only at the text of the entries.
proof fn lemma_clean_reads_text(a: Seq<String>, b: Seq<String>, max: nat)
    requires
        views(a) == views(b),
    ensures
        clean_fold(a, max) == clean_fold(b, max),
    decreases a.len(),
{
    assert(a.len() == views(a).len() && b.len() == views(b).len());
    if a.len() > 0 {
        assert(views(a.drop_last()) =~= views(b.drop_last())) by {
            assert forall|i: int| 0 <= i < a.len() - 1 implies views(a.drop_last())[i] == views(
                b.drop_last(),
            )[i] by {
                assert(views(a)[i] == views(b)[i]);
            }
        }
        lemma_clean_reads_text(a.drop_last(), b.drop_last(), max);
        assert(views(a)[a.len() - 1] == views(b)[b.len() - 1]);
    }
}

/// Splitting text that `v` (holding no newline) ends gives the pieces of what comes before it,
/// the last one extended by `v`.
proof fn lemma_split_extends(x: Seq<char>, v: Seq<char>)
    requires
        forall|i: int| 0 <= i < v.len() ==> v[i] != '\n',
    ensures
        split_nl(x + v) == split_nl(x).update(
            split_nl(x).len() - 1,
            split_nl(x).last() + v,
        ),
    decreases v.len(),
{
    lemma_split_nl_nonempty(x);
    if v.len() == 0 {
        assert(x + v =~= x);
        assert(split_nl(x).last() + v =~= split_nl(x).last());
        assert(split_nl(x).update(split_nl(x).len() - 1, split_nl(x).last()) =~= split_nl(x));
    } else {
        let w = v.drop_last();
        lemma_split_extends(x, w);
        assert((x + v).drop_last() =~= x + w);
        assert((x + v).last() == v.last());
        let r = split_nl(x);
        assert((r.last() + w).push(v.last()) =~= r.last() + v);
        assert(split_nl(x + v) =~= r.update(r.len() - 1, r.last() + v));
    }
}

/// Joined lines without newlines split back into themselves.
proof fn lemma_split_joined(lines: Seq<Seq<char>>)
    requires
        lines.len() >= 1,
        forall|k: int, i: int| 0 <= k < lines.len() && 0 <= i < lines[k].len() ==> lines[k][i] != '\n',
    ensures
        split_nl(joined(lines)) == lines,
    decreases lines.len(),
{
    if lines.len() == 1 {
        lemma_split_extends(Seq::empty(), lines[0]);
        assert(Seq::<char>::empty() + lines[0] =~= lines[0]);
        assert(seq![Seq::<char>::empty()].update(0, Seq::<char>::empty() + lines[0]) =~= lines);
    } else {
        let d = lines.drop_last();
        lemma_split_joined(d);
        let a = joined(d) + "\n"@;
        reveal_strlit("\n");
        assert(a.drop_last() =~= joined(d));
        assert(a.last() == '\n');
        lemma_split_extends(a, lines.last());
        assert(split_nl(a) =~= d.push(Seq::empty()));
        assert(joined(lines) =~= a + lines.last());
        assert(Seq::<char>::empty() + lines.last() =~= lines.last());
        assert(d.push(Seq::empty()).update(d.len() as int, Seq::<char>::empty() + lines.last()) =~= lines);
    }
}

/// Rules survive a restart through their file: writing the rules that cleaning kept one per line,
/// reading the lines back and cleaning them again gives the same rules, where no rule holds a
/// newline.
pub proof fn lemma_rules_survive_their_file(entries: Seq<String>, max: nat, rules: Seq<String>, read: Seq<String>)
    requires
        max >= 1,
        views(rules) == clean_fold(entries, max).0,
        forall|k: int, i: int|
            0 <= k < rules.len() && 0 <= i < rules[k]@.len() ==> rules[k]@[i] != '\n',
        views(read) == lines_spec(joined(views(rules))),
    ensures
        clean_fold(read, max).0 == views(rules),
{
    let vs = views(rules);
    lemma_clean_is_normal(entries, max);
    assert forall|k: int| 0 <= k < vs.len() implies strip_cr(#[trigger] vs[k]) == vs[k] && vs[k].len() > 0 by {
        let e = choose|e: int| 0 <= e < entries.len() && vs[k] == rule_of(entries[e]@);
        let x = entries[e]@;
        lemma_trimmed_ends(x, 0, x.len() as int);
        let y = trim_spec(x, 0, x.len() as int);
        assert(vs[k].last() == lower_char(y[y.len() - 1]));
        assert(is_ws(lower_char(y[y.len() - 1])) == is_ws(y[y.len() - 1]));
    }
    if vs.len() == 0 {
        assert(joined(vs) =~= Seq::<char>::empty());
        assert(lines_spec(joined(vs)) =~= vs);
    } else {
        lemma_split_joined(vs);
        assert(lines_spec(joined(vs)) =~= vs);
    }
    lemma_clean_reads_text(read, rules, max);
    lemma_clean_is_idempotent(entries, max, rules);
}

/// What is kept of `closed` names: the newest [`CLOSED_MEMORY`] of them.
pub fn remember_closed(closed: &mut Vec<String>, names: Vec<String>)
    ensures
        views(final(closed)@) == {
            let all = views(old(closed)@) + views(names@);
            if all.len() > CLOSED_MEMORY {
                all.subrange(all.len() - CLOSED_MEMORY, all.len() as int)
            } else {
                all
            }
        },
{
    let ghost start = views(closed@);
    let mut names = names;
    let ghost added = views(names@);
    let mut appended: Vec<String> = Vec::new();
    let mut i: usize = 0;
    let n = names.len();
    while names.len() > 0
        invariant
            i + names@.len() == n,
            n == added.len(),
            views(names@) == added.skip(i as int),
            views(closed@) == start + added.take(i as int),
        decreases names@.len(),
    {
        let ghost old_names = names@;
        let ghost old_closed = closed@;
        let name = names.remove(0);
        proof {
            assert(views(old_names)[0] == added.skip(i as int)[0]);
            assert(name@ == added[i as int]);
            assert(names@ =~= old_names.subrange(1, old_names.len() as int));
            assert forall|j: int| 0 <= j < names@.len() implies #[trigger] views(names@)[j]
                == added.skip(i as int + 1)[j] by {
                assert(names@[j] == old_names[j + 1]);
                assert(views(old_names)[j + 1] == added.skip(i as int)[j + 1]);
            }
            assert(views(names@) =~= added.skip(i as int + 1));
        }
        closed.push(name);
        proof {
            assert(closed@ =~= old_closed.push(name));
            assert(views(closed@) =~= views(old_closed).push(name@));
            assert(added.take(i as int + 1) =~= added.take(i as int).push(added[i as int]));
            assert(views(closed@) =~= start + added.take(i as int + 1));
        }
        i = i + 1;
    }
    assert(added.take(n as int) =~= added);
    let ghost all = views(closed@);
    if closed.len() > CLOSED_MEMORY {
        let overflow = closed.len() - CLOSED_MEMORY;
        let mut rest: Vec<String> = Vec::new();
        std::mem::swap(&mut rest, closed);
        let mut k: usize = 0;
        let len = rest.len();
        while k < len
            invariant
                len == rest@.len(),
                views(rest@) == all,
                overflow <= len,
                k <= len,
                views(closed@) == (if k <= overflow {
                    Seq::empty()
                } else {
                    all.subrange(overflow as int, k as int)
                }),
            decreases len - k,
        {
            if k >= overflow {
                let ghost before = closed@;
                let item = rest[k].clone();
                assert(item@ == all[k as int]);
                closed.push(item);
                proof {
                    assert(closed@ =~= before.push(item));
                    assert(views(closed@) =~= views(before).push(item@));
                    assert(views(closed@) =~= all.subrange(overflow as int, k + 1));
                }
            }
            k = k + 1;
        }
        proof {
            assert(views(closed@) =~= all.subrange(all.len() - CLOSED_MEMORY, all.len() as int));
        }
    }
}

/// The rule file's text: one rule per line.
pub fn rules_text(rules: &Vec<String>) -> (text: String)
    ensures
        text@ == joined(views(rules@)),
{
    let mut text = String::new();
    let mut i: usize = 0;
    while i < rules.len()
        invariant
            i <= rules@.len(),
            text@ == joined(views(rules@).take(i as int)),
        decreases rules@.len() - i,
    {
        proof {
            assert(views(rules@).take(i as int + 1).drop_last() =~= views(rules@).take(i as int));
        }
        if i > 0 {
            text.append("\n");
        }
        text.append(rules[i].as_str());
        i = i + 1;
    }
    assert(views(rules@).take(rules@.len() as int) =~= views(rules@));
    text
}

/// Lines joined by newlines.
pub open spec fn joined(lines: Seq<Seq<char>>) -> Seq<char>
    decreases lines.len(),
{
    if lines.len() == 0 {
        Seq::empty()
    } else if lines.len() == 1 {
        lines[0]
    } else {
        joined(lines.drop_last()) + "\n"@ + lines.last()
    }
}

/// The number of rules in force, as the Console is told it: saturating at `u16::MAX`.
pub fn rule_count(rules: &Vec<String>) -> (n: u16)
    ensures
        n == (if rules@.len() > u16::MAX {
            u16::MAX as nat
        } else {
            rules@.len()
        }),
{
    if rules.len() > u16::MAX as usize {
        u16::MAX
    } else {
        rules.len() as u16
    }
}

} // verus!
