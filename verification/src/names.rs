//! The teacher's own names for PCs, kept in `names.txt` as `id = name`, one per line.
//!
//! The Console writes and reads the file with ` = ` between id and name; the fleet tools read it
//! splitting at the first `=`. Both trim the two parts and drop a line whose id or name is blank; a
//! later line for the same id wins.

use crate::i18n::{insert_pair, keys_unique, lemma_pairs_map_absent, lemma_pairs_map_at, pairs_map};
use crate::text::{chars_of, skip_ws, skip_ws_back, string_of, trim_bounds, trim_spec};
use vstd::prelude::*;

verus! {

/// The index of the first occurrence of `pat` in `t[from..to]`.
pub open spec fn find_sub(t: Seq<char>, from: int, to: int, pat: Seq<char>) -> Option<int>
    decreases to - from,
{
    if from >= to || from + pat.len() > to {
        None
    } else if t.subrange(from, from + pat.len()) == pat {
        Some(from)
    } else {
        find_sub(t, from + 1, to, pat)
    }
}

fn find_pattern(t: &[char], from: usize, to: usize, pat: &[char]) -> (r: Option<usize>)
    requires
        from <= to <= t@.len(),
        pat@.len() > 0,
    ensures
        r matches Some(i) ==> find_sub(t@, from as int, to as int, pat@) == Some(i as int) && from
            <= i && i + pat@.len() <= to,
        r is None ==> find_sub(t@, from as int, to as int, pat@) is None,
{
    let mut i: usize = from;
    while i < to && to - i >= pat.len()
        invariant
            from <= i <= to,
            to <= t@.len(),
            find_sub(t@, i as int, to as int, pat@) == find_sub(t@, from as int, to as int, pat@),
        decreases to + 1 - i,
    {
        if crate::text::chars_eq(t, i, i + pat.len(), pat) {
            return Some(i);
        }
        i = i + 1;
    }
    None
}

/// The end of the line of `t` starting at `pos`: the next newline, or the end.
pub open spec fn eol(t: Seq<char>, pos: int) -> int {
    match crate::text::find_char(t, pos, t.len() as int, '\n') {
        Some(i) => i,
        None => t.len() as int,
    }
}

/// The names from the lines of `t` at or after `pos`, added to `m`: each line holding `sep` gives
/// its trimmed id and name, where neither is blank.
pub open spec fn names_from(m: Map<Seq<char>, Seq<char>>, t: Seq<char>, pos: int, sep: Seq<char>) -> Map<
    Seq<char>,
    Seq<char>,
>
    decreases t.len() - pos,
{
    if pos > t.len() {
        m
    } else {
        let end = eol(t, pos);
        let next = match find_sub(t, pos, end, sep) {
            None => m,
            Some(i) => {
                let id = trim_spec(t, pos, i);
                let name = trim_spec(t, i + sep.len(), end);
                if id.len() > 0 && name.len() > 0 {
                    m.insert(id, name)
                } else {
                    m
                }
            },
        };
        if end >= t.len() || end < pos {
            next
        } else {
            names_from(next, t, end + 1, sep)
        }
    }
}

/// Parses a names file's text, splitting each line at the first `sep`.
pub fn parse_names(text: &str, sep: &str) -> (names: Vec<(String, String)>)
    requires
        sep@.len() > 0,
    ensures
        keys_unique(names@),
        pairs_map(names@) == names_from(Map::empty(), text@, 0, sep@),
{
    let t = chars_of(text);
    let p = chars_of(sep);
    let len = t.len();
    let mut names: Vec<(String, String)> = Vec::new();
    let mut pos: usize = 0;
    let mut done = false;
    while !done
        invariant
            t@ == text@,
            p@ == sep@,
            p@.len() > 0,
            len == t@.len(),
            pos <= len,
            keys_unique(names@),
            done ==> names_from(Map::empty(), t@, 0, p@) == pairs_map(names@),
            !done ==> names_from(Map::empty(), t@, 0, p@) == names_from(
                pairs_map(names@),
                t@,
                pos as int,
                p@,
            ),
        decreases len - pos + if done {
            0int
        } else {
            1int
        },
    {
        let end: usize = match crate::text::find(t.as_slice(), pos, len, '\n') {
            Some(i) => i,
            None => len,
        };
        assert(end as int == eol(t@, pos as int));
        match find_pattern(t.as_slice(), pos, end, p.as_slice()) {
            None => {},
            Some(i) => {
                let (ia, ib) = trim_bounds(t.as_slice(), pos, i);
                let (na, nb) = trim_bounds(t.as_slice(), i + p.len(), end);
                if ia < ib && na < nb {
                    let id = string_of(t.as_slice(), ia, ib);
                    let name = string_of(t.as_slice(), na, nb);
                    insert_pair(&mut names, id, name);
                }
            },
        }
        if end >= len {
            done = true;
        } else {
            pos = end + 1;
        }
    }
    names
}

/// The Console's reading of `names.txt`: ` = ` between id and name.
pub fn parse_console_names(text: &str) -> (names: Vec<(String, String)>)
    ensures
        keys_unique(names@),
        pairs_map(names@) == names_from(Map::empty(), text@, 0, " = "@),
{
    proof {
        reveal_strlit(" = ");
    }
    parse_names(text, " = ")
}

/// The fleet tools' reading of `names.txt`: the first `=` between id and name.
pub fn parse_fleet_names(text: &str) -> (names: Vec<(String, String)>)
    ensures
        keys_unique(names@),
        pairs_map(names@) == names_from(Map::empty(), text@, 0, "="@),
{
    proof {
        reveal_strlit("=");
    }
    parse_names(text, "=")
}

/// One paired device, as the tool server presents it.
#[derive(Debug, Clone, PartialEq, Eq)]
pub struct DeviceInfo {
    /// The six-character device id a teacher (or the assistant) names it by.
    pub device_id: String,
    /// The teacher's own label for the PC, if one was set.
    pub name: Option<String>,
}

/// The device `device_id` with the label `names` gives it, if any.
pub fn device_info(device_id: String, names: &Vec<(String, String)>) -> (d: DeviceInfo)
    requires
        keys_unique(names@),
    ensures
        d.device_id@ == device_id@,
        match d.name {
            Some(n) => pairs_map(names@).contains_key(device_id@) && n@ == pairs_map(names@)[device_id@],
            None => !pairs_map(names@).contains_key(device_id@),
        },
{
    let mut i: usize = 0;
    while i < names.len()
        invariant
            i <= names@.len(),
            keys_unique(names@),
            forall|j: int| 0 <= j < i ==> #[trigger] names@[j].0@ != device_id@,
        decreases names@.len() - i,
    {
        if names[i].0 == device_id {
            proof {
                lemma_pairs_map_at(names@, i as int);
            }
            let name = names[i].1.clone();
            return DeviceInfo { device_id, name: Some(name) };
        }
        i = i + 1;
    }
    proof {
        lemma_pairs_map_absent(names@, device_id@);
    }
    DeviceInfo { device_id, name: None }
}

} // verus!
