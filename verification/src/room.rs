//! The Console's side of a room: its name, and the rules for renaming it and storing it.
//!
//! The room file holds the name on its first line and the password on its second; the program
//! encrypts it before it touches the disk. The password itself never leaves the Console.

use crate::membership::{membership_spec, parse_membership};
use crate::paths::{join, path_join};
use crate::text::{chars_of, decimal, push_decimal, string_of, trim_bounds, trim_spec};
use std::path::{Path, PathBuf};
use vstd::prelude::*;
use vstd::string::StringExecFns;

verus! {

/// The default room name until a teacher renames it.
pub const DEFAULT_NAME: &'static str = "Classroom";

/// Where the room file lives inside the Console's data directory.
pub fn path(dir: &Path) -> (p: PathBuf)
    ensures
        p == path_join(dir, "room.dat"@),
{
    join(dir, "room.dat")
}

/// The number of bytes `c` takes in UTF-8.
pub open spec fn utf8_width(c: char) -> nat {
    let n = c as u32;
    if n < 0x80 {
        1
    } else if n < 0x800 {
        2
    } else if n < 0x10000 {
        3
    } else {
        4
    }
}

/// The number of bytes `s` takes in UTF-8, which is what `str::len` counts.
pub open spec fn utf8_len(s: Seq<char>) -> nat
    decreases s.len(),
{
    if s.len() == 0 {
        0
    } else {
        utf8_len(s.drop_last()) + utf8_width(s.last())
    }
}

/// Whether `c` is a control character (Unicode category Cc), as `char::is_control` tests.
pub open spec fn is_control(c: char) -> bool {
    (c as u32) < 0x20 || (0x7F <= (c as u32) && (c as u32) <= 0x9F)
}

/// What renaming the room to `new_name` gives: the name trimmed, unless it is empty, longer than
/// `max_bytes` bytes of UTF-8, or holds a control character.
pub open spec fn room_name_spec(new_name: Seq<char>, max_bytes: nat) -> Result<Seq<char>, Seq<char>> {
    let name = trim_spec(new_name, 0, new_name.len() as int);
    if name.len() == 0 {
        Err("the room needs a name"@)
    } else if utf8_len(name) > max_bytes {
        Err("the room name may be at most "@ + decimal(max_bytes) + " characters"@)
    } else if exists|i: int| 0 <= i < name.len() && is_control(#[trigger] name[i]) {
        Err("the room name may not contain control characters"@)
    } else {
        Ok(name)
    }
}

/// Checks a new room name and gives it trimmed, or the message that says what is wrong.
pub fn check_room_name(new_name: &str, max_bytes: usize) -> (r: Result<String, String>)
    ensures
        match room_name_spec(new_name@, max_bytes as nat) {
            Ok(n) => r matches Ok(s) && s@ == n,
            Err(m) => r matches Err(s) && s@ == m,
        },
{
    let v = chars_of(new_name);
    let (a, b) = trim_bounds(v.as_slice(), 0, v.len());
    let ghost name = v@.subrange(a as int, b as int);
    if a == b {
        return Err(String::from_str("the room needs a name"));
    }
    let mut bytes: usize = 0;
    let mut i: usize = a;
    let mut too_long = false;
    while i < b
        invariant
            a <= i <= b <= v@.len(),
            name == v@.subrange(a as int, b as int),
            !too_long ==> bytes == utf8_len(v@.subrange(a as int, i as int)) && bytes <= max_bytes,
            too_long ==> utf8_len(v@.subrange(a as int, i as int)) > max_bytes,
        decreases b - i,
    {
        let n = v[i] as u32;
        let w: usize = if n < 0x80 {
            1
        } else if n < 0x800 {
            2
        } else if n < 0x10000 {
            3
        } else {
            4
        };
        proof {
            assert(v@.subrange(a as int, i + 1).drop_last() =~= v@.subrange(a as int, i as int));
        }
        if too_long || w > max_bytes - bytes {
            too_long = true;
        } else {
            bytes = bytes + w;
        }
        i = i + 1;
    }
    if too_long {
        let mut m = String::from_str("the room name may be at most ");
        push_decimal(&mut m, max_bytes as u64);
        m.append(" characters");
        return Err(m);
    }
    let mut k: usize = a;
    while k < b
        invariant
            a <= k <= b <= v@.len(),
            name == v@.subrange(a as int, b as int),
            name == trim_spec(new_name@, 0, new_name@.len() as int),
            name.len() > 0,
            utf8_len(name) <= max_bytes,
            forall|j: int| 0 <= j < k - a ==> !is_control(#[trigger] name[j]),
        decreases b - k,
    {
        let n = v[k] as u32;
        if n < 0x20 || (0x7F <= n && n <= 0x9F) {
            proof {
                let tn = trim_spec(new_name@, 0, new_name@.len() as int);
                assert(tn == name);
                assert(is_control(tn[k - a]));
                assert(exists|i: int| 0 <= i < tn.len() && is_control(#[trigger] tn[i]));
            }
            return Err(String::from_str("the room name may not contain control characters"));
        }
        k = k + 1;
    }
    Ok(string_of(v.as_slice(), a, b))
}

/// The room file's text: the name on the first line, the password on the second.
pub fn room_text(name: &str, password: &str) -> (s: String)
    ensures
        s@ == name@ + "\n"@ + password@,
{
    crate::membership::membership_text(name, password)
}

/// Reads the name and the password from the room file's text: its first two lines, both
/// non-empty, or the message that the file is corrupt.
pub fn parse_room_text(text: &str) -> (r: Result<(String, String), String>)
    ensures
        match membership_spec(text@) {
            Some((name, password)) => r matches Ok((n, p)) && n@ == name && p@ == password,
            None => r matches Err(m) && m@ == "the room file is corrupt"@,
        },
{
    match parse_membership(text) {
        Some(pair) => Ok(pair),
        None => Err(String::from_str("the room file is corrupt")),
    }
}

/// A renamed room survives a restart: a name that renaming accepts, saved with a password of one
/// line, reads back from the room file as the same name and password.
pub proof fn lemma_renamed_room_round_trip(new_name: Seq<char>, max_bytes: nat, password: Seq<char>)
    requires
        room_name_spec(new_name, max_bytes) is Ok,
        password.len() > 0,
        forall|i: int| 0 <= i < password.len() ==> password[i] != '\n',
    ensures
        ({
            let name = room_name_spec(new_name, max_bytes)->Ok_0;
            membership_spec(name + "\n"@ + password) == Some((name, password))
        }),
{
    let name = room_name_spec(new_name, max_bytes)->Ok_0;
    assert forall|i: int| 0 <= i < name.len() implies name[i] != '\n' && name[i] != '\r' by {
        if name[i] == '\n' || name[i] == '\r' {
            assert(is_control(name[i]));
        }
    }
    crate::membership::lemma_membership_round_trip(name, password);
}

} // verus!
