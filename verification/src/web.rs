//! The web dashboard's small decisions: reading command-line flags, the session token in a cookie,
//! a query string or a bearer header, the content type of an asset, which language to show, and
//! the random token a run is protected by. The HTTP server itself lives with the program.

use crate::encoding::{hex, hex_spec};
use crate::supervisor::as_nanos;
use std::time::{Duration, SystemTime, SystemTimeError};
use crate::text::{chars_eq, chars_of, find, find_char, lower, lower_ascii, string_of, trim_bounds, trim_spec, word};
use vstd::prelude::*;
use vstd::string::StringExecFns;

verus! {

/// The index of the first argument equal to `name`.
pub open spec fn first_eq(args: Seq<String>, name: Seq<char>) -> Option<int>
    decreases args.len(),
{
    if args.len() == 0 {
        None
    } else {
        match first_eq(args.drop_last(), name) {
            Some(i) => Some(i),
            None => if args.last()@ == name {
                Some(args.len() - 1)
            } else {
                None
            },
        }
    }
}

proof fn lemma_first_eq_found(args: Seq<String>, name: Seq<char>, i: int)
    requires
        0 <= i < args.len(),
        args[i]@ == name,
        forall|k: int| 0 <= k < i ==> #[trigger] args[k]@ != name,
    ensures
        first_eq(args, name) == Some(i),
    decreases args.len(),
{
    if i < args.len() - 1 {
        lemma_first_eq_found(args.drop_last(), name, i);
    } else {
        lemma_first_eq_none(args.drop_last(), name);
    }
}

proof fn lemma_first_eq_none(args: Seq<String>, name: Seq<char>)
    requires
        forall|k: int| 0 <= k < args.len() ==> #[trigger] args[k]@ != name,
    ensures
        first_eq(args, name) is None,
    decreases args.len(),
{
    if args.len() > 0 {
        lemma_first_eq_none(args.drop_last(), name);
    }
}

/// The value after the first `--flag` named `name`, if there is one after it.
pub fn flag(args: &[String], name: &str) -> (v: Option<String>)
    ensures
        match first_eq(args@, name@) {
            Some(i) => if i + 1 < args@.len() {
                v matches Some(s) && s@ == args@[i + 1]@
            } else {
                v is None
            },
            None => v is None,
        },
{
    let wanted = String::from_str(name);
    let mut i: usize = 0;
    while i < args.len()
        invariant
            i <= args@.len(),
            wanted@ == name@,
            forall|k: int| 0 <= k < i ==> #[trigger] args@[k]@ != name@,
        decreases args@.len() - i,
    {
        if args[i] == wanted {
            proof {
                lemma_first_eq_found(args@, name@, i as int);
            }
            if i + 1 < args.len() {
                return Some(args[i + 1].clone());
            }
            return None;
        }
        i = i + 1;
    }
    proof {
        lemma_first_eq_none(args@, name@);
    }
    None
}

/// The index of the last `c` in `s[0..to]`.
pub open spec fn last_char(s: Seq<char>, to: int, c: char) -> Option<int>
    decreases to,
{
    if to <= 0 {
        None
    } else if s[to - 1] == c {
        Some(to - 1)
    } else {
        last_char(s, to - 1, c)
    }
}

/// The extension of a path: what follows its last `.`, or the whole path where there is none.
pub open spec fn extension(path: Seq<char>) -> Seq<char> {
    match last_char(path, path.len() as int, '.') {
        Some(i) => path.subrange(i + 1, path.len() as int),
        None => path,
    }
}

/// The content type for an extension.
pub open spec fn mime_spec(ext: Seq<char>) -> Seq<char> {
    if ext == "html"@ {
        "text/html; charset=utf-8"@
    } else if ext == "js"@ || ext == "mjs"@ {
        "text/javascript; charset=utf-8"@
    } else if ext == "css"@ {
        "text/css; charset=utf-8"@
    } else if ext == "json"@ {
        "application/json"@
    } else if ext == "svg"@ {
        "image/svg+xml"@
    } else if ext == "png"@ {
        "image/png"@
    } else if ext == "jpg"@ || ext == "jpeg"@ {
        "image/jpeg"@
    } else if ext == "ico"@ {
        "image/x-icon"@
    } else if ext == "woff2"@ {
        "font/woff2"@
    } else if ext == "woff"@ {
        "font/woff"@
    } else {
        "application/octet-stream"@
    }
}

fn is(v: &Vec<char>, a: usize, w: &str) -> (b: bool)
    requires
        a <= v@.len(),
    ensures
        b == (v@.subrange(a as int, v@.len() as int) == w@),
{
    let t = word(w);
    chars_eq(v.as_slice(), a, v.len(), t.as_slice())
}

/// The content type of an embedded asset, guessed from its extension.
pub fn mime_for(path: &str) -> (m: &'static str)
    ensures
        m@ == mime_spec(extension(path@)),
{
    let v = chars_of(path);
    let mut i: usize = v.len();
    while i > 0 && v[i - 1] != '.'
        invariant
            i <= v@.len(),
            last_char(v@, i as int, '.') == last_char(v@, v@.len() as int, '.'),
        decreases i,
    {
        i = i - 1;
    }
    let a: usize = if i > 0 {
        i
    } else {
        0
    };
    proof {
        assert(v@.subrange(0, v@.len() as int) =~= v@);
    }
    if is(&v, a, "html") {
        "text/html; charset=utf-8"
    } else if is(&v, a, "js") || is(&v, a, "mjs") {
        "text/javascript; charset=utf-8"
    } else if is(&v, a, "css") {
        "text/css; charset=utf-8"
    } else if is(&v, a, "json") {
        "application/json"
    } else if is(&v, a, "svg") {
        "image/svg+xml"
    } else if is(&v, a, "png") {
        "image/png"
    } else if is(&v, a, "jpg") || is(&v, a, "jpeg") {
        "image/jpeg"
    } else if is(&v, a, "ico") {
        "image/x-icon"
    } else if is(&v, a, "woff2") {
        "font/woff2"
    } else if is(&v, a, "woff") {
        "font/woff"
    } else {
        "application/octet-stream"
    }
}

/// The end of the piece of `t` starting at `pos`: the next `sep`, or the end.
pub open spec fn piece_end(t: Seq<char>, pos: int, sep: char) -> int {
    match find_char(t, pos, t.len() as int, sep) {
        Some(i) => i,
        None => t.len() as int,
    }
}

/// The `cw_token` cookie among the `;`-separated pieces of `t` from `pos` on: the first piece
/// that, trimmed, reads `cw_token=value`, gives the value.
pub open spec fn cookie_from(t: Seq<char>, pos: int) -> Option<Seq<char>>
    decreases t.len() - pos,
{
    if pos > t.len() {
        None
    } else {
        let end = piece_end(t, pos, ';');
        let a = crate::text::skip_ws(t, pos, end);
        let b = crate::text::skip_ws_back(t, a, end);
        let found = match find_char(t, a, b, '=') {
            Some(e) => if t.subrange(a, e) == "cw_token"@ {
                Some(t.subrange(e + 1, b))
            } else {
                None
            },
            None => None,
        };
        if found is Some {
            found
        } else if end >= t.len() || end < pos {
            None
        } else {
            cookie_from(t, end + 1)
        }
    }
}

/// Reads the `cw_token` value out of a Cookie header.
pub fn cookie_token(cookies: &str) -> (r: Option<String>)
    ensures
        match cookie_from(cookies@, 0) {
            Some(v) => r matches Some(s) && s@ == v,
            None => r is None,
        },
{
    let t = chars_of(cookies);
    let key = word("cw_token");
    let len = t.len();
    let mut pos: usize = 0;
    loop
        invariant
            t@ == cookies@,
            key@ == "cw_token"@,
            len == t@.len(),
            pos <= len,
            cookie_from(t@, 0) == cookie_from(t@, pos as int),
        decreases len - pos,
    {
        let end: usize = match find(t.as_slice(), pos, len, ';') {
            Some(i) => i,
            None => len,
        };
        let (a, b) = trim_bounds(t.as_slice(), pos, end);
        if let Some(e) = find(t.as_slice(), a, b, '=') {
            if chars_eq(t.as_slice(), a, e, key.as_slice()) {
                return Some(string_of(t.as_slice(), e + 1, b));
            }
        }
        if end >= len {
            return None;
        }
        pos = end + 1;
    }
}

/// The token in a query string: the first `&`-separated piece that starts `token=` gives the rest.
pub open spec fn query_from(t: Seq<char>, pos: int) -> Option<Seq<char>>
    decreases t.len() - pos,
{
    if pos > t.len() {
        None
    } else {
        let end = piece_end(t, pos, '&');
        if end - pos >= 6 && t.subrange(pos, pos + 6) == "token="@ {
            Some(t.subrange(pos + 6, end))
        } else if end >= t.len() || end < pos {
            None
        } else {
            query_from(t, end + 1)
        }
    }
}

/// Reads the `token` parameter out of a query string.
pub fn query_token(query: &str) -> (r: Option<String>)
    ensures
        match query_from(query@, 0) {
            Some(v) => r matches Some(s) && s@ == v,
            None => r is None,
        },
{
    let t = chars_of(query);
    let prefix = word("token=");
    let len = t.len();
    let mut pos: usize = 0;
    proof {
        reveal_strlit("token=");
    }
    loop
        invariant
            t@ == query@,
            prefix@ == "token="@,
            prefix@.len() == 6,
            len == t@.len(),
            pos <= len,
            query_from(t@, 0) == query_from(t@, pos as int),
        decreases len - pos,
    {
        let end: usize = match find(t.as_slice(), pos, len, '&') {
            Some(i) => i,
            None => len,
        };
        if end - pos >= 6 && chars_eq(t.as_slice(), pos, pos + 6, prefix.as_slice()) {
            return Some(string_of(t.as_slice(), pos + 6, end));
        }
        if end >= len {
            return None;
        }
        pos = end + 1;
    }
}

/// What a bearer header carries: what follows `Bearer `, if it starts so.
pub open spec fn bearer(auth: Seq<char>) -> Option<Seq<char>> {
    if auth.len() >= 7 && auth.subrange(0, 7) == "Bearer "@ {
        Some(auth.subrange(7, auth.len() as int))
    } else {
        None
    }
}

/// Whether a request carries this run's token: as the `token` query parameter, as a bearer header,
/// or in the `cw_token` cookie.
pub fn authorized(token: &str, query_token: Option<&str>, authorization: Option<&str>, cookie: Option<&str>) -> (ok: bool)
    ensures
        ok == ((query_token matches Some(q) && q@ == token@) || (authorization matches Some(a)
            && bearer(a@) == Some(token@)) || (cookie matches Some(c) && cookie_from(c@, 0) == Some(
            token@,
        ))),
{
    let tv = chars_of(token);
    proof {
        assert(tv@.subrange(0, tv@.len() as int) =~= tv@);
    }
    if let Some(q) = query_token {
        let qv = chars_of(q);
        proof {
            assert(qv@.subrange(0, qv@.len() as int) =~= qv@);
        }
        if chars_eq(qv.as_slice(), 0, qv.len(), tv.as_slice()) {
            return true;
        }
    }
    if let Some(a) = authorization {
        let av = chars_of(a);
        let b = word("Bearer ");
        proof {
            reveal_strlit("Bearer ");
        }
        if av.len() >= 7 && chars_eq(av.as_slice(), 0, 7, b.as_slice()) && chars_eq(
            av.as_slice(),
            7,
            av.len(),
            tv.as_slice(),
        ) {
            return true;
        }
    }
    if let Some(c) = cookie {
        if let Some(v) = cookie_token(c) {
            let vv = chars_of(v.as_str());
            proof {
                assert(vv@.subrange(0, vv@.len() as int) =~= vv@);
            }
            return chars_eq(vv.as_slice(), 0, vv.len(), tv.as_slice());
        }
    }
    false
}

/// `getrandom::fill`: fills the buffer with operating-system randomness, or reports that none was
/// available. What the bytes are is chance, so nothing is stated of them but their number.
#[verifier::external_body]
fn fill_random(buf: &mut Vec<u8>) -> (ok: bool)
    ensures
        final(buf)@.len() == old(buf)@.len(),
{
    getrandom::fill(buf.as_mut_slice()).is_ok()
}

#[verifier::external_type_specification]
#[verifier::external_body]
pub struct ExSystemTime(SystemTime);

#[verifier::external_type_specification]
#[verifier::external_body]
pub struct ExSystemTimeError(SystemTimeError);

/// `SystemTime::now`: the clock's reading. It depends on the clock, so nothing is stated of it.
#[verifier::external_body]
fn system_now() -> SystemTime {
    SystemTime::now()
}

/// `SystemTime::duration_since` the Unix epoch: how long after the epoch `t` is, or an error where
/// it is before. Nothing is stated of the duration.
#[verifier::external_body]
fn since_epoch(t: &SystemTime) -> Result<Duration, SystemTimeError> {
    t.duration_since(std::time::UNIX_EPOCH)
}

/// The time since the Unix epoch in nanoseconds, or zero where the clock is before it.
fn clock_nanos() -> u128 {
    match since_epoch(&system_now()) {
        Ok(d) => as_nanos(&d),
        Err(_) => 0,
    }
}

/// The byte at `i` of the stand-in for randomness: a byte of the clock reading mixed with its
/// index.
pub open spec fn fallback_byte(seed: u128, i: nat) -> u8 {
    ((seed >> (((i % 16) * 8) as u32)) as u8) ^ (((i * 31) % 256) as u8)
}

/// The stand-in for randomness where the system has none: 24 bytes of the clock reading `seed`
/// mixed with their index.
pub fn fallback_bytes(seed: u128) -> (bytes: Vec<u8>)
    ensures
        bytes@.len() == 24,
        forall|i: int| 0 <= i < 24 ==> #[trigger] bytes@[i] == fallback_byte(seed, i as nat),
{
    let mut bytes: Vec<u8> = Vec::new();
    let mut k: usize = 0;
    while k < 24
        invariant
            k <= 24,
            bytes@.len() == k,
            forall|i: int| 0 <= i < k ==> #[trigger] bytes@[i] == fallback_byte(seed, i as nat),
        decreases 24 - k,
    {
        let shift: u32 = ((k % 16) * 8) as u32;
        let idx: u8 = k as u8;
        let mixed: u8 = (seed >> shift) as u8 ^ idx.wrapping_mul(31);
        proof {
            assert(shift == ((k as nat % 16) * 8) as u32);
            assert(idx.wrapping_mul(31) == ((k as nat * 31) % 256) as u8);
        }
        bytes.push(mixed);
        k = k + 1;
    }
    bytes
}

/// A random token for this run: 24 bytes of operating-system randomness as lowercase hex, or,
/// where the system has none, bytes of the clock reading instead.
pub fn gen_token() -> (token: String)
    ensures
        exists|bytes: Seq<u8>| bytes.len() == 24 && token@ == hex_spec(bytes),
{
    let mut bytes: Vec<u8> = Vec::new();
    let mut i: usize = 0;
    while i < 24
        invariant
            i <= 24,
            bytes@.len() == i,
        decreases 24 - i,
    {
        bytes.push(0u8);
        i = i + 1;
    }
    if !fill_random(&mut bytes) {
        bytes = fallback_bytes(clock_nanos());
    }
    let token = hex(bytes.as_slice());
    token
}

/// The language to show: the one asked for, else the one saved, where a catalog has that code;
/// else the system's, by the part of its tag before `-` or `_`, lower-cased; else English.
pub open spec fn language_spec(
    codes: Seq<Seq<char>>,
    asked: Option<Seq<char>>,
    saved: Option<Seq<char>>,
    system: Seq<char>,
) -> Seq<char> {
    let first = match asked {
        Some(c) => Some(c),
        None => saved,
    };
    let sys = lower_ascii(system.subrange(0, system_tag_end(system, 0)));
    match first {
        Some(c) => if codes.contains(c) {
            c
        } else if codes.contains(sys) {
            sys
        } else {
            "en"@
        },
        None => if codes.contains(sys) {
            sys
        } else {
            "en"@
        },
    }
}

/// The end of the first part of a language tag: its first `-` or `_`, or its end.
pub open spec fn system_tag_end(s: Seq<char>, from: int) -> int
    decreases s.len() - from,
{
    if from >= s.len() {
        s.len() as int
    } else if s[from] == '-' || s[from] == '_' {
        from
    } else {
        system_tag_end(s, from + 1)
    }
}

fn has_code(codes: &[String], c: &Vec<char>) -> (b: bool)
    ensures
        b == Seq::new(codes@.len(), |i: int| codes@[i]@).contains(c@),
{
    let ghost all = Seq::new(codes@.len(), |i: int| codes@[i]@);
    let mut i: usize = 0;
    while i < codes.len()
        invariant
            i <= codes@.len(),
            all == Seq::new(codes@.len(), |i: int| codes@[i]@),
            forall|k: int| 0 <= k < i ==> all[k] != c@,
        decreases codes@.len() - i,
    {
        let v = chars_of(codes[i].as_str());
        proof {
            assert(v@.subrange(0, v@.len() as int) =~= v@);
        }
        if chars_eq(v.as_slice(), 0, v.len(), c.as_slice()) {
            proof {
                assert(all[i as int] == c@);
            }
            return true;
        }
        i = i + 1;
    }
    false
}

/// Chooses the language to show among the catalogs' `codes`.
pub fn choose_language(codes: &[String], asked: Option<&str>, saved: Option<&str>, system: &str) -> (code: String)
    ensures
        code@ == language_spec(
            Seq::new(codes@.len(), |i: int| codes@[i]@),
            match asked {
                Some(a) => Some(a@),
                None => None,
            },
            match saved {
                Some(s) => Some(s@),
                None => None,
            },
            system@,
        ),
{
    let sv = chars_of(system);
    let mut end: usize = 0;
    while end < sv.len() && sv[end] != '-' && sv[end] != '_'
        invariant
            end <= sv@.len(),
            system_tag_end(sv@, end as int) == system_tag_end(sv@, 0),
        decreases sv@.len() - end,
    {
        end = end + 1;
    }
    let mut sys: Vec<char> = Vec::new();
    let mut k: usize = 0;
    while k < end
        invariant
            k <= end <= sv@.len(),
            sys@ == lower_ascii(sv@.subrange(0, k as int)),
        decreases end - k,
    {
        sys.push(lower(sv[k]));
        proof {
            assert(sys@ =~= lower_ascii(sv@.subrange(0, k + 1)));
        }
        k = k + 1;
    }
    let first: Option<&str> = match asked {
        Some(a) => Some(a),
        None => saved,
    };
    if let Some(c) = first {
        let cv = chars_of(c);
        if has_code(codes, &cv) {
            return String::from_str(c);
        }
    }
    if has_code(codes, &sys) {
        return string_of(sys.as_slice(), 0, sys.len());
    }
    String::from_str("en")
}


proof fn lemma_tag_end_at_first_separator(s: Seq<char>, first: int, from: int)
    requires
        0 <= from <= first <= s.len(),
        first < s.len() ==> (s[first] == '-' || s[first] == '_'),
        forall|i: int| 0 <= i < first ==> s[i] != '-' && s[i] != '_',
    ensures
        system_tag_end(s, from) == first,
    decreases first - from,
{
    if from < first {
        lemma_tag_end_at_first_separator(s, first, from + 1);
    }
}

/// With nothing asked or saved, the system's language is taken by the part of its tag before the
/// first `-` or `_` (or the whole tag where it has neither), lower-cased, wherever a catalog has
/// that code: a browser reporting `ru-RU` or `ru_RU` gets `ru`.
pub proof fn lemma_system_language_by_its_first_part(
    codes: Seq<Seq<char>>,
    lang: Seq<char>,
    sep: Option<char>,
    rest: Seq<char>,
)
    requires
        forall|i: int| 0 <= i < lang.len() ==> lang[i] != '-' && lang[i] != '_',
        sep matches Some(c) ==> c == '-' || c == '_',
        sep is None ==> rest.len() == 0,
        codes.contains(lower_ascii(lang)),
    ensures
        language_spec(
            codes,
            None,
            None,
            match sep {
                Some(c) => lang + seq![c] + rest,
                None => lang,
            },
        ) == lower_ascii(lang),
{
    let system = match sep {
        Some(c) => lang + seq![c] + rest,
        None => lang,
    };
    assert forall|i: int| 0 <= i < lang.len() implies system[i] == lang[i] by {}
    lemma_tag_end_at_first_separator(system, lang.len() as int, 0);
    assert(system.subrange(0, lang.len() as int) =~= lang);
}

} // verus!
