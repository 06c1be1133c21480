//! Translations kept in plain `.ini` files.
//!
//! The format is deliberately boring so a teacher can edit it in a plain text editor:
//!
//! ```ini
//! [meta]
//! code = kk
//! name = Қазақша
//!
//! [strings]
//! room = Сынып
//! ```
//!
//! Unknown sections and keys are ignored, so a file from a newer version still loads. Lines
//! starting with `;` or `#` are comments; blank lines are skipped; a value is everything after the
//! first `=`. Placeholders are `{0}`, `{1}`; a translator may reorder them but must keep them.

use crate::text::{chars_of, find, find_char, lower_ascii, lower_eq, string_of, trim_bounds, trim_spec};
use crate::order::SortKey;
use vstd::prelude::*;

verus! {

/// One language: its code, its display name, and its strings.
#[derive(Debug)]
pub struct Catalog {
    /// Short code, e.g. `en`, `ru`, `kk`.
    pub code: String,
    /// Name shown in the switcher, written in that language.
    pub name: String,
    /// Key and translated text, one entry per key.
    pub strings: Vec<(String, String)>,
}

/// Why a translation file could not be used.
#[derive(Debug, Clone, Copy, PartialEq, Eq, Structural)]
pub enum CatalogError {
    /// `[meta] code` was missing or empty.
    MissingCode,
    /// `[meta] name` was missing or empty.
    MissingName,
    /// The `[strings]` section had no entries.
    NoStrings,
}

impl CatalogError {
    /// The message a user sees for this error.
    pub fn message(&self) -> (m: &'static str)
        ensures
            m@ == (match self {
                CatalogError::MissingCode => "the file has no 'code' in its [meta] section"@,
                CatalogError::MissingName => "the file has no 'name' in its [meta] section"@,
                CatalogError::NoStrings => "the file has no translated strings"@,
            }),
    {
        match self {
            CatalogError::MissingCode => "the file has no 'code' in its [meta] section",
            CatalogError::MissingName => "the file has no 'name' in its [meta] section",
            CatalogError::NoStrings => "the file has no translated strings",
        }
    }
}

/// The map a list of key and text pairs describes, a later pair winning over an earlier one.
pub open spec fn pairs_map(s: Seq<(String, String)>) -> Map<Seq<char>, Seq<char>>
    decreases s.len(),
{
    if s.len() == 0 {
        Map::empty()
    } else {
        pairs_map(s.drop_last()).insert(s.last().0@, s.last().1@)
    }
}

/// Whether no key occurs twice in a list of pairs.
pub open spec fn keys_unique(s: Seq<(String, String)>) -> bool {
    forall|i: int, j: int| 0 <= i < j < s.len() ==> #[trigger] s[i].0@ != #[trigger] s[j].0@
}

/// What a catalog holds: its code, its name, and its strings as a map from key to text.
pub struct CatalogView {
    pub code: Seq<char>,
    pub name: Seq<char>,
    pub strings: Map<Seq<char>, Seq<char>>,
}

impl SortKey for Catalog {
    /// Languages are listed by their code.
    open spec fn sort_key(&self) -> Seq<char> {
        self.code@
    }

    fn key_text(&self) -> (k: String) {
        self.code.clone()
    }
}

impl View for Catalog {
    type V = CatalogView;

    open spec fn view(&self) -> CatalogView {
        CatalogView { code: self.code@, name: self.name@, strings: pairs_map(self.strings@) }
    }
}

impl Catalog {
    /// Whether each key occurs once in the list of strings.
    pub open spec fn wf(&self) -> bool {
        keys_unique(self.strings@)
    }

    /// The text for `key`, if the catalog has one.
    pub fn get(&self, key: &str) -> (r: Option<&String>)
        requires
            self.wf(),
        ensures
            r matches Some(t) ==> self@.strings.contains_key(key@) && t@ == self@.strings[key@],
            r is None ==> !self@.strings.contains_key(key@),
    {
        let k = String::from_str(key);
        let mut i: usize = 0;
        while i < self.strings.len()
            invariant
                i <= self.strings@.len(),
                self.wf(),
                k@ == key@,
                forall|j: int| 0 <= j < i ==> #[trigger] self.strings@[j].0@ != key@,
            decreases self.strings@.len() - i,
        {
            if self.strings[i].0 == k {
                proof {
                    lemma_pairs_map_at(self.strings@, i as int);
                }
                return Some(&self.strings[i].1);
            }
            i = i + 1;
        }
        proof {
            lemma_pairs_map_absent(self.strings@, key@);
        }
        None
    }

    /// A copy of the catalog, entry for entry.
    pub fn duplicate(&self) -> (c: Catalog)
        ensures
            c.code@ == self.code@,
            c.name@ == self.name@,
            c.strings@ == self.strings@,
    {
        let mut strings: Vec<(String, String)> = Vec::new();
        let mut i: usize = 0;
        while i < self.strings.len()
            invariant
                i <= self.strings@.len(),
                strings@ == self.strings@.take(i as int),
            decreases self.strings@.len() - i,
        {
            let k = self.strings[i].0.clone();
            let v = self.strings[i].1.clone();
            strings.push((k, v));
            proof {
                assert(strings@ =~= self.strings@.take(i as int + 1));
            }
            i = i + 1;
        }
        assert(strings@ =~= self.strings@);
        Catalog { code: self.code.clone(), name: self.name.clone(), strings }
    }
}

pub(crate) proof fn lemma_pairs_map_absent(s: Seq<(String, String)>, k: Seq<char>)
    requires
        forall|j: int| 0 <= j < s.len() ==> #[trigger] s[j].0@ != k,
    ensures
        !pairs_map(s).contains_key(k),
    decreases s.len(),
{
    if s.len() > 0 {
        lemma_pairs_map_absent(s.drop_last(), k);
        assert(s.last().0@ != k);
    }
}

pub(crate) proof fn lemma_pairs_map_at(s: Seq<(String, String)>, i: int)
    requires
        keys_unique(s),
        0 <= i < s.len(),
    ensures
        pairs_map(s).contains_key(s[i].0@),
        pairs_map(s)[s[i].0@] == s[i].1@,
    decreases s.len(),
{
    if i < s.len() - 1 {
        let d = s.drop_last();
        assert(d[i] == s[i]);
        assert(keys_unique(d));
        lemma_pairs_map_at(d, i);
        assert(s.last() == s[s.len() - 1]);
    }
}

proof fn lemma_pairs_map_update(s: Seq<(String, String)>, i: int, k: String, v: String)
    requires
        keys_unique(s),
        0 <= i < s.len(),
        s[i].0@ == k@,
    ensures
        pairs_map(s.update(i, (k, v))) == pairs_map(s).insert(k@, v@),
        keys_unique(s.update(i, (k, v))),
    decreases s.len(),
{
    let u = s.update(i, (k, v));
    if i == s.len() - 1 {
        assert(u.drop_last() =~= s.drop_last());
        assert(pairs_map(u) =~= pairs_map(s).insert(k@, v@));
    } else {
        let d = s.drop_last();
        assert(keys_unique(d));
        lemma_pairs_map_update(d, i, k, v);
        assert(u.drop_last() =~= d.update(i, (k, v)));
        assert(s.last().0@ != k@);
        assert(pairs_map(u) =~= pairs_map(s).insert(k@, v@));
    }
    assert forall|a: int, b: int| 0 <= a < b < u.len() implies #[trigger] u[a].0@ != #[trigger] u[b].0@ by {
        assert(s[a].0@ != s[b].0@);
    }
}

/// Sets `key` to `value` in a list of unique keys: replaces the text of an existing key, or adds
/// the pair at the end.
pub fn insert_pair(strings: &mut Vec<(String, String)>, key: String, value: String)
    requires
        keys_unique(old(strings)@),
    ensures
        keys_unique(final(strings)@),
        pairs_map(final(strings)@) == pairs_map(old(strings)@).insert(key@, value@),
{
    let mut i: usize = 0;
    while i < strings.len()
        invariant
            i <= strings@.len(),
            strings@ == old(strings)@,
            keys_unique(strings@),
            forall|j: int| 0 <= j < i ==> #[trigger] strings@[j].0@ != key@,
        decreases strings@.len() - i,
    {
        if strings[i].0 == key {
            proof {
                lemma_pairs_map_update(strings@, i as int, key, value);
            }
            strings.set(i, (key, value));
            return;
        }
        i = i + 1;
    }
    let ghost before = strings@;
    strings.push((key, value));
    proof {
        assert(strings@.drop_last() =~= before);
        assert forall|a: int, b: int| 0 <= a < b < strings@.len() implies #[trigger] strings@[a].0@
            != #[trigger] strings@[b].0@ by {
            if b == strings@.len() - 1 {
                assert(before[a].0@ != key@);
            } else {
                assert(before[a].0@ != before[b].0@);
            }
        }
    }
}

/// What parsing has gathered so far: the current section, the code, the name and the strings.
pub struct ParseState {
    pub section: Seq<char>,
    pub code: Seq<char>,
    pub name: Seq<char>,
    pub strings: Map<Seq<char>, Seq<char>>,
}

/// The state before the first line.
pub open spec fn initial_state() -> ParseState {
    ParseState {
        section: Seq::empty(),
        code: Seq::empty(),
        name: Seq::empty(),
        strings: Map::empty(),
    }
}

/// What one line, already trimmed and lying at `t[a..b]`, does to the state: comments and blank
/// lines nothing; a `[section]` header switches the section, trimmed and lower-cased; a
/// `key = value` line sets the code or the name in `meta` (the key compared lower-cased), or adds a
/// string in `strings` where the key is not empty. Anything else is ignored.
pub open spec fn line_step(st: ParseState, t: Seq<char>, a: int, b: int) -> ParseState {
    if a >= b || t[a] == ';' || t[a] == '#' {
        st
    } else if t[a] == '[' && b - a >= 2 && t[b - 1] == ']' {
        ParseState { section: lower_ascii(trim_spec(t, a + 1, b - 1)), ..st }
    } else {
        match find_char(t, a, b, '=') {
            None => st,
            Some(eq) => {
                let key = trim_spec(t, a, eq);
                let value = trim_spec(t, eq + 1, b);
                if st.section == "meta"@ {
                    if lower_ascii(key) == "code"@ {
                        ParseState { code: value, ..st }
                    } else if lower_ascii(key) == "name"@ {
                        ParseState { name: value, ..st }
                    } else {
                        st
                    }
                } else if st.section == "strings"@ && key.len() > 0 {
                    ParseState { strings: st.strings.insert(key, value), ..st }
                } else {
                    st
                }
            },
        }
    }
}

/// The end of the line starting at `pos`: the next newline, or the end of the text.
pub open spec fn line_end(t: Seq<char>, pos: int) -> int {
    match find_char(t, pos, t.len() as int, '\n') {
        Some(i) => i,
        None => t.len() as int,
    }
}

/// The state after every line of `t` from `pos` on, each trimmed of whitespace at both ends.
pub open spec fn run_lines(st: ParseState, t: Seq<char>, pos: int) -> ParseState
    decreases t.len() - pos,
{
    if pos > t.len() {
        st
    } else {
        let end = line_end(t, pos);
        let a = crate::text::skip_ws(t, pos, end);
        let b = crate::text::skip_ws_back(t, a, end);
        let next = line_step(st, t, a, b);
        if end >= t.len() || end < pos {
            next
        } else {
            run_lines(next, t, end + 1)
        }
    }
}

/// What parsing the text `t` gives: the catalog, or the first of the missing parts.
pub open spec fn parse_spec(t: Seq<char>) -> Result<CatalogView, CatalogError> {
    let st = run_lines(initial_state(), t, 0);
    if st.code.len() == 0 {
        Err(CatalogError::MissingCode)
    } else if st.name.len() == 0 {
        Err(CatalogError::MissingName)
    } else if st.strings.dom().len() == 0 {
        Err(CatalogError::NoStrings)
    } else {
        Ok(CatalogView { code: st.code, name: st.name, strings: st.strings })
    }
}

proof fn lemma_pairs_map_empty(s: Seq<(String, String)>)
    ensures
        pairs_map(s).dom().finite(),
        pairs_map(s).dom().len() == 0 <==> s.len() == 0,
    decreases s.len(),
{
    if s.len() > 0 {
        lemma_pairs_map_empty(s.drop_last());
        assert(pairs_map(s).dom().contains(s.last().0@));
    }
}

/// Parses one `.ini` translation file.
pub fn parse(text: &str) -> (r: Result<Catalog, CatalogError>)
    ensures
        match r {
            Ok(c) => c.wf() && parse_spec(text@) == Ok::<CatalogView, CatalogError>(c@),
            Err(e) => parse_spec(text@) == Err::<CatalogView, CatalogError>(e),
        },
{
    let t = chars_of(text);
    let meta = chars_of("meta");
    let strings_word = chars_of("strings");
    let code_word = chars_of("code");
    let name_word = chars_of("name");
    let mut section: Vec<char> = Vec::new();
    let mut code = String::new();
    let mut name = String::new();
    let mut strings: Vec<(String, String)> = Vec::new();
    let len = t.len();
    let mut pos: usize = 0;
    let mut done = false;
    while !done
        invariant
            t@ == text@,
            len == t@.len(),
            meta@ == "meta"@,
            strings_word@ == "strings"@,
            code_word@ == "code"@,
            name_word@ == "name"@,
            pos <= len,
            keys_unique(strings@),
            done ==> run_lines(initial_state(), t@, 0) == (ParseState {
                section: section@,
                code: code@,
                name: name@,
                strings: pairs_map(strings@),
            }),
            !done ==> run_lines(initial_state(), t@, 0) == run_lines(
                ParseState {
                    section: section@,
                    code: code@,
                    name: name@,
                    strings: pairs_map(strings@),
                },
                t@,
                pos as int,
            ),
        decreases len - pos + if done {
            0int
        } else {
            1int
        },
    {
        let ghost st = ParseState {
            section: section@,
            code: code@,
            name: name@,
            strings: pairs_map(strings@),
        };
        let end: usize = match find(t.as_slice(), pos, len, '\n') {
            Some(i) => i,
            None => len,
        };
        assert(end as int == line_end(t@, pos as int));
        let (a, b) = trim_bounds(t.as_slice(), pos, end);
        if a < b && t[a] != ';' && t[a] != '#' {
            if t[a] == '[' && b - a >= 2 && t[b - 1] == ']' {
                let (ha, hb) = trim_bounds(t.as_slice(), a + 1, b - 1);
                let mut lowered: Vec<char> = Vec::new();
                let mut k: usize = ha;
                while k < hb
                    invariant
                        ha <= k <= hb <= t@.len(),
                        lowered@ == lower_ascii(t@.subrange(ha as int, k as int)),
                    decreases hb - k,
                {
                    lowered.push(crate::text::lower(t[k]));
                    proof {
                        assert(lowered@ =~= lower_ascii(t@.subrange(ha as int, k + 1)));
                    }
                    k = k + 1;
                }
                section = lowered;
            } else {
                match find(t.as_slice(), a, b, '=') {
                    None => {},
                    Some(eq) => {
                        let (ka, kb) = trim_bounds(t.as_slice(), a, eq);
                        let (va, vb) = trim_bounds(t.as_slice(), eq + 1, b);
                        if section.len() == meta.len() && crate::text::chars_eq(
                            section.as_slice(),
                            0,
                            section.len(),
                            meta.as_slice(),
                        ) {
                            proof {
                                assert(section@.subrange(0, section@.len() as int) =~= section@);
                            }
                            if lower_eq(t.as_slice(), ka, kb, code_word.as_slice()) {
                                code = string_of(t.as_slice(), va, vb);
                            } else if lower_eq(t.as_slice(), ka, kb, name_word.as_slice()) {
                                name = string_of(t.as_slice(), va, vb);
                            }
                        } else if crate::text::chars_eq(
                            section.as_slice(),
                            0,
                            section.len(),
                            strings_word.as_slice(),
                        ) && ka < kb {
                            proof {
                                assert(section@.subrange(0, section@.len() as int) =~= section@);
                            }
                            let key = string_of(t.as_slice(), ka, kb);
                            let value = string_of(t.as_slice(), va, vb);
                            insert_pair(&mut strings, key, value);
                        } else {
                            proof {
                                assert(section@.subrange(0, section@.len() as int) =~= section@);
                            }
                        }
                    },
                }
            }
        }
        assert(ParseState {
            section: section@,
            code: code@,
            name: name@,
            strings: pairs_map(strings@),
        } == line_step(st, t@, a as int, b as int));
        if end >= len {
            done = true;
        } else {
            pos = end + 1;
        }
    }
    if code.as_str().unicode_len() == 0 {
        return Err(CatalogError::MissingCode);
    }
    if name.as_str().unicode_len() == 0 {
        return Err(CatalogError::MissingName);
    }
    proof {
        lemma_pairs_map_empty(strings@);
    }
    if strings.len() == 0 {
        return Err(CatalogError::NoStrings);
    }
    Ok(Catalog { code, name, strings })
}

/// The index of the first catalog whose code is `code`.
pub open spec fn first_with_code(cats: Seq<CatalogView>, code: Seq<char>) -> Option<int>
    decreases cats.len(),
{
    if cats.len() == 0 {
        None
    } else {
        match first_with_code(cats.drop_last(), code) {
            Some(i) => Some(i),
            None => if cats.last().code == code {
                Some(cats.len() - 1)
            } else {
                None
            },
        }
    }
}

/// The views of a list of catalogs.
pub open spec fn views(cats: Seq<Catalog>) -> Seq<CatalogView> {
    Seq::new(cats.len(), |i: int| cats[i]@)
}

/// What resolving `code` gives: English where no catalog has that code; otherwise that catalog,
/// with English filling every key it has not translated.
pub open spec fn resolve_spec(english: CatalogView, cats: Seq<CatalogView>, code: Seq<char>) -> CatalogView {
    match first_with_code(cats, code) {
        None => english,
        Some(i) => CatalogView {
            code: cats[i].code,
            name: cats[i].name,
            strings: english.strings.union_prefer_right(cats[i].strings),
        },
    }
}

proof fn lemma_first_with_code(cats: Seq<CatalogView>, code: Seq<char>, i: int)
    requires
        0 <= i < cats.len(),
        cats[i].code == code,
        forall|j: int| 0 <= j < i ==> #[trigger] cats[j].code != code,
    ensures
        first_with_code(cats, code) == Some(i),
    decreases cats.len(),
{
    if i < cats.len() - 1 {
        lemma_first_with_code(cats.drop_last(), code, i);
    } else {
        lemma_no_code(cats.drop_last(), code);
    }
}

proof fn lemma_no_code(cats: Seq<CatalogView>, code: Seq<char>)
    requires
        forall|j: int| 0 <= j < cats.len() ==> #[trigger] cats[j].code != code,
    ensures
        first_with_code(cats, code) is None,
    decreases cats.len(),
{
    if cats.len() > 0 {
        lemma_no_code(cats.drop_last(), code);
    }
}

/// The strings of `english` overlaid, pair by pair in order, with the strings of the chosen
/// catalog: a translated key wins, an untranslated one keeps its English text.
pub fn overlay(english: &Catalog, chosen: &Catalog) -> (strings: Vec<(String, String)>)
    requires
        english.wf(),
    ensures
        keys_unique(strings@),
        pairs_map(strings@) == pairs_map(english.strings@).union_prefer_right(
            pairs_map(chosen.strings@),
        ),
{
    let mut strings = english.duplicate().strings;
    let mut i: usize = 0;
    while i < chosen.strings.len()
        invariant
            i <= chosen.strings@.len(),
            keys_unique(strings@),
            pairs_map(strings@) == pairs_map(english.strings@).union_prefer_right(
                pairs_map(chosen.strings@.take(i as int)),
            ),
        decreases chosen.strings@.len() - i,
    {
        let k = chosen.strings[i].0.clone();
        let v = chosen.strings[i].1.clone();
        insert_pair(&mut strings, k, v);
        proof {
            let t = chosen.strings@.take(i as int + 1);
            assert(t.drop_last() =~= chosen.strings@.take(i as int));
            assert(pairs_map(strings@) =~= pairs_map(english.strings@).union_prefer_right(
                pairs_map(t),
            ));
        }
        i = i + 1;
    }
    assert(chosen.strings@.take(chosen.strings@.len() as int) =~= chosen.strings@);
    strings
}

/// The strings for `code`, with `english` filling in anything the translator has not done yet.
pub fn resolve_from(english: &Catalog, catalogs: &[Catalog], code: &str) -> (c: Catalog)
    requires
        english.wf(),
    ensures
        c.wf(),
        c@ == resolve_spec(english@, views(catalogs@), code@),
{
    let wanted = String::from_str(code);
    let mut i: usize = 0;
    while i < catalogs.len()
        invariant
            i <= catalogs@.len(),
            english.wf(),
            wanted@ == code@,
            forall|j: int| 0 <= j < i ==> #[trigger] catalogs@[j].code@ != code@,
        decreases catalogs@.len() - i,
    {
        if catalogs[i].code == wanted {
            proof {
                lemma_first_with_code(views(catalogs@), code@, i as int);
            }
            let chosen = &catalogs[i];
            let strings = overlay(english, chosen);
            return Catalog { code: chosen.code.clone(), name: chosen.name.clone(), strings };
        }
        i = i + 1;
    }
    proof {
        lemma_no_code(views(catalogs@), code@);
    }
    let c = english.duplicate();
    assert(c@ == english@);
    c
}

/// A translated key always wins over English, and every English key is still there after
/// resolving: nothing a translator has not done shows up blank.
pub proof fn lemma_resolve_keeps_every_english_key(
    english: CatalogView,
    cats: Seq<CatalogView>,
    code: Seq<char>,
    key: Seq<char>,
)
    ensures
        english.strings.contains_key(key) ==> resolve_spec(english, cats, code).strings.contains_key(
            key,
        ),
        first_with_code(cats, code) matches Some(i) ==> (cats[i].strings.contains_key(key)
            ==> resolve_spec(english, cats, code).strings[key] == cats[i].strings[key]),
{
}

/// The index of the first catalog in `list` whose code is `code`.
pub open spec fn code_index(list: Seq<Catalog>, code: Seq<char>, from: int) -> Option<int>
    decreases list.len() - from,
{
    if from < 0 || from >= list.len() {
        None
    } else if list[from].code@ == code {
        Some(from)
    } else {
        code_index(list, code, from + 1)
    }
}

/// Adds `c` to the languages in `list`: in place of the first one with the same code, so a school's
/// own file can correct a built-in language, or after the others.
pub fn add_catalog(list: &mut Vec<Catalog>, c: Catalog)
    ensures
        match code_index(old(list)@, c.code@, 0) {
            Some(i) => final(list)@ == old(list)@.update(i, c),
            None => final(list)@ == old(list)@.push(c),
        },
{
    let mut i: usize = 0;
    while i < list.len()
        invariant
            i <= list@.len(),
            list@ == old(list)@,
            code_index(list@, c.code@, 0) == code_index(list@, c.code@, i as int),
        decreases list@.len() - i,
    {
        if list[i].code == c.code {
            list.set(i, c);
            return;
        }
        i = i + 1;
    }
    list.push(c);
}

} // verus!
