//! JSON values as the tool server and the assistant read them, and the arguments of a tool call
//! taken from them.
//!
//! The text is parsed by `serde_json`; what the library reads of the result is held here as plain
//! values. Numbers keep the text `serde_json` writes for them, so nothing is lost and no floating
//! point is needed: a whole number that fits 64 bits is written as its digits.

use crate::text::{chars_of, is_word, parse_u64, parse_unsigned};
use crate::tools::{ArgValue, ToolArgs};
use vstd::prelude::*;

verus! {

/// A JSON value.
#[derive(Debug)]
pub enum JsonValue {
    Null,
    Bool(bool),
    /// A number, as `serde_json` writes it.
    Number(String),
    Str(String),
    Array(Vec<JsonValue>),
    /// The members of an object, in order, each key once.
    Object(Vec<(String, JsonValue)>),
}

#[verifier::external_type_specification]
#[verifier::external_body]
pub struct ExSerdeValue(serde_json::Value);

/// What `serde_json::from_str::<serde_json::Value>` reads from `line`, as a [`JsonValue`], or
/// `None` where the line is not JSON.
pub uninterp spec fn json_of(line: Seq<char>) -> Option<JsonValue>;

/// A `serde_json::Value` as a [`JsonValue`], variant for variant, numbers by their `Display`
/// text.
#[verifier::external_body]
fn json_from_serde(v: serde_json::Value) -> JsonValue {
    match v {
        serde_json::Value::Null => JsonValue::Null,
        serde_json::Value::Bool(b) => JsonValue::Bool(b),
        serde_json::Value::Number(n) => JsonValue::Number(n.to_string()),
        serde_json::Value::String(s) => JsonValue::Str(s),
        serde_json::Value::Array(a) => JsonValue::Array(a.into_iter().map(json_from_serde).collect()),
        serde_json::Value::Object(m) => JsonValue::Object(m.into_iter().map(|(k, x)| (k, json_from_serde(x))).collect()),
    }
}

/// `serde_json::from_str::<serde_json::Value>` on `line`: the value, as `json_of` names it, or
/// the text of the parser's error where the line is not JSON. The error's text is not stated.
#[verifier::external_body]
pub(crate) fn parse_json(line: &str) -> (r: Result<JsonValue, String>)
    ensures
        match r {
            Ok(v) => json_of(line@) == Some(v),
            Err(_) => json_of(line@) is None,
        },
{
    match serde_json::from_str::<serde_json::Value>(line) {
        Ok(v) => Ok(json_from_serde(v)),
        Err(e) => Err(e.to_string()),
    }
}

/// The number a JSON number's text gives as a 64-bit unsigned integer, as `as_u64` reads it: its
/// digits where it is a whole number that fits, else nothing.
pub open spec fn u64_of_text(t: Seq<char>) -> Option<u64> {
    match parse_unsigned(t, 0, t.len() as int) {
        Some(n) => if n <= u64::MAX {
            Some(n as u64)
        } else {
            None
        },
        None => None,
    }
}

/// The text of an array item, where it is a string.
pub open spec fn item_text(j: JsonValue) -> Option<String> {
    match j {
        JsonValue::Str(s) => Some(s),
        _ => None,
    }
}

/// Whether `a` is what an argument's JSON value `j` gives: a string, a boolean, a whole number
/// that fits 64 bits, a list of the texts of its items (`None` for an item that is no string), or
/// nothing usable.
pub open spec fn arg_matches(a: ArgValue, j: JsonValue) -> bool {
    match j {
        JsonValue::Str(s) => a == ArgValue::Str(s),
        JsonValue::Bool(b) => a == ArgValue::Bool(b),
        JsonValue::Number(t) => match u64_of_text(t@) {
            Some(n) => a == ArgValue::Int(n),
            None => a is Other,
        },
        JsonValue::Array(items) => a matches ArgValue::List(l) && l@.len() == items@.len() && forall|
            i: int,
        |
            0 <= i < l@.len() ==> #[trigger] l@[i] == item_text(items@[i]),
        _ => a is Other,
    }
}

/// Whether the argument entries `e` are what the object members `m` give: the same keys in the
/// same order, each value as [`arg_matches`] reads it.
pub open spec fn entries_match(e: Seq<(String, ArgValue)>, m: Seq<(String, JsonValue)>) -> bool {
    &&& e.len() == m.len()
    &&& forall|i: int| 0 <= i < e.len() ==> #[trigger] e[i].0 == m[i].0 && arg_matches(e[i].1, m[i].1)
}

/// The value of the first member named `key`.
pub open spec fn member(m: Seq<(String, JsonValue)>, key: Seq<char>) -> Option<JsonValue>
    decreases m.len(),
{
    if m.len() == 0 {
        None
    } else {
        match member(m.drop_last(), key) {
            Some(v) => Some(v),
            None => if m.last().0@ == key {
                Some(m.last().1)
            } else {
                None
            },
        }
    }
}

/// The members of an object; none for any other value.
pub open spec fn members_of(j: JsonValue) -> Seq<(String, JsonValue)> {
    match j {
        JsonValue::Object(m) => m@,
        _ => Seq::empty(),
    }
}

fn strings_from(items: Vec<JsonValue>) -> (l: Vec<Option<String>>)
    ensures
        l@.len() == items@.len(),
        forall|i: int| 0 <= i < l@.len() ==> #[trigger] l@[i] == item_text(items@[i]),
{
    let ghost all = items@;
    let mut rest = items;
    let mut l: Vec<Option<String>> = Vec::new();
    while rest.len() > 0
        invariant
            l@.len() + rest@.len() == all.len(),
            rest@ == all.skip(l@.len() as int),
            forall|i: int| 0 <= i < l@.len() ==> #[trigger] l@[i] == item_text(all[i]),
        decreases rest@.len(),
    {
        let ghost k = l@.len() as int;
        let x = rest.remove(0);
        assert(x == all[k]);
        proof {
            assert(rest@ =~= all.skip(k + 1));
        }
        match x {
            JsonValue::Str(s) => l.push(Some(s)),
            _ => l.push(None),
        }
    }
    l
}

/// The argument a JSON value gives.
pub fn arg_from(j: JsonValue) -> (a: ArgValue)
    ensures
        arg_matches(a, j),
{
    match j {
        JsonValue::Str(s) => ArgValue::Str(s),
        JsonValue::Bool(b) => ArgValue::Bool(b),
        JsonValue::Number(t) => {
            let v = chars_of(t.as_str());
            match parse_u64(v.as_slice(), 0, v.len()) {
                Some(n) => ArgValue::Int(n),
                None => ArgValue::Other,
            }
        },
        JsonValue::Array(items) => ArgValue::List(strings_from(items)),
        _ => ArgValue::Other,
    }
}

/// The argument entries of an object's members.
pub fn entries_from(m: Vec<(String, JsonValue)>) -> (e: Vec<(String, ArgValue)>)
    ensures
        entries_match(e@, m@),
{
    let ghost all = m@;
    let mut rest = m;
    let mut e: Vec<(String, ArgValue)> = Vec::new();
    while rest.len() > 0
        invariant
            e@.len() + rest@.len() == all.len(),
            rest@ == all.skip(e@.len() as int),
            forall|i: int|
                0 <= i < e@.len() ==> #[trigger] e@[i].0 == all[i].0 && arg_matches(e@[i].1, all[i].1),
        decreases rest@.len(),
    {
        let ghost k = e@.len() as int;
        let (key, value) = rest.remove(0);
        assert((key, value) == all[k]);
        proof {
            assert(rest@ =~= all.skip(k + 1));
        }
        let a = arg_from(value);
        e.push((key, a));
    }
    e
}

/// The arguments of a tool call given as JSON text: the entries of the object it holds; none where
/// the text is not JSON or not an object.
pub fn tool_args_of_json(text: &str) -> (args: ToolArgs)
    ensures
        match json_of(text@) {
            Some(j) => entries_match(args.entries@, members_of(j)),
            None => args.entries@.len() == 0,
        },
{
    match parse_json(text) {
        Ok(JsonValue::Object(m)) => ToolArgs { entries: entries_from(m) },
        _ => ToolArgs { entries: Vec::new() },
    }
}

/// Takes the first members named `id`, `method` and `params` out of an object's members.
pub fn request_parts(m: Vec<(String, JsonValue)>) -> (r: (Option<JsonValue>, Option<JsonValue>, Option<JsonValue>))
    ensures
        r.0 == member(m@, "id"@),
        r.1 == member(m@, "method"@),
        r.2 == member(m@, "params"@),
{
    let ghost all = m@;
    let mut rest = m;
    let mut id: Option<JsonValue> = None;
    let mut method: Option<JsonValue> = None;
    let mut params: Option<JsonValue> = None;
    let mut n: usize = 0;
    let total = rest.len();
    while rest.len() > 0
        invariant
            n + rest@.len() == all.len(),
            all.len() == total,
            rest@ == all.skip(n as int),
            id == member(all.take(n as int), "id"@),
            method == member(all.take(n as int), "method"@),
            params == member(all.take(n as int), "params"@),
        decreases rest@.len(),
    {
        let (key, value) = rest.remove(0);
        assert((key, value) == all[n as int]);
        proof {
            assert(rest@ =~= all.skip(n + 1));
            assert(all.take(n + 1).drop_last() =~= all.take(n as int));
            assert(all.take(n + 1).last() == all[n as int]);
            reveal_strlit("id");
            reveal_strlit("method");
            reveal_strlit("params");
            assert("method"@[0] != "params"@[0]);
        }
        let k = chars_of(key.as_str());
        if id.is_none() && is_word(&k, "id") {
            id = Some(value);
        } else if method.is_none() && is_word(&k, "method") {
            method = Some(value);
        } else if params.is_none() && is_word(&k, "params") {
            params = Some(value);
        }
        n = n + 1;
    }
    proof {
        assert(all.take(all.len() as int) =~= all);
    }
    (id, method, params)
}

/// The entries of a request's `params` members, and those of the first member named `arguments`
/// where that is an object (none otherwise).
pub fn params_and_arguments(m: Vec<(String, JsonValue)>) -> (r: (ToolArgs, ToolArgs))
    ensures
        entries_match(r.0.entries@, m@),
        entries_match(
            r.1.entries@,
            match member(m@, "arguments"@) {
                Some(a) => members_of(a),
                None => Seq::empty(),
            },
        ),
{
    let ghost all = m@;
    let mut rest = m;
    let mut e: Vec<(String, ArgValue)> = Vec::new();
    let mut args: Vec<(String, ArgValue)> = Vec::new();
    let mut found = false;
    while rest.len() > 0
        invariant
            e@.len() + rest@.len() == all.len(),
            rest@ == all.skip(e@.len() as int),
            forall|i: int|
                0 <= i < e@.len() ==> #[trigger] e@[i].0 == all[i].0 && arg_matches(e@[i].1, all[i].1),
            found == member(all.take(e@.len() as int), "arguments"@) is Some,
            entries_match(
                args@,
                match member(all.take(e@.len() as int), "arguments"@) {
                    Some(a) => members_of(a),
                    None => Seq::empty(),
                },
            ),
        decreases rest@.len(),
    {
        let ghost k = e@.len() as int;
        let (key, value) = rest.remove(0);
        assert((key, value) == all[k]);
        proof {
            assert(rest@ =~= all.skip(k + 1));
            assert(all.take(k + 1).drop_last() =~= all.take(k));
        }
        let kc = chars_of(key.as_str());
        if !found && is_word(&kc, "arguments") {
            found = true;
            match value {
                JsonValue::Object(inner) => {
                    args = entries_from(inner);
                    e.push((key, ArgValue::Other));
                },
                other => {
                    proof {
                        assert(members_of(other) =~= Seq::<(String, JsonValue)>::empty());
                    }
                    e.push((key, arg_from(other)));
                },
            }
        } else {
            e.push((key, arg_from(value)));
        }
    }
    proof {
        assert(all.take(all.len() as int) =~= all);
    }
    (ToolArgs { entries: e }, ToolArgs { entries: args })
}

} // verus!
