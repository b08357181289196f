//! The JSON values a transcript line carries, as plain library data, and the
//! one place where a line is handed to `serde_json` to be parsed.
use vstd::prelude::*;

verus! {

/// A parsed JSON value. Strings and object keys are held as characters;
/// numbers carry nothing, since no naming rule reads one.
pub enum Json {
    Null,
    Bool(bool),
    Number,
    Str(Vec<char>),
    Array(Vec<Json>),
    Object(Vec<(Vec<char>, Json)>),
}

#[verifier::external_type_specification]
#[verifier::external_body]
pub struct ExJsonValue(serde_json::Value);

/// What `serde_json::from_str::<serde_json::Value>` makes of a text, as
/// library data; `None` where it reports an error.
pub uninterp spec fn parsed_json(text: Seq<char>) -> Option<Json>;

/// Parses the text made of the characters `text` with
/// `serde_json::from_str::<serde_json::Value>`.
///
/// Claimed: the result depends on the text alone (the parser is
/// deterministic), and is `None` exactly when the parser returns an error.
/// What the parser accepts and builds is not restated here; it is named by
/// `parsed_json`.
#[verifier::external_body]
pub fn parse_json(text: &[char]) -> (r: Option<Json>)
    ensures
        r == parsed_json(text@),
{
    let text: String = text.iter().collect();
    match serde_json::from_str::<serde_json::Value>(&text) {
        Ok(value) => Some(json_from_value(&value)),
        Err(_) => None,
    }
}

/// Converts a `serde_json::Value` into `Json` variant for variant: strings
/// and keys by their characters, arrays and objects element by element (an
/// object in the order `serde_json::Map` iterates it), numbers to `Number`.
/// Only `parse_json` uses it, on the value the parser just built.
#[verifier::external_body]
fn json_from_value(value: &serde_json::Value) -> Json {
    match value {
        serde_json::Value::Null => Json::Null,
        serde_json::Value::Bool(b) => Json::Bool(*b),
        serde_json::Value::Number(_) => Json::Number,
        serde_json::Value::String(s) => Json::Str(s.chars().collect()),
        serde_json::Value::Array(items) => Json::Array(items.iter().map(json_from_value).collect()),
        serde_json::Value::Object(map) => Json::Object(
            map.iter().map(|(k, v)| (k.chars().collect(), json_from_value(v))).collect(),
        ),
    }
}

/// The value stored under `key` in an object's entries; the first entry
/// with that key counts.
pub open spec fn entry_value(entries: Seq<(Vec<char>, Json)>, key: Seq<char>) -> Option<Json>
    decreases entries.len(),
{
    if entries.len() == 0 {
        None
    } else if entries[0].0@ == key {
        Some(entries[0].1)
    } else {
        entry_value(entries.drop_first(), key)
    }
}

/// `Value::get(key)`: the member `key` of an object; `None` for any other
/// value or a missing key.
pub open spec fn json_get(v: Json, key: Seq<char>) -> Option<Json> {
    match v {
        Json::Object(entries) => entry_value(entries@, key),
        _ => None,
    }
}

/// `and_then(Value::as_str)`: the characters of a string value.
pub open spec fn json_as_str(v: Option<Json>) -> Option<Seq<char>> {
    match v {
        Some(Json::Str(s)) => Some(s@),
        _ => None,
    }
}

/// `and_then(Value::as_bool)`: the value of a boolean.
pub open spec fn json_as_bool(v: Option<Json>) -> Option<bool> {
    match v {
        Some(Json::Bool(b)) => Some(b),
        _ => None,
    }
}

/// The view of an optional character vector.
pub open spec fn opt_chars(v: Option<Vec<char>>) -> Option<Seq<char>> {
    match v {
        Some(s) => Some(s@),
        None => None,
    }
}

/// The view of an optional string.
pub open spec fn opt_string(v: Option<String>) -> Option<Seq<char>> {
    match v {
        Some(s) => Some(s@),
        None => None,
    }
}

/// `Value::get(key)` on a parsed value.
pub fn get<'a>(v: &'a Json, key: &str) -> (r: Option<&'a Json>)
    ensures
        match r {
            Some(x) => json_get(*v, key@) == Some(*x),
            None => json_get(*v, key@) is None,
        },
{
    match v {
        Json::Object(entries) => {
            assert(*v == Json::Object(*entries));
            let n = entries.len();
            let mut i: usize = 0;
            assert(entries@.skip(0) =~= entries@);
            while i < n
                invariant
                    *v == Json::Object(*entries),
                    n == entries@.len(),
                    i <= n,
                    entry_value(entries@, key@) == entry_value(entries@.skip(i as int), key@),
                decreases n - i,
            {
                let ghost rest = entries@.skip(i as int);
                assert(rest[0] == entries@[i as int]);
                if crate::text::eq_lit(entries[i].0.as_slice(), key) {
                    assert(rest.len() > 0 && rest[0].0@ == key@);
                    assert(entry_value(rest, key@) == Some(rest[0].1));
                    let found = &entries[i].1;
                    assert(*found == entries@[i as int].1);
                    assert(json_get(*v, key@) == entry_value(entries@, key@));
                    return Some(found);
                }
                assert(rest.drop_first() =~= entries@.skip(i + 1));
                i = i + 1;
            }
            assert(entries@.skip(n as int).len() == 0);
            None
        },
        _ => None,
    }
}

/// `get(key).and_then(Value::as_str)`, copied out.
pub fn get_str(v: &Json, key: &str) -> (r: Option<Vec<char>>)
    ensures
        opt_chars(r) == json_as_str(json_get(*v, key@)),
{
    match get(v, key) {
        Some(Json::Str(s)) => Some(vstd::slice::slice_to_vec(s.as_slice())),
        _ => None,
    }
}

/// `get(key).and_then(Value::as_bool)`.
pub fn get_bool(v: &Json, key: &str) -> (r: Option<bool>)
    ensures
        r == json_as_bool(json_get(*v, key@)),
{
    match get(v, key) {
        Some(Json::Bool(b)) => Some(*b),
        _ => None,
    }
}

} // verus!
