//! JSON values as the library reads them, parsed by `serde_json`.

use vstd::prelude::*;

use crate::text::{chars_eq, chars_of};

verus! {

#[verifier::external_type_specification]
#[verifier::external_body]
pub struct ExSerdeJsonValue(serde_json::Value);

/// A JSON value. Numbers are kept as what the library reads of them:
/// `as_u64`, `Some` for an unsigned integer that fits in 64 bits.
/// Object entries are kept in the order of `serde_json`'s map, keys unique.
#[derive(Debug)]
pub enum JsonValue {
    Null,
    Bool(bool),
    Number(Option<u64>),
    Str(String),
    Array(Vec<JsonValue>),
    Object(Vec<(String, JsonValue)>),
}

/// What `serde_json::from_str::<serde_json::Value>` gives for a text, as a
/// `JsonValue` (`None` where it reports an error).
pub uninterp spec fn spec_parse_json(s: Seq<char>) -> Option<JsonValue>;

/// What `serde_json::from_str::<Vec<serde_json::Value>>` gives for a text
/// (`None` where it reports an error).
pub uninterp spec fn spec_parse_json_list(s: Seq<char>) -> Option<Seq<JsonValue>>;

/// What `serde_json::from_str::<Vec<String>>` gives for a text
/// (`None` where it reports an error).
pub uninterp spec fn spec_parse_string_list(s: Seq<char>) -> Option<Seq<Seq<char>>>;

/// Turns `serde_json`'s tree into the library's, variant for variant:
/// numbers by `serde_json::Number::as_u64`, object entries in the map's order.
#[verifier::external_body]
fn json_from_serde(v: serde_json::Value) -> JsonValue {
    match v {
        serde_json::Value::Null => JsonValue::Null,
        serde_json::Value::Bool(b) => JsonValue::Bool(b),
        serde_json::Value::Number(n) => JsonValue::Number(n.as_u64()),
        serde_json::Value::String(s) => JsonValue::Str(s),
        serde_json::Value::Array(a) => JsonValue::Array(a.into_iter().map(json_from_serde).collect()),
        serde_json::Value::Object(m) => JsonValue::Object(
            m.into_iter().map(|(k, x)| (k, json_from_serde(x))).collect(),
        ),
    }
}

/// `serde_json::from_str::<serde_json::Value>`: the result is the name
/// `spec_parse_json` of the text; which texts parse, and to what, is left
/// to `serde_json`.
#[verifier::external_body]
pub fn parse_json(s: &str) -> (r: Option<JsonValue>)
    ensures
        r == spec_parse_json(s@),
{
    serde_json::from_str::<serde_json::Value>(s).ok().map(json_from_serde)
}

/// `serde_json::from_str::<Vec<serde_json::Value>>`: the result is the name
/// `spec_parse_json_list` of the text.
#[verifier::external_body]
pub fn parse_json_list(s: &str) -> (r: Option<Vec<JsonValue>>)
    ensures
        r is None <==> spec_parse_json_list(s@) is None,
        r matches Some(v) ==> spec_parse_json_list(s@) == Some(v@),
{
    serde_json::from_str::<Vec<serde_json::Value>>(s).ok().map(
        |v| v.into_iter().map(json_from_serde).collect(),
    )
}

/// `serde_json::from_str::<Vec<String>>`: the result is the name
/// `spec_parse_string_list` of the text.
#[verifier::external_body]
pub fn parse_string_list(s: &str) -> (r: Option<Vec<String>>)
    ensures
        r is None <==> spec_parse_string_list(s@) is None,
        r matches Some(v) ==> spec_parse_string_list(s@) == Some(v@.map_values(|x: String| x@)),
{
    serde_json::from_str::<Vec<String>>(s).ok()
}

/// The value of the first entry with key `key`.
pub open spec fn lookup(entries: Seq<(String, JsonValue)>, key: Seq<char>) -> Option<JsonValue>
    decreases entries.len(),
{
    if entries.len() == 0 {
        None
    } else if entries[0].0@ == key {
        Some(entries[0].1)
    } else {
        lookup(entries.drop_first(), key)
    }
}

impl JsonValue {
    /// The member `key` of an object; `None` for other values (`Value::get` with a key).
    pub open spec fn member(self, key: Seq<char>) -> Option<JsonValue> {
        match self {
            JsonValue::Object(entries) => lookup(entries@, key),
            _ => None,
        }
    }

    /// The element at `i` of an array; `None` for other values (`Value::get` with an index).
    pub open spec fn element(self, i: int) -> Option<JsonValue> {
        match self {
            JsonValue::Array(items) => if 0 <= i < items@.len() { Some(items@[i]) } else { None },
            _ => None,
        }
    }

    /// The text of a string value (`Value::as_str`).
    pub open spec fn text(self) -> Option<Seq<char>> {
        match self {
            JsonValue::Str(s) => Some(s@),
            _ => None,
        }
    }

    /// The elements of an array (`Value::as_array`).
    pub open spec fn items(self) -> Option<Seq<JsonValue>> {
        match self {
            JsonValue::Array(items) => Some(items@),
            _ => None,
        }
    }

    /// The number as an unsigned integer (`Value::as_u64`).
    pub open spec fn unsigned(self) -> Option<u64> {
        match self {
            JsonValue::Number(n) => n,
            _ => None,
        }
    }

    /// The member `key` of an object.
    pub fn get(&self, key: &str) -> (r: Option<&JsonValue>)
        ensures
            r matches Some(x) ==> self.member(key@) == Some(*x),
            r is None ==> self.member(key@) is None,
    {
        match self {
            JsonValue::Object(entries) => {
                let k = chars_of(key);
                let mut i: usize = 0;
                assert(entries@.skip(0) == entries@);
                while i < entries.len()
                    invariant
                        i <= entries@.len(),
                        k@ == key@,
                        self.member(key@) == lookup(entries@, key@),
                        lookup(entries@, key@) == lookup(entries@.skip(i as int), key@),
                    decreases entries.len() - i,
                {
                    let ghost rest = entries@.skip(i as int);
                    assert(rest[0] == entries@[i as int]);
                    assert(rest.drop_first() == entries@.skip(i + 1));
                    let name = chars_of(entries[i].0.as_str());
                    if chars_eq(&name, &k) {
                        assert(rest[0].0@ == key@);
                        assert(rest.len() > 0);
                        assert(lookup(rest, key@) == Some(rest[0].1));
                        return Some(&entries[i].1);
                    }
                    i = i + 1;
                }
                assert(entries@.skip(i as int).len() == 0);
                None
            },
            _ => None,
        }
    }

    /// The element at `i` of an array.
    pub fn at(&self, i: usize) -> (r: Option<&JsonValue>)
        ensures
            r matches Some(x) ==> self.element(i as int) == Some(*x),
            r is None ==> self.element(i as int) is None,
    {
        match self {
            JsonValue::Array(items) => if i < items.len() { Some(&items[i]) } else { None },
            _ => None,
        }
    }

    /// The text of a string value.
    pub fn as_str(&self) -> (r: Option<&String>)
        ensures
            r matches Some(s) ==> self.text() == Some(s@),
            r is None ==> self.text() is None,
    {
        match self {
            JsonValue::Str(s) => Some(s),
            _ => None,
        }
    }

    /// The elements of an array.
    pub fn as_array(&self) -> (r: Option<&Vec<JsonValue>>)
        ensures
            r matches Some(v) ==> self.items() == Some(v@),
            r is None ==> self.items() is None,
    {
        match self {
            JsonValue::Array(items) => Some(items),
            _ => None,
        }
    }

    /// The number as an unsigned integer.
    pub fn as_u64(&self) -> (r: Option<u64>)
        ensures
            r == self.unsigned(),
    {
        match self {
            JsonValue::Number(n) => *n,
            _ => None,
        }
    }
}

} // verus!
