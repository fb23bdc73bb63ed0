//! A JSON document tree, and the lookups the parsers make in it.

use vstd::prelude::*;

use serde_json::Value;

use crate::text::str_eq;

verus! {

/// A JSON number, as far as this library reads numbers.
#[derive(Debug)]
pub enum JsonNumber {
    /// A non-negative integer.
    PosInt(u64),
    /// A negative integer.
    NegInt(i64),
    /// A number that is not an integer.
    NonInteger,
}

/// A JSON value. An object keeps its entries in order; documents read from
/// text have distinct keys in each object.
#[derive(Debug)]
pub enum JsonValue {
    Null,
    Bool(bool),
    Number(JsonNumber),
    String(String),
    Array(Vec<JsonValue>),
    Object(Vec<(String, JsonValue)>),
}

/// A JSON document as the `serde_json` crate holds it.
#[verifier::external_type_specification]
#[verifier::external_body]
pub struct ExSerdeValue(Value);

/// The JSON value that `serde_json::from_str` reads from `text`, in this
/// library's form; nothing when the text is not a JSON document.
pub uninterp spec fn json_of_text(text: Seq<char>) -> Option<JsonValue>;

/// Rebuilds a `serde_json` value in this library's form, node for node:
/// objects keep the entries in the order the map gives them, numbers are
/// told apart by `Number::as_u64` and `Number::as_i64`.
#[verifier::external_body]
fn json_from_serde(value: &Value) -> JsonValue {
    match value {
        Value::Null => JsonValue::Null,
        Value::Bool(b) => JsonValue::Bool(*b),
        Value::Number(n) => JsonValue::Number(match (n.as_u64(), n.as_i64()) {
            (Some(u), _) => JsonNumber::PosInt(u),
            (_, Some(i)) => JsonNumber::NegInt(i),
            _ => JsonNumber::NonInteger,
        }),
        Value::String(s) => JsonValue::String(s.clone()),
        Value::Array(items) => JsonValue::Array(items.iter().map(json_from_serde).collect()),
        Value::Object(map) => JsonValue::Object(
            map.iter().map(|(k, v)| (k.clone(), json_from_serde(v))).collect(),
        ),
    }
}

/// Reads a JSON document from text with `serde_json::from_str` (into a
/// `serde_json::Value`, rebuilt in this library's form).
///
/// The contract only names the result: JSON syntax is not restated here.
#[verifier::external_body]
pub fn parse_json_text(text: &str) -> (res: Option<JsonValue>)
    ensures
        res == json_of_text(text@),
{
    match serde_json::from_str::<Value>(text) {
        Ok(value) => Some(json_from_serde(&value)),
        Err(_) => None,
    }
}

/// The value of the first entry whose key is `key`.
pub open spec fn entry_lookup(entries: Seq<(String, JsonValue)>, key: Seq<char>) -> Option<
    JsonValue,
>
    decreases entries.len(),
{
    if entries.len() == 0 {
        None
    } else if entries[0].0@ == key {
        Some(entries[0].1)
    } else {
        entry_lookup(entries.drop_first(), key)
    }
}

/// The member `key` of an object; nothing for any other value.
pub open spec fn json_get(v: JsonValue, key: Seq<char>) -> Option<JsonValue> {
    match v {
        JsonValue::Object(entries) => entry_lookup(entries@, key),
        _ => None,
    }
}

/// The characters of a JSON string.
pub open spec fn json_str(v: JsonValue) -> Option<Seq<char>> {
    match v {
        JsonValue::String(s) => Some(s@),
        _ => None,
    }
}

/// A JSON number that is a non-negative integer.
pub open spec fn json_u64(v: JsonValue) -> Option<u64> {
    match v {
        JsonValue::Number(JsonNumber::PosInt(n)) => Some(n),
        _ => None,
    }
}

/// The elements of a JSON array.
pub open spec fn json_array(v: JsonValue) -> Option<Seq<JsonValue>> {
    match v {
        JsonValue::Array(items) => Some(items@),
        _ => None,
    }
}

/// The member `key` of an object, when it is a string.
pub open spec fn json_field_str(v: JsonValue, key: Seq<char>) -> Option<Seq<char>> {
    match json_get(v, key) {
        Some(x) => json_str(x),
        None => None,
    }
}

/// The member `key` of an object, when it is a non-negative integer.
pub open spec fn json_field_u64(v: JsonValue, key: Seq<char>) -> Option<u64> {
    match json_get(v, key) {
        Some(x) => json_u64(x),
        None => None,
    }
}

/// Whether `v` is the JSON string `s`.
pub open spec fn json_is_str(v: JsonValue, s: Seq<char>) -> bool {
    json_str(v) == Some(s)
}

impl JsonValue {
    /// The member `key` of an object (`None` for a value that is not an
    /// object, or an object without that key).
    pub fn get(&self, key: &str) -> (res: Option<&JsonValue>)
        ensures
            match res {
                Some(r) => json_get(*self, key@) == Some(*r),
                None => json_get(*self, key@) is None,
            },
    {
        match self {
            JsonValue::Object(entries) => {
                let mut i: usize = 0;
                assert(entries@.skip(0) == entries@);
                while i < entries.len()
                    invariant
                        i <= entries.len(),
                        json_get(*self, key@) == entry_lookup(entries@, key@),
                        entry_lookup(entries@, key@) == entry_lookup(entries@.skip(i as int), key@),
                    decreases entries.len() - i,
                {
                    let ghost rest = entries@.skip(i as int);
                    assert(rest[0] == entries@[i as int]);
                    if str_eq(entries[i].0.as_str(), key) {
                        return Some(&entries[i].1);
                    }
                    assert(rest.drop_first() == entries@.skip(i + 1));
                    i = i + 1;
                }
                None
            },
            _ => None,
        }
    }

    /// The text of a JSON string.
    pub fn as_str(&self) -> (res: Option<&str>)
        ensures
            match res {
                Some(s) => json_str(*self) == Some(s@),
                None => json_str(*self) is None,
            },
    {
        match self {
            JsonValue::String(s) => Some(s.as_str()),
            _ => None,
        }
    }

    /// A number that is a non-negative integer.
    pub fn as_u64(&self) -> (res: Option<u64>)
        ensures
            res == json_u64(*self),
    {
        match self {
            JsonValue::Number(JsonNumber::PosInt(n)) => Some(*n),
            _ => None,
        }
    }

    /// The elements of an array.
    pub fn as_array(&self) -> (res: Option<&Vec<JsonValue>>)
        ensures
            match res {
                Some(items) => json_array(*self) == Some(items@),
                None => json_array(*self) is None,
            },
    {
        match self {
            JsonValue::Array(items) => Some(items),
            _ => None,
        }
    }

    /// Whether the value is `null`.
    pub fn is_null(&self) -> (res: bool)
        ensures
            res == (*self is Null),
    {
        match self {
            JsonValue::Null => true,
            _ => false,
        }
    }

    /// Whether the value is the JSON string `s`.
    pub fn is_str(&self, s: &str) -> (res: bool)
        ensures
            res == json_is_str(*self, s@),
    {
        match self {
            JsonValue::String(t) => str_eq(t.as_str(), s),
            _ => false,
        }
    }
}

} // verus!
