//! JSON values, as `serde_json` reads and writes them.

use crate::numerals::decimal;
use crate::text::lex_le;
use serde_json::Value;
use vstd::prelude::*;
use vstd::string::*;

verus! {

/// The mathematical content of a JSON value. A number is given by its text; the entries of an
/// object are in the order in which its map is walked.
pub enum Json {
    Null,
    Bool(bool),
    Number(Seq<char>),
    Text(Seq<char>),
    Array(Seq<Json>),
    Object(Seq<(Seq<char>, Json)>),
}

/// The value of the first entry with the key `key`.
pub open spec fn lookup(entries: Seq<(Seq<char>, Json)>, key: Seq<char>) -> Option<Json>
    decreases entries.len(),
{
    if entries.len() == 0 {
        None
    } else if entries[0].0 == key {
        Some(entries[0].1)
    } else {
        lookup(entries.skip(1), key)
    }
}

impl Json {
    /// The value under `key`, for an object that has that key.
    pub open spec fn field(self, key: Seq<char>) -> Option<Json> {
        match self {
            Json::Object(entries) => lookup(entries, key),
            _ => None,
        }
    }

    /// The text, for a string.
    pub open spec fn text(self) -> Option<Seq<char>> {
        match self {
            Json::Text(t) => Some(t),
            _ => None,
        }
    }

    /// Whether the value is an object of strings and of natural numbers of at most 64 bits, its
    /// keys in strictly ascending order.
    pub open spec fn is_flat_record(self) -> bool {
        match self {
            Json::Object(entries) => keys_ascend(entries) && forall|i: int|
                0 <= i < entries.len() ==> (#[trigger] entries[i]).1.is_plain(),
            _ => false,
        }
    }

    /// Whether the value is a string or a natural number of at most 64 bits.
    pub open spec fn is_plain(self) -> bool {
        match self {
            Json::Text(_) => true,
            Json::Number(t) => exists|n: u64| t == #[trigger] decimal(n as nat),
            _ => false,
        }
    }
}

/// Whether the keys of `entries` are in strictly ascending order.
pub open spec fn keys_ascend(entries: Seq<(Seq<char>, Json)>) -> bool {
    forall|i: int, j: int|
        0 <= i < j < entries.len() ==> lex_le((#[trigger] entries[i]).0, (#[trigger] entries[j]).0)
            && entries[i].0 != entries[j].0
}

/// `serde_json`'s JSON value.
#[verifier::external_type_specification]
#[verifier::external_body]
pub struct ExValue(serde_json::Value);

/// `serde_json`'s error, which says why a text is no JSON document.
#[verifier::external_type_specification]
#[verifier::external_body]
pub struct ExError(serde_json::Error);

/// What a `serde_json` value holds.
pub uninterp spec fn json_of(value: serde_json::Value) -> Json;

/// What each value of a list holds.
pub open spec fn json_list(values: Seq<Value>) -> Seq<Json> {
    values.map_values(|v: Value| json_of(v))
}

/// What a list of entries holds.
pub open spec fn json_entries(list: Seq<(&String, &Value)>) -> Seq<(Seq<char>, Json)> {
    list.map_values(|e: (&String, &Value)| (e.0@, json_of(*e.1)))
}

/// What a list of owned entries holds.
pub open spec fn owned_entries(list: Seq<(String, Value)>) -> Seq<(Seq<char>, Json)> {
    list.map_values(|e: (String, Value)| (e.0@, json_of(e.1)))
}

/// What the document `text` holds, if it is one that `serde_json::from_str` accepts.
pub uninterp spec fn document(text: Seq<char>) -> Option<Json>;

/// Parses a document with `serde_json::from_str`. Whether it is accepted, and what it then holds,
/// is a function of the text. Which error comes of a text that is not accepted is left unsaid.
#[verifier::external_body]
pub(crate) fn parse(text: &str) -> (r: Result<Value, serde_json::Error>)
    ensures
        match r {
            Ok(value) => document(text@) == Some(json_of(value)),
            Err(_) => document(text@) is None,
        },
{
    serde_json::from_str::<Value>(text)
}

/// The compact text of a value.
pub uninterp spec fn compact(value: Json) -> Seq<char>;

/// Writes a value in compact form with its `Display` implementation. The text is a function of
/// what the value holds. It has no control characters, because `serde_json` escapes those of
/// strings and keys and puts nothing between tokens, and an object's starts with a brace.
/// `serde_json::from_str` reads a flat record back as it was; of other values nothing is said here,
/// as not all survive (a float may change in its last place, and a deeply nested value is refused).
#[verifier::external_body]
pub(crate) fn print(value: &Value) -> (r: String)
    ensures
        r@ == compact(json_of(*value)),
        forall|i: int| 0 <= i < r@.len() ==> #[trigger] r@[i] >= ' ',
        json_of(*value) is Object ==> r@.len() > 0 && r@[0] == '{',
        json_of(*value).is_flat_record() ==> document(r@) == Some(json_of(*value)),
{
    value.to_string()
}

/// A string value, from `serde_json::Value::from` for `&str`.
#[verifier::external_body]
pub(crate) fn text_value(text: &str) -> (r: Value)
    ensures
        json_of(r) == Json::Text(text@),
{
    Value::from(text)
}

/// A number value, from `serde_json::Value::from` for `u32`.
#[verifier::external_body]
pub(crate) fn number_value(n: u32) -> (r: Value)
    ensures
        json_of(r) == Json::Number(decimal(n as nat)),
{
    Value::from(n)
}

/// An object of the given entries, collected into a `serde_json::Map`. The map walks entries that
/// were inserted in ascending order of their keys in that order, whether it sorts its keys or
/// keeps them as they were inserted.
#[verifier::external_body]
pub(crate) fn object_value(entries: Vec<(String, Value)>) -> (r: Value)
    requires
        keys_ascend(owned_entries(entries@)),
    ensures
        json_of(r) == Json::Object(owned_entries(entries@)),
{
    Value::Object(entries.into_iter().collect())
}

/// `serde_json::Value::get` with a string: the value under that key, for an object that has it;
/// nothing for any other value.
#[verifier::external_body]
pub(crate) fn get<'a>(value: &'a Value, key: &str) -> (r: Option<&'a Value>)
    ensures
        match r {
            Some(found) => json_of(*value).field(key@) == Some(json_of(*found)),
            None => json_of(*value).field(key@) is None,
        },
{
    value.get(key)
}

/// `serde_json::Value::as_str` gives the text of a string, and nothing for any other value.
pub assume_specification[ serde_json::Value::as_str ](value: &Value) -> (r: Option<&str>)
    ensures
        match r {
            Some(text) => json_of(*value).text() == Some(text@),
            None => json_of(*value).text() is None,
        },
;

/// `serde_json::Value::as_array` gives the items of an array, and nothing for any other value.
pub assume_specification[ serde_json::Value::as_array ](value: &Value) -> (r: Option<&Vec<Value>>)
    ensures
        match r {
            Some(items) => json_of(*value) == Json::Array(json_list(items@)),
            None => !(json_of(*value) is Array),
        },
;

/// The entries of an object in the order of `serde_json::Map::iter`, and nothing for any other
/// value.
#[verifier::external_body]
pub(crate) fn entries_of<'a>(value: &'a Value) -> (r: Option<Vec<(&'a String, &'a Value)>>)
    ensures
        match r {
            Some(list) => json_of(*value) == Json::Object(json_entries(list@)),
            None => !(json_of(*value) is Object),
        },
{
    value.as_object().map(|map| map.iter().collect())
}

} // verus!
