//! JSON documents and the `serde_json` values that hold them.

use serde_json::Value;
use vstd::prelude::*;

verus! {

/// The mathematical content of a JSON document.
pub enum Json {
    Null,
    Bool(bool),
    /// A number. The payload is what `serde_json` reads from it as a `u64`:
    /// the value of a number held as a non-negative integer below 2^64, and
    /// `None` for a negative number and for one held as a float.
    Number(Option<u64>),
    Text(Seq<char>),
    Array(Seq<Json>),
    Object(Map<Seq<char>, Json>),
}

impl Json {
    /// The member stored under `key`, or `Null` when this document is not an
    /// object or has no such member.
    pub open spec fn member(self, key: Seq<char>) -> Json {
        match self {
            Json::Object(members) => if members.contains_key(key) {
                members[key]
            } else {
                Json::Null
            },
            _ => Json::Null,
        }
    }

    /// The characters of a string document.
    pub open spec fn as_text(self) -> Option<Seq<char>> {
        match self {
            Json::Text(chars) => Some(chars),
            _ => None,
        }
    }

    /// The value of a number held as a non-negative integer below 2^64.
    pub open spec fn as_unsigned(self) -> Option<u64> {
        match self {
            Json::Number(value) => value,
            _ => None,
        }
    }

    /// The elements of an array document.
    pub open spec fn as_items(self) -> Option<Seq<Json>> {
        match self {
            Json::Array(items) => Some(items),
            _ => None,
        }
    }
}

/// Declares `serde_json::Value`. Verus sees nothing inside a value; what it
/// holds is named by [`json_of`].
#[verifier::external_type_specification]
#[verifier::external_body]
pub struct ExValue(serde_json::Value);

/// Declares `serde_json::Error`, of which nothing is read.
#[verifier::external_type_specification]
#[verifier::external_body]
pub struct ExJsonError(serde_json::Error);

/// The document that a `serde_json::Value` holds.
pub uninterp spec fn json_of(value: Value) -> Json;

/// The document that a text denotes, or `None` when `serde_json` rejects the
/// text.
pub uninterp spec fn json_parse(text: Seq<char>) -> Option<Json>;

/// The documents that a sequence of values holds, in order.
pub open spec fn jsons_of(values: Seq<Value>) -> Seq<Json> {
    values.map_values(|value: Value| json_of(value))
}

/// Trusted: `serde_json::Value`'s index operator with a string key. It gives
/// the member stored under the key when the value is an object that has one,
/// and a null value in every other case; it never panics.
#[verifier::external_body]
pub(crate) fn member<'a>(value: &'a Value, key: &str) -> (found: &'a Value)
    ensures
        json_of(*found) == json_of(*value).member(key@),
{
    &value[key]
}

/// Trusted: `serde_json::Value::as_str`. It gives the characters of a string
/// value and `None` for every other value.
#[verifier::external_body]
pub(crate) fn as_str<'a>(value: &'a Value) -> (text: Option<&'a str>)
    ensures
        match text {
            Some(chars) => json_of(*value).as_text() == Some(chars@),
            None => json_of(*value).as_text() is None,
        },
{
    value.as_str()
}

/// Trusted: `serde_json::Value::as_u64`. It gives the value of a number held
/// as a non-negative integer below 2^64 and `None` for every other value.
#[verifier::external_body]
pub(crate) fn as_u64(value: &Value) -> (number: Option<u64>)
    ensures
        number == json_of(*value).as_unsigned(),
{
    value.as_u64()
}

/// Trusted: `serde_json::Value::as_array`. It gives the elements of an array
/// value, in order, and `None` for every other value.
#[verifier::external_body]
pub(crate) fn as_array<'a>(value: &'a Value) -> (items: Option<&'a Vec<Value>>)
    ensures
        match items {
            Some(elements) => json_of(*value).as_items() == Some(jsons_of(elements@)),
            None => json_of(*value).as_items() is None,
        },
{
    value.as_array()
}

/// Trusted: `serde_json::from_str` at the type `Value`. The outcome depends
/// on the text alone: a value holding the document that the text denotes, or
/// an error when the text is not one JSON document.
#[verifier::external_body]
pub(crate) fn parse_value(text: &str) -> (parsed: Result<Value, serde_json::Error>)
    ensures
        match parsed {
            Ok(value) => json_parse(text@) == Some(json_of(value)),
            Err(_) => json_parse(text@) is None,
        },
{
    serde_json::from_str(text)
}

/// Trusted: `Clone` for `serde_json::Value`. The copy holds the document
/// that the value holds.
pub assume_specification[ <Value as Clone>::clone ](value: &Value) -> (copy: Value)
    ensures
        json_of(copy) == json_of(*value),
;

} // verus!
