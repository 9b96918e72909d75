//! JSON values, as the `json` crate parses and reads them.
//!
//! Nothing here is proved: a parsed value is opaque, and the contracts below
//! give names to what the crate's parser and accessors return.

use json::JsonValue;
use vstd::prelude::*;

verus! {

/// `json::JsonValue`, a parsed JSON value: opaque here.
#[verifier::external_type_specification]
#[verifier::external_body]
pub struct ExJsonValue(json::JsonValue);

/// The value that the parser reads out of `source`; `None` where it reports
/// an error.
pub uninterp spec fn json_value(source: Seq<char>) -> Option<JsonValue>;

/// The elements of an array value; `None` for every other value.
pub uninterp spec fn json_items(value: JsonValue) -> Option<Seq<JsonValue>>;

/// What a value holds under `key`: null where the value is no object or has
/// no such member.
pub uninterp spec fn json_member(value: JsonValue, key: Seq<char>) -> JsonValue;

/// The text of a string value; `None` for every other value.
pub uninterp spec fn json_text(value: JsonValue) -> Option<Seq<char>>;

/// `json::parse`: the value depends on the source text alone. The crate's
/// account of a text that does not parse is dropped.
#[verifier::external_body]
pub(crate) fn parse(source: &str) -> (parsed: Option<JsonValue>)
    ensures
        parsed == json_value(source@),
{
    json::parse(source).ok()
}

/// `json::JsonValue::as_str`: the text of a string value, short or long.
pub assume_specification<'a>[ json::JsonValue::as_str ](value: &'a JsonValue) -> (text: Option<
    &'a str,
>)
    ensures
        match text {
            Some(s) => json_text(*value) == Some(s@),
            None => json_text(*value) is None,
        },
;

/// The elements of a `json::JsonValue` that is an array: its `Array` variant
/// holds them.
#[verifier::external_body]
pub(crate) fn elements<'a>(value: &'a JsonValue) -> (items: Option<&'a Vec<JsonValue>>)
    ensures
        match items {
            Some(v) => json_items(*value) == Some(v@),
            None => json_items(*value) is None,
        },
{
    match value {
        JsonValue::Array(items) => Some(items),
        _ => None,
    }
}

/// Indexing a value by a string key (`Index<&str>` of `json::JsonValue`):
/// the member stored under that key.
#[verifier::external_body]
pub(crate) fn member<'a>(value: &'a JsonValue, key: &str) -> (found: &'a JsonValue)
    ensures
        *found == json_member(*value, key@),
{
    &value[key]
}

} // verus!
