//! JSON values as the status decoder sees them. Text is parsed by serde_json;
//! what a parsed value holds is described by `JsonModel`.
use vstd::prelude::*;
use vstd::utf8::{decode_utf8, valid_utf8};

verus! {

#[verifier::external_type_specification]
#[verifier::external_body]
pub struct ExValue(serde_json::Value);

#[verifier::external_type_specification]
#[verifier::external_body]
pub struct ExJsonError(serde_json::Error);

/// What a JSON value holds. Numbers are either integers, which serde_json
/// keeps exactly, or other numbers, whose value the decoder never reads.
pub enum JsonModel {
    Null,
    Bool(bool),
    Int(int),
    OtherNumber,
    Str(Seq<char>),
    Array(Seq<JsonModel>),
    Object(Map<Seq<char>, JsonModel>),
}

/// What serde_json makes of a text: the value it holds, or nothing where it
/// is not one JSON value.
pub uninterp spec fn parsed_json(text: Seq<char>) -> Option<JsonModel>;

/// What a parsed serde_json value holds.
pub uninterp spec fn json_model(v: serde_json::Value) -> JsonModel;

/// The member `key` of an object.
pub open spec fn member_spec(m: JsonModel, key: Seq<char>) -> Option<JsonModel> {
    match m {
        JsonModel::Object(o) => if o.contains_key(key) {
            Some(o[key])
        } else {
            None
        },
        _ => None,
    }
}

/// The text of a string.
pub open spec fn str_spec(m: JsonModel) -> Option<Seq<char>> {
    match m {
        JsonModel::Str(s) => Some(s),
        _ => None,
    }
}

/// An integer that fits in an `i64`.
pub open spec fn i64_spec(m: JsonModel) -> Option<int> {
    match m {
        JsonModel::Int(n) => if i64::MIN <= n <= i64::MAX {
            Some(n)
        } else {
            None
        },
        _ => None,
    }
}

/// Relies on std::str::from_utf8: it accepts exactly the valid UTF-8 byte
/// sequences, and the text it gives back is their decoding.
#[verifier::external_body]
pub(crate) fn utf8_text(bytes: &[u8]) -> (r: Option<&str>)
    ensures
        (r is Some) == valid_utf8(bytes@),
        r matches Some(s) ==> s@ == decode_utf8(bytes@),
{
    std::str::from_utf8(bytes).ok()
}

/// Relies on serde_json::from_str, read as a `serde_json::Value`: it parses
/// one JSON value from the text, and fails where the text is not one.
#[verifier::external_body]
pub(crate) fn parse_value(text: &str) -> (r: Result<serde_json::Value, serde_json::Error>)
    ensures
        (r is Ok) == (parsed_json(text@) is Some),
        r matches Ok(v) ==> parsed_json(text@) == Some(json_model(v)),
{
    serde_json::from_str::<serde_json::Value>(text)
}

/// Relies on serde_json::Value::get with a string key: the member of that
/// name where the value is an object holding one, and nothing otherwise.
#[verifier::external_body]
pub(crate) fn member<'v>(v: &'v serde_json::Value, key: &str) -> (r: Option<&'v serde_json::Value>)
    ensures
        (r is Some) == (member_spec(json_model(*v), key@) is Some),
        r matches Some(m) ==> member_spec(json_model(*v), key@) == Some(json_model(*m)),
{
    v.get(key)
}

/// Relies on serde_json::Value::as_str: the text of a string value, and
/// nothing for any other value.
pub assume_specification[ serde_json::Value::as_str ](v: &serde_json::Value) -> (r: Option<&str>)
    ensures
        (r is Some) == (str_spec(json_model(*v)) is Some),
        r matches Some(s) ==> str_spec(json_model(*v)) == Some(s@),
;

/// Relies on serde_json::Value::as_i64: an integer that fits in an `i64`,
/// and nothing for any other value.
pub assume_specification[ serde_json::Value::as_i64 ](v: &serde_json::Value) -> (r: Option<i64>)
    ensures
        (r is Some) == (i64_spec(json_model(*v)) is Some),
        r matches Some(n) ==> i64_spec(json_model(*v)) == Some(n as int),
;

/// Relies on serde_json::Value::as_array: the elements of an array value, in
/// order, and nothing for any other value.
pub assume_specification[ serde_json::Value::as_array ](v: &serde_json::Value) -> (r: Option<&Vec<serde_json::Value>>)
    ensures
        (r is Some) == (json_model(*v) is Array),
        r matches Some(a) ==> json_model(*v) == JsonModel::Array(
            a@.map_values(|e: serde_json::Value| json_model(e)),
        ),
;

} // verus!
