//! JSON as the components read it.

use crate::text::texts;
use vstd::prelude::*;

verus! {

/// A field of a JSON object.
#[derive(Debug)]
pub enum JsonField {
    Missing,
    Null,
    Text(String),
    /// A value that is neither null nor a string, as JSON text.
    Other(String),
}

/// The content of a JSON field.
pub enum JsonFieldView {
    Missing,
    Null,
    Text(Seq<char>),
    Other(Seq<char>),
}

impl View for JsonField {
    type V = JsonFieldView;

    open spec fn view(&self) -> JsonFieldView {
        match *self {
            JsonField::Missing => JsonFieldView::Missing,
            JsonField::Null => JsonFieldView::Null,
            JsonField::Text(text) => JsonFieldView::Text(text@),
            JsonField::Other(text) => JsonFieldView::Other(text@),
        }
    }
}

/// The field that `serde_json` reads under the key in the JSON text; missing when the text is no
/// JSON object.
pub uninterp spec fn json_field(json: Seq<char>, key: Seq<char>) -> JsonFieldView;

/// The integer that `serde_json` reads under the key in the JSON text, if it is one that fits.
pub uninterp spec fn json_integer(json: Seq<char>, key: Seq<char>) -> Option<i64>;

/// The JSON text as `serde_json` writes it; empty when the text is no JSON.
pub uninterp spec fn json_compact(json: Seq<char>) -> Seq<char>;

/// Reads a field with `serde_json::from_str` and `serde_json::Value::get`, and writes a value that
/// is neither null nor a string with its `to_string`.
#[verifier::external_body]
pub(crate) fn read_json_field(json: &str, key: &str) -> (r: JsonField)
    ensures
        r@ == json_field(json@, key@),
{
    let value: serde_json::Value = serde_json::from_str(json).unwrap_or_default();
    match value.get(key) {
        None => JsonField::Missing,
        Some(serde_json::Value::Null) => JsonField::Null,
        Some(serde_json::Value::String(text)) => JsonField::Text(text.clone()),
        Some(other) => JsonField::Other(other.to_string()),
    }
}

/// Reads an integer with `serde_json::from_str`, `serde_json::Value::get` and
/// `serde_json::Value::as_i64`.
#[verifier::external_body]
pub(crate) fn read_json_integer(json: &str, key: &str) -> (r: Option<i64>)
    ensures
        r == json_integer(json@, key@),
{
    let value: serde_json::Value = serde_json::from_str(json).unwrap_or_default();
    value.get(key)?.as_i64()
}

/// Reads JSON text with `serde_json::from_str` and writes it with `serde_json::to_string`.
#[verifier::external_body]
pub(crate) fn write_json_compact(json: &str) -> (r: String)
    ensures
        r@ == json_compact(json@),
{
    match serde_json::from_str::<serde_json::Value>(json) {
        Ok(value) => serde_json::to_string(&value).unwrap_or_default(),
        Err(_) => String::new(),
    }
}

/// The keys of the JSON object in the text, in the order in which `serde_json` keeps them, if it is
/// one.
pub uninterp spec fn json_keys(json: Seq<char>) -> Option<Seq<Seq<char>>>;

/// The items of the JSON array in the text, as JSON texts, if it is one.
pub uninterp spec fn json_items(json: Seq<char>) -> Option<Seq<Seq<char>>>;

/// The string in the JSON text, if it is one.
pub uninterp spec fn json_string(json: Seq<char>) -> Option<Seq<char>>;

/// Whether `serde_json` reads the text as JSON.
pub uninterp spec fn is_json(text: Seq<char>) -> bool;

/// Whether `serde_json::from_str` reads the text as a `serde_json::Value`.
#[verifier::external_body]
pub(crate) fn check_json(text: &str) -> (r: bool)
    ensures
        r == is_json(text@),
{
    serde_json::from_str::<serde_json::Value>(text).is_ok()
}

/// The contents of an optional list of texts.
pub open spec fn opt_texts(list: Option<Vec<String>>) -> Option<Seq<Seq<char>>> {
    match list {
        Some(l) => Some(texts(l@)),
        None => None,
    }
}

/// Reads the keys of an object with `serde_json::from_str` and `serde_json::Value::as_object`. What
/// is no JSON has none.
#[verifier::external_body]
pub(crate) fn read_json_keys(json: &str) -> (r: Option<Vec<String>>)
    ensures
        opt_texts(r) == json_keys(json@),
        r is Some ==> is_json(json@),
{
    let value: serde_json::Value = serde_json::from_str(json).ok()?;
    Some(value.as_object()?.keys().cloned().collect())
}

/// Reads the items of an array with `serde_json::from_str` and `serde_json::Value::as_array`, and
/// writes each with its `to_string`.
#[verifier::external_body]
pub(crate) fn read_json_items(json: &str) -> (r: Option<Vec<String>>)
    ensures
        opt_texts(r) == json_items(json@),
{
    let value: serde_json::Value = serde_json::from_str(json).ok()?;
    Some(value.as_array()?.iter().map(serde_json::Value::to_string).collect())
}

/// Reads a string with `serde_json::from_str` and `serde_json::Value::as_str`.
#[verifier::external_body]
pub(crate) fn read_json_string(json: &str) -> (r: Option<String>)
    ensures
        match r {
            Some(text) => json_string(json@) == Some(text@),
            None => json_string(json@) is None,
        },
{
    let value: serde_json::Value = serde_json::from_str(json).ok()?;
    value.as_str().map(str::to_owned)
}

} // verus!
