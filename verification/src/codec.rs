//! Documents as JSON text, read and written by `serde_json`.

use crate::json::{Json, JsonView};
use vstd::prelude::*;

verus! {

/// A JSON value of `serde_json`, which this module turns into a [`Json`]
/// and back.
#[verifier::external_type_specification]
#[verifier::external_body]
pub struct ExValue(serde_json::Value);

/// The document that `serde_json` reads from a text, or nothing where it
/// takes the text for no JSON document.
pub uninterp spec fn parsed_document(text: Seq<char>) -> Option<JsonView>;

/// The text that `serde_json` writes a document as, indented.
pub uninterp spec fn rendered_document(doc: JsonView) -> Option<Seq<char>>;

/// The text that `serde_json` writes a document as, on one line.
pub uninterp spec fn compact_document(doc: JsonView) -> Option<Seq<char>>;

/// Turns a value of `serde_json` into a document, kind by kind: an integer
/// that `as_i64` gives is kept as such, any other number as the text that
/// it is displayed as, and an object as its members in the order in which
/// `serde_json` walks them. Nothing is claimed of the result here.
#[verifier::external_body]
fn from_value(v: &serde_json::Value) -> Json {
    match v {
        serde_json::Value::Null => Json::Null,
        serde_json::Value::Bool(b) => Json::Bool(*b),
        serde_json::Value::Number(n) => n.as_i64().map_or_else(|| Json::Number(n.to_string()), Json::Int),
        serde_json::Value::String(s) => Json::Str(s.clone()),
        serde_json::Value::Array(a) => Json::Array(a.iter().map(from_value).collect()),
        serde_json::Value::Object(o) => Json::Object(o.iter().map(|(k, x)| (k.clone(), from_value(x))).collect()),
    }
}

/// Turns a document into a value of `serde_json`, kind by kind. A number
/// kept as text is parsed by `Number::from_str`, and is `null` where that
/// fails; of two members with one key the later one stays. Nothing is
/// claimed of the result here.
#[verifier::external_body]
fn to_value(doc: &Json) -> serde_json::Value {
    match doc {
        Json::Null => serde_json::Value::Null,
        Json::Bool(b) => serde_json::Value::Bool(*b),
        Json::Int(i) => serde_json::Value::from(*i),
        Json::Number(t) => t.parse::<serde_json::Number>().map_or(serde_json::Value::Null, serde_json::Value::Number),
        Json::Str(s) => serde_json::Value::String(s.clone()),
        Json::Array(a) => serde_json::Value::Array(a.iter().map(to_value).collect()),
        Json::Object(o) => serde_json::Value::Object(o.iter().map(|(k, x)| (k.clone(), to_value(x))).collect()),
    }
}

/// Reads a text as a JSON document with `serde_json::from_str`.
///
/// The contract claims only that the result is a function of the text:
/// the same text gives the same document, and a text that is refused is
/// always refused.
#[verifier::external_body]
pub(crate) fn parse_document(text: &str) -> (r: Option<Json>)
    ensures
        match r {
            Some(doc) => parsed_document(text@) == Some(doc@),
            None => parsed_document(text@) is None,
        },
{
    match serde_json::from_str::<serde_json::Value>(text) {
        Ok(v) => Some(from_value(&v)),
        Err(_) => None,
    }
}

/// Writes a document as indented JSON text with
/// `serde_json::to_string_pretty`.
///
/// The contract claims only that the result is a function of the
/// document's value.
#[verifier::external_body]
pub(crate) fn render_document(doc: &Json) -> (r: Option<String>)
    ensures
        match r {
            Some(text) => rendered_document(doc@) == Some(text@),
            None => rendered_document(doc@) is None,
        },
{
    serde_json::to_string_pretty(&to_value(doc)).ok()
}

/// Writes a document as JSON text on one line with
/// `serde_json::to_string`.
///
/// The contract claims only that the result is a function of the
/// document's value.
#[verifier::external_body]
pub(crate) fn render_compact(doc: &Json) -> (r: Option<String>)
    ensures
        match r {
            Some(text) => compact_document(doc@) == Some(text@),
            None => compact_document(doc@) is None,
        },
{
    serde_json::to_string(&to_value(doc)).ok()
}

} // verus!
