use vstd::prelude::*;

verus! {

#[verifier::external_type_specification]
#[verifier::external_body]
pub struct ExJsonDocument(serde_json::Value);

/// A JSON value, held as plain values. A number keeps what it is as a signed
/// and as an unsigned integer, where it is one.
#[derive(Debug)]
pub enum JsonValue {
    Null,
    Bool(bool),
    Number(Option<i64>, Option<u64>),
    Text(String),
    Array(Vec<JsonValue>),
    Object(Vec<(String, JsonValue)>),
}

/// The document that a JSON text holds, where the text is well-formed.
pub uninterp spec fn json_document(text: Seq<char>) -> Option<serde_json::Value>;

/// A document as a tree of plain values.
pub uninterp spec fn json_tree(document: serde_json::Value) -> JsonValue;

/// `serde_json::from_str` for `serde_json::Value`: the document that `text`
/// holds, a function of `text`; none where `text` is not well-formed JSON.
#[verifier::external_body]
pub(crate) fn parse_document(text: &str) -> (r: Option<serde_json::Value>)
    ensures
        r == json_document(text@),
{
    serde_json::from_str::<serde_json::Value>(text).ok()
}

/// Copies a `serde_json::Value` into a tree of plain values, variant by
/// variant; a number through `Number::as_i64` and `Number::as_u64`, the
/// members of an object in the order in which the document hands them out.
/// The tree is a function of the document.
#[verifier::external_body]
pub(crate) fn tree_of(document: &serde_json::Value) -> (r: JsonValue)
    ensures
        r == json_tree(*document),
{
    match document {
        serde_json::Value::Null => JsonValue::Null,
        serde_json::Value::Bool(b) => JsonValue::Bool(*b),
        serde_json::Value::Number(n) => JsonValue::Number(n.as_i64(), n.as_u64()),
        serde_json::Value::String(s) => JsonValue::Text(s.clone()),
        serde_json::Value::Array(items) => JsonValue::Array(items.iter().map(tree_of).collect()),
        serde_json::Value::Object(members) => JsonValue::Object(
            members.iter().map(|(k, v)| (k.clone(), tree_of(v))).collect(),
        ),
    }
}

/// The tree of the document that a JSON text holds.
pub open spec fn spec_load(text: Seq<char>) -> Option<JsonValue> {
    match json_document(text) {
        Some(document) => Some(json_tree(document)),
        None => None,
    }
}

/// Reads a JSON text into a tree of plain values; none where the text is not
/// well-formed JSON.
pub fn load(text: &str) -> (r: Option<JsonValue>)
    ensures
        r == spec_load(text@),
{
    match parse_document(text) {
        Some(document) => Some(tree_of(&document)),
        None => None,
    }
}

} // verus!
