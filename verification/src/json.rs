//! Reading JSON text into the resolver's document tree.
//!
//! Parsing is delegated to `serde_json`; everything the resolver does with
//! the parsed document happens on [`DocValue`] and is verified.

use vstd::prelude::*;

use crate::doc::DocValue;

verus! {

#[verifier::external_type_specification]
#[verifier::external_body]
pub struct ExJsonValue(serde_json::Value);

/// The document tree that a `serde_json::Value` holds.
pub uninterp spec fn json_tree(v: serde_json::Value) -> DocValue;

/// The document tree that `serde_json` reads out of the text `s`, or `None`
/// when it rejects the text.
pub uninterp spec fn parsed_json(s: Seq<char>) -> Option<DocValue>;

/// Relies on `serde_json::from_str::<serde_json::Value>`: a function of the
/// text alone, `Ok` exactly on text it accepts as one JSON document, with
/// the document's value.
#[verifier::external_body]
fn parse_json_value(s: &str) -> (r: Option<serde_json::Value>)
    ensures
        r matches Some(v) ==> parsed_json(s@) == Some(json_tree(v)),
        r is None <==> parsed_json(s@) is None,
{
    match serde_json::from_str::<serde_json::Value>(s) {
        Ok(v) => Some(v),
        Err(_) => None,
    }
}

/// Relies on the variants of `serde_json::Value`: strings and arrays are
/// copied into the tree as they stand, an object contributes one pair per
/// key in the map's own order, and every other variant becomes an unread
/// scalar.
#[verifier::external_body]
fn json_value_tree(v: &serde_json::Value) -> (r: DocValue)
    ensures
        r == json_tree(*v),
{
    match v {
        serde_json::Value::Null => DocValue::Scalar,
        serde_json::Value::Bool(_) => DocValue::Scalar,
        serde_json::Value::Number(_) => DocValue::Scalar,
        serde_json::Value::String(s) => DocValue::Text(s.clone()),
        serde_json::Value::Array(a) => DocValue::Array(a.iter().map(json_value_tree).collect()),
        serde_json::Value::Object(m) => DocValue::Object(
            m.iter().map(|(k, x)| (k.clone(), json_value_tree(x))).collect(),
        ),
    }
}

/// Parses JSON text into the resolver's document tree.
pub fn parse_json_document(s: &str) -> (r: Option<DocValue>)
    ensures
        r == parsed_json(s@),
{
    match parse_json_value(s) {
        Some(v) => Some(json_value_tree(&v)),
        None => None,
    }
}

} // verus!
