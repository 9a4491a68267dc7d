//! The JSON values that travel through the protocol.

use vstd::prelude::*;

verus! {

/// A JSON value. Numbers keep the text that the parser printed for them, and
/// an object keeps its members in the parser's order.
#[derive(Debug, PartialEq)]
pub enum Json {
    Null,
    Bool(bool),
    Number(String),
    Str(String),
    Array(Vec<Json>),
    Object(Vec<(String, Json)>),
}

/// What `serde_json` makes of a byte slice: the document, or the text of its error.
pub uninterp spec fn json_of_bytes(b: Seq<u8>) -> Result<Json, Seq<char>>;

#[verifier::external_type_specification]
#[verifier::external_body]
pub struct ExValue(serde_json::Value);

/// Moves a parsed `serde_json::Value` into a `Json`, node by node; relies on
/// the variants of `serde_json::Value` and on the `Display` of
/// `serde_json::Number` for the text of a number.
#[verifier::external_body]
fn json_from_value(v: serde_json::Value) -> Json {
    match v {
        serde_json::Value::Null => Json::Null,
        serde_json::Value::Bool(b) => Json::Bool(b),
        serde_json::Value::Number(n) => Json::Number(n.to_string()),
        serde_json::Value::String(s) => Json::Str(s),
        serde_json::Value::Array(a) => Json::Array(a.into_iter().map(json_from_value).collect()),
        serde_json::Value::Object(m) => Json::Object(
            m.into_iter().map(|(k, e)| (k, json_from_value(e))).collect(),
        ),
    }
}

/// Relies on `serde_json::from_slice`: parses one JSON document, or reports why not.
#[verifier::external_body]
pub(crate) fn parse_json(bytes: &[u8]) -> (r: Result<Json, String>)
    ensures
        match r {
            Ok(j) => json_of_bytes(bytes@) == Ok::<Json, Seq<char>>(j),
            Err(e) => json_of_bytes(bytes@) == Err::<Json, Seq<char>>(e@),
        },
{
    serde_json::from_slice::<serde_json::Value>(bytes).map(json_from_value).map_err(|e| e.to_string())
}

/// Whether `s` spells `name`.
pub(crate) fn same_text(s: &String, name: &str) -> (r: bool)
    ensures
        r == (s@ == name@),
{
    let n = String::from_str(name);
    *s == n
}

/// The member `key` of an object's member list; a later member hides an earlier one.
pub open spec fn member(fields: Seq<(String, Json)>, key: Seq<char>) -> Option<Json>
    decreases fields.len(),
{
    if fields.len() == 0 {
        None
    } else if fields.last().0@ == key {
        Some(fields.last().1)
    } else {
        member(fields.drop_last(), key)
    }
}

/// An optional member as a request reads it: absent and `null` both count as missing.
pub open spec fn present(v: Option<Json>) -> Option<Json> {
    match v {
        Some(Json::Null) => None,
        other => other,
    }
}

} // verus!
