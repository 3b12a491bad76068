//! JSON text: parsing a reply body and rendering a request body, both done
//! by `serde_json`. The results are named here; the code that reads replies
//! and builds bodies is verified against those names.

use vstd::prelude::*;
use crate::json::{Json, JsonNumber, JsonView};
use serde_json::Value;

verus! {

/// `serde_json`'s dynamically typed JSON value.
#[verifier::external_type_specification]
#[verifier::external_body]
pub struct ExValue(Value);

/// What `serde_json` parses a text into, as a value of the library; none
/// when the text is not JSON.
pub uninterp spec fn parsed_json(text: Seq<char>) -> Option<JsonView>;

/// The message of `serde_json`'s error for a text that is not JSON.
pub uninterp spec fn parse_error_text(text: Seq<char>) -> Seq<char>;

/// The compact JSON text `serde_json` renders a value as.
pub uninterp spec fn rendered_json(v: JsonView) -> Seq<char>;

/// The library's value of a `serde_json` value, one for one. A
/// `serde_json` number is held as a non-negative integer, a negative
/// integer or a float, which `as_u64` and `as_i64` tell apart; a float
/// keeps `serde_json`'s text of it.
#[verifier::external_body]
fn from_value(v: &Value) -> Json {
    match v {
        Value::Null => Json::Null,
        Value::Bool(b) => Json::Bool(*b),
        Value::Number(n) => Json::Number(match (n.as_u64(), n.as_i64()) {
            (Some(u), _) => JsonNumber::PosInt(u),
            (None, Some(i)) => JsonNumber::NegInt(i),
            _ => JsonNumber::Float(n.to_string()),
        }),
        Value::String(s) => Json::Str(s.clone()),
        Value::Array(a) => Json::Array(a.iter().map(from_value).collect()),
        Value::Object(m) => Json::Object(m.iter().map(|(k, x)| (k.clone(), from_value(x))).collect()),
    }
}

/// The `serde_json` value of a value of the library, one for one; a later
/// entry of an object replaces an earlier one of the same key.
#[verifier::external_body]
fn to_value(j: &Json) -> Value {
    match j {
        Json::Null => Value::Null,
        Json::Bool(b) => Value::Bool(*b),
        Json::Number(JsonNumber::PosInt(u)) => Value::from(*u),
        Json::Number(JsonNumber::NegInt(i)) => Value::from(*i),
        Json::Number(JsonNumber::Float(t)) => t.parse::<serde_json::Number>().map(Value::Number).unwrap_or(Value::Null),
        Json::Str(s) => Value::String(s.clone()),
        Json::Array(a) => Value::Array(a.iter().map(to_value).collect()),
        Json::Object(e) => Value::Object(e.iter().map(|(k, v)| (k.clone(), to_value(v))).collect()),
    }
}

/// Parses JSON text with `serde_json::from_str`. The contract claims that
/// the outcome depends on the text alone: the value it is parsed into, or
/// the message of the parser's error.
#[verifier::external_body]
pub fn parse_json(text: &str) -> (r: Result<Json, String>)
    ensures
        r matches Ok(j) ==> parsed_json(text@) == Some(j@),
        r matches Err(m) ==> parsed_json(text@) is None && m@ == parse_error_text(text@),
{
    match serde_json::from_str::<Value>(text) {
        Ok(v) => Ok(from_value(&v)),
        Err(e) => Err(e.to_string()),
    }
}

/// Renders a value as compact JSON text with `serde_json::to_string`. The
/// contract claims that the text depends on the value alone.
#[verifier::external_body]
pub fn render_json(j: &Json) -> (r: String)
    ensures
        r@ == rendered_json(j@),
{
    serde_json::to_string(&to_value(j)).unwrap_or_default()
}

} // verus!
