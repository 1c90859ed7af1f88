//! Reading JSON text into a document, by way of `serde_json`.

use vstd::prelude::*;
use crate::error::{CodecError, ErrorKind, Failure, FailureKind};
use crate::json::{Json, JsonModel, Number};
use crate::schema::Normal;
use serde_json::Value;

verus! {

/// A parsed document as `serde_json` holds it.
#[verifier::external_type_specification]
#[verifier::external_body]
pub struct ExValue(Value);

/// The document that `serde_json::from_str` reads from `text`, or `None` where
/// it reports an error.
pub uninterp spec fn document_of(text: Seq<char>) -> Option<JsonModel>;

/// The document that a `serde_json::Value` holds: its variants one for one,
/// array items and object fields in the order in which the value iterates
/// them, and a number as `as_u64`, `as_i64` or `as_f64` gives it.
pub uninterp spec fn value_model(value: Value) -> JsonModel;

/// The bit pattern of the binary64 number that `serde_json::Number::as_f64`
/// gives for the integer `n`.
pub uninterp spec fn float_of_int(n: int) -> u64;

/// Calls `serde_json::from_str` for a `serde_json::Value`. The result is
/// `None` where the call reports an error, and the parsed value otherwise;
/// the same text always reads as the same document.
#[verifier::external_body]
fn parse_value(text: &str) -> (r: Option<Value>)
    ensures
        match r {
            Some(value) => document_of(text@) == Some(value_model(value)),
            None => document_of(text@) is None,
        },
{
    serde_json::from_str::<Value>(text).ok()
}

/// Moves a `serde_json::Value` into a [`Json`], variant by variant. A number
/// is taken apart with `as_u64`, `as_i64` and `as_f64`: an unsigned integer
/// where the first answers, a signed one where the second does, and the bits
/// of the floating-point number otherwise. The result holds exactly what the
/// value held.
#[verifier::external_body]
fn json_of_value(value: Value) -> (r: Json)
    ensures
        r@ == value_model(value),
{
    match value {
        Value::Null => Json::Null,
        Value::Bool(b) => Json::Bool(b),
        Value::Number(n) => Json::Number(
            n.as_u64().map(Number::PosInt).or(n.as_i64().map(Number::NegInt)).unwrap_or(
                Number::Float(n.as_f64().unwrap_or_default().to_bits()),
            ),
        ),
        Value::String(s) => Json::Text(s),
        Value::Array(a) => Json::Array(a.into_iter().map(json_of_value).collect()),
        Value::Object(o) => Json::Object(
            o.into_iter().map(|(k, v)| (k, json_of_value(v))).collect(),
        ),
    }
}

/// Converts an unsigned integer to floating point with
/// `serde_json::Number::as_f64`, which rounds to the nearest binary64 number.
#[verifier::external_body]
pub(crate) fn unsigned_as_float(n: u64) -> (r: u64)
    ensures
        r == float_of_int(n as int),
{
    serde_json::Number::from(n).as_f64().unwrap_or_default().to_bits()
}

/// Converts a signed integer to floating point with
/// `serde_json::Number::as_f64`, which rounds to the nearest binary64 number.
#[verifier::external_body]
pub(crate) fn signed_as_float(n: i64) -> (r: u64)
    ensures
        r == float_of_int(n as int),
{
    serde_json::Number::from(n).as_f64().unwrap_or_default().to_bits()
}

/// What reading `text` comes to: the document, or the failure that says that
/// the text is no JSON.
pub open spec fn parsed(text: Seq<char>) -> Normal {
    match document_of(text) {
        Some(document) => Ok(document),
        None => Err(Failure::at_root(FailureKind::MalformedInput)),
    }
}

impl Json {
    /// Reads a JSON text.
    pub fn parse(text: &str) -> (r: Result<Json, CodecError>)
        ensures
            match r {
                Ok(document) => parsed(text@) == Normal::Ok(document@),
                Err(e) => parsed(text@) == Normal::Err(e@),
            },
    {
        match parse_value(text) {
            Some(value) => Ok(json_of_value(value)),
            None => Err(CodecError::at_root(ErrorKind::MalformedInput)),
        }
    }
}

} // verus!
