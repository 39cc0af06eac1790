//! Structured text: decoding it into canonical values and writing canonical
//! values back, both done by `serde_json`.

use crate::value::{CanonicalValue, Number, ValueView};
use serde_json::Value;
use vstd::prelude::*;

verus! {

#[verifier::external_type_specification]
#[verifier::external_body]
pub struct ExJsonValue(serde_json::Value);

#[verifier::external_type_specification]
#[verifier::external_body]
pub struct ExJsonError(serde_json::Error);

/// The canonical content that `serde_json::from_str` reads from a text, or
/// `None` where it rejects the text.
pub uninterp spec fn decoded(text: Seq<char>) -> Option<ValueView>;

/// The text that `serde_json::to_string` writes for a value, or `None` where
/// the value cannot be written.
pub uninterp spec fn json_text(value: ValueView) -> Option<Seq<char>>;

/// The decimal text in which `serde_json` prints the float that `digits`
/// denote, or `None` where they denote no finite float.
pub uninterp spec fn literal_float_text(digits: Seq<char>) -> Option<Seq<char>>;

/// Converts one `serde_json::Value` into a canonical value, variant by
/// variant; a number becomes an `Int` where `as_i64` gives one, a `UInt`
/// where only `as_u64` does, and otherwise the text that its `Display` prints.
#[verifier::external_body]
fn lift(v: &Value) -> CanonicalValue {
    match v {
        Value::Null => CanonicalValue::Null,
        Value::Bool(b) => CanonicalValue::Bool(*b),
        Value::Number(n) => CanonicalValue::Number(match (n.as_i64(), n.as_u64()) {
            (Some(i), _) => Number::Int(i),
            (None, Some(u)) => Number::UInt(u),
            _ => Number::Float(n.to_string()),
        }),
        Value::String(s) => CanonicalValue::String(s.clone()),
        Value::Array(a) => CanonicalValue::Array(a.iter().map(lift).collect()),
        Value::Object(m) => CanonicalValue::Object(m.iter().map(|(k, x)| (k.clone(), lift(x))).collect()),
    }
}

/// Converts a canonical value into a `serde_json::Value`, variant by
/// variant; the text of a float is read back by `serde_json::from_str`,
/// whose error is handed on.
#[verifier::external_body]
fn lower(value: &CanonicalValue) -> Result<Value, serde_json::Error> {
    Ok(match value {
        CanonicalValue::Null => Value::Null,
        CanonicalValue::Bool(b) => Value::Bool(*b),
        CanonicalValue::Number(Number::Int(i)) => Value::from(*i),
        CanonicalValue::Number(Number::UInt(u)) => Value::from(*u),
        CanonicalValue::Number(Number::Float(t)) => Value::Number(serde_json::from_str(t)?),
        CanonicalValue::String(s) => Value::String(s.clone()),
        CanonicalValue::Array(items) => Value::Array(items.iter().map(lower).collect::<Result<_, _>>()?),
        CanonicalValue::Object(fields) => lower_fields(fields)?,
    })
}

/// Converts the fields of an object into a `serde_json::Value::Object`;
/// the crate's map keeps one entry per key, the last one given.
#[verifier::external_body]
fn lower_fields(fields: &Vec<(String, CanonicalValue)>) -> Result<Value, serde_json::Error> {
    let entries = fields.iter().map(|f| lower(&f.1).map(|x| (f.0.clone(), x)));
    entries.collect::<Result<_, _>>().map(Value::Object)
}

/// Calls `serde_json::from_str` for a `serde_json::Value` and converts what
/// it read. The contract names the result; it adds that the keys of every
/// object come out in ascending order, as the crate's map, a `BTreeMap`
/// keyed by `String`, hands them out.
#[verifier::external_body]
pub(crate) fn decode_value(text: &str) -> (r: Result<CanonicalValue, serde_json::Error>)
    ensures
        r is Ok <==> decoded(text@) is Some,
        r matches Ok(v) ==> decoded(text@) == Some(v@) && v@.well_formed(),
{
    serde_json::from_str::<Value>(text).map(|v| lift(&v))
}

/// Writes a canonical value as structured text: converts the value and
/// calls `serde_json::to_string` on it. The contract names the result. It
/// adds that a value without floats is written: `to_string` fails only
/// where a `Serialize` impl does or a map has keys that are no strings,
/// neither of which a `serde_json::Value` does, so that only the text of
/// a float, which is read back first, can fail.
#[verifier::external_body]
pub fn serialize_json(value: &CanonicalValue) -> (r: Result<String, serde_json::Error>)
    ensures
        r is Ok <==> json_text(value@) is Some,
        r matches Ok(s) ==> json_text(value@) == Some(s@),
        value@.float_free() ==> r is Ok,
{
    serde_json::to_string(&lower(value)?)
}

/// The message of a `serde_json::Error`, as its `Display` prints it.
#[verifier::external_body]
pub(crate) fn describe(e: &serde_json::Error) -> (s: String) {
    e.to_string()
}

/// Reads `digits` as a float by `str::parse`, makes a number of it by
/// `serde_json::Number::from_f64`, which refuses what is not finite, and
/// prints that number. The contract names the result.
#[verifier::external_body]
pub(crate) fn float_literal(digits: &str) -> (r: Option<String>)
    ensures
        r is Some <==> literal_float_text(digits@) is Some,
        r matches Some(t) ==> literal_float_text(digits@) == Some(t@),
{
    digits.parse().ok().and_then(serde_json::Number::from_f64).map(|n| n.to_string())
}

} // verus!
