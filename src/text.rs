//! The text form of JSON values, as the command fields and environment
//! values carry them.
use vstd::prelude::*;

use crate::json::Json;

verus! {

/// What serde_json writes for a value in its compact form.
pub uninterp spec fn json_text(j: Json) -> Seq<char>;

/// A serde_json value, carried as it is.
#[verifier::external_type_specification]
#[verifier::external_body]
pub struct ExValue(serde_json::Value);

/// Relies on serde_json's `Value` constructors and on parsing a
/// `serde_json::Number` from its literal; a literal that does not parse
/// becomes a string. Nothing is claimed of the result.
#[verifier::external_body]
fn to_value(j: &Json) -> serde_json::Value {
    match j {
        Json::Null => serde_json::Value::Null,
        Json::Bool(b) => serde_json::Value::Bool(*b),
        Json::Number(t) => match t.parse::<serde_json::Number>() {
            Ok(n) => serde_json::Value::Number(n),
            Err(_) => serde_json::Value::String(t.clone()),
        },
        Json::Str(s) => serde_json::Value::String(s.clone()),
        Json::Array(items) => serde_json::Value::Array(items.iter().map(to_value).collect()),
        Json::Object(e) => serde_json::Value::Object(e.iter().map(|(k, v)| (k.clone(), to_value(v))).collect()),
    }
}

/// Relies on the `Display` of serde_json::Value: the compact JSON text of
/// the value that `j` converts to.
#[verifier::external_body]
fn compact_text(j: &Json) -> (r: String)
    ensures
        r@ == json_text(*j),
{
    to_value(j).to_string()
}

/// The text that a field value stands for in an argument list or a header:
/// nothing for null, `true` or `false`, a number's literal, a string itself,
/// and the JSON text of an array or an object.
pub open spec fn field_text(j: Json) -> Seq<char> {
    match j {
        Json::Null => Seq::empty(),
        _ => env_text(j),
    }
}

/// The text that a value stands for in an environment mapping: `null`,
/// `true` or `false`, a number's literal, a string itself, and the JSON text
/// of an array or an object.
pub open spec fn env_text(j: Json) -> Seq<char> {
    match j {
        Json::Null => "null"@,
        Json::Bool(b) => if b {
            "true"@
        } else {
            "false"@
        },
        Json::Number(t) => t@,
        Json::Str(s) => s@,
        _ => json_text(j),
    }
}

/// Writes the text of `j` in an argument list or a header.
pub fn to_field_text(j: &Json) -> (r: String)
    ensures
        r@ == field_text(*j),
{
    match j {
        Json::Null => String::new(),
        _ => to_env_text(j),
    }
}

/// Writes the text of `j` as an environment value.
pub fn to_env_text(j: &Json) -> (r: String)
    ensures
        r@ == env_text(*j),
{
    match j {
        Json::Null => String::from_str("null"),
        Json::Bool(b) => if *b {
            String::from_str("true")
        } else {
            String::from_str("false")
        },
        Json::Number(t) => t.clone(),
        Json::Str(s) => s.clone(),
        _ => compact_text(j),
    }
}

} // verus!
