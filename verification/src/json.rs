//! JSON as `serde_json` reads and writes it: string literals, whole
//! documents parsed into the library's `Json`, and documents rendered back.
use vstd::prelude::*;
use serde_json::Value;
use crate::settings::{Json, JsonV, json_view};

verus! {

/// Lower-case hexadecimal digit of `v < 16`.
pub open spec fn hex_lower(v: u32) -> char {
    seq!['0', '1', '2', '3', '4', '5', '6', '7', '8', '9', 'a', 'b', 'c', 'd', 'e', 'f'][v as int]
}

/// How one character appears inside a JSON string literal: `"` and `\` are
/// backslash-escaped, the five control characters with a short form use it,
/// every other control character below U+0020 becomes `\u00XX`, and all other
/// characters are written as they are.
pub open spec fn json_escape_char(c: char) -> Seq<char> {
    let u = c as u32;
    if c == '"' {
        seq!['\\', '"']
    } else if c == '\\' {
        seq!['\\', '\\']
    } else if u == 0x08 {
        seq!['\\', 'b']
    } else if u == 0x09 {
        seq!['\\', 't']
    } else if u == 0x0a {
        seq!['\\', 'n']
    } else if u == 0x0c {
        seq!['\\', 'f']
    } else if u == 0x0d {
        seq!['\\', 'r']
    } else if u < 0x20 {
        seq!['\\', 'u', '0', '0', hex_lower(u / 16), hex_lower(u % 16)]
    } else {
        seq![c]
    }
}

/// The escaped body of a JSON string literal.
pub open spec fn json_escape(s: Seq<char>) -> Seq<char>
    decreases s.len(),
{
    if s.len() == 0 {
        seq![]
    } else {
        json_escape_char(s[0]) + json_escape(s.drop_first())
    }
}

/// A JSON string literal holding `s`.
pub open spec fn json_quoted(s: Seq<char>) -> Seq<char> {
    seq!['"'] + json_escape(s) + seq!['"']
}

/// `serde_json::to_string` on a `&str`: the JSON string literal holding `s`,
/// escaped as `serde_json`'s compact formatter does (its `ESCAPE` table and
/// `write_char_escape`). Serializing a string slice into the in-memory buffer
/// that `to_string` uses cannot fail, so the error arm is never taken.
#[verifier::external_body]
pub(crate) fn json_string_literal(s: &str) -> (r: String)
    ensures
        r@ == json_quoted(s@),
{
    match serde_json::to_string(s) {
        Ok(t) => t,
        Err(_) => String::new(),
    }
}

/// `serde_json`'s dynamic JSON value.
#[verifier::external_type_specification]
#[verifier::external_body]
pub struct ExJsonValue(serde_json::Value);

/// The document `serde_json::from_str::<serde_json::Value>` reads from
/// `text`, as the library's document; `None` when it refuses the text.
pub uninterp spec fn spec_parse_json(text: Seq<char>) -> Option<JsonV>;

/// The text `serde_json::to_string_pretty` writes for a document (two-space
/// indentation).
pub uninterp spec fn spec_pretty_json(v: JsonV) -> Seq<char>;

/// A `serde_json` value as the library's document, one variant for one; a
/// number keeps the text `serde_json` prints for it.
#[verifier::external_body]
fn json_of_value(v: Value) -> Json {
    match v {
        Value::Null => Json::Null,
        Value::Bool(b) => Json::Bool(b),
        Value::Number(n) => Json::Number(n.to_string()),
        Value::String(t) => Json::Str(t),
        Value::Array(a) => Json::Array(a.into_iter().map(json_of_value).collect()),
        Value::Object(m) => Json::Object(m.into_iter().map(|(k, x)| (k, json_of_value(x))).collect()),
    }
}

/// The library's document as a `serde_json` value, one variant for one; a
/// number is read back from its text (`null` if that text is no number).
#[verifier::external_body]
fn value_of_json(j: &Json) -> Value {
    match j {
        Json::Null => Value::Null,
        Json::Bool(b) => Value::Bool(*b),
        Json::Number(t) => serde_json::from_str(t).unwrap_or(Value::Null),
        Json::Str(t) => Value::String(t.clone()),
        Json::Array(a) => Value::Array(a.iter().map(value_of_json).collect()),
        Json::Object(m) => Value::Object(m.iter().map(|(k, x)| (k.clone(), value_of_json(x))).collect()),
    }
}

/// `serde_json::from_str::<serde_json::Value>` on `text`, converted to the
/// library's document: the result is the name `spec_parse_json` of the text,
/// `None` exactly where `serde_json` returns an error.
#[verifier::external_body]
pub(crate) fn parse_json(text: &str) -> (r: Option<Json>)
    ensures
        match r {
            Some(j) => spec_parse_json(text@) == Some(json_view(j)),
            None => spec_parse_json(text@) is None,
        },
{
    match serde_json::from_str::<Value>(text) {
        Ok(v) => Some(json_of_value(v)),
        Err(_) => None,
    }
}

/// `serde_json::to_string_pretty` on the document: the result is the name
/// `spec_pretty_json` of its value. Serializing a `Value` into the in-memory
/// buffer cannot fail (every key is a string), so the error arm is never taken.
#[verifier::external_body]
pub(crate) fn render_pretty_json(j: &Json) -> (r: String)
    ensures
        r@ == spec_pretty_json(json_view(*j)),
{
    match serde_json::to_string_pretty(&value_of_json(j)) {
        Ok(t) => t,
        Err(_) => String::new(),
    }
}

} // verus!
