//! What is said of values that do not fit what is read from them.

use vstd::prelude::*;

use serde::de::Unexpected;

use crate::json::Json;
use crate::json::JsonView;
use crate::text::quote;
use crate::text::u64_text;
use crate::yaml::bool_to_text;
use crate::yaml::Number;
use crate::yaml::NumberView;

verus! {

/// A value of the wrong kind.
pub open spec fn wrong_kind(found: Seq<char>, expected: Seq<char>) -> Seq<char> {
    "invalid type: "@ + found + ", expected "@ + expected
}

/// A sequence of the wrong length.
pub open spec fn wrong_length(len: nat, expected: Seq<char>) -> Seq<char> {
    "invalid length "@ + crate::text::digits(len) + ", expected "@ + expected
}

/// A field that is not there.
pub open spec fn missing_field(name: Seq<char>) -> Seq<char> {
    "missing field `"@ + name + "`"@
}

/// A text.
pub open spec fn found_text(s: Seq<char>) -> Seq<char> {
    "string "@ + crate::text::quoted(s)
}

/// A value of the wrong kind.
pub fn wrong_kind_message(found: &str, expected: &str) -> (r: String)
    ensures
        r@ == wrong_kind(found@, expected@),
{
    let mut m = "invalid type: ".to_owned();
    m.append(found);
    m.append(", expected ");
    m.append(expected);
    m
}

/// A sequence of the wrong length.
pub fn wrong_length_message(len: usize, expected: &str) -> (r: String)
    ensures
        r@ == wrong_length(len as nat, expected@),
{
    let mut m = "invalid length ".to_owned();
    m.append(u64_text(len as u64).as_str());
    m.append(", expected ");
    m.append(expected);
    m
}

/// A field that is not there.
pub fn missing_field_message(name: &str) -> (r: String)
    ensures
        r@ == missing_field(name@),
{
    let mut m = "missing field `".to_owned();
    m.append(name);
    m.append("`");
    m
}

/// A text.
pub fn found_text_message(s: &str) -> (r: String)
    ensures
        r@ == found_text(s@),
{
    let mut m = "string ".to_owned();
    m.append(quote(s).as_str());
    m
}

// ---------------------------------------------------------------------------
// JSON
// ---------------------------------------------------------------------------

/// What `serde_json` says of the binary64 number that a text reads as, where
/// something else was expected.
pub uninterp spec fn wrong_float(text: Seq<char>, expected: Seq<char>) -> Seq<char>;

/// `invalid_type` of `serde_json::Error`, with the binary64 number that a text
/// reads as, and its `Display`: the text of the error. What it gives depends on
/// the two texts alone.
#[verifier::external_body]
fn wrong_float_message(text: &str, expected: &str) -> (r: String)
    ensures
        r@ == wrong_float(text@, expected@),
{
    let found = text.parse().map_or(Unexpected::Str(text), Unexpected::Float);
    let error: serde_json::Error = serde::de::Error::invalid_type(found, &expected);
    error.to_string()
}

/// A JSON value, by its kind and what it holds. A binary64 number is not told
/// here.
pub open spec fn json_found(v: JsonView) -> Seq<char> {
    match v {
        JsonView::Null => "null"@,
        JsonView::Bool(b) => "boolean `"@ + crate::yaml::bool_text(b) + "`"@,
        JsonView::Number(n) => "integer `"@ + crate::yaml::number_text(n) + "`"@,
        JsonView::String(s) => found_text(s),
        JsonView::Array(_) => "sequence"@,
        JsonView::Object(_) => "map"@,
    }
}

/// A JSON value of the wrong kind.
pub open spec fn wrong_json(v: JsonView, expected: Seq<char>) -> Seq<char> {
    match v {
        JsonView::Number(NumberView::Float(t)) => wrong_float(t, expected),
        _ => wrong_kind(json_found(v), expected),
    }
}

/// A JSON value of the wrong kind.
pub fn wrong_json_message(v: &Json, expected: &str) -> (r: String)
    ensures
        r@ == wrong_json(v@, expected@),
{
    let found = match v {
        Json::Null => "null".to_owned(),
        Json::Bool(b) => {
            let mut m = "boolean `".to_owned();
            m.append(bool_to_text(*b).as_str());
            m.append("`");
            m
        },
        Json::Number(n) => {
            if let Number::Float(t) = n {
                return wrong_float_message(t.as_str(), expected);
            }
            let mut m = "integer `".to_owned();
            m.append(n.to_text().as_str());
            m.append("`");
            m
        },
        Json::String(s) => found_text_message(s.as_str()),
        Json::Array(_) => "sequence".to_owned(),
        Json::Object(_) => "map".to_owned(),
    };
    wrong_kind_message(found.as_str(), expected)
}

} // verus!
