use vstd::prelude::*;

use crate::error::{CommonError, ErrorCause, ErrorType};

verus! {

/// The JSON value type of `serde_json`, as the parser hands it out.
#[verifier::external_type_specification]
#[verifier::external_body]
pub struct ExJsonValue(serde_json::Value);

/// A JSON document as the library reads it. Numbers are kept as their text;
/// an object keeps its members in the parser's order, each key once.
#[derive(Debug)]
pub enum JsonValue {
    Null,
    Bool(bool),
    Number(String),
    Str(String),
    Array(Vec<JsonValue>),
    Object(Vec<(String, JsonValue)>),
}

/// The value of the first member of `entries` whose key is `key`.
pub open spec fn member(entries: Seq<(String, JsonValue)>, key: Seq<char>) -> Option<JsonValue>
    decreases entries.len(),
{
    if entries.len() == 0 {
        None
    } else if entries[0].0@ == key {
        Some(entries[0].1)
    } else {
        member(entries.drop_first(), key)
    }
}

/// `value[key]` as `serde_json` reads it: the member's value when `value`
/// is an object holding `key`, and `null` otherwise.
pub open spec fn index_key(value: JsonValue, key: Seq<char>) -> JsonValue {
    match value {
        JsonValue::Object(entries) => match member(entries@, key) {
            Some(v) => v,
            None => JsonValue::Null,
        },
        _ => JsonValue::Null,
    }
}

/// What `serde_json` reads from a text: the document, or, where the text is
/// not JSON, the error it reports for that text.
pub uninterp spec fn json_parse(text: Seq<char>) -> Result<JsonValue, serde_json::Error>;

/// The document that a `serde_json` value holds.
pub uninterp spec fn json_content(value: serde_json::Value) -> JsonValue;

/// `serde_json::from_str::<serde_json::Value>`: it succeeds exactly on the
/// texts that are JSON and then holds the document of the text; otherwise it
/// gives the error for that text. Both are functions of the text alone; the
/// contract names them.
#[verifier::external_body]
fn parse_value(text: &str) -> (r: Result<serde_json::Value, serde_json::Error>)
    ensures
        match r {
            Ok(v) => json_parse(text@) == Ok::<JsonValue, serde_json::Error>(json_content(v)),
            Err(e) => json_parse(text@) == Err::<JsonValue, serde_json::Error>(e),
        },
{
    serde_json::from_str(text)
}

/// Converts a `serde_json` value into the library's [`JsonValue`], variant
/// by variant (a number becomes its `Display` text).
#[verifier::external_body]
fn to_json_value(value: &serde_json::Value) -> (r: JsonValue)
    ensures
        r == json_content(*value),
{
    match value {
        serde_json::Value::Null => JsonValue::Null,
        serde_json::Value::Bool(b) => JsonValue::Bool(*b),
        serde_json::Value::Number(n) => JsonValue::Number(n.to_string()),
        serde_json::Value::String(s) => JsonValue::Str(s.clone()),
        serde_json::Value::Array(a) => JsonValue::Array(a.iter().map(to_json_value).collect()),
        serde_json::Value::Object(m) => JsonValue::Object(
            m.iter().map(|(k, x)| (k.clone(), to_json_value(x))).collect(),
        ),
    }
}

/// Reads a JSON text. A text that is not JSON gives a parsing error caused
/// by the `serde_json` error.
pub fn parse_json_document(text: &str) -> (r: Result<JsonValue, CommonError>)
    ensures
        match r {
            Ok(doc) => json_parse(text@) == Ok::<JsonValue, serde_json::Error>(doc),
            Err(e) => {
                &&& json_parse(text@) is Err
                &&& e.kind() == ErrorType::ParingError
                &&& e.message() == Seq::<char>::empty()
                &&& e.origin() == Some(ErrorCause::Json(json_parse(text@)->Err_0))
            },
        },
{
    match parse_value(text) {
        Ok(v) => Ok(to_json_value(&v)),
        Err(e) => Err(CommonError::from_json_error(e)),
    }
}

/// The value of the member named `key` (the first one, should there be
/// several), if any.
pub fn find_member<'a>(entries: &'a Vec<(String, JsonValue)>, key: &String) -> (r: Option<
    &'a JsonValue,
>)
    ensures
        match r {
            Some(v) => member(entries@, key@) == Some(*v),
            None => member(entries@, key@) is None,
        },
{
    let mut i: usize = 0;
    assert(entries@.skip(0) =~= entries@);
    while i < entries.len()
        invariant
            i <= entries@.len(),
            member(entries@, key@) == member(entries@.skip(i as int), key@),
        decreases entries@.len() - i,
    {
        assert(entries@.skip(i as int).drop_first() =~= entries@.skip(i + 1));
        let k: &String = &entries[i].0;
        if k.eq(key) {
            return Some(&entries[i].1);
        }
        i = i + 1;
    }
    None
}

} // verus!
