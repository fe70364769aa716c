//! A JSON value as the stream interpreters read it: objects keep their
//! members in the order the parser hands them over, numbers keep their
//! text.

use vstd::prelude::*;

use crate::text::str_eq;

verus! {

#[derive(Debug)]
pub enum JsonValue {
    Null,
    Bool(bool),
    Number(String),
    Str(String),
    Array(Vec<JsonValue>),
    Object(Vec<(String, JsonValue)>),
}

/// The member `key` of an object (its first occurrence); `None` for a
/// missing member or a value that is not an object.
pub open spec fn jget(v: JsonValue, key: Seq<char>) -> Option<JsonValue> {
    match v {
        JsonValue::Object(ms) => member(ms@, key),
        _ => None,
    }
}

pub open spec fn member(ms: Seq<(String, JsonValue)>, key: Seq<char>) -> Option<JsonValue>
    decreases ms.len(),
{
    if ms.len() == 0 {
        None
    } else if ms[0].0@ == key {
        Some(ms[0].1)
    } else {
        member(ms.skip(1), key)
    }
}

/// The text of a string value.
pub open spec fn jstr(v: Option<JsonValue>) -> Option<Seq<char>> {
    match v {
        Some(JsonValue::Str(s)) => Some(s@),
        _ => None,
    }
}

/// The member `key` when it holds a string.
pub open spec fn jget_str(v: JsonValue, key: Seq<char>) -> Option<Seq<char>> {
    jstr(jget(v, key))
}

/// The member `key` of an object.
pub fn get<'a>(v: &'a JsonValue, key: &str) -> (r: Option<&'a JsonValue>)
    ensures
        match jget(*v, key@) {
            Some(m) => r matches Some(x) && *x == m,
            None => r is None,
        },
{
    match v {
        JsonValue::Object(ms) => {
            let mut i: usize = 0;
            assert(ms@.skip(0) =~= ms@);
            while i < ms.len()
                invariant
                    i <= ms.len(),
                    jget(*v, key@) == member(ms@, key@),
                    member(ms@, key@) == member(ms@.skip(i as int), key@),
                decreases ms.len() - i,
            {
                assert(ms@.skip(i as int)[0] == ms@[i as int]);
                assert(ms@.skip(i as int).skip(1) =~= ms@.skip(i + 1));
                if str_eq(ms[i].0.as_str(), key) {
                    return Some(&ms[i].1);
                }
                i += 1;
            }
            None
        },
        _ => None,
    }
}

/// The text of the member `key` when it holds a string.
pub fn get_str<'a>(v: &'a JsonValue, key: &str) -> (r: Option<&'a str>)
    ensures
        match jget_str(*v, key@) {
            Some(s) => r matches Some(x) && x@ == s,
            None => r is None,
        },
{
    match get(v, key) {
        Some(JsonValue::Str(s)) => Some(s.as_str()),
        _ => None,
    }
}


#[verifier::external_type_specification]
#[verifier::external_body]
pub struct ExParsedJson(serde_json::Value);

/// What `serde_json::from_str::<serde_json::Value>` makes of `text`: the
/// value (members in the order the parser keeps them, numbers by their
/// text), or the parser's error message. A function of the text alone.
pub uninterp spec fn json_of(text: Seq<char>) -> Result<JsonValue, Seq<char>>;

/// The value tree of a parsed `serde_json::Value`, node for node: `Null`,
/// `Bool`, `Number` (its `to_string`), `String`, `Array`, `Object` (members
/// in iteration order). Used only to convert the parser's result.
#[verifier::external_body]
fn json_value_from(v: &serde_json::Value) -> JsonValue {
    match v {
        serde_json::Value::Null => JsonValue::Null,
        serde_json::Value::Bool(b) => JsonValue::Bool(*b),
        serde_json::Value::Number(n) => JsonValue::Number(n.to_string()),
        serde_json::Value::String(s) => JsonValue::Str(s.clone()),
        serde_json::Value::Array(a) => JsonValue::Array(a.iter().map(json_value_from).collect()),
        serde_json::Value::Object(m) => JsonValue::Object(m.iter().map(|(k, x)| (k.clone(), json_value_from(x))).collect()),
    }
}

/// `serde_json::from_str::<serde_json::Value>` on `text`, converted to the
/// library's value tree, or the parser's error message. The contract names
/// the outcome by `json_of`: the same text always gives the same outcome.
#[verifier::external_body]
pub(crate) fn parse_json(text: &str) -> (r: Result<JsonValue, String>)
    ensures
        match r {
            Ok(v) => json_of(text@) == Ok::<JsonValue, Seq<char>>(v),
            Err(e) => json_of(text@) == Err::<JsonValue, Seq<char>>(e@),
        },
{
    match serde_json::from_str::<serde_json::Value>(text) {
        Ok(v) => Ok(json_value_from(&v)),
        Err(e) => Err(e.to_string()),
    }
}

} // verus!
