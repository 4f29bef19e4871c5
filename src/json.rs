//! The JSON document that a scheme is read from.

use vstd::prelude::*;

verus! {

/// A JSON document as the scheme loader reads it.
///
/// A number keeps only what the loader asks of it: its value where it is an
/// integer that fits in `i64`, and `None` otherwise.
/// An object keeps its members in the order in which they are walked.
#[derive(Debug)]
pub enum JsonValue {
    Null,
    Bool(bool),
    Number(Option<i64>),
    Str(String),
    Array(Vec<JsonValue>),
    Object(Vec<(String, JsonValue)>),
}

/// The value of the first member named `key` among `members`, from position `i` on.
pub open spec fn member_from(members: Seq<(String, JsonValue)>, key: Seq<char>, i: int) -> Option<JsonValue>
    decreases members.len() - i,
{
    if i < 0 || i >= members.len() {
        None
    } else if members[i].0@ == key {
        Some(members[i].1)
    } else {
        member_from(members, key, i + 1)
    }
}

/// The member `key` of `doc`; `None` where `doc` is no object or has no such member.
pub open spec fn field(doc: JsonValue, key: Seq<char>) -> Option<JsonValue> {
    match doc {
        JsonValue::Object(members) => member_from(members@, key, 0),
        _ => None,
    }
}

/// Looks up the member `key` of `doc`.
pub fn get_field<'a>(doc: &'a JsonValue, key: &String) -> (r: Option<&'a JsonValue>)
    ensures
        match r {
            Some(v) => field(*doc, key@) == Some(*v),
            None => field(*doc, key@) is None,
        },
{
    match doc {
        JsonValue::Object(members) => {
            let mut i: usize = 0;
            while i < members.len()
                invariant
                    i <= members.len(),
                    *doc == JsonValue::Object(*members),
                    member_from(members@, key@, 0) == member_from(members@, key@, i as int),
                decreases members.len() - i,
            {
                if members[i].0 == *key {
                    assert(member_from(members@, key@, i as int) == Some(members@[i as int].1));
                    return Some(&members[i].1);
                }
                i = i + 1;
            }
            None
        },
        _ => None,
    }
}

/// serde_json::Value, which only the parsing wrapper below handles.
#[verifier::external_type_specification]
#[verifier::external_body]
pub struct ExValue(serde_json::Value);

/// What parsing `bytes` as one JSON document gives: `None` where they are no such document.
pub uninterp spec fn json_of(bytes: Seq<u8>) -> Option<JsonValue>;

/// Relies on serde_json::from_slice, which parses the bytes as one JSON
/// document (objects walked in the order of serde_json's map) and fails on
/// anything else; the result depends on the bytes alone.
#[verifier::external_body]
pub(crate) fn parse_json(bytes: &[u8]) -> (r: Option<JsonValue>)
    ensures
        r == json_of(bytes@),
{
    serde_json::from_slice::<serde_json::Value>(bytes).ok().map(|v| from_serde(&v))
}

/// Converts serde_json's tree into the library's, node for node; relies on
/// serde_json::Number::as_i64 for the value of an integer that fits in `i64`.
#[verifier::external_body]
fn from_serde(v: &serde_json::Value) -> JsonValue {
    match v {
        serde_json::Value::Null => JsonValue::Null,
        serde_json::Value::Bool(b) => JsonValue::Bool(*b),
        serde_json::Value::Number(n) => JsonValue::Number(n.as_i64()),
        serde_json::Value::String(s) => JsonValue::Str(s.clone()),
        serde_json::Value::Array(a) => JsonValue::Array(a.iter().map(from_serde).collect()),
        serde_json::Value::Object(m) => JsonValue::Object(m.iter().map(|(k, x)| (k.clone(), from_serde(x))).collect()),
    }
}

} // verus!
