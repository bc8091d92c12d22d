//! A JSON document tree, as the analyzers inspect it after parsing.
use vstd::prelude::*;
use simd_json::prelude::{ValueAsScalar, ValueObjectAccess};
use crate::types::opt_view;

verus! {

/// A JSON number: a whole number, or one with a fraction or exponent (whose value nothing here
/// reads).
#[derive(Debug, Clone, Copy, PartialEq, Eq, Structural)]
pub enum JsonNumber {
    /// A whole number from zero up.
    Unsigned(u64),
    /// A whole number below zero.
    Negative(i64),
    /// Any other number.
    Fractional,
}

/// A JSON value.
#[derive(Debug)]
pub enum JsonValue {
    Null,
    Bool(bool),
    Number(JsonNumber),
    Str(String),
    Array(Vec<JsonValue>),
    Object(Vec<(String, JsonValue)>),
}

/// The value of the first member of `members` (an object's `(key, value)` pairs) whose key is
/// `key`.
pub open spec fn member_value(members: Seq<(String, JsonValue)>, key: Seq<char>) -> Option<JsonValue>
    decreases members.len(),
{
    if members.len() == 0 {
        None
    } else if members[0].0@ == key {
        Some(members[0].1)
    } else {
        member_value(members.drop_first(), key)
    }
}

/// Looks `key` up among `members`.
pub fn get_member<'a>(members: &'a Vec<(String, JsonValue)>, key: &str) -> (r: Option<&'a JsonValue>)
    ensures
        match r {
            Some(v) => member_value(members@, key@) == Some(*v),
            None => member_value(members@, key@) is None,
        },
{
    let mut i: usize = 0;
    proof {
        assert(members@.skip(0) =~= members@);
    }
    while i < members.len()
        invariant
            i <= members.len(),
            member_value(members@, key@) == member_value(members@.skip(i as int), key@),
        decreases members.len() - i,
    {
        let k = members[i].0.as_str();
        proof {
            assert(members@.skip(i as int)[0] == members@[i as int]);
            assert(members@.skip(i as int).drop_first() =~= members@.skip(i + 1));
        }
        if str_eq(k, key) {
            return Some(&members[i].1);
        }
        i = i + 1;
    }
    proof {
        assert(members@.skip(i as int).len() == 0);
    }
    None
}

/// Whether two strings have the same characters, through `str`'s `==`.
#[verifier::external_body]
pub(crate) fn str_eq(a: &str, b: &str) -> (r: bool)
    ensures
        r == (a@ == b@),
{
    a == b
}

/// What simd-json finds in the JSON text `text` under member `key` of the top-level object, when
/// the text parses and the member holds a string.
pub uninterp spec fn json_string_field(text: Seq<char>, key: Seq<char>) -> Option<Seq<char>>;

/// Parses `text` with `simd_json::to_owned_value` and reads member `key` as a string
/// (`get`, then `as_str`); the result is named by [`json_string_field`].
#[verifier::external_body]
pub(crate) fn json_field_string(text: &str, key: &str) -> (r: Option<String>)
    ensures
        opt_view(r) == json_string_field(text@, key@),
{
    let mut bytes = text.as_bytes().to_vec();
    let v = match simd_json::to_owned_value(&mut bytes) {
        Ok(v) => v,
        Err(_) => return None,
    };
    match v.get(key) {
        Some(x) => x.as_str().map(str::to_owned),
        None => None,
    }
}

/// What simd-json finds in the JSON text `text` under member `inner` of member `outer` of the
/// top-level object, when the text parses and that member holds a string.
pub uninterp spec fn json_nested_string_field(text: Seq<char>, outer: Seq<char>, inner: Seq<char>) -> Option<Seq<char>>;

/// Parses `text` with `simd_json::to_owned_value` and reads member `inner` of member `outer` as
/// a string; the result is named by [`json_nested_string_field`].
#[verifier::external_body]
pub(crate) fn json_nested_field_string(text: &str, outer: &str, inner: &str) -> (r: Option<String>)
    ensures
        opt_view(r) == json_nested_string_field(text@, outer@, inner@),
{
    let mut bytes = text.as_bytes().to_vec();
    let v = match simd_json::to_owned_value(&mut bytes) {
        Ok(v) => v,
        Err(_) => return None,
    };
    let c = match v.get(outer) {
        Some(c) => c,
        None => return None,
    };
    match c.get(inner) {
        Some(x) => x.as_str().map(str::to_owned),
        None => None,
    }
}

/// Member `key` of a JSON value, when the value is an object that has it.
pub open spec fn json_get(v: JsonValue, key: Seq<char>) -> Option<JsonValue> {
    match v {
        JsonValue::Object(ms) => member_value(ms@, key),
        _ => None,
    }
}

/// Looks member `key` up in a JSON value (see [`json_get`]).
pub fn get_json<'a>(v: &'a JsonValue, key: &str) -> (r: Option<&'a JsonValue>)
    ensures
        match r {
            Some(x) => json_get(*v, key@) == Some(*x),
            None => json_get(*v, key@) is None,
        },
{
    match v {
        JsonValue::Object(ms) => get_member(ms, key),
        _ => None,
    }
}

/// The string a JSON value holds, if it is one.
pub open spec fn as_text(v: Option<JsonValue>) -> Option<Seq<char>> {
    match v {
        Some(JsonValue::Str(s)) => Some(s@),
        _ => None,
    }
}

/// The whole number from zero up a JSON value holds, if it is one.
pub open spec fn as_count(v: Option<JsonValue>) -> Option<u64> {
    match v {
        Some(JsonValue::Number(JsonNumber::Unsigned(n))) => Some(n),
        _ => None,
    }
}

/// The text of member `key` of `v`, if it is a string.
pub fn text_member(v: &JsonValue, key: &str) -> (r: Option<String>)
    ensures
        opt_view(r) == as_text(json_get(*v, key@)),
{
    match get_json(v, key) {
        Some(JsonValue::Str(s)) => Some(s.clone()),
        _ => None,
    }
}

/// The count held by member `key` of `v`, or zero when it holds none.
pub fn count_member(v: &JsonValue, key: &str) -> (r: u64)
    ensures
        r == match as_count(json_get(*v, key@)) {
            Some(n) => n,
            None => 0,
        },
{
    match get_json(v, key) {
        Some(JsonValue::Number(JsonNumber::Unsigned(n))) => *n,
        _ => 0,
    }
}

} // verus!
