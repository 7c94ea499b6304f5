//! A parsed JSON document, as the metadata files of a model are read, and
//! lookups in it with the semantics of `serde_json::Value` indexing: a key is
//! looked up in an object only, and of repeated keys the last one counts.

use vstd::prelude::*;
use crate::text::str_is;

verus! {

/// A JSON number, as the parser classifies it.
#[derive(Clone, Copy, Debug, PartialEq, Eq)]
pub enum JsonNumber {
    /// A non-negative integer.
    Unsigned(u64),
    /// A negative integer.
    Negative(i64),
    /// A number with a fraction or exponent: the bit pattern of its `f64`.
    Float(u64),
}

/// A JSON value. Object members keep their order, repeated keys included.
#[derive(Debug)]
pub enum JsonValue {
    Null,
    Bool(bool),
    Number(JsonNumber),
    Text(String),
    Array(Vec<JsonValue>),
    Object(Vec<(String, JsonValue)>),
}

/// The value of the last member named `key`, if any.
pub open spec fn last_member(members: Seq<(String, JsonValue)>, key: Seq<char>) -> Option<JsonValue>
    decreases members.len(),
{
    if members.len() == 0 {
        None
    } else if members.last().0@ == key {
        Some(members.last().1)
    } else {
        last_member(members.drop_last(), key)
    }
}

/// `v[key]`: the member `key` of an object; nothing for any other value.
pub open spec fn spec_json_get(v: JsonValue, key: Seq<char>) -> Option<JsonValue> {
    match v {
        JsonValue::Object(members) => last_member(members@, key),
        _ => None,
    }
}

/// A lookup in an optional value (nothing stays nothing).
pub open spec fn json_field(v: Option<JsonValue>, key: Seq<char>) -> Option<JsonValue> {
    match v {
        Some(x) => spec_json_get(x, key),
        None => None,
    }
}

/// The value behind an optional reference.
pub open spec fn deref_json(v: Option<&JsonValue>) -> Option<JsonValue> {
    match v {
        Some(x) => Some(*x),
        None => None,
    }
}

/// The boolean a value holds, if it is one.
pub open spec fn json_bool(v: Option<JsonValue>) -> Option<bool> {
    match v {
        Some(JsonValue::Bool(b)) => Some(b),
        _ => None,
    }
}

/// The non-negative integer a value holds, if it is one (as `as_u64` reads it).
pub open spec fn json_u64(v: Option<JsonValue>) -> Option<u64> {
    match v {
        Some(JsonValue::Number(JsonNumber::Unsigned(u))) => Some(u),
        _ => None,
    }
}

/// Whether a value is an array.
pub open spec fn json_is_array(v: Option<JsonValue>) -> bool {
    v matches Some(JsonValue::Array(_))
}

/// Looks up `key` in an object; of repeated keys the last one counts.
pub fn json_get<'a>(v: &'a JsonValue, key: &str) -> (r: Option<&'a JsonValue>)
    ensures
        deref_json(r) == spec_json_get(*v, key@),
{
    match v {
        JsonValue::Object(members) => {
            let mut i: usize = members.len();
            assert(members@.take(i as int) =~= members@);
            while i > 0
                invariant
                    i <= members@.len(),
                    spec_json_get(*v, key@) == last_member(members@, key@),
                    last_member(members@, key@) == last_member(members@.take(i as int), key@),
                decreases i,
            {
                let m = &members[i - 1];
                assert(members@.take(i as int).drop_last() =~= members@.take(i - 1));
                assert(members@.take(i as int).last() == *m);
                if str_is(m.0.as_str(), key) {
                    return Some(&m.1);
                }
                i = i - 1;
            }
            None
        },
        _ => None,
    }
}

/// Looks up `key` in an optional value.
pub fn field<'a>(v: Option<&'a JsonValue>, key: &str) -> (r: Option<&'a JsonValue>)
    ensures
        deref_json(r) == json_field(deref_json(v), key@),
{
    match v {
        Some(x) => json_get(x, key),
        None => None,
    }
}

/// The boolean an optional value holds, if it is one.
pub fn as_bool(v: Option<&JsonValue>) -> (r: Option<bool>)
    ensures
        r == json_bool(deref_json(v)),
{
    match v {
        Some(JsonValue::Bool(b)) => Some(*b),
        _ => None,
    }
}

/// The non-negative integer an optional value holds, if it is one.
pub fn as_u64(v: Option<&JsonValue>) -> (r: Option<u64>)
    ensures
        r == json_u64(deref_json(v)),
{
    match v {
        Some(JsonValue::Number(JsonNumber::Unsigned(u))) => Some(*u),
        _ => None,
    }
}

/// Whether an optional value is an array.
pub fn is_array(v: Option<&JsonValue>) -> (r: bool)
    ensures
        r == json_is_array(deref_json(v)),
{
    match v {
        Some(JsonValue::Array(_)) => true,
        _ => false,
    }
}

} // verus!
