//! JSON values, as the library reads them out of YouTube's player response.
use vstd::prelude::*;

use crate::text::str_eq;

verus! {

/// A JSON value. An object holds its members in order; numbers are kept as
/// their text, which nothing here reads.
#[derive(Debug)]
pub enum JsonValue {
    Null,
    Bool(bool),
    Number(String),
    String(String),
    Array(Vec<JsonValue>),
    Object(Vec<(String, JsonValue)>),
}

/// The value of the first member of `entries` named `key`.
pub open spec fn entries_get(entries: Seq<(String, JsonValue)>, key: Seq<char>) -> Option<
    JsonValue,
>
    decreases entries.len(),
{
    if entries.len() == 0 {
        None
    } else if entries[0].0@ == key {
        Some(entries[0].1)
    } else {
        entries_get(entries.drop_first(), key)
    }
}

/// Member `key` of `v`, where `v` is an object that has one.
pub open spec fn json_get(v: JsonValue, key: Seq<char>) -> Option<JsonValue> {
    match v {
        JsonValue::Object(entries) => entries_get(entries@, key),
        _ => None,
    }
}

/// Member `key` of an optional value.
pub open spec fn json_at(o: Option<JsonValue>, key: Seq<char>) -> Option<JsonValue> {
    match o {
        Some(v) => json_get(v, key),
        None => None,
    }
}

/// The text of an optional value that is a string.
pub open spec fn json_str(o: Option<JsonValue>) -> Option<Seq<char>> {
    match o {
        Some(JsonValue::String(s)) => Some(s@),
        _ => None,
    }
}

/// The truth value of an optional value that is a boolean.
pub open spec fn json_bool(o: Option<JsonValue>) -> Option<bool> {
    match o {
        Some(JsonValue::Bool(b)) => Some(b),
        _ => None,
    }
}

/// The elements of an optional value that is an array.
pub open spec fn json_array(o: Option<JsonValue>) -> Option<Seq<JsonValue>> {
    match o {
        Some(JsonValue::Array(a)) => Some(a@),
        _ => None,
    }
}

/// The first element of an optional array.
pub open spec fn json_first(o: Option<Seq<JsonValue>>) -> Option<JsonValue> {
    match o {
        Some(a) => if a.len() > 0 {
            Some(a[0])
        } else {
            None
        },
        None => None,
    }
}

/// The value behind an optional reference.
pub open spec fn deref_opt<T>(o: Option<&T>) -> Option<T> {
    match o {
        Some(x) => Some(*x),
        None => None,
    }
}

/// Member `key` of `v`.
pub fn get<'a>(v: &'a JsonValue, key: &str) -> (r: Option<&'a JsonValue>)
    ensures
        deref_opt(r) == json_get(*v, key@),
{
    match v {
        JsonValue::Object(entries) => {
            let mut i: usize = 0;
            assert(entries@.skip(0) =~= entries@);
            while i < entries.len()
                invariant
                    i <= entries@.len(),
                    json_get(*v, key@) == entries_get(entries@, key@),
                    entries_get(entries@, key@) == entries_get(entries@.skip(i as int), key@),
                decreases entries.len() - i,
            {
                assert(entries@.skip(i as int).drop_first() =~= entries@.skip(i + 1));
                if str_eq(entries[i].0.as_str(), key) {
                    return Some(&entries[i].1);
                }
                i += 1;
            }
            None
        },
        _ => None,
    }
}

/// Member `key` of an optional value.
pub fn get_at<'a>(o: Option<&'a JsonValue>, key: &str) -> (r: Option<&'a JsonValue>)
    ensures
        deref_opt(r) == json_at(deref_opt(o), key@),
{
    match o {
        Some(v) => get(v, key),
        None => None,
    }
}

/// The text of an optional value that is a string.
pub fn as_str<'a>(o: Option<&'a JsonValue>) -> (r: Option<&'a String>)
    ensures
        match r {
            Some(s) => json_str(deref_opt(o)) == Some(s@),
            None => json_str(deref_opt(o)) is None,
        },
{
    match o {
        Some(JsonValue::String(s)) => Some(s),
        _ => None,
    }
}

/// The truth value of an optional value that is a boolean.
pub fn as_bool(o: Option<&JsonValue>) -> (r: Option<bool>)
    ensures
        r == json_bool(deref_opt(o)),
{
    match o {
        Some(JsonValue::Bool(b)) => Some(*b),
        _ => None,
    }
}

/// The elements of an optional value that is an array.
pub fn as_array<'a>(o: Option<&'a JsonValue>) -> (r: Option<&'a Vec<JsonValue>>)
    ensures
        match r {
            Some(a) => json_array(deref_opt(o)) == Some(a@),
            None => json_array(deref_opt(o)) is None,
        },
{
    match o {
        Some(JsonValue::Array(a)) => Some(a),
        _ => None,
    }
}

/// The first element of an optional array.
pub fn first<'a>(o: Option<&'a Vec<JsonValue>>) -> (r: Option<&'a JsonValue>)
    ensures
        deref_opt(r) == json_first(match o {
            Some(a) => Some(a@),
            None => None,
        }),
{
    match o {
        Some(a) => if a.len() > 0 {
            Some(&a[0])
        } else {
            None
        },
        None => None,
    }
}

} // verus!
