//! A plain JSON document model for action payloads.
//!
//! Action payloads arrive as JSON objects; the providers only ever read a
//! field and test whether it is a string, a boolean, an unsigned or signed
//! integer, or an array of strings. `JsonValue` keeps exactly that
//! information. A number with a fraction or exponent is `Fraction`: none of
//! the integer accessors accept it.
use vstd::prelude::*;

use crate::text::{str_eq, chars_vec};

verus! {

/// A JSON value. Non-negative integers are `UInt`; `Int` holds negative ones.
#[derive(Debug)]
pub enum JsonValue {
    Null,
    Bool(bool),
    UInt(u64),
    Int(i64),
    Fraction,
    Str(String),
    Array(Vec<JsonValue>),
    Object(Vec<(String, JsonValue)>),
}

/// The first member named `key` in a list of object members.
pub open spec fn spec_lookup(fields: Seq<(String, JsonValue)>, key: Seq<char>) -> Option<JsonValue>
    decreases fields.len(),
{
    if fields.len() == 0 {
        None
    } else if fields[0].0@ == key {
        Some(fields[0].1)
    } else {
        spec_lookup(fields.drop_first(), key)
    }
}

impl JsonValue {
    /// `value.get(key)`: the member named `key` when this is an object.
    pub open spec fn spec_get(self, key: Seq<char>) -> Option<JsonValue> {
        match self {
            JsonValue::Object(fields) => spec_lookup(fields@, key),
            _ => None,
        }
    }

    /// `as_str`.
    pub open spec fn spec_as_str(self) -> Option<Seq<char>> {
        match self {
            JsonValue::Str(s) => Some(s@),
            _ => None,
        }
    }

    /// `as_bool`.
    pub open spec fn spec_as_bool(self) -> Option<bool> {
        match self {
            JsonValue::Bool(b) => Some(b),
            _ => None,
        }
    }

    /// `as_u64`: only a non-negative integer.
    pub open spec fn spec_as_u64(self) -> Option<u64> {
        match self {
            JsonValue::UInt(n) => Some(n),
            _ => None,
        }
    }

    /// `as_i64`: a negative integer, or a non-negative one up to `i64::MAX`.
    pub open spec fn spec_as_i64(self) -> Option<i64> {
        match self {
            JsonValue::UInt(n) => if n <= i64::MAX as u64 {
                Some(n as i64)
            } else {
                None
            },
            JsonValue::Int(n) => Some(n),
            _ => None,
        }
    }

    /// `as_array`.
    pub open spec fn spec_as_array(self) -> Option<Seq<JsonValue>> {
        match self {
            JsonValue::Array(items) => Some(items@),
            _ => None,
        }
    }

    pub fn get(&self, key: &str) -> (r: Option<&JsonValue>)
        ensures
            match self.spec_get(key@) {
                Some(v) => r == Some(&v),
                None => r is None,
            },
    {
        match self {
            JsonValue::Object(fields) => {
                let mut i: usize = 0;
                assert(fields@.skip(0) == fields@);
                while i < fields.len()
                    invariant
                        i <= fields.len(),
                        self.spec_get(key@) == spec_lookup(fields@, key@),
                        spec_lookup(fields@, key@) == spec_lookup(fields@.skip(i as int), key@),
                    decreases fields.len() - i,
                {
                    assert(fields@.skip(i as int).drop_first() == fields@.skip(i + 1));
                    assert(fields@.skip(i as int)[0] == fields@[i as int]);
                    if str_eq(fields[i].0.as_str(), key) {
                        return Some(&fields[i].1);
                    }
                    i += 1;
                }
                None
            },
            _ => None,
        }
    }

    pub fn as_str(&self) -> (r: Option<&String>)
        ensures
            match self.spec_as_str() {
                Some(s) => r is Some && r->0@ == s,
                None => r is None,
            },
    {
        match self {
            JsonValue::Str(s) => Some(s),
            _ => None,
        }
    }

    pub fn as_bool(&self) -> (r: Option<bool>)
        ensures
            r == self.spec_as_bool(),
    {
        match self {
            JsonValue::Bool(b) => Some(*b),
            _ => None,
        }
    }

    pub fn as_u64(&self) -> (r: Option<u64>)
        ensures
            r == self.spec_as_u64(),
    {
        match self {
            JsonValue::UInt(n) => Some(*n),
            _ => None,
        }
    }

    pub fn as_i64(&self) -> (r: Option<i64>)
        ensures
            r == self.spec_as_i64(),
    {
        match self {
            JsonValue::UInt(n) => if *n <= 9223372036854775807u64 {
                Some(*n as i64)
            } else {
                None
            },
            JsonValue::Int(n) => Some(*n),
            _ => None,
        }
    }

    pub fn as_array(&self) -> (r: Option<&Vec<JsonValue>>)
        ensures
            match self.spec_as_array() {
                Some(items) => r is Some && r->0@ == items,
                None => r is None,
            },
    {
        match self {
            JsonValue::Array(items) => Some(items),
            _ => None,
        }
    }
}

/// `payload.get(key).and_then(as_str)`.
pub open spec fn spec_field_str(payload: JsonValue, key: Seq<char>) -> Option<Seq<char>> {
    match payload.spec_get(key) {
        Some(v) => v.spec_as_str(),
        None => None,
    }
}

/// `payload.get(key).and_then(as_bool)`.
pub open spec fn spec_field_bool(payload: JsonValue, key: Seq<char>) -> Option<bool> {
    match payload.spec_get(key) {
        Some(v) => v.spec_as_bool(),
        None => None,
    }
}

/// `payload.get(key).and_then(as_u64)`.
pub open spec fn spec_field_u64(payload: JsonValue, key: Seq<char>) -> Option<u64> {
    match payload.spec_get(key) {
        Some(v) => v.spec_as_u64(),
        None => None,
    }
}

/// `payload.get(key).and_then(as_i64)`.
pub open spec fn spec_field_i64(payload: JsonValue, key: Seq<char>) -> Option<i64> {
    match payload.spec_get(key) {
        Some(v) => v.spec_as_i64(),
        None => None,
    }
}

/// Read a string member.
pub fn field_str(payload: &JsonValue, key: &str) -> (r: Option<String>)
    ensures
        match spec_field_str(*payload, key@) {
            Some(s) => r is Some && r->0@ == s,
            None => r is None,
        },
{
    match payload.get(key) {
        Some(v) => match v.as_str() {
            Some(s) => Some(s.clone()),
            None => None,
        },
        None => None,
    }
}

/// Read a string member as characters.
pub fn field_chars(payload: &JsonValue, key: &str) -> (r: Option<Vec<char>>)
    ensures
        match spec_field_str(*payload, key@) {
            Some(s) => r is Some && r->0@ == s,
            None => r is None,
        },
{
    match payload.get(key) {
        Some(v) => match v.as_str() {
            Some(s) => Some(chars_vec(s.as_str())),
            None => None,
        },
        None => None,
    }
}

/// Read a boolean member.
pub fn field_bool(payload: &JsonValue, key: &str) -> (r: Option<bool>)
    ensures
        r == spec_field_bool(*payload, key@),
{
    match payload.get(key) {
        Some(v) => v.as_bool(),
        None => None,
    }
}

/// Read an unsigned integer member.
pub fn field_u64(payload: &JsonValue, key: &str) -> (r: Option<u64>)
    ensures
        r == spec_field_u64(*payload, key@),
{
    match payload.get(key) {
        Some(v) => v.as_u64(),
        None => None,
    }
}

/// Read a signed integer member.
pub fn field_i64(payload: &JsonValue, key: &str) -> (r: Option<i64>)
    ensures
        r == spec_field_i64(*payload, key@),
{
    match payload.get(key) {
        Some(v) => v.as_i64(),
        None => None,
    }
}

} // verus!
