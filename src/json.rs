//! A JSON document as plain values: numbers keep their text, objects keep
//! their members in document order.
use vstd::prelude::*;
use crate::text::{chars_of, is_digit, numeral_value, is_numeral};

verus! {

#[derive(Debug)]
pub enum JsonValue {
    Null,
    Bool(bool),
    /// The number as written.
    Number(String),
    Str(String),
    Array(Vec<JsonValue>),
    /// Members in document order.
    Object(Vec<(String, JsonValue)>),
}

/// The value of the first member named `key`.
pub open spec fn member(fields: Seq<(String, JsonValue)>, key: Seq<char>) -> Option<JsonValue>
    decreases fields.len(),
{
    if fields.len() == 0 {
        None
    } else if fields[0].0@ == key {
        Some(fields[0].1)
    } else {
        member(fields.drop_first(), key)
    }
}

/// The text of a string value.
pub open spec fn string_text(v: JsonValue) -> Option<Seq<char>> {
    match v {
        JsonValue::Str(s) => Some(s@),
        _ => None,
    }
}

/// The value of the first member named `key`, found by a scan.
pub fn find_member<'a>(fields: &'a Vec<(String, JsonValue)>, key: &str) -> (r: Option<&'a JsonValue>)
    ensures
        match member(fields@, key@) {
            Some(v) => r is Some && *r->0 == v,
            None => r is None,
        },
{
    proof {
        assert(fields@.subrange(0, fields@.len() as int) =~= fields@);
    }
    let wanted = key.to_owned();
    let mut i: usize = 0;
    while i < fields.len()
        invariant
            0 <= i <= fields@.len(),
            wanted@ == key@,
            member(fields@, key@) == member(fields@.subrange(i as int, fields@.len() as int), key@),
        decreases fields@.len() - i,
    {
        let ghost rest = fields@.subrange(i as int, fields@.len() as int);
        proof {
            assert(rest.drop_first() =~= fields@.subrange(i + 1, fields@.len() as int));
            assert(rest[0] == fields@[i as int]);
        }
        if fields[i].0 == wanted {
            return Some(&fields[i].1);
        }
        i = i + 1;
    }
    None
}

/// A member that must be a string.
pub open spec fn str_member(fields: Seq<(String, JsonValue)>, key: Seq<char>) -> Option<String> {
    match member(fields, key) {
        Some(JsonValue::Str(s)) => Some(s),
        _ => None,
    }
}

/// A member that may be absent or null, else must be a string: `None`
/// where it is of another kind.
pub open spec fn opt_str_member(fields: Seq<(String, JsonValue)>, key: Seq<char>) -> Option<Option<String>> {
    match member(fields, key) {
        None => Some(None),
        Some(JsonValue::Null) => Some(None),
        Some(JsonValue::Str(s)) => Some(Some(s)),
        _ => None,
    }
}

/// A member that must be a boolean.
pub open spec fn bool_member(fields: Seq<(String, JsonValue)>, key: Seq<char>) -> Option<bool> {
    match member(fields, key) {
        Some(JsonValue::Bool(b)) => Some(b),
        _ => None,
    }
}

/// A member that may be absent or null, else must be a boolean.
pub open spec fn opt_bool_member(fields: Seq<(String, JsonValue)>, key: Seq<char>) -> Option<Option<bool>> {
    match member(fields, key) {
        None => Some(None),
        Some(JsonValue::Null) => Some(None),
        Some(JsonValue::Bool(b)) => Some(Some(b)),
        _ => None,
    }
}

/// The value of a number written as a plain decimal numeral that fits a
/// `u32`.
pub open spec fn u32_text(t: Seq<char>) -> Option<u32> {
    if is_numeral(t) && numeral_value(t) <= u32::MAX {
        Some(numeral_value(t) as u32)
    } else {
        None
    }
}

/// A member that must be a number fitting a `u32`.
pub open spec fn u32_member(fields: Seq<(String, JsonValue)>, key: Seq<char>) -> Option<u32> {
    match member(fields, key) {
        Some(JsonValue::Number(t)) => u32_text(t@),
        _ => None,
    }
}

/// The value of a plain decimal numeral that fits a `u32`.
pub fn read_u32(t: &str) -> (r: Option<u32>)
    ensures
        r == u32_text(t@),
{
    let cs = chars_of(t);
    let ghost s = cs@;
    let mut i: usize = 0;
    let mut value: u64 = 0;
    let mut too_large: bool = false;
    while i < cs.len()
        invariant
            0 <= i <= s.len(),
            s == cs@,
            s == t@,
            forall|k: int| 0 <= k < i ==> is_digit(#[trigger] s[k]),
            value <= u32::MAX,
            !too_large ==> value == numeral_value(s.subrange(0, i as int)),
            too_large ==> numeral_value(s.subrange(0, i as int)) > u32::MAX,
        decreases s.len() - i,
    {
        let c = cs[i];
        if !('0' <= c && c <= '9') {
            assert(!is_digit(s[i as int]));
            return None;
        }
        proof {
            assert(s.subrange(0, i + 1).drop_last() =~= s.subrange(0, i as int));
            assert(s.subrange(0, i + 1).last() == c);
        }
        if !too_large {
            let next = value * 10 + (c as u32 - '0' as u32) as u64;
            if next > u32::MAX as u64 {
                too_large = true;
            } else {
                value = next;
            }
        }
        i = i + 1;
    }
    proof {
        assert(s.subrange(0, s.len() as int) =~= s);
    }
    if too_large || i == 0 {
        None
    } else {
        Some(value as u32)
    }
}

/// A member that must be a string.
pub fn get_str(fields: &Vec<(String, JsonValue)>, key: &str) -> (r: Option<String>)
    ensures
        r == str_member(fields@, key@),
{
    match find_member(fields, key) {
        Some(JsonValue::Str(s)) => Some(s.clone()),
        _ => None,
    }
}

/// A member that may be absent or null, else must be a string.
pub fn get_opt_str(fields: &Vec<(String, JsonValue)>, key: &str) -> (r: Option<Option<String>>)
    ensures
        r == opt_str_member(fields@, key@),
{
    match find_member(fields, key) {
        None => Some(None),
        Some(JsonValue::Null) => Some(None),
        Some(JsonValue::Str(s)) => Some(Some(s.clone())),
        _ => None,
    }
}

/// A member that must be a boolean.
pub fn get_bool(fields: &Vec<(String, JsonValue)>, key: &str) -> (r: Option<bool>)
    ensures
        r == bool_member(fields@, key@),
{
    match find_member(fields, key) {
        Some(JsonValue::Bool(b)) => Some(*b),
        _ => None,
    }
}

/// A member that may be absent or null, else must be a boolean.
pub fn get_opt_bool(fields: &Vec<(String, JsonValue)>, key: &str) -> (r: Option<Option<bool>>)
    ensures
        r == opt_bool_member(fields@, key@),
{
    match find_member(fields, key) {
        None => Some(None),
        Some(JsonValue::Null) => Some(None),
        Some(JsonValue::Bool(b)) => Some(Some(*b)),
        _ => None,
    }
}

/// A member that must be a number fitting a `u32`.
pub fn get_u32(fields: &Vec<(String, JsonValue)>, key: &str) -> (r: Option<u32>)
    ensures
        r == u32_member(fields@, key@),
{
    match find_member(fields, key) {
        Some(JsonValue::Number(t)) => read_u32(t.as_str()),
        _ => None,
    }
}

} // verus!
