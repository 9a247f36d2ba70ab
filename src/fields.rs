use vstd::prelude::*;
use crate::numbers::{parse_i32, parse_i32_spec, parse_i64, parse_i64_spec};
use crate::record::{Fields, ZtagRecord};

verus! {

/// The value under `k`, if any.
pub open spec fn field(m: Fields, k: Seq<char>) -> Option<Seq<char>> {
    if m.contains_key(k) {
        Some(m[k])
    } else {
        None
    }
}

/// The value under `k`, or `d` where there is none.
pub open spec fn field_or(m: Fields, k: Seq<char>, d: Seq<char>) -> Seq<char> {
    if m.contains_key(k) {
        m[k]
    } else {
        d
    }
}

/// The value under `a`, else the one under `b`.
pub open spec fn either_field(m: Fields, a: Seq<char>, b: Seq<char>) -> Option<Seq<char>> {
    if m.contains_key(a) {
        Some(m[a])
    } else {
        field(m, b)
    }
}

/// The value under `k` read as an `i32`; none where it is missing or no such number.
pub open spec fn int_field(m: Fields, k: Seq<char>) -> Option<i32> {
    match field(m, k) {
        Some(v) => parse_i32_spec(v),
        None => None,
    }
}

pub open spec fn int_field_or(m: Fields, k: Seq<char>, d: i32) -> i32 {
    match int_field(m, k) {
        Some(v) => v,
        None => d,
    }
}

/// The value under `k` read as an `i64`.
pub open spec fn long_field(m: Fields, k: Seq<char>) -> Option<i64> {
    match field(m, k) {
        Some(v) => parse_i64_spec(v),
        None => None,
    }
}

pub open spec fn long_field_or(m: Fields, k: Seq<char>, d: i64) -> i64 {
    match long_field(m, k) {
        Some(v) => v,
        None => d,
    }
}

pub fn get_text(fields: &ZtagRecord, key: &str) -> (r: Option<String>)
    ensures
        r.deep_view() == field(fields@, key@),
{
    match fields.get(key) {
        Some(v) => Some(v.clone()),
        None => None,
    }
}

pub fn get_text_or(fields: &ZtagRecord, key: &str, default: &str) -> (r: String)
    ensures
        r@ == field_or(fields@, key@, default@),
{
    match fields.get(key) {
        Some(v) => v.clone(),
        None => default.to_owned(),
    }
}

pub fn get_either(fields: &ZtagRecord, a: &str, b: &str) -> (r: Option<String>)
    ensures
        r.deep_view() == either_field(fields@, a@, b@),
{
    match fields.get(a) {
        Some(v) => Some(v.clone()),
        None => get_text(fields, b),
    }
}

pub fn get_int(fields: &ZtagRecord, key: &str) -> (r: Option<i32>)
    ensures
        r == int_field(fields@, key@),
{
    match fields.get(key) {
        Some(v) => parse_i32(v.as_str()),
        None => None,
    }
}

pub fn get_int_or(fields: &ZtagRecord, key: &str, default: i32) -> (r: i32)
    ensures
        r == int_field_or(fields@, key@, default),
{
    match get_int(fields, key) {
        Some(v) => v,
        None => default,
    }
}

pub fn get_long(fields: &ZtagRecord, key: &str) -> (r: Option<i64>)
    ensures
        r == long_field(fields@, key@),
{
    match fields.get(key) {
        Some(v) => parse_i64(v.as_str()),
        None => None,
    }
}

pub fn get_long_or(fields: &ZtagRecord, key: &str, default: i64) -> (r: i64)
    ensures
        r == long_field_or(fields@, key@, default),
{
    match get_long(fields, key) {
        Some(v) => v,
        None => default,
    }
}

/// Whether `a` and `b` hold the same characters.
pub fn same_text(a: &str, b: &str) -> (r: bool)
    ensures
        r == (a@ == b@),
{
    a.to_owned() == b.to_owned()
}

} // verus!
