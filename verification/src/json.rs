//! A JSON document model holding what the library reads of the replies of
//! the Steam information services and of its own cache files.

use vstd::prelude::*;
use crate::text::parse_unsigned;

verus! {

/// A JSON value. Numbers keep the one reading the library makes of them:
/// their value when it is a non-negative integer that fits in `u64`.
/// Objects keep their members in the order a reader walks them.
#[derive(Debug)]
pub enum Json {
    Null,
    Bool(bool),
    Number(Option<u64>),
    Str(String),
    Array(Vec<Json>),
    Object(Vec<(String, Json)>),
}

/// The value of the first member of `es` named `key`.
pub open spec fn member(es: Seq<(String, Json)>, key: Seq<char>) -> Option<Json>
    decreases es.len(),
{
    if es.len() == 0 {
        None
    } else if es[0].0@ == key {
        Some(es[0].1)
    } else {
        member(es.drop_first(), key)
    }
}

/// `Value::get` with a string key: the member `key` of an object.
pub open spec fn get(v: Json, key: Seq<char>) -> Option<Json> {
    match v {
        Json::Object(es) => member(es@, key),
        _ => None,
    }
}

/// `get` on an optional value.
pub open spec fn get_opt(v: Option<Json>, key: Seq<char>) -> Option<Json> {
    match v {
        Some(x) => get(x, key),
        None => None,
    }
}

/// `Value::as_u64`.
pub open spec fn as_u64(v: Json) -> Option<u64> {
    match v {
        Json::Number(n) => n,
        _ => None,
    }
}

/// `Value::as_str`, as characters.
pub open spec fn as_str(v: Json) -> Option<Seq<char>> {
    match v {
        Json::Str(s) => Some(s@),
        _ => None,
    }
}

/// A number, or a string holding a `u64` in decimal.
pub open spec fn to_u64(v: Json) -> Option<u64> {
    match v {
        Json::Number(Some(n)) => Some(n),
        Json::Str(s) => match parse_unsigned(s@, 0xffff_ffff_ffff_ffffnat) {
            Some(n) => Some(n as u64),
            None => None,
        },
        _ => None,
    }
}

/// The value of the first member of `es` named `key`.
pub fn member_exec<'a>(es: &'a Vec<(String, Json)>, key: &String) -> (r: Option<&'a Json>)
    ensures
        match member(es@, key@) {
            Some(x) => r == Some(&x),
            None => r is None,
        },
{
    let mut i: usize = 0;
    assert(es@.subrange(0, es@.len() as int) =~= es@);
    while i < es.len()
        invariant
            i <= es.len(),
            member(es@, key@) == member(es@.subrange(i as int, es@.len() as int), key@),
        decreases es.len() - i,
    {
        assert(es@.subrange(i as int, es@.len() as int).drop_first() =~= es@.subrange(
            i + 1,
            es@.len() as int,
        ));
        assert(es@.subrange(i as int, es@.len() as int)[0] == es@[i as int]);
        if es[i].0 == *key {
            return Some(&es[i].1);
        }
        i = i + 1;
    }
    None
}

impl Json {
    /// The member `key` of an object; `None` for any other value.
    pub fn get(&self, key: &String) -> (r: Option<&Json>)
        ensures
            match get(*self, key@) {
                Some(x) => r == Some(&x),
                None => r is None,
            },
    {
        match self {
            Json::Object(es) => member_exec(es, key),
            _ => None,
        }
    }

    /// `Value::as_u64`.
    pub fn as_u64(&self) -> (r: Option<u64>)
        ensures
            r == as_u64(*self),
    {
        match self {
            Json::Number(n) => *n,
            _ => None,
        }
    }

    /// `Value::as_str`.
    pub fn as_str(&self) -> (r: Option<&String>)
        ensures
            match as_str(*self) {
                Some(s) => r matches Some(x) && x@ == s,
                None => r is None,
            },
    {
        match self {
            Json::Str(s) => Some(s),
            _ => None,
        }
    }

    /// A number, or a string holding a `u64` in decimal.
    pub fn to_u64(&self) -> (r: Option<u64>)
        ensures
            r == to_u64(*self),
    {
        match self {
            Json::Number(n) => *n,
            Json::Str(s) => {
                let v = crate::text::chars_of(s.as_str());
                crate::text::parse_unsigned_exec(&v, 0xffff_ffff_ffff_ffff)
            },
            _ => None,
        }
    }
}

} // verus!
