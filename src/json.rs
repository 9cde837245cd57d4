//! A JSON value tree of the library's own, and the reads that the reply
//! handlers make on it, each stated over spec functions.

use crate::signer::texts_of;
use vstd::prelude::*;
use vstd::string::*;

verus! {

/// A JSON value. Numbers that fit `i64` are `Int`, larger unsigned ones
/// `UInt`; any other number keeps its text.
#[derive(Debug)]
pub enum Json {
    Null,
    Bool(bool),
    Int(i64),
    UInt(u64),
    Number(String),
    Str(String),
    Arr(Vec<Json>),
    Obj(Vec<(String, Json)>),
}

/// The value of the first member named `key`.
pub open spec fn member_of(fields: Seq<(String, Json)>, key: Seq<char>) -> Option<Json>
    decreases fields.len(),
{
    if fields.len() == 0 {
        None
    } else if fields[0].0@ == key {
        Some(fields[0].1)
    } else {
        member_of(fields.drop_first(), key)
    }
}

/// The member `key` of an object; `None` for any other value.
pub open spec fn json_member(v: Json, key: Seq<char>) -> Option<Json> {
    match v {
        Json::Obj(fields) => member_of(fields@, key),
        _ => None,
    }
}

/// The value reached from `v` by the keys of `path`, one per level.
pub open spec fn json_path(v: Json, path: Seq<Seq<char>>) -> Option<Json>
    decreases path.len(),
{
    if path.len() == 0 {
        Some(v)
    } else {
        match json_member(v, path[0]) {
            Some(c) => json_path(c, path.drop_first()),
            None => None,
        }
    }
}

pub open spec fn json_text(v: Json) -> Option<Seq<char>> {
    match v {
        Json::Str(s) => Some(s@),
        _ => None,
    }
}

/// An integer number within `i64`.
pub open spec fn json_i64(v: Json) -> Option<i64> {
    match v {
        Json::Int(i) => Some(i),
        _ => None,
    }
}

/// An integer number within `u64`.
pub open spec fn json_u64(v: Json) -> Option<u64> {
    match v {
        Json::Int(i) => if i >= 0 {
            Some(i as u64)
        } else {
            None
        },
        Json::UInt(u) => Some(u),
        _ => None,
    }
}

pub open spec fn opt_text(v: Option<Json>) -> Option<Seq<char>> {
    match v {
        Some(x) => json_text(x),
        None => None,
    }
}

/// Whether `a` and `b` hold the same characters.
pub fn same_text(a: &str, b: &str) -> (r: bool)
    ensures
        r == (a@ == b@),
{
    let n = a.unicode_len();
    if n != b.unicode_len() {
        return false;
    }
    let mut i: usize = 0;
    while i < n
        invariant
            i <= n,
            n == a@.len(),
            n == b@.len(),
            a@.take(i as int) == b@.take(i as int),
        decreases n - i,
    {
        if a.get_char(i) != b.get_char(i) {
            return false;
        }
        assert(a@.take(i + 1) =~= a@.take(i as int).push(a@[i as int]));
        assert(b@.take(i + 1) =~= b@.take(i as int).push(b@[i as int]));
        i = i + 1;
    }
    assert(a@ =~= a@.take(n as int));
    assert(b@ =~= b@.take(n as int));
    true
}

/// The member `key` of an object.
pub fn member<'a>(v: &'a Json, key: &str) -> (r: Option<&'a Json>)
    ensures
        r is Some <==> json_member(*v, key@) is Some,
        r matches Some(x) ==> *x == json_member(*v, key@)->0,
{
    match v {
        Json::Obj(fields) => {
            let mut i: usize = 0;
            assert(fields@.skip(0) =~= fields@);
            while i < fields.len()
                invariant
                    i <= fields@.len(),
                    *v == Json::Obj(*fields),
                    member_of(fields@, key@) == member_of(fields@.skip(i as int), key@),
                decreases fields@.len() - i,
            {
                assert(fields@.skip(i as int)[0] == fields@[i as int]);
                if same_text(fields[i].0.as_str(), key) {
                    return Some(&fields[i].1);
                }
                assert(fields@.skip(i as int).drop_first() =~= fields@.skip(i + 1));
                i = i + 1;
            }
            None
        },
        _ => None,
    }
}

/// The value at `path` below `v`, one key per level.
pub fn member_at<'a>(v: &'a Json, path: &Vec<&str>) -> (r: Option<&'a Json>)
    ensures
        r is Some <==> json_path(*v, texts_of(path@)) is Some,
        r matches Some(x) ==> *x == json_path(*v, texts_of(path@))->0,
{
    let ghost ps = texts_of(path@);
    let mut cur = v;
    let mut i: usize = 0;
    assert(ps.skip(0) =~= ps);
    while i < path.len()
        invariant
            i <= path@.len(),
            ps == texts_of(path@),
            json_path(*v, ps) == json_path(*cur, ps.skip(i as int)),
        decreases path@.len() - i,
    {
        assert(ps.skip(i as int)[0] == path@[i as int]@);
        assert(ps.skip(i as int).drop_first() =~= ps.skip(i + 1));
        match member(cur, path[i]) {
            Some(next) => {
                cur = next;
            },
            None => {
                return None;
            },
        }
        i = i + 1;
    }
    assert(ps.skip(i as int) =~= Seq::<Seq<char>>::empty());
    Some(cur)
}

/// The text of a JSON string.
pub fn text_of(v: &Json) -> (r: Option<String>)
    ensures
        r is Some <==> json_text(*v) is Some,
        r matches Some(s) ==> s@ == json_text(*v)->0,
{
    match v {
        Json::Str(s) => Some(s.clone()),
        _ => None,
    }
}

/// An integer number within `i64`.
pub fn signed_of(v: &Json) -> (r: Option<i64>)
    ensures
        r == json_i64(*v),
{
    match v {
        Json::Int(i) => Some(*i),
        _ => None,
    }
}

/// An integer number within `u64`.
pub fn unsigned_of(v: &Json) -> (r: Option<u64>)
    ensures
        r == json_u64(*v),
{
    match v {
        Json::Int(i) => if *i >= 0 {
            Some(*i as u64)
        } else {
            None
        },
        Json::UInt(u) => Some(*u),
        _ => None,
    }
}

} // verus!
