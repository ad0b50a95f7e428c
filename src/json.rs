//! A JSON value as the analysis tool replies with it, and the lookups that
//! the analysis steps make on it.
use vstd::prelude::*;

use crate::text::chars_of;

verus! {

/// A JSON value. A number is kept as its value when it is a non-negative
/// integer that fits in `u64`, and as `None` otherwise.
pub enum Json {
    Null,
    Bool(bool),
    Number(Option<u64>),
    Str(String),
    Array(Vec<Json>),
    Object(Vec<(String, Json)>),
}

/// The value under `key` among `entries`: the first entry with that key.
pub open spec fn entry(entries: Seq<(String, Json)>, key: Seq<char>) -> Json
    decreases entries.len(),
{
    if entries.len() == 0 {
        Json::Null
    } else if entries[0].0@ == key {
        entries[0].1
    } else {
        entry(entries.drop_first(), key)
    }
}

/// `j[key]`: the member `key` of an object, `Null` when `j` is no object or
/// has no such member.
pub open spec fn member(j: Json, key: Seq<char>) -> Json {
    match j {
        Json::Object(entries) => entry(entries@, key),
        _ => Json::Null,
    }
}

/// The characters of a JSON string, empty for any other value.
pub open spec fn text(j: Json) -> Seq<char> {
    match j {
        Json::Str(s) => s@,
        _ => Seq::empty(),
    }
}

/// The value of a non-negative integer that fits in `u64`.
pub open spec fn unsigned(j: Json) -> Option<u64> {
    match j {
        Json::Number(n) => n,
        _ => None,
    }
}

/// Whether the two texts are equal.
pub fn same_text(a: &str, b: &str) -> (r: bool)
    ensures
        r == (a@ == b@),
{
    let x = chars_of(a);
    let y = chars_of(b);
    if x.len() != y.len() {
        return false;
    }
    let mut k: usize = 0;
    while k < x.len()
        invariant
            x@ == a@,
            y@ == b@,
            x@.len() == y@.len(),
            k <= x@.len(),
            x@.take(k as int) == y@.take(k as int),
        decreases x.len() - k,
    {
        if x[k] != y[k] {
            return false;
        }
        assert(x@.take(k + 1) == x@.take(k as int).push(x@[k as int]));
        assert(y@.take(k + 1) == y@.take(k as int).push(y@[k as int]));
        k = k + 1;
    }
    assert(x@.take(x@.len() as int) == x@);
    assert(y@.take(y@.len() as int) == y@);
    true
}

impl Json {
    /// `self[key]`, by reference; `None` stands for `Null`.
    pub fn member<'a>(&'a self, key: &str) -> (r: Option<&'a Json>)
        ensures
            match r {
                Some(v) => *v == member(*self, key@),
                None => member(*self, key@) == Json::Null,
            },
    {
        match self {
            Json::Object(entries) => {
                let mut k: usize = 0;
                assert(member(*self, key@) == entry(entries@, key@));
                assert(entries@.skip(0) == entries@);
                while k < entries.len()
                    invariant
                        k <= entries@.len(),
                        entry(entries@, key@) == entry(entries@.skip(k as int), key@),
                        member(*self, key@) == entry(entries@, key@),
                    decreases entries.len() - k,
                {
                    assert(entries@.skip(k as int).drop_first() == entries@.skip(k + 1));
                    assert(entries@.skip(k as int)[0] == entries@[k as int]);
                    if same_text(entries[k].0.as_str(), key) {
                        let v = &entries[k].1;
                        assert(entry(entries@.skip(k as int), key@) == entries@[k as int].1);
                        return Some(v);
                    }
                    k = k + 1;
                }
                assert(entries@.skip(k as int).len() == 0);
                None
            },
            _ => None,
        }
    }
}

pub open spec fn opt_json(j: Option<&Json>) -> Json {
    match j {
        Some(v) => *v,
        None => Json::Null,
    }
}

/// The member `key` of `j`, where `None` stands for `Null`.
pub fn member_of<'a>(j: Option<&'a Json>, key: &str) -> (r: Option<&'a Json>)
    ensures
        opt_json(r) == member(opt_json(j), key@),
{
    match j {
        Some(v) => v.member(key),
        None => None,
    }
}

/// The text of a JSON string, empty for any other value.
pub fn text_of(j: Option<&Json>) -> (r: String)
    ensures
        r@ == text(opt_json(j)),
{
    match j {
        Some(Json::Str(s)) => s.clone(),
        _ => String::new(),
    }
}

/// The value of a non-negative integer that fits in `u64`.
pub fn unsigned_of(j: Option<&Json>) -> (r: Option<u64>)
    ensures
        r == unsigned(opt_json(j)),
{
    match j {
        Some(Json::Number(n)) => *n,
        _ => None,
    }
}

} // verus!
