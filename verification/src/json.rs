//! A JSON document as the engine's readers see it. Upstream catalogues and
//! status replies are parsed into this shape at the edge, and every reader in
//! the library works over it.

use vstd::prelude::*;

use crate::text::{chars_of, chars_eq};

verus! {

/// A JSON value. Numbers keep the integer forms readers ask for; a fractional
/// number is kept only as the fact that it is one.
pub enum Json {
    Null,
    Bool(bool),
    /// A non-negative integer.
    PosInt(u64),
    /// A negative integer.
    NegInt(i64),
    /// A number with a fraction or exponent.
    Float,
    Str(String),
    Array(Vec<Json>),
    Object(Vec<(String, Json)>),
}

/// The value stored under `key` in an object's fields, the first such field.
pub open spec fn lookup(fields: Seq<(String, Json)>, key: Seq<char>) -> Option<Json>
    decreases fields.len(),
{
    if fields.len() == 0 {
        None
    } else if fields[0].0@ == key {
        Some(fields[0].1)
    } else {
        lookup(fields.drop_first(), key)
    }
}

/// `j[key]` when `j` is an object holding `key`.
pub open spec fn get_spec(j: Json, key: Seq<char>) -> Option<Json> {
    match j {
        Json::Object(fields) => lookup(fields@, key),
        _ => None,
    }
}

/// The text of a string value.
pub open spec fn str_spec(j: Json) -> Option<Seq<char>> {
    match j {
        Json::Str(s) => Some(s@),
        _ => None,
    }
}

/// The value of an integer that fits `u64`.
pub open spec fn u64_spec(j: Json) -> Option<u64> {
    match j {
        Json::PosInt(n) => Some(n),
        _ => None,
    }
}

/// The value of an integer that fits `i64`.
pub open spec fn i64_spec(j: Json) -> Option<i64> {
    match j {
        Json::PosInt(n) => if n <= i64::MAX {
            Some(n as i64)
        } else {
            None
        },
        Json::NegInt(n) => Some(n),
        _ => None,
    }
}

/// The value of a boolean.
pub open spec fn bool_spec(j: Json) -> Option<bool> {
    match j {
        Json::Bool(b) => Some(b),
        _ => None,
    }
}

/// The items of an array.
pub open spec fn array_spec(j: Json) -> Option<Seq<Json>> {
    match j {
        Json::Array(items) => Some(items@),
        _ => None,
    }
}

/// `j[key]` composed over an optional value, as a chain of lookups reads.
pub open spec fn get_opt(j: Option<Json>, key: Seq<char>) -> Option<Json> {
    match j {
        Some(v) => get_spec(v, key),
        None => None,
    }
}

/// The text of an optional string value.
pub open spec fn str_opt(j: Option<Json>) -> Option<Seq<char>> {
    match j {
        Some(v) => str_spec(v),
        None => None,
    }
}

/// The text under `key` in an optional object, or empty when either is
/// missing or the value is not a string.
pub open spec fn text_in(j: Option<Json>, key: Seq<char>) -> Seq<char> {
    match str_opt(get_opt(j, key)) {
        Some(s) => s,
        None => Seq::empty(),
    }
}

/// The text under `key` in an optional object, or empty.
pub fn text_of(j: Option<&Json>, key: &str) -> (r: String)
    ensures
        r@ == text_in(match j {
            Some(v) => Some(*v),
            None => None,
        }, key@),
{
    match j {
        None => String::new(),
        Some(v) => match v.get(key) {
            None => String::new(),
            Some(x) => match x.as_str() {
                Some(s) => s.clone(),
                None => String::new(),
            },
        },
    }
}

/// The values of `s` that satisfy `p`, in order.
pub open spec fn keep(s: Seq<Json>, p: spec_fn(Json) -> bool) -> Seq<Json>
    decreases s.len(),
{
    if s.len() == 0 {
        Seq::empty()
    } else {
        let r = keep(s.drop_last(), p);
        if p(s.last()) {
            r.push(s.last())
        } else {
            r
        }
    }
}

/// The array under `key`, or no items when it is absent or not an array.
pub open spec fn items_at(j: Option<Json>, key: Seq<char>) -> Seq<Json> {
    match get_opt(j, key) {
        Some(v) => match array_spec(v) {
            Some(items) => items,
            None => Seq::empty(),
        },
        None => Seq::empty(),
    }
}

/// The texts among a list of JSON values, in order.
pub open spec fn strings(items: Seq<Json>) -> Seq<Seq<char>>
    decreases items.len(),
{
    if items.len() == 0 {
        Seq::empty()
    } else {
        let rest = strings(items.drop_last());
        match str_spec(items.last()) {
            Some(s) => rest.push(s),
            None => rest,
        }
    }
}

/// The texts among `items`, in order.
pub fn strings_of(items: &Vec<Json>) -> (r: Vec<String>)
    ensures
        r.deep_view() == strings(items@),
{
    let mut r: Vec<String> = Vec::new();
    let mut i: usize = 0;
    while i < items.len()
        invariant
            i <= items@.len(),
            r.deep_view() == strings(items@.take(i as int)),
        decreases items.len() - i,
    {
        assert(items@.take(i + 1).drop_last() =~= items@.take(i as int));
        let ghost before = r.deep_view();
        match items[i].as_str() {
            Some(s) => {
                r.push(s.clone());
                assert(r.deep_view() =~= before.push(s@));
            },
            None => {},
        }
        i += 1;
    }
    assert(items@.take(items@.len() as int) =~= items@);
    r
}

/// The number under `key`, or `default` when it is absent or not a `u64`.
pub open spec fn u64_at(j: Json, key: Seq<char>, default: u64) -> u64 {
    match get_spec(j, key) {
        Some(v) => match u64_spec(v) {
            Some(n) => n,
            None => default,
        },
        None => default,
    }
}

impl Json {
    /// The number under `key`, or `default`.
    pub fn u64_or(&self, key: &str, default: u64) -> (r: u64)
        ensures
            r == u64_at(*self, key@, default),
    {
        match self.get(key) {
            Some(v) => match v.as_u64() {
                Some(n) => n,
                None => default,
            },
            None => default,
        }
    }

    /// The text under `key`, or empty.
    pub fn text(&self, key: &str) -> (r: String)
        ensures
            r@ == text_in(Some(*self), key@),
    {
        text_of(Some(self), key)
    }
}

impl Json {
    /// The value under `key` when this is an object holding it.
    pub fn get(&self, key: &str) -> (r: Option<&Json>)
        ensures
            r matches Some(v) ==> get_spec(*self, key@) == Some(*v),
            r is None ==> get_spec(*self, key@) is None,
    {
        match self {
            Json::Object(fields) => {
                let k = chars_of(key);
                let mut i: usize = 0;
                assert(get_spec(*self, key@) == lookup(fields@, key@));
                assert(fields@.skip(0) =~= fields@);
                while i < fields.len()
                    invariant
                        i <= fields@.len(),
                        k@ == key@,
                        get_spec(*self, key@) == lookup(fields@, key@),
                        lookup(fields@, key@) == lookup(fields@.skip(i as int), key@),
                    decreases fields.len() - i,
                {
                    let name = chars_of(fields[i].0.as_str());
                    assert(fields@.skip(i as int)[0] == fields@[i as int]);
                    if chars_eq(&name, &k) {
                        assert(lookup(fields@.skip(i as int), key@) == Some(fields@[i as int].1));
                        let item = &fields[i];
                        assert(get_spec(*self, key@) == Some(item.1));
                        return Some(&item.1);
                    }
                    assert(fields@.skip(i as int).drop_first() =~= fields@.skip(i + 1));
                    i += 1;
                }
                None
            },
            _ => None,
        }
    }

    /// The text, when this is a string.
    pub fn as_str(&self) -> (r: Option<&String>)
        ensures
            r matches Some(s) ==> str_spec(*self) == Some(s@),
            r is None ==> str_spec(*self) is None,
    {
        match self {
            Json::Str(s) => Some(s),
            _ => None,
        }
    }

    /// The value, when this is an integer that fits `u64`.
    pub fn as_u64(&self) -> (r: Option<u64>)
        ensures
            r == u64_spec(*self),
    {
        match self {
            Json::PosInt(n) => Some(*n),
            _ => None,
        }
    }

    /// The value, when this is an integer that fits `i64`.
    pub fn as_i64(&self) -> (r: Option<i64>)
        ensures
            r == i64_spec(*self),
    {
        match self {
            Json::PosInt(n) => if *n <= 0x7fff_ffff_ffff_ffff {
                Some(*n as i64)
            } else {
                None
            },
            Json::NegInt(n) => Some(*n),
            _ => None,
        }
    }

    /// The value, when this is a boolean.
    pub fn as_bool(&self) -> (r: Option<bool>)
        ensures
            r == bool_spec(*self),
    {
        match self {
            Json::Bool(b) => Some(*b),
            _ => None,
        }
    }

    /// The items, when this is an array.
    pub fn as_array(&self) -> (r: Option<&Vec<Json>>)
        ensures
            r matches Some(items) ==> array_spec(*self) == Some(items@),
            r is None ==> array_spec(*self) is None,
    {
        match self {
            Json::Array(items) => Some(items),
            _ => None,
        }
    }

    /// Whether this is an object.
    pub fn is_object(&self) -> (r: bool)
        ensures
            r == (self is Object),
    {
        match self {
            Json::Object(_) => true,
            _ => false,
        }
    }
}

} // verus!
