//! The JSON values that rclone's remote control API takes and returns, as
//! far as the client reads or writes them.

use vstd::prelude::*;
use crate::text::text_eq;

verus! {

/// A JSON value. Numbers are kept as integers where they are integers; a
/// number with a fraction or an exponent is `Float`, whose value the
/// library does not read.
#[derive(Debug)]
pub enum RcValue {
    Null,
    Bool(bool),
    /// An integer that fits in `i64`.
    Int(i64),
    /// A non-negative integer that fits in `u64`.
    UInt(u64),
    Float,
    Str(String),
    Array(Vec<RcValue>),
    /// The members of an object, in order.
    Object(Vec<(String, RcValue)>),
}

/// The value of the first member named `key`.
pub open spec fn entry_lookup(entries: Seq<(String, RcValue)>, key: Seq<char>) -> Option<RcValue>
    decreases entries.len(),
{
    if entries.len() == 0 {
        None
    } else if entries[0].0@ == key {
        Some(entries[0].1)
    } else {
        entry_lookup(entries.drop_first(), key)
    }
}

/// `v`'s member `key`, where `v` is an object that has one.
pub open spec fn field(v: RcValue, key: Seq<char>) -> Option<RcValue> {
    match v {
        RcValue::Object(e) => entry_lookup(e@, key),
        _ => None,
    }
}

/// The boolean that `v` holds (`as_bool`).
pub open spec fn bool_of(v: Option<RcValue>) -> Option<bool> {
    match v {
        Some(RcValue::Bool(b)) => Some(b),
        _ => None,
    }
}

/// The `i64` that `v` holds (`as_i64`): an integer within `i64`'s range.
pub open spec fn int_of(v: Option<RcValue>) -> Option<i64> {
    match v {
        Some(RcValue::Int(i)) => Some(i),
        Some(RcValue::UInt(u)) => if u <= i64::MAX as u64 {
            Some(u as i64)
        } else {
            None
        },
        _ => None,
    }
}

/// The text that `v` holds (`as_str`).
pub open spec fn text_of(v: Option<RcValue>) -> Option<Seq<char>> {
    match v {
        Some(RcValue::Str(s)) => Some(s@),
        _ => None,
    }
}

/// The items that `v` holds (`as_array`).
pub open spec fn items_of(v: Option<RcValue>) -> Option<Seq<RcValue>> {
    match v {
        Some(RcValue::Array(a)) => Some(a@),
        _ => None,
    }
}

/// Looking up a key after appending a member.
pub proof fn lemma_lookup_push(s: Seq<(String, RcValue)>, m: (String, RcValue), key: Seq<char>)
    ensures
        entry_lookup(s.push(m), key) == (if entry_lookup(s, key) is Some {
            entry_lookup(s, key)
        } else if m.0@ == key {
            Some(m.1)
        } else {
            None
        }),
    decreases s.len(),
{
    if s.len() > 0 {
        assert(s.push(m)[0] == s[0]);
        assert(s.push(m).drop_first() =~= s.drop_first().push(m));
        lemma_lookup_push(s.drop_first(), m, key);
        if s[0].0@ != key {
            assert(entry_lookup(s.push(m), key) == entry_lookup(s.push(m).drop_first(), key));
            assert(entry_lookup(s, key) == entry_lookup(s.drop_first(), key));
        }
    } else {
        let e = Seq::<(String, RcValue)>::empty();
        assert(s.push(m).drop_first() =~= e);
        assert(entry_lookup(e, key) is None);
        assert(s.push(m)[0] == m);
    }
}

impl RcValue {
    /// The member `key` of an object (`Value::get`).
    pub fn get(&self, key: &str) -> (r: Option<&RcValue>)
        ensures
            r is Some <==> field(*self, key@) is Some,
            r is Some ==> field(*self, key@) == Some(*r->0),
    {
        match self {
            RcValue::Object(entries) => {
                let mut i: usize = 0;
                assert(entries@.skip(0) =~= entries@);
                while i < entries.len()
                    invariant
                        i <= entries@.len(),
                        field(*self, key@) == entry_lookup(entries@, key@),
                        entry_lookup(entries@, key@) == entry_lookup(entries@.skip(i as int), key@),
                    decreases entries@.len() - i,
                {
                    proof {
                        assert(entries@.skip(i as int).drop_first() =~= entries@.skip(i + 1));
                        assert(entries@.skip(i as int)[0] == entries@[i as int]);
                    }
                    if text_eq(entries[i].0.as_str(), key) {
                        return Some(&entries[i].1);
                    }
                    i = i + 1;
                }
                None
            },
            _ => None,
        }
    }

    /// The boolean this value holds.
    pub fn as_bool(&self) -> (r: Option<bool>)
        ensures
            r == bool_of(Some(*self)),
    {
        match self {
            RcValue::Bool(b) => Some(*b),
            _ => None,
        }
    }

    /// The `i64` this value holds.
    pub fn as_i64(&self) -> (r: Option<i64>)
        ensures
            r == int_of(Some(*self)),
    {
        match self {
            RcValue::Int(i) => Some(*i),
            RcValue::UInt(u) => if *u <= i64::MAX as u64 {
                Some(*u as i64)
            } else {
                None
            },
            _ => None,
        }
    }

    /// The text this value holds.
    pub fn as_str(&self) -> (r: Option<&String>)
        ensures
            r is Some <==> text_of(Some(*self)) is Some,
            r is Some ==> text_of(Some(*self)) == Some(r->0@),
    {
        match self {
            RcValue::Str(s) => Some(s),
            _ => None,
        }
    }

    /// The items this value holds.
    pub fn as_array(&self) -> (r: Option<&Vec<RcValue>>)
        ensures
            r is Some <==> items_of(Some(*self)) is Some,
            r is Some ==> items_of(Some(*self)) == Some(r->0@),
    {
        match self {
            RcValue::Array(a) => Some(a),
            _ => None,
        }
    }
}

/// `v.get(key).and_then(as_bool)`.
pub fn field_bool(v: &RcValue, key: &str) -> (r: Option<bool>)
    ensures
        r == bool_of(field(*v, key@)),
{
    match v.get(key) {
        Some(x) => x.as_bool(),
        None => None,
    }
}

/// `v.get(key).and_then(as_i64)`.
pub fn field_i64(v: &RcValue, key: &str) -> (r: Option<i64>)
    ensures
        r == int_of(field(*v, key@)),
{
    match v.get(key) {
        Some(x) => x.as_i64(),
        None => None,
    }
}

/// `v.get(key).and_then(as_str)`.
pub fn field_text<'a>(v: &'a RcValue, key: &str) -> (r: Option<&'a String>)
    ensures
        r is Some <==> text_of(field(*v, key@)) is Some,
        r is Some ==> text_of(field(*v, key@)) == Some(r->0@),
{
    match v.get(key) {
        Some(x) => x.as_str(),
        None => None,
    }
}

/// `v.get(key).and_then(as_array)`.
pub fn field_items<'a>(v: &'a RcValue, key: &str) -> (r: Option<&'a Vec<RcValue>>)
    ensures
        r is Some <==> items_of(field(*v, key@)) is Some,
        r is Some ==> items_of(field(*v, key@)) == Some(r->0@),
{
    match v.get(key) {
        Some(x) => x.as_array(),
        None => None,
    }
}

/// Appends the member `key: value` to the members of an object.
pub fn push_member(members: &mut Vec<(String, RcValue)>, key: &str, value: RcValue)
    ensures
        final(members)@.len() == old(members)@.len() + 1,
        final(members)@.drop_last() == old(members)@,
        final(members)@.last().0@ == key@,
        final(members)@.last().1 == value,
{
    members.push((key.to_owned(), value));
    proof {
        assert(final(members)@.drop_last() =~= old(members)@);
    }
}

} // verus!
