//! The JSON documents that the Portainer and Docker APIs answer with, as plain
//! values, and the lookups the commands make in them (`v["key"]`, `as_str`,
//! `as_u64`, `as_array`, `as_object`, `is_null`).
use vstd::prelude::*;
use crate::text::{str_eq, copy_str};

verus! {

/// A JSON value.
///
/// A number is held as the value it has as a `u64` when it is a non-negative
/// integer that fits, and as `None` otherwise (negative or fractional): that
/// is all that the commands read of a number.  The members of an object are
/// held in a list, in the order they were given in; what is printed of an
/// object's members (ports, labels, ...) follows that order.
pub enum Json {
    Null,
    Bool(bool),
    Number(Option<u64>),
    Str(String),
    Array(Vec<Json>),
    Object(Vec<(String, Json)>),
}

/// The value of the first member named `key`, if any.
pub open spec fn lookup(entries: Seq<(String, Json)>, key: Seq<char>) -> Option<Json>
    decreases entries.len(),
{
    if entries.len() == 0 {
        None
    } else if entries[0].0@ == key {
        Some(entries[0].1)
    } else {
        lookup(entries.drop_first(), key)
    }
}

impl Json {
    /// `self[key]`: the member's value, or `Null` when `self` is no object or
    /// has no such member.
    pub open spec fn at(self, key: Seq<char>) -> Json {
        match self {
            Json::Object(entries) => match lookup(entries@, key) {
                Some(v) => v,
                None => Json::Null,
            },
            _ => Json::Null,
        }
    }

    /// `as_str`.
    pub open spec fn str_of(self) -> Option<Seq<char>> {
        match self {
            Json::Str(s) => Some(s@),
            _ => None,
        }
    }

    /// `as_u64`.
    pub open spec fn u64_of(self) -> Option<u64> {
        match self {
            Json::Number(n) => n,
            _ => None,
        }
    }

    /// `as_array`.
    pub open spec fn array_of(self) -> Option<Seq<Json>> {
        match self {
            Json::Array(items) => Some(items@),
            _ => None,
        }
    }

    /// `as_object`.
    pub open spec fn object_of(self) -> Option<Seq<(String, Json)>> {
        match self {
            Json::Object(entries) => Some(entries@),
            _ => None,
        }
    }

    /// `as_bool`.
    pub open spec fn bool_of(self) -> Option<bool> {
        match self {
            Json::Bool(b) => Some(b),
            _ => None,
        }
    }

    /// `self[key]`, as a reference that is `None` where the value is `Null`
    /// for want of the member.
    pub fn get(&self, key: &str) -> (r: Option<&Json>)
        ensures
            val(r) == self.at(key@),
    {
        match self {
            Json::Object(entries) => {
                let mut i: usize = 0;
                assert(entries@.skip(0) =~= entries@);
                while i < entries.len()
                    invariant
                        i <= entries.len(),
                        self.object_of() == Some(entries@),
                        lookup(entries@, key@) == lookup(entries@.skip(i as int), key@),
                    decreases entries.len() - i,
                {
                    proof {
                        assert(entries@.skip(i as int).drop_first() =~= entries@.skip(i + 1));
                    }
                    if str_eq(entries[i].0.as_str(), key) {
                        assert(entries@.skip(i as int)[0] == entries@[i as int]);
                        assert(lookup(entries@.skip(i as int), key@) == Some(entries@[i as int].1));
                        return Some(&entries[i].1);
                    }
                    i = i + 1;
                }
                None
            },
            _ => None,
        }
    }
}

/// The keys of an object's members, in order (none for other values).
pub open spec fn member_keys(j: Json) -> Seq<Seq<char>> {
    match j {
        Json::Object(entries) => entries@.map_values(|m: (String, Json)| m.0@),
        _ => Seq::empty(),
    }
}

/// The value of the first member with a given key.
pub proof fn lemma_lookup_first(entries: Seq<(String, Json)>, i: int)
    requires
        0 <= i < entries.len(),
        forall|k: int| 0 <= k < i ==> entries[k].0@ != entries[i].0@,
    ensures
        lookup(entries, entries[i].0@) == Some(entries[i].1),
    decreases i,
{
    if i > 0 {
        assert(entries.drop_first()[i - 1] == entries[i]);
        lemma_lookup_first(entries.drop_first(), i - 1);
    }
}

/// What lies in a sequence of distinct items lies there once.
pub open spec fn distinct<A>(s: Seq<A>) -> bool {
    forall|i: int, j: int| 0 <= i < j < s.len() ==> s[i] != s[j]
}

/// In an object whose keys are distinct, `at` finds each member by its key.
pub proof fn lemma_at_members(j: Json)
    requires
        j is Object,
        distinct(member_keys(j)),
    ensures
        forall|i: int| 0 <= i < member_keys(j).len() ==> j.at(#[trigger] member_keys(j)[i]) == j->Object_0@[i].1,
{
    let entries = j->Object_0@;
    assert forall|i: int| 0 <= i < member_keys(j).len() implies j.at(#[trigger] member_keys(j)[i]) == entries[i].1 by {
        assert forall|k: int| 0 <= k < i implies entries[k].0@ != entries[i].0@ by {
            assert(member_keys(j)[k] == entries[k].0@);
            assert(member_keys(j)[i] == entries[i].0@);
        }
        lemma_lookup_first(entries, i);
    }
}

/// The index of the first member named `key`, if any.
pub fn member_index(entries: &Vec<(String, Json)>, key: &str) -> (r: Option<usize>)
    ensures
        match r {
            Some(i) => i < entries@.len() && lookup(entries@, key@) == Some(entries@[i as int].1),
            None => lookup(entries@, key@) is None,
        },
{
    let mut i: usize = 0;
    assert(entries@.skip(0) =~= entries@);
    while i < entries.len()
        invariant
            i <= entries.len(),
            lookup(entries@, key@) == lookup(entries@.skip(i as int), key@),
        decreases entries.len() - i,
    {
        proof {
            assert(entries@.skip(i as int).drop_first() =~= entries@.skip(i + 1));
        }
        if str_eq(entries[i].0.as_str(), key) {
            assert(entries@.skip(i as int)[0] == entries@[i as int]);
            return Some(i);
        }
        i = i + 1;
    }
    None
}

/// `value[key].take()`: the member named `key` of an object, moved out of
/// it (`Null` when there is none, or when `value` is no object).
pub fn take_member(value: Json, key: &str) -> (r: Json)
    ensures
        r == value.at(key@),
{
    match value {
        Json::Object(mut entries) => {
            match member_index(&entries, key) {
                Some(i) => {
                    let m = entries.remove(i);
                    m.1
                },
                None => Json::Null,
            }
        },
        _ => Json::Null,
    }
}

/// Appends a member to the members of an object under construction.
pub fn push_member(members: &mut Vec<(String, Json)>, key: &str, value: Json)
    ensures
        final(members)@ == old(members)@.push(final(members)@.last()),
        final(members)@.last().0@ == key@,
        final(members)@.last().1 == value,
{
    members.push((copy_str(key), value));
}

/// A JSON string holding `t`.
pub fn text_value(t: &str) -> (r: Json)
    ensures
        r.str_of() == Some(t@),
{
    Json::Str(copy_str(t))
}

/// The value that a lookup result stands for.
pub open spec fn val(o: Option<&Json>) -> Json {
    match o {
        Some(j) => *j,
        None => Json::Null,
    }
}

/// `o[key]` on a lookup result.
pub fn get_in<'a>(o: Option<&'a Json>, key: &str) -> (r: Option<&'a Json>)
    ensures
        val(r) == val(o).at(key@),
{
    match o {
        Some(j) => j.get(key),
        None => None,
    }
}

/// `as_str` on a lookup result.
pub fn str_in<'a>(o: Option<&'a Json>) -> (r: Option<&'a String>)
    ensures
        r is Some == val(o).str_of() is Some,
        r is Some ==> r->0@ == val(o).str_of()->0,
{
    match o {
        Some(Json::Str(s)) => Some(s),
        _ => None,
    }
}

/// `as_u64` on a lookup result.
pub fn u64_in(o: Option<&Json>) -> (r: Option<u64>)
    ensures
        r == val(o).u64_of(),
{
    match o {
        Some(Json::Number(n)) => *n,
        _ => None,
    }
}

/// `as_bool` on a lookup result.
pub fn bool_in(o: Option<&Json>) -> (r: Option<bool>)
    ensures
        r == val(o).bool_of(),
{
    match o {
        Some(Json::Bool(b)) => Some(*b),
        _ => None,
    }
}

/// `as_array` on a lookup result.
pub fn array_in<'a>(o: Option<&'a Json>) -> (r: Option<&'a Vec<Json>>)
    ensures
        r is Some == val(o).array_of() is Some,
        r is Some ==> r->0@ == val(o).array_of()->0,
{
    match o {
        Some(Json::Array(items)) => Some(items),
        _ => None,
    }
}

/// `as_object` on a lookup result.
pub fn object_in<'a>(o: Option<&'a Json>) -> (r: Option<&'a Vec<(String, Json)>>)
    ensures
        r is Some == val(o).object_of() is Some,
        r is Some ==> r->0@ == val(o).object_of()->0,
{
    match o {
        Some(Json::Object(entries)) => Some(entries),
        _ => None,
    }
}

/// `is_null` on a lookup result.
pub fn is_null_in(o: Option<&Json>) -> (r: bool)
    ensures
        r == (val(o) is Null),
{
    match o {
        Some(Json::Null) => true,
        Some(_) => false,
        None => true,
    }
}

} // verus!
