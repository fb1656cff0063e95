//! Helpers for reading typed fields out of a decoded JSON object: member
//! lookup, and required/optional string, integer and boolean fields.

use crate::json::{view_members, Json, JsonValue};
use crate::num::spec_parse_i64;
use crate::text::str_to_chars;
use vstd::prelude::*;

verus! {

/// The value of the first member with the given key, or `None` when `j` is
/// not an object or has no such member.
pub open spec fn obj_lookup(j: Json, key: Seq<char>) -> Option<Json> {
    match j {
        Json::Obj(members) => members_lookup(members, key),
        _ => None,
    }
}

/// The value of the first member with the given key.
pub open spec fn members_lookup(members: Seq<(Seq<char>, Json)>, key: Seq<char>) -> Option<Json>
    decreases members,
{
    if members.len() == 0 {
        None
    } else if members[0].0 == key {
        Some(members[0].1)
    } else {
        members_lookup(members.drop_first(), key)
    }
}

/// A required string field: its characters when the member exists and is a
/// string, `None` otherwise.
pub open spec fn str_field(j: Json, key: Seq<char>) -> Option<Seq<char>> {
    match obj_lookup(j, key) {
        Some(Json::Str(s)) => Some(s),
        _ => None,
    }
}

/// An optional string field: `None` on a missing or null member,
/// `Some(Some(s))` on a string, `Some(None)` when absent or null, and `None`
/// (outer) when the member exists with any other shape.
pub open spec fn opt_str_field(j: Json, key: Seq<char>) -> Option<Option<Seq<char>>> {
    match obj_lookup(j, key) {
        Some(Json::Str(s)) => Some(Some(s)),
        Some(Json::Null) => Some(None),
        Some(_) => None,
        None => Some(None),
    }
}

/// A required integer field: the denoted value when the member exists, is a
/// number, and its literal is a plain integer that fits in `i64`.
pub open spec fn i64_field(j: Json, key: Seq<char>) -> Option<i64> {
    match obj_lookup(j, key) {
        Some(Json::Num(lit)) => spec_parse_i64(lit),
        _ => None,
    }
}

/// An optional integer field, in the same shape as [`opt_str_field`].
pub open spec fn opt_i64_field(j: Json, key: Seq<char>) -> Option<Option<i64>> {
    match obj_lookup(j, key) {
        Some(Json::Num(lit)) => match spec_parse_i64(lit) {
            Some(v) => Some(Some(v)),
            None => None,
        },
        Some(Json::Null) => Some(None),
        Some(_) => None,
        None => Some(None),
    }
}

/// A required boolean field.
pub open spec fn bool_field(j: Json, key: Seq<char>) -> Option<bool> {
    match obj_lookup(j, key) {
        Some(Json::Bool(b)) => Some(b),
        _ => None,
    }
}

/// The first member of `v` with the given key, as the model gives it.
pub fn obj_get<'a>(v: &'a JsonValue, key: &str) -> (r: Option<&'a JsonValue>)
    ensures
        match r {
            Some(x) => obj_lookup(v@, key@) == Some(x@),
            None => obj_lookup(v@, key@) is None,
        },
{
    let key_s = key.to_owned();
    match v {
        JsonValue::Obj(members) => {
            proof {
                crate::json::lemma_view_members(members@);
            }
            let ghost vm = view_members(members@);
            proof {
                assert(vm.skip(0) =~= vm);
            }
            let mut i: usize = 0;
            while i < members.len()
                invariant
                    *v == JsonValue::Obj(*members),
                    key_s@ == key@,
                    i <= members@.len(),
                    vm == view_members(members@),
                    vm.len() == members@.len(),
                    forall|k: int|
                        0 <= k < members@.len() ==> #[trigger] vm[k] == (
                        members@[k].0@,
                        members@[k].1.view(),
                        ),
                    members_lookup(vm, key@) == members_lookup(vm.skip(i as int), key@),
                decreases members@.len() - i,
            {
                proof {
                    assert(vm.skip(i as int)[0] == vm[i as int]);
                    assert(vm.skip(i as int).drop_first() =~= vm.skip(i + 1 as int));
                }
                if members[i].0 == key_s {
                    return Some(&members[i].1);
                }
                i = i + 1;
            }
            proof {
                assert(vm.skip(members@.len() as int) =~= Seq::<(Seq<char>, Json)>::empty());
            }
            None
        },
        _ => None,
    }
}

/// A required string field of `v`, copied out.
pub fn get_str(v: &JsonValue, key: &str) -> (r: Option<String>)
    ensures
        match r {
            Some(s) => str_field(v@, key@) == Some(s@),
            None => str_field(v@, key@) is None,
        },
{
    match obj_get(v, key) {
        Some(JsonValue::Str(s)) => Some(s.clone()),
        _ => None,
    }
}

/// An optional string field of `v`, copied out; the outer `None` means a
/// member of the wrong shape.
pub fn get_opt_str(v: &JsonValue, key: &str) -> (r: Option<Option<String>>)
    ensures
        match r {
            Some(Some(s)) => opt_str_field(v@, key@) == Some(Some(s@)),
            Some(None) => opt_str_field(v@, key@) == Some(None::<Seq<char>>),
            None => opt_str_field(v@, key@) is None,
        },
{
    match obj_get(v, key) {
        Some(JsonValue::Str(s)) => Some(Some(s.clone())),
        Some(JsonValue::Null) => Some(None),
        Some(_) => None,
        None => Some(None),
    }
}

/// A required integer field of `v`.
pub fn get_i64(v: &JsonValue, key: &str) -> (r: Option<i64>)
    ensures
        match r {
            Some(x) => i64_field(v@, key@) == Some(x),
            None => i64_field(v@, key@) is None,
        },
{
    match obj_get(v, key) {
        Some(JsonValue::Num(lit)) => {
            let cs = str_to_chars(lit.as_str());
            crate::num::parse_i64_chars(&cs)
        },
        _ => None,
    }
}

/// An optional integer field of `v`; the outer `None` means a member of the
/// wrong shape or an overflowing or non-integral number.
pub fn get_opt_i64(v: &JsonValue, key: &str) -> (r: Option<Option<i64>>)
    ensures
        match r {
            Some(Some(x)) => opt_i64_field(v@, key@) == Some(Some(x)),
            Some(None) => opt_i64_field(v@, key@) == Some(None::<i64>),
            None => opt_i64_field(v@, key@) is None,
        },
{
    match obj_get(v, key) {
        Some(JsonValue::Num(lit)) => {
            let cs = str_to_chars(lit.as_str());
            match crate::num::parse_i64_chars(&cs) {
                Some(x) => Some(Some(x)),
                None => None,
            }
        },
        Some(JsonValue::Null) => Some(None),
        Some(_) => None,
        None => Some(None),
    }
}

/// A required boolean field of `v`.
pub fn get_bool(v: &JsonValue, key: &str) -> (r: Option<bool>)
    ensures
        match r {
            Some(b) => bool_field(v@, key@) == Some(b),
            None => bool_field(v@, key@) is None,
        },
{
    match obj_get(v, key) {
        Some(JsonValue::Bool(b)) => Some(*b),
        _ => None,
    }
}

} // verus!
