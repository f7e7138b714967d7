//! A JSON document as plain values, and the lookups the response decoders need.
use vstd::prelude::*;
use crate::environment::strings_view;

verus! {

/// A parsed JSON value. Numbers keep their decimal text; object members keep
/// their order.
#[derive(Debug, PartialEq, Eq)]
pub enum Json {
    Null,
    Bool(bool),
    Number(String),
    Str(String),
    Array(Vec<Json>),
    Object(Vec<(String, Json)>),
}

/// The value of the first member named `key`.
pub open spec fn member_of(members: Seq<(String, Json)>, key: Seq<char>) -> Option<Json>
    decreases members.len(),
{
    if members.len() == 0 {
        None
    } else if members[0].0@ == key {
        Some(members[0].1)
    } else {
        member_of(members.drop_first(), key)
    }
}

/// The member `key` of an object; nothing for a missing member or a non-object.
pub open spec fn field(j: Json, key: Seq<char>) -> Option<Json> {
    match j {
        Json::Object(members) => member_of(members@, key),
        _ => None,
    }
}

pub open spec fn is_str(j: Json) -> bool {
    j is Str
}

pub open spec fn str_text(j: Json) -> Seq<char> {
    match j {
        Json::Str(s) => s@,
        _ => Seq::empty(),
    }
}

/// The texts of an array whose items are all strings.
pub open spec fn string_list(j: Json) -> Option<Seq<Seq<char>>> {
    match j {
        Json::Array(items) => if forall|i: int| 0 <= i < items@.len() ==> is_str(#[trigger] items@[i]) {
            Some(items@.map_values(|x: Json| str_text(x)))
        } else {
            None
        },
        _ => None,
    }
}

/// Looks up the member `key` of `j`.
pub fn get_field<'a>(j: &'a Json, key: &str) -> (r: Option<&'a Json>)
    ensures
        match r {
            Some(v) => field(*j, key@) == Some(*v),
            None => field(*j, key@) is None,
        },
{
    match j {
        Json::Object(members) => {
            let name = key.to_owned();
            let ghost ms = members@;
            assert(ms.subrange(0, ms.len() as int) =~= ms);
            let mut i: usize = 0;
            while i < members.len()
                invariant
                    i <= ms.len(),
                    ms == members@,
                    *j == Json::Object(*members),
                    name@ == key@,
                    member_of(ms, key@) == member_of(ms.subrange(i as int, ms.len() as int), key@),
                decreases ms.len() - i,
            {
                assert(ms.subrange(i as int, ms.len() as int).drop_first()
                    =~= ms.subrange(i + 1, ms.len() as int));
                if members[i].0 == name {
                    return Some(&members[i].1);
                }
                i += 1;
            }
            None
        },
        _ => None,
    }
}

/// Copies out the texts of an array of strings; nothing if `j` is not an
/// array or holds anything but strings.
pub fn get_strings(j: &Json) -> (r: Option<Vec<String>>)
    ensures
        match r {
            Some(v) => string_list(*j) == Some(strings_view(v@)),
            None => string_list(*j) is None,
        },
{
    match j {
        Json::Array(items) => {
            let mut out: Vec<String> = Vec::new();
            let mut i: usize = 0;
            while i < items.len()
                invariant
                    i <= items@.len(),
                    out@.len() == i,
                    *j == Json::Array(*items),
                    forall|k: int| 0 <= k < i ==> is_str(#[trigger] items@[k]),
                    forall|k: int| 0 <= k < i ==> #[trigger] out@[k]@ == str_text(items@[k]),
                decreases items@.len() - i,
            {
                match &items[i] {
                    Json::Str(s) => {
                        out.push(s.clone());
                    },
                    _ => {
                        assert(!is_str(items@[i as int]));
                        return None;
                    },
                }
                i += 1;
            }
            assert(strings_view(out@) =~= items@.map_values(|x: Json| str_text(x)));
            Some(out)
        },
        _ => None,
    }
}

} // verus!
