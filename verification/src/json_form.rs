//! The other forms in which a record and a name may be written: a record as an
//! array of its fields in order, a name as an object that holds nothing else.

use vstd::prelude::*;
use crate::json::{json_items, json_members, lemma_array_view, lemma_object_view, Json, JsonValue};

verus! {

/// The names of a list, as values.
pub open spec fn names_of(names: Seq<&'static str>) -> Seq<Seq<char>> {
    names.map_values(|k: &'static str| k@)
}

/// The members that items stand for, the first under the first name and so on.
/// What is left over on either side is dropped.
pub open spec fn positional(names: Seq<Seq<char>>, items: Seq<JsonValue>) -> Seq<
    (Seq<char>, JsonValue),
> {
    Seq::new(
        if names.len() < items.len() {
            names.len()
        } else {
            items.len()
        },
        |i: int| (names[i], items[i]),
    )
}

/// A record with the fields `names`: an array with one item for each of them is
/// the object that names them. Anything else stays as it is.
pub open spec fn record(v: JsonValue, names: Seq<Seq<char>>) -> JsonValue {
    match v {
        JsonValue::Array(items) => if items.len() == names.len() {
            JsonValue::Object(positional(names, items))
        } else {
            v
        },
        _ => v,
    }
}

/// The members that `items` stand for under `names`.
pub fn make_positional(items: &Vec<Json>, names: &Vec<&'static str>) -> (r: Json)
    ensures
        r@ == JsonValue::Object(positional(names_of(names@), json_items(items@))),
{
    let mut members: Vec<(String, Json)> = Vec::new();
    let mut i: usize = 0;
    while i < names.len() && i < items.len()
        invariant
            i <= names@.len(),
            i <= items@.len(),
            members@.len() == i,
            forall|j: int|
                0 <= j < i ==> (#[trigger] members@[j]).0@ == names@[j]@ && members@[j].1@
                    == items@[j]@,
        decreases items@.len() - i,
    {
        members.push((names[i].to_owned(), items[i].duplicate()));
        i = i + 1;
    }
    proof {
        lemma_object_view(members);
        assert(json_members(members@) =~= positional(names_of(names@), json_items(items@)));
    }
    Json::Object(members)
}

/// The record with the fields `names` that a value stands for.
pub fn read_record(v: &Json, names: &Vec<&'static str>) -> (r: Json)
    ensures
        r@ == record(v@, names_of(names@)),
{
    match v {
        Json::Array(items) => {
            proof {
                lemma_array_view(*items);
            }
            if items.len() == names.len() {
                make_positional(items, names)
            } else {
                v.duplicate()
            }
        },
        _ => v.duplicate(),
    }
}

/// Whether a value holds nothing: null, or an object without members.
pub open spec fn is_blank(v: JsonValue) -> bool {
    v is Null || v == JsonValue::Object(Seq::empty())
}

/// A name: text, or an object whose only member has that name and holds nothing.
pub open spec fn name_in(v: JsonValue) -> Option<Seq<char>> {
    match v {
        JsonValue::Str(name) => Some(name),
        JsonValue::Object(members) => if members.len() == 1 && is_blank(members[0].1) {
            Some(members[0].0)
        } else {
            None
        },
        _ => None,
    }
}

/// The name under `key`.
pub open spec fn name_under(v: JsonValue, key: Seq<char>) -> Option<Seq<char>> {
    match v.get(key) {
        Some(name) => name_in(name),
        None => None,
    }
}

fn blank(v: &Json) -> (r: bool)
    ensures
        r == is_blank(v@),
{
    match v {
        Json::Null => true,
        Json::Object(members) => {
            proof {
                lemma_object_view(*members);
                assert(json_members(members@).len() == members@.len());
                if members@.len() == 0 {
                    assert(json_members(members@) =~= Seq::empty());
                }
            }
            members.len() == 0
        },
        _ => false,
    }
}

pub fn read_name(v: &Json) -> (r: Option<&str>)
    ensures
        match r {
            Some(name) => name_in(v@) == Some(name@),
            None => name_in(v@) is None,
        },
{
    match v {
        Json::Str(name) => Some(name.as_str()),
        Json::Object(members) => {
            proof {
                lemma_object_view(*members);
            }
            if members.len() != 1 {
                return None;
            }
            assert(v@->Object_0[0] == (members@[0].0@, members@[0].1@));
            if blank(&members[0].1) {
                Some(members[0].0.as_str())
            } else {
                None
            }
        },
        _ => None,
    }
}

pub fn read_name_under<'a>(v: &'a Json, key: &str) -> (r: Option<&'a str>)
    ensures
        match r {
            Some(name) => name_under(v@, key@) == Some(name@),
            None => name_under(v@, key@) is None,
        },
{
    match v.get(key) {
        Some(name) => read_name(name),
        None => None,
    }
}

/// A record says the same as an array of its fields and as the object that names
/// them in that order.
pub proof fn law_array_and_object_agree(names: Seq<Seq<char>>, items: Seq<JsonValue>)
    requires
        items.len() == names.len(),
    ensures
        record(JsonValue::Array(items), names) == record(
            JsonValue::Object(positional(names, items)),
            names,
        ),
{
}

} // verus!
