//! JSON values.

use vstd::prelude::*;
use crate::assoc::{has_key, index_of, keys_distinct, lemma_index_of, lemma_index_unique, lookup, put};
use crate::outside::Decimal;
use crate::text::str_eq;

verus! {

/// A JSON value.
#[derive(Debug, PartialEq)]
pub enum Json {
    Null,
    Bool(bool),
    Unsigned(u64),
    /// A number below zero.
    Negative(i64),
    Decimal(Decimal),
    Str(String),
    Array(Vec<Json>),
    Object(Vec<(String, Json)>),
}

/// What a [`Json`] stands for.
#[verifier::ext_equal]
pub enum JsonValue {
    Null,
    Bool(bool),
    Unsigned(u64),
    Negative(i64),
    Decimal(Decimal),
    Str(Seq<char>),
    Array(Seq<JsonValue>),
    Object(Seq<(Seq<char>, JsonValue)>),
}

/// The value that `json` stands for.
pub open spec fn json_value(json: Json) -> JsonValue
    decreases json,
{
    match json {
        Json::Null => JsonValue::Null,
        Json::Bool(b) => JsonValue::Bool(b),
        Json::Unsigned(n) => JsonValue::Unsigned(n),
        Json::Negative(n) => JsonValue::Negative(n),
        Json::Decimal(n) => JsonValue::Decimal(n),
        Json::Str(t) => JsonValue::Str(t@),
        Json::Array(items) => JsonValue::Array(
            Seq::new(
                items@.len(),
                |i: int|
                    if 0 <= i < items@.len() {
                        json_value(items@[i])
                    } else {
                        JsonValue::Null
                    },
            ),
        ),
        Json::Object(members) => JsonValue::Object(
            Seq::new(
                members@.len(),
                |i: int|
                    if 0 <= i < members@.len() {
                        (members@[i].0@, json_value(members@[i].1))
                    } else {
                        (Seq::empty(), JsonValue::Null)
                    },
            ),
        ),
    }
}

impl View for Json {
    type V = JsonValue;

    open spec fn view(&self) -> JsonValue {
        json_value(*self)
    }
}

/// Whether `value` is what it is labelled as: a number is labelled negative only
/// below zero, and no key of an object occurs twice.
pub open spec fn is_canonical(value: JsonValue) -> bool
    decreases value,
{
    match value {
        JsonValue::Negative(n) => n < 0,
        JsonValue::Array(items) => forall|i: int|
            0 <= i < items.len() ==> is_canonical(#[trigger] items[i]),
        JsonValue::Object(members) => keys_distinct(members) && forall|i: int|
            0 <= i < members.len() ==> is_canonical((#[trigger] members[i]).1),
        _ => true,
    }
}

/// Whether values nest at most `depth` deep, with integers as the only numbers.
pub open spec fn is_shallow(value: JsonValue, depth: nat) -> bool
    decreases depth,
{
    match value {
        JsonValue::Decimal(_) => false,
        JsonValue::Array(items) => depth > 0 && forall|i: int|
            0 <= i < items.len() ==> is_shallow(#[trigger] items[i], (depth - 1) as nat),
        JsonValue::Object(members) => depth > 0 && forall|i: int|
            0 <= i < members.len() ==> is_shallow((#[trigger] members[i]).1, (depth - 1) as nat),
        _ => true,
    }
}

impl JsonValue {
    /// The member `key` of an object.
    pub open spec fn get(self, key: Seq<char>) -> Option<JsonValue> {
        match self {
            JsonValue::Object(members) => lookup(members, key),
            _ => None,
        }
    }

    pub open spec fn as_str(self) -> Option<Seq<char>> {
        match self {
            JsonValue::Str(t) => Some(t),
            _ => None,
        }
    }

    /// The text under `key`, where there is a member `key` and it is text.
    pub open spec fn get_str(self, key: Seq<char>) -> Option<Seq<char>> {
        match self.get(key) {
            Some(v) => v.as_str(),
            None => None,
        }
    }
}

/// The values that the items of an array stand for.
pub open spec fn json_items(items: Seq<Json>) -> Seq<JsonValue> {
    items.map_values(|j: Json| j@)
}

pub open spec fn json_members(members: Seq<(String, Json)>) -> Seq<(Seq<char>, JsonValue)> {
    members.map_values(|m: (String, Json)| (m.0@, m.1@))
}

pub proof fn lemma_array_view(items: Vec<Json>)
    ensures
        Json::Array(items)@ == JsonValue::Array(json_items(items@)),
{
    let all = Json::Array(items)@->Array_0;
    assert forall|i: int| 0 <= i < items@.len() implies all[i] == #[trigger] items@[i]@ by {}
    assert(all =~= json_items(items@));
}

pub proof fn lemma_object_view(members: Vec<(String, Json)>)
    ensures
        Json::Object(members)@ == JsonValue::Object(json_members(members@)),
{
    let all = Json::Object(members)@->Object_0;
    assert forall|i: int| 0 <= i < members@.len() implies all[i] == (
        #[trigger] members@[i].0@,
        members@[i].1@,
    ) by {}
    assert(all =~= json_members(members@));
}

/// The position of `key` among the members, or their number without it.
pub fn member_position(members: &Vec<(String, Json)>, key: &str) -> (i: usize)
    ensures
        i == index_of(json_members(members@), key@),
        i <= members@.len(),
{
    let ghost view = json_members(members@);
    let mut i: usize = 0;
    while i < members.len()
        invariant
            i <= members@.len(),
            view == json_members(members@),
            forall|j: int| 0 <= j < i ==> (#[trigger] view[j]).0 != key@,
        decreases members@.len() - i,
    {
        if str_eq(members[i].0.as_str(), key) {
            proof {
                assert(view[i as int].0 == key@);
                lemma_index_unique(view, key@, i as nat);
            }
            return i;
        }
        assert(view[i as int].0 != key@);
        i = i + 1;
    }
    proof {
        lemma_index_unique(view, key@, i as nat);
    }
    i
}

/// Puts `value` under `key`, in the place of an earlier value.
pub fn put_member(members: &mut Vec<(String, Json)>, key: String, value: Json)
    ensures
        json_members(final(members)@) == put(json_members(old(members)@), key@, value@),
{
    let ghost before = json_members(members@);
    let i = member_position(members, key.as_str());
    let ghost added = (key@, value@);
    if i < members.len() {
        members.set(i, (key, value));
        assert(json_members(members@) =~= before.update(i as int, added));
    } else {
        members.push((key, value));
        assert(json_members(members@) =~= before.push(added));
    }
}

/// Takes the value at a position out, and leaves null in its place.
pub fn take_value(members: &mut Vec<(String, Json)>, i: usize) -> (r: Json)
    requires
        i < old(members)@.len(),
    ensures
        r@ == json_members(old(members)@)[i as int].1,
        json_members(final(members)@) == json_members(old(members)@).update(
            i as int,
            (json_members(old(members)@)[i as int].0, JsonValue::Null),
        ),
{
    let ghost before = json_members(members@);
    let mut r = Json::Null;
    std::mem::swap(&mut members[i].1, &mut r);
    assert(json_members(members@) =~= before.update(i as int, (before[i as int].0, JsonValue::Null)));
    r
}

impl Clone for Json {
    fn clone(&self) -> (r: Json)
        ensures
            r@ == self@,
    {
        self.duplicate()
    }
}

impl Json {
    /// The member `key` of an object.
    pub fn get(&self, key: &str) -> (r: Option<&Json>)
        ensures
            match r {
                Some(v) => self@.get(key@) == Some(v@),
                None => self@.get(key@) is None,
            },
    {
        match self {
            Json::Object(members) => {
                proof {
                    lemma_object_view(*members);
                }
                let i = member_position(members, key);
                if i < members.len() {
                    Some(&members[i].1)
                } else {
                    None
                }
            },
            _ => None,
        }
    }

    pub fn as_str(&self) -> (r: Option<&str>)
        ensures
            match r {
                Some(t) => self@.as_str() == Some(t@),
                None => self@.as_str() is None,
            },
    {
        match self {
            Json::Str(t) => Some(t.as_str()),
            _ => None,
        }
    }

    /// The text under `key`, where there is a member `key` and it is text.
    pub fn get_str(&self, key: &str) -> (r: Option<&str>)
        ensures
            match r {
                Some(t) => self@.get_str(key@) == Some(t@),
                None => self@.get_str(key@) is None,
            },
    {
        match self.get(key) {
            Some(v) => v.as_str(),
            None => None,
        }
    }

    /// A copy that stands for the same value.
    pub fn duplicate(&self) -> (r: Json)
        ensures
            r@ == self@,
        decreases self,
    {
        match self {
            Json::Null => Json::Null,
            Json::Bool(b) => Json::Bool(*b),
            Json::Unsigned(n) => Json::Unsigned(*n),
            Json::Negative(n) => Json::Negative(*n),
            Json::Decimal(n) => Json::Decimal(n.clone()),
            Json::Str(t) => Json::Str(t.clone()),
            Json::Array(items) => {
                let mut copied: Vec<Json> = Vec::new();
                let mut i: usize = 0;
                while i < items.len()
                    invariant
                        i <= items@.len(),
                        copied@.len() == i,
                        *self == Json::Array(*items),
                        forall|j: int| 0 <= j < i ==> #[trigger] copied@[j]@ == items@[j]@,
                    decreases items@.len() - i,
                {
                    assert(decreases_to!(*self => self->Array_0));
                    assert(decreases_to!(items => items@));
                    assert(decreases_to!(items@ => items@[i as int]));
                    copied.push(items[i].duplicate());
                    i = i + 1;
                }
                proof {
                    lemma_array_view(*items);
                    lemma_array_view(copied);
                    assert(json_items(copied@) =~= json_items(items@));
                }
                Json::Array(copied)
            },
            Json::Object(members) => {
                let mut copied: Vec<(String, Json)> = Vec::new();
                let mut i: usize = 0;
                while i < members.len()
                    invariant
                        i <= members@.len(),
                        copied@.len() == i,
                        *self == Json::Object(*members),
                        forall|j: int|
                            0 <= j < i ==> #[trigger] copied@[j].1@ == members@[j].1@ && copied@[j].0@
                                == members@[j].0@,
                    decreases members@.len() - i,
                {
                    assert(decreases_to!(*self => self->Object_0));
                    assert(decreases_to!(members => members@));
                    assert(decreases_to!(members@ => members@[i as int]));
                    copied.push((members[i].0.clone(), members[i].1.duplicate()));
                    i = i + 1;
                }
                proof {
                    lemma_object_view(*members);
                    lemma_object_view(copied);
                    assert(json_members(copied@) =~= json_members(members@));
                }
                Json::Object(copied)
            },
        }
    }
}

// ---------------------------------------------------------------------------
// Objects by their fields.

/// The members of an object whose fields may be absent.
pub open spec fn present(fields: Seq<(Seq<char>, Option<JsonValue>)>) -> Seq<(Seq<char>, JsonValue)>
    decreases fields.len(),
{
    if fields.len() == 0 {
        Seq::empty()
    } else {
        let before = present(fields.drop_last());
        match fields.last().1 {
            Some(v) => before.push((fields.last().0, v)),
            None => before,
        }
    }
}

/// Whether a key is one of the members' keys.
proof fn lemma_present_keys(fields: Seq<(Seq<char>, Option<JsonValue>)>)
    requires
        keys_distinct(fields),
    ensures
        keys_distinct(present(fields)),
        forall|i: int|
            0 <= i < present(fields).len() ==> exists|j: int|
                0 <= j < fields.len() && (#[trigger] fields[j]).0 == (#[trigger] present(fields)[i]).0
                    && fields[j].1 == Some(present(fields)[i].1),
    decreases fields.len(),
{
    if fields.len() > 0 {
        let rest = fields.drop_last();
        assert(forall|j: int| 0 <= j < rest.len() ==> #[trigger] rest[j] == fields[j]);
        lemma_present_keys(rest);
        let before = present(rest);
        let all = present(fields);
        let last = fields[fields.len() - 1];
        assert forall|i: int| 0 <= i < all.len() implies exists|j: int|
            0 <= j < fields.len() && (#[trigger] fields[j]).0 == (#[trigger] all[i]).0 && fields[j].1
                == Some(all[i].1) by {
            if i < before.len() {
                assert(all[i] == before[i]);
                let j = choose|j: int|
                    0 <= j < rest.len() && (#[trigger] rest[j]).0 == before[i].0 && rest[j].1 == Some(
                        before[i].1,
                    );
                assert(fields[j].0 == all[i].0);
            } else {
                assert(last.0 == all[i].0);
            }
        }
        assert forall|a: int, b: int| 0 <= a < b < all.len() implies #[trigger] all[a].0
            != #[trigger] all[b].0 by {
            assert(all[a] == before[a]);
            if b < before.len() {
                assert(all[b] == before[b]);
            } else {
                let j = choose|j: int|
                    0 <= j < rest.len() && (#[trigger] rest[j]).0 == before[a].0 && rest[j].1 == Some(
                        before[a].1,
                    );
                assert(fields[j].0 != last.0);
            }
        }
    }
}

/// A field is found under its key if it is there, and not if it is absent.
pub proof fn lemma_field(fields: Seq<(Seq<char>, Option<JsonValue>)>, i: int)
    requires
        keys_distinct(fields),
        0 <= i < fields.len(),
    ensures
        lookup(present(fields), fields[i].0) == fields[i].1,
        JsonValue::Object(present(fields)).get(fields[i].0) == fields[i].1,
        keys_distinct(present(fields)),
{
    lemma_present_keys(fields);
    let all = present(fields);
    let key = fields[i].0;
    lemma_index_of(all, key);
    if has_key(all, key) {
        let k = index_of(all, key) as int;
        let j = choose|j: int|
            0 <= j < fields.len() && (#[trigger] fields[j]).0 == all[k].0 && fields[j].1 == Some(
                all[k].1,
            );
        if j < i {
            assert(fields[j].0 != fields[i].0);
        } else if i < j {
            assert(fields[i].0 != fields[j].0);
        }
    } else if fields[i].1 is Some {
        lemma_present_has(fields, i);
    }
}

proof fn lemma_present_has(fields: Seq<(Seq<char>, Option<JsonValue>)>, i: int)
    requires
        0 <= i < fields.len(),
        fields[i].1 is Some,
    ensures
        has_key(present(fields), fields[i].0),
    decreases fields.len(),
{
    let rest = fields.drop_last();
    let all = present(fields);
    let before = present(rest);
    let key = fields[i].0;
    lemma_index_of(all, key);
    if i < rest.len() {
        assert(rest[i] == fields[i]);
        lemma_present_has(rest, i);
        lemma_index_of(before, key);
        assert(all[index_of(before, key) as int].0 == key);
    } else {
        assert(all[all.len() - 1].0 == key);
    }
}

/// An object of canonical fields is canonical, and is as deep as they are.
pub proof fn lemma_fields_printable(fields: Seq<(Seq<char>, Option<JsonValue>)>, depth: nat)
    requires
        keys_distinct(fields),
        forall|i: int|
            0 <= i < fields.len() && (#[trigger] fields[i]).1 is Some ==> is_canonical(fields[i].1->0),
    ensures
        is_canonical(JsonValue::Object(present(fields))),
        (forall|i: int|
            0 <= i < fields.len() && (#[trigger] fields[i]).1 is Some ==> is_shallow(
                fields[i].1->0,
                depth,
            )) ==> is_shallow(JsonValue::Object(present(fields)), depth + 1),
{
    lemma_present_keys(fields);
    let all = present(fields);
    assert forall|k: int| 0 <= k < all.len() implies #[trigger] is_canonical(all[k].1) by {
        let j = choose|j: int|
            0 <= j < fields.len() && (#[trigger] fields[j]).0 == all[k].0 && fields[j].1 == Some(
                all[k].1,
            );
        assert(fields[j].1 is Some);
    }
    if forall|i: int|
        0 <= i < fields.len() && (#[trigger] fields[i]).1 is Some ==> is_shallow(
            fields[i].1->0,
            depth,
        ) {
        assert forall|k: int| 0 <= k < all.len() implies #[trigger] is_shallow(all[k].1, depth) by {
            let j = choose|j: int|
                0 <= j < fields.len() && (#[trigger] fields[j]).0 == all[k].0 && fields[j].1 == Some(
                    all[k].1,
                );
            assert(fields[j].1 is Some);
        }
    }
}

/// An array of canonical items is canonical, and is as deep as they are.
pub proof fn lemma_items_printable(items: Seq<JsonValue>, depth: nat)
    requires
        forall|i: int| 0 <= i < items.len() ==> is_canonical(#[trigger] items[i]),
        forall|i: int| 0 <= i < items.len() ==> is_shallow(#[trigger] items[i], depth),
    ensures
        is_canonical(JsonValue::Array(items)),
        is_shallow(JsonValue::Array(items), depth + 1),
{
    reveal_with_fuel(is_canonical, 2);
    reveal_with_fuel(is_shallow, 2);
    assert forall|i: int| 0 <= i < items.len() implies #[trigger] is_canonical(items[i]) by {}
    assert forall|i: int| 0 <= i < items.len() implies #[trigger] is_shallow(items[i], depth) by {}
}

/// An object in the making.
pub struct Fields {
    members: Vec<(String, Json)>,
    fields: Ghost<Seq<(Seq<char>, Option<JsonValue>)>>,
}

impl View for Fields {
    type V = Seq<(Seq<char>, Option<JsonValue>)>;

    closed spec fn view(&self) -> Seq<(Seq<char>, Option<JsonValue>)> {
        self.fields@
    }
}

impl Fields {
    /// The members are those of the fields that are there.
    pub closed spec fn wf(&self) -> bool {
        json_members(self.members@) == present(self.fields@)
    }

    pub fn new() -> (r: Fields)
        ensures
            r.wf(),
            r@ == Seq::<(Seq<char>, Option<JsonValue>)>::empty(),
    {
        let r = Fields { members: Vec::new(), fields: Ghost(Seq::empty()) };
        assert(json_members(r.members@) =~= present(r.fields@));
        r
    }

    /// Adds a field that may be absent.
    pub fn add_opt(self, key: &str, value: Option<Json>) -> (r: Fields)
        requires
            self.wf(),
        ensures
            r.wf(),
            r@ == self@.push(
                (
                    key@,
                    match value {
                        Some(v) => Some(v@),
                        None => None,
                    },
                ),
            ),
    {
        let ghost before = self.fields@;
        let ghost held = json_members(self.members@);
        let mut members = self.members;
        match value {
            Some(v) => {
                let ghost next = before.push((key@, Some(v@)));
                members.push((key.to_owned(), v));
                assert(json_members(members@) =~= held.push((key@, v@)));
                assert(next.drop_last() =~= before);
                Fields { members, fields: Ghost(next) }
            },
            None => {
                let ghost next = before.push((key@, None));
                assert(next.drop_last() =~= before);
                Fields { members, fields: Ghost(next) }
            },
        }
    }

    /// Adds a field.
    pub fn add(self, key: &str, value: Json) -> (r: Fields)
        requires
            self.wf(),
        ensures
            r.wf(),
            r@ == self@.push((key@, Some(value@))),
    {
        self.add_opt(key, Some(value))
    }

    /// Adds a text.
    pub fn text(self, key: &str, value: &str) -> (r: Fields)
        requires
            self.wf(),
        ensures
            r.wf(),
            r@ == self@.push((key@, Some(JsonValue::Str(value@)))),
    {
        self.add_opt(key, Some(Json::Str(value.to_owned())))
    }

    /// Adds a text that may be absent.
    pub fn opt_text(self, key: &str, value: &Option<String>) -> (r: Fields)
        requires
            self.wf(),
        ensures
            r.wf(),
            r@ == self@.push((key@, opt_str(*value))),
    {
        match value {
            Some(t) => self.add_opt(key, Some(Json::Str(t.clone()))),
            None => self.add_opt(key, None),
        }
    }

    /// The object.
    pub fn object(self) -> (r: Json)
        requires
            self.wf(),
        ensures
            r@ == JsonValue::Object(present(self@)),
    {
        proof {
            lemma_object_view(self.members);
        }
        Json::Object(self.members)
    }
}

/// An optional text as an optional value.
pub open spec fn opt_str(t: Option<String>) -> Option<JsonValue> {
    match t {
        Some(s) => Some(JsonValue::Str(s@)),
        None => None,
    }
}

/// An optional text as an optional value.
pub open spec fn opt_str_value(t: Option<Seq<char>>) -> Option<JsonValue> {
    match t {
        Some(s) => Some(JsonValue::Str(s)),
        None => None,
    }
}

} // verus!
