//! Laws of lists of pairs and of JSON values: what is found, what is put and what
//! is taken out.

use vstd::prelude::*;
use crate::assoc::{erase, has_key, keys_distinct, lemma_index_unique, lookup, put};
use crate::json::{is_canonical, is_shallow, present, Json, JsonValue};
use crate::json_form::{name_in, positional, record};
use crate::json_order::sorted_value;
use crate::proto::hook::text_of;
use crate::setup::opt_text;
use crate::text::texts_of;

verus! {

/// The first pair with a key is the one that is found, and nothing is found where
/// no pair has the key.
pub proof fn law_first_pair_is_found<K, V>(s: Seq<(K, V)>, k: K, i: int)
    requires
        0 <= i <= s.len(),
        forall|j: int| 0 <= j < i ==> (#[trigger] s[j]).0 != k,
        i < s.len() ==> s[i].0 == k,
    ensures
        i < s.len() ==> lookup(s, k) == Some(s[i].1) && has_key(s, k),
        i == s.len() ==> lookup(s, k) is None && !has_key(s, k),
{
    lemma_index_unique(s, k, i as nat);
}

/// A value is put in the place of the one that its key has, or at the end; all
/// other pairs stay where they are.
pub proof fn law_put_keeps_places<K, V>(s: Seq<(K, V)>, k: K, v: V, i: int)
    requires
        0 <= i <= s.len(),
        forall|j: int| 0 <= j < i ==> (#[trigger] s[j]).0 != k,
        i < s.len() ==> s[i].0 == k,
    ensures
        i < s.len() ==> put(s, k, v) == s.update(i, (k, v)),
        i == s.len() ==> put(s, k, v) == s.push((k, v)),
{
    lemma_index_unique(s, k, i as nat);
}

/// A pair is taken out by its key; the others stay, in order.
pub proof fn law_erase_takes_one_out<K, V>(
    before: Seq<(K, V)>,
    k: K,
    v: V,
    after: Seq<(K, V)>,
)
    requires
        forall|j: int| 0 <= j < before.len() ==> (#[trigger] before[j]).0 != k,
    ensures
        erase(before + seq![(k, v)] + after, k) == before + after,
        erase(before, k) == before,
{
    let s = before + seq![(k, v)] + after;
    assert forall|j: int| 0 <= j < before.len() implies (#[trigger] s[j]).0 != k by {
        assert(s[j] == before[j]);
    }
    assert(s[before.len() as int] == (k, v));
    lemma_index_unique(s, k, before.len());
    lemma_index_unique(before, k, before.len());
    assert(s.remove(before.len() as int) =~= before + after);
}

/// Keys are distinct exactly if no two places have the same one.
pub proof fn law_distinct_keys<K, V>(s: Seq<(K, V)>, i: int, j: int)
    requires
        0 <= i < s.len(),
        0 <= j < s.len(),
        i != j,
        s[i].0 == s[j].0,
    ensures
        !keys_distinct(s),
{
    if i < j {
        assert(s[i].0 == s[j].0);
    } else {
        assert(s[j].0 == s[i].0);
    }
}

/// An object gives the value of its first member with a key, and text where that
/// is text. Nothing else has members.
pub proof fn law_members_of_an_object(v: JsonValue, key: Seq<char>, i: int)
    ensures
        !(v is Object) ==> v.get(key) is None && v.get_str(key) is None,
        v matches JsonValue::Object(m) ==> {
            &&& 0 <= i < m.len() && m[i].0 == key && (forall|j: int|
                0 <= j < i ==> (#[trigger] m[j]).0 != key) ==> {
                &&& v.get(key) == Some(m[i].1)
                &&& m[i].1 matches JsonValue::Str(t) ==> v.get_str(key) == Some(t)
                &&& !(m[i].1 is Str) ==> v.get_str(key) is None
            }
            &&& (forall|j: int| 0 <= j < m.len() ==> (#[trigger] m[j]).0 != key) ==> v.get(key)
                is None && v.get_str(key) is None
        },
        v.get_str(key) matches Some(t) ==> v.get(key) == Some(JsonValue::Str(t)),
{
    if let JsonValue::Object(m) = v {
        if 0 <= i < m.len() && m[i].0 == key && forall|j: int|
            0 <= j < i ==> (#[trigger] m[j]).0 != key {
            lemma_index_unique(m, key, i as nat);
        }
        if forall|j: int| 0 <= j < m.len() ==> (#[trigger] m[j]).0 != key {
            lemma_index_unique(m, key, m.len());
        }
    }
}

/// A document stands for its own parts, each for its own.
pub proof fn law_document_stands_for_its_parts(json: Json)
    ensures
        json is Null ==> json@ is Null,
        json matches Json::Bool(b) ==> json@ == JsonValue::Bool(b),
        json matches Json::Unsigned(n) ==> json@ == JsonValue::Unsigned(n),
        json matches Json::Negative(n) ==> json@ == JsonValue::Negative(n),
        json matches Json::Decimal(n) ==> json@ == JsonValue::Decimal(n),
        json matches Json::Str(t) ==> json@ == JsonValue::Str(t@),
        json matches Json::Array(items) ==> (json@ matches JsonValue::Array(all) && all.len()
            == items@.len() && forall|i: int|
            0 <= i < all.len() ==> #[trigger] all[i] == items@[i]@),
        json matches Json::Object(members) ==> (json@ matches JsonValue::Object(all) && all.len()
            == members@.len() && forall|i: int|
            0 <= i < all.len() ==> (#[trigger] all[i]).0 == members@[i].0@ && all[i].1
                == members@[i].1@),
{
    if let Json::Array(items) = json {
        crate::json::lemma_array_view(items);
    }
    if let Json::Object(members) = json {
        crate::json::lemma_object_view(members);
    }
}

/// What can be printed as it is: every value without parts, but for a number that
/// is called negative and is not; lists of such values; and objects of such
/// values whose keys are distinct.
pub proof fn law_what_is_canonical(v: JsonValue)
    ensures
        v is Null || v is Bool || v is Unsigned || v is Decimal || v is Str ==> is_canonical(v),
        v matches JsonValue::Negative(n) ==> is_canonical(v) == (n < 0),
        v matches JsonValue::Array(items) ==> is_canonical(v) == forall|i: int|
            0 <= i < items.len() ==> is_canonical(#[trigger] items[i]),
        v matches JsonValue::Object(m) ==> is_canonical(v) == (keys_distinct(m) && forall|i: int|
            0 <= i < m.len() ==> is_canonical((#[trigger] m[i]).1)),
{
}

/// Values without parts are flat, but for decimals, which are not counted; a list
/// and an object are one deeper than what they hold.
pub proof fn law_what_is_shallow(v: JsonValue, depth: nat)
    ensures
        v is Null || v is Bool || v is Unsigned || v is Negative || v is Str ==> is_shallow(v, depth),
        v matches JsonValue::Array(items) ==> ((forall|i: int|
            0 <= i < items.len() ==> is_shallow(#[trigger] items[i], depth)) ==> is_shallow(
            v,
            depth + 1,
        )),
        v matches JsonValue::Object(m) ==> ((forall|i: int|
            0 <= i < m.len() ==> is_shallow((#[trigger] m[i]).1, depth)) ==> is_shallow(
            v,
            depth + 1,
        )),
{
}

/// Fields stand in an object in their order; those that are absent are left out.
pub proof fn law_fields_in_order(
    fields: Seq<(Seq<char>, Option<JsonValue>)>,
    key: Seq<char>,
    value: Option<JsonValue>,
)
    ensures
        present(Seq::empty()) == Seq::<(Seq<char>, JsonValue)>::empty(),
        value matches Some(v) ==> present(fields.push((key, value))) == present(fields).push((key, v)),
        value is None ==> present(fields.push((key, value))) == present(fields),
{
    assert(fields.push((key, value)).drop_last() =~= fields);
}

/// A record as an array has one item for each field, in order; an array of
/// another length is no record, and anything else is what it is.
pub proof fn law_record_by_position(names: Seq<Seq<char>>, v: JsonValue, i: int)
    requires
        0 <= i < names.len(),
        forall|j: int| 0 <= j < i ==> #[trigger] names[j] != names[i],
    ensures
        v matches JsonValue::Array(items) ==> {
            &&& items.len() == names.len() ==> record(v, names).get(names[i]) == Some(items[i])
            &&& items.len() != names.len() ==> record(v, names) == v
        },
        !(v is Array) ==> record(v, names) == v,
{
    if let JsonValue::Array(items) = v {
        if items.len() == names.len() {
            let m = positional(names, items);
            assert forall|j: int| 0 <= j < i implies (#[trigger] m[j]).0 != names[i] by {}
            lemma_index_unique(m, names[i], i as nat);
        }
    }
}

/// A name is a text, or the key of an object that holds nothing else.
pub proof fn law_names(key: Seq<char>, v: JsonValue)
    ensures
        name_in(JsonValue::Str(key)) == Some(key),
        name_in(JsonValue::Object(seq![(key, JsonValue::Null)])) == Some(key),
        name_in(JsonValue::Object(seq![(key, JsonValue::Object(Seq::empty()))])) == Some(key),
        v is Null || v is Bool || v is Unsigned || v is Negative || v is Decimal || v is Array
            ==> name_in(v) is None,
        v matches JsonValue::Object(m) ==> (m.len() != 1 ==> name_in(v) is None),
        v is Str || v is Bool || v is Unsigned || v is Array ==> name_in(
            JsonValue::Object(seq![(key, v)]),
        ) is None,
{
    assert(seq![(key, JsonValue::Null)][0] == (key, JsonValue::Null));
    let empty = JsonValue::Object(Seq::empty());
    assert(seq![(key, empty)][0] == (key, empty));
    assert(seq![(key, v)][0] == (key, v));
}

/// Sorting leaves a list's items where they are, and leaves alone what has no
/// parts.
pub proof fn law_sorting_leaves_lists_alone(v: JsonValue)
    ensures
        v matches JsonValue::Array(items) ==> (sorted_value(v) matches JsonValue::Array(after)
            && after.len() == items.len() && forall|i: int|
            0 <= i < items.len() ==> #[trigger] after[i] == sorted_value(items[i])),
        v is Null || v is Bool || v is Unsigned || v is Negative || v is Decimal || v is Str
            ==> sorted_value(v) == v,
{
}

/// Texts stand for their letters, and lists of texts for theirs.
pub proof fn law_texts_stand_for_their_letters(
    t: Option<String>,
    list: Seq<String>,
    b: Option<&str>,
    i: int,
)
    ensures
        t is None <==> text_of(t) is None,
        t matches Some(s) ==> text_of(t) == Some(s@),
        b is None <==> opt_text(b) is None,
        b matches Some(s) ==> opt_text(b) == Some(s@),
        texts_of(list).len() == list.len(),
        0 <= i < list.len() ==> texts_of(list)[i] == list[i]@,
{
}

} // verus!
