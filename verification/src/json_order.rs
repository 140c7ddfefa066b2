//! Documents with the members of their objects in the order of their keys.

use vstd::prelude::*;
use vstd::utf8::char_u32_cast;
use crate::assoc::{has_key, index_of, keys_distinct, lemma_index_of, lemma_lookup_at};
use crate::json::{
    is_canonical, is_shallow, json_items, json_members, lemma_array_view, lemma_object_view, Json,
    JsonValue,
};
use crate::text::{comes_before, text_before};

verus! {

/// Members in the order of their keys, with another one at its place.
pub open spec fn insert_member(
    members: Seq<(Seq<char>, JsonValue)>,
    m: (Seq<char>, JsonValue),
) -> Seq<(Seq<char>, JsonValue)>
    decreases members.len(),
{
    if members.len() > 0 && text_before(m.0, members.last().0) {
        insert_member(members.drop_last(), m).push(members.last())
    } else {
        members.push(m)
    }
}

/// Members in the order of their keys.
pub open spec fn sort_members(members: Seq<(Seq<char>, JsonValue)>) -> Seq<(Seq<char>, JsonValue)>
    decreases members.len(),
{
    if members.len() == 0 {
        Seq::empty()
    } else {
        insert_member(sort_members(members.drop_last()), members.last())
    }
}

/// The document with the members of all its objects in the order of their keys.
pub open spec fn sorted_value(v: JsonValue) -> JsonValue
    decreases v, 1nat,
{
    match v {
        JsonValue::Array(items) => JsonValue::Array(
            Seq::new(
                items.len(),
                |i: int|
                    if 0 <= i < items.len() {
                        sorted_value(items[i])
                    } else {
                        JsonValue::Null
                    },
            ),
        ),
        JsonValue::Object(_) => JsonValue::Object(sort_members(sorted_inside(v))),
        other => other,
    }
}

/// The members of an object in their old order, each value sorted.
pub open spec fn sorted_inside(v: JsonValue) -> Seq<(Seq<char>, JsonValue)>
    decreases v, 0nat,
{
    match v {
        JsonValue::Object(members) => Seq::new(
            members.len(),
            |i: int|
                if 0 <= i < members.len() {
                    (members[i].0, sorted_value(members[i].1))
                } else {
                    (Seq::empty(), JsonValue::Null)
                },
        ),
        _ => Seq::empty(),
    }
}

fn insert_sorted(list: &mut Vec<(String, Json)>, member: (String, Json))
    ensures
        json_members(final(list)@) == insert_member(
            json_members(old(list)@),
            (member.0@, member.1@),
        ),
{
    let ghost before = json_members(list@);
    let ghost m = (member.0@, member.1@);
    let n = list.len();
    let mut k: usize = n;
    assert(before.take(n as int) =~= before);
    assert(before.skip(n as int) =~= Seq::empty());
    assert(insert_member(before.take(n as int), m) + before.skip(n as int) =~= insert_member(before, m));
    while k > 0 && comes_before(member.0.as_str(), list[k - 1].0.as_str())
        invariant
            k <= n,
            n == list@.len(),
            before == json_members(list@),
            m == (member.0@, member.1@),
            insert_member(before.take(k as int), m) + before.skip(k as int) == insert_member(before, m),
        decreases k,
    {
        let ghost head = before.take(k as int);
        assert(head.last() == before[k - 1]);
        assert(before[k - 1].0 == list@[k - 1].0@);
        assert(head.drop_last() =~= before.take(k - 1));
        assert(insert_member(head, m) == insert_member(before.take(k - 1), m).push(head.last()));
        assert(insert_member(before.take(k - 1), m).push(head.last()) + before.skip(k as int)
            =~= insert_member(before.take(k - 1), m) + before.skip(k - 1));
        k = k - 1;
    }
    proof {
        let head = before.take(k as int);
        if k > 0 {
            assert(head.last() == before[k - 1]);
            assert(before[k - 1].0 == list@[k - 1].0@);
        }
        assert(insert_member(head, m) == head.push(m));
        assert(head.push(m) + before.skip(k as int) =~= before.insert(k as int, m));
    }
    let ghost earlier = list@;
    list.insert(k, member);
    assert(json_members(list@) =~= before.insert(k as int, m));
}

/// The document with the members of all its objects in the order of their keys.
pub fn sorted(json: &Json) -> (r: Json)
    ensures
        r@ == sorted_value(json@),
    decreases json,
{
    match json {
        Json::Array(items) => {
            let mut done: Vec<Json> = Vec::new();
            let mut i: usize = 0;
            while i < items.len()
                invariant
                    i <= items@.len(),
                    done@.len() == i,
                    *json == Json::Array(*items),
                    forall|j: int| 0 <= j < i ==> #[trigger] done@[j]@ == sorted_value(items@[j]@),
                decreases items@.len() - i,
            {
                assert(decreases_to!(*json => json->Array_0));
                assert(decreases_to!(items => items@));
                assert(decreases_to!(items@ => items@[i as int]));
                done.push(sorted(&items[i]));
                i = i + 1;
            }
            proof {
                lemma_array_view(*items);
                lemma_array_view(done);
                let all = json_items(items@);
                let result = sorted_value(JsonValue::Array(all))->Array_0;
                assert forall|j: int| 0 <= j < all.len() implies result[j] == sorted_value(all[j]) by {}
                assert(json_items(done@) =~= result);
            }
            Json::Array(done)
        },
        Json::Object(members) => {
            let ghost all = json_members(members@);
            let ghost inner = sorted_inside(JsonValue::Object(all));
            let mut done: Vec<(String, Json)> = Vec::new();
            let mut i: usize = 0;
            assert(json_members(done@) =~= sort_members(inner.take(0)));
            while i < members.len()
                invariant
                    i <= members@.len(),
                    *json == Json::Object(*members),
                    all == json_members(members@),
                    inner == sorted_inside(JsonValue::Object(all)),
                    json_members(done@) == sort_members(inner.take(i as int)),
                decreases members@.len() - i,
            {
                assert(decreases_to!(*json => json->Object_0));
                assert(decreases_to!(members => members@));
                assert(decreases_to!(members@ => members@[i as int]));
                assert(inner.take(i + 1).drop_last() =~= inner.take(i as int));
                assert(inner.take(i + 1).last() == inner[i as int]);
                assert(all[i as int] == (members@[i as int].0@, members@[i as int].1@));
                let value = sorted(&members[i].1);
                insert_sorted(&mut done, (members[i].0.clone(), value));
                i = i + 1;
            }
            proof {
                assert(inner.take(i as int) =~= inner);
                lemma_object_view(*members);
                lemma_object_view(done);
            }
            Json::Object(done)
        },
        other => {
            let r = other.duplicate();
            r
        },
    }
}

// ---------------------------------------------------------------------------
// What sorting keeps, and what it gives.

proof fn lemma_insert(members: Seq<(Seq<char>, JsonValue)>, m: (Seq<char>, JsonValue))
    requires
        keys_distinct(members),
        forall|i: int| 0 <= i < members.len() ==> (#[trigger] members[i]).0 != m.0,
    ensures
        ({
            let all = insert_member(members, m);
            &&& all.len() == members.len() + 1
            &&& keys_distinct(all)
            &&& all.contains(m)
            &&& forall|i: int| 0 <= i < members.len() ==> all.contains(#[trigger] members[i])
            &&& forall|i: int|
                0 <= i < all.len() ==> (#[trigger] all[i]) == m || members.contains(all[i])
        }),
    decreases members.len(),
{
    let all = insert_member(members, m);
    if members.len() > 0 && text_before(m.0, members.last().0) {
        let rest = members.drop_last();
        let last = members.last();
        assert(members[members.len() - 1] == last);
        assert(forall|i: int| 0 <= i < rest.len() ==> #[trigger] rest[i] == members[i]);
        lemma_insert(rest, m);
        let before = insert_member(rest, m);
        assert(forall|i: int| 0 <= i < before.len() ==> all[i] == before[i]);
        assert(all[before.len() as int] == last);
        let k = choose|k: int| 0 <= k < before.len() && before[k] == m;
        assert(all[k] == m);
        assert forall|i: int| 0 <= i < members.len() implies all.contains(#[trigger] members[i]) by {
            if i < rest.len() {
                assert(before.contains(rest[i]));
                let k = choose|k: int| 0 <= k < before.len() && before[k] == rest[i];
                assert(all[k] == members[i]);
            }
        }
        assert forall|i: int| 0 <= i < all.len() implies (#[trigger] all[i]) == m
            || members.contains(all[i]) by {
            if i < before.len() && before[i] != m {
                let k = choose|k: int| 0 <= k < rest.len() && rest[k] == before[i];
                assert(members[k] == all[i]);
            }
        }
        assert forall|i: int, j: int| 0 <= i < j < all.len() implies #[trigger] all[i].0
            != #[trigger] all[j].0 by {
            if j == before.len() {
                if before[i] != m {
                    let k = choose|k: int| 0 <= k < rest.len() && rest[k] == before[i];
                    assert(members[k].0 != members[members.len() - 1].0);
                }
            } else {
                assert(before[i].0 != before[j].0);
            }
        }
    } else {
        assert(all[members.len() as int] == m);
        assert(forall|i: int| 0 <= i < members.len() ==> all[i] == #[trigger] members[i]);
    }
}

proof fn lemma_sort(members: Seq<(Seq<char>, JsonValue)>)
    requires
        keys_distinct(members),
    ensures
        ({
            let all = sort_members(members);
            &&& all.len() == members.len()
            &&& keys_distinct(all)
            &&& forall|i: int| 0 <= i < members.len() ==> all.contains(#[trigger] members[i])
            &&& forall|i: int| 0 <= i < all.len() ==> members.contains(#[trigger] all[i])
        }),
    decreases members.len(),
{
    if members.len() > 0 {
        let rest = members.drop_last();
        let last = members.last();
        assert(members[members.len() - 1] == last);
        assert(forall|i: int| 0 <= i < rest.len() ==> #[trigger] rest[i] == members[i]);
        lemma_sort(rest);
        let before = sort_members(rest);
        assert forall|i: int| 0 <= i < before.len() implies (#[trigger] before[i]).0 != last.0 by {
            assert(rest.contains(before[i]));
            let k = choose|k: int| 0 <= k < rest.len() && rest[k] == before[i];
            assert(members[k].0 != members[members.len() - 1].0);
        }
        lemma_insert(before, last);
        let all = sort_members(members);
        assert forall|i: int| 0 <= i < members.len() implies all.contains(#[trigger] members[i]) by {
            if i < rest.len() {
                assert(before.contains(rest[i]));
                let k = choose|k: int| 0 <= k < before.len() && before[k] == rest[i];
                assert(all.contains(before[k]));
            }
        }
        assert forall|i: int| 0 <= i < all.len() implies members.contains(#[trigger] all[i]) by {
            if all[i] != last {
                let k = choose|k: int| 0 <= k < before.len() && before[k] == all[i];
                assert(rest.contains(before[k]));
                let n = choose|n: int| 0 <= n < rest.len() && rest[n] == before[k];
                assert(members[n] == all[i]);
            }
        }
    }
}

/// Sorting keeps a document printable.
pub proof fn lemma_sorted_printable(v: JsonValue, depth: nat)
    requires
        is_canonical(v),
    ensures
        is_canonical(sorted_value(v)),
        is_shallow(v, depth) ==> is_shallow(sorted_value(v), depth),
    decreases v,
{
    match v {
        JsonValue::Array(items) => {
            let after = sorted_value(v)->Array_0;
            assert forall|i: int| 0 <= i < after.len() implies is_canonical(#[trigger] after[i]) by {
                assert(is_canonical(items[i]));
                lemma_sorted_printable(items[i], depth);
            }
            if is_shallow(v, depth) {
                assert forall|i: int| 0 <= i < after.len() implies is_shallow(
                    #[trigger] after[i],
                    (depth - 1) as nat,
                ) by {
                    assert(is_canonical(items[i]));
                    assert(is_shallow(items[i], (depth - 1) as nat));
                    lemma_sorted_printable(items[i], (depth - 1) as nat);
                }
            }
        },
        JsonValue::Object(members) => {
            let inner = sorted_inside(v);
            let after = sort_members(inner);
            assert(forall|i: int| 0 <= i < inner.len() ==> (#[trigger] inner[i]).0 == members[i].0);
            assert forall|i: int, j: int| 0 <= i < j < inner.len() implies #[trigger] inner[i].0
                != #[trigger] inner[j].0 by {
                assert(members[i].0 != members[j].0);
            }
            lemma_sort(inner);
            assert forall|i: int| 0 <= i < after.len() implies is_canonical((#[trigger] after[i]).1) by {
                assert(inner.contains(after[i]));
                let k = choose|k: int| 0 <= k < inner.len() && inner[k] == after[i];
                assert(is_canonical(members[k].1));
                lemma_sorted_printable(members[k].1, depth);
            }
            if is_shallow(v, depth) {
                assert forall|i: int| 0 <= i < after.len() implies is_shallow(
                    (#[trigger] after[i]).1,
                    (depth - 1) as nat,
                ) by {
                    assert(inner.contains(after[i]));
                    let k = choose|k: int| 0 <= k < inner.len() && inner[k] == after[i];
                    assert(is_canonical(members[k].1));
                    assert(is_shallow(members[k].1, (depth - 1) as nat));
                    lemma_sorted_printable(members[k].1, (depth - 1) as nat);
                }
            }
        },
        _ => {},
    }
}

/// Sorting an object changes none of its members but for the order inside them.
pub proof fn law_sorting_keeps_members(v: JsonValue, key: Seq<char>)
    requires
        is_canonical(v),
        v is Object,
    ensures
        sorted_value(v).get(key) == match v.get(key) {
            Some(member) => Some(sorted_value(member)),
            None => None,
        },
{
    let members = v->Object_0;
    let inner = sorted_inside(v);
    let after = sort_members(inner);
    assert(forall|i: int| 0 <= i < inner.len() ==> (#[trigger] inner[i]).0 == members[i].0);
    assert forall|i: int, j: int| 0 <= i < j < inner.len() implies #[trigger] inner[i].0
        != #[trigger] inner[j].0 by {
        assert(members[i].0 != members[j].0);
    }
    lemma_sort(inner);
    lemma_index_of(members, key);
    lemma_index_of(after, key);
    let i = index_of(members, key) as int;
    if i < members.len() {
        assert(after.contains(inner[i]));
        let k = choose|k: int| 0 <= k < after.len() && after[k] == inner[i];
        lemma_lookup_at(after, k);
    } else if has_key(after, key) {
        let k = index_of(after, key) as int;
        assert(inner.contains(after[k]));
        let n = choose|n: int| 0 <= n < inner.len() && inner[n] == after[k];
        assert(members[n].0 == key);
    }
}

proof fn lemma_before_total(a: Seq<char>, b: Seq<char>)
    ensures
        a == b || text_before(a, b) || text_before(b, a),
        !(text_before(a, b) && text_before(b, a)),
    decreases a.len(),
{
    if a.len() > 0 && b.len() > 0 {
        if a[0] != b[0] {
            char_u32_cast(a[0], a[0] as u32);
            char_u32_cast(b[0], b[0] as u32);
        } else {
            let x = a.subrange(1, a.len() as int);
            let y = b.subrange(1, b.len() as int);
            lemma_before_total(x, y);
            if x == y {
                assert(a =~= seq![a[0]] + x);
                assert(b =~= seq![b[0]] + y);
            }
        }
    } else {
        assert(a.len() == 0 && b.len() == 0 ==> a =~= b);
    }
}

proof fn lemma_before_trans(a: Seq<char>, b: Seq<char>, c: Seq<char>)
    requires
        text_before(a, b),
        text_before(b, c),
    ensures
        text_before(a, c),
    decreases a.len(),
{
    if a.len() > 0 && a[0] == b[0] && b[0] == c[0] {
        lemma_before_trans(
            a.subrange(1, a.len() as int),
            b.subrange(1, b.len() as int),
            c.subrange(1, c.len() as int),
        );
    }
}

/// Whether keys stand in their order.
pub open spec fn in_key_order(members: Seq<(Seq<char>, JsonValue)>) -> bool {
    forall|i: int, j: int|
        0 <= i < j < members.len() ==> text_before((#[trigger] members[i]).0, (#[trigger] members[j]).0)
}

proof fn lemma_insert_in_order(members: Seq<(Seq<char>, JsonValue)>, m: (Seq<char>, JsonValue))
    requires
        in_key_order(members),
        keys_distinct(members),
        forall|i: int| 0 <= i < members.len() ==> (#[trigger] members[i]).0 != m.0,
    ensures
        in_key_order(insert_member(members, m)),
    decreases members.len(),
{
    let all = insert_member(members, m);
    if members.len() > 0 {
        let rest = members.drop_last();
        let last = members.last();
        assert(members[members.len() - 1] == last);
        assert(forall|i: int| 0 <= i < rest.len() ==> #[trigger] rest[i] == members[i]);
        if text_before(m.0, last.0) {
            lemma_insert(rest, m);
            lemma_insert_in_order(rest, m);
            let before = insert_member(rest, m);
            assert forall|i: int, j: int| 0 <= i < j < all.len() implies text_before(
                (#[trigger] all[i]).0,
                (#[trigger] all[j]).0,
            ) by {
                assert(all[i] == before[i]);
                if j < before.len() {
                    assert(all[j] == before[j]);
                } else if before[i] != m {
                    let k = choose|k: int| 0 <= k < rest.len() && rest[k] == before[i];
                    assert(text_before(members[k].0, members[members.len() - 1].0));
                }
            }
        } else {
            lemma_before_total(m.0, last.0);
            assert forall|i: int, j: int| 0 <= i < j < all.len() implies text_before(
                (#[trigger] all[i]).0,
                (#[trigger] all[j]).0,
            ) by {
                assert(all[i] == members[i]);
                if j < members.len() {
                    assert(all[j] == members[j]);
                } else if i < members.len() - 1 {
                    assert(text_before(members[i].0, members[members.len() - 1].0));
                    lemma_before_trans(members[i].0, last.0, m.0);
                }
            }
        }
    }
}

proof fn lemma_sort_in_order(members: Seq<(Seq<char>, JsonValue)>)
    requires
        keys_distinct(members),
    ensures
        in_key_order(sort_members(members)),
    decreases members.len(),
{
    if members.len() > 0 {
        let rest = members.drop_last();
        let last = members.last();
        assert(members[members.len() - 1] == last);
        assert(forall|i: int| 0 <= i < rest.len() ==> #[trigger] rest[i] == members[i]);
        lemma_sort(rest);
        lemma_sort_in_order(rest);
        let before = sort_members(rest);
        assert forall|i: int| 0 <= i < before.len() implies (#[trigger] before[i]).0 != last.0 by {
            assert(rest.contains(before[i]));
            let k = choose|k: int| 0 <= k < rest.len() && rest[k] == before[i];
            assert(members[k].0 != members[members.len() - 1].0);
        }
        lemma_insert_in_order(before, last);
    }
}

/// The members of a sorted object stand in the order of their keys.
pub proof fn law_sorted_is_in_order(v: JsonValue)
    requires
        is_canonical(v),
        v is Object,
    ensures
        in_key_order(sorted_value(v)->Object_0),
{
    let members = v->Object_0;
    let inner = sorted_inside(v);
    assert(forall|i: int| 0 <= i < inner.len() ==> (#[trigger] inner[i]).0 == members[i].0);
    assert forall|i: int, j: int| 0 <= i < j < inner.len() implies #[trigger] inner[i].0
        != #[trigger] inner[j].0 by {
        assert(members[i].0 != members[j].0);
    }
    lemma_sort_in_order(inner);
}

} // verus!
