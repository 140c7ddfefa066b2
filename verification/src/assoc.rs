//! Association lists: key-value pairs in order of first insertion, and a
//! table of them with text keys.

use vstd::prelude::*;
use crate::text::{str_eq, texts_of};

verus! {

/// The position of the first pair with key `k`, or the length without one.
pub open spec fn index_of<K, V>(s: Seq<(K, V)>, k: K) -> nat
    decreases s.len(),
{
    if s.len() == 0 || s[0].0 == k {
        0
    } else {
        1 + index_of(s.subrange(1, s.len() as int), k)
    }
}

pub open spec fn has_key<K, V>(s: Seq<(K, V)>, k: K) -> bool {
    index_of(s, k) < s.len()
}

/// The value of the first pair with key `k`.
pub open spec fn lookup<K, V>(s: Seq<(K, V)>, k: K) -> Option<V> {
    if has_key(s, k) {
        Some(s[index_of(s, k) as int].1)
    } else {
        None
    }
}

/// The list with `v` in the place of the value of `k`, or with a new pair at
/// its end.
pub open spec fn put<K, V>(s: Seq<(K, V)>, k: K, v: V) -> Seq<(K, V)> {
    if has_key(s, k) {
        s.update(index_of(s, k) as int, (k, v))
    } else {
        s.push((k, v))
    }
}

/// The list without the first pair with key `k`.
pub open spec fn erase<K, V>(s: Seq<(K, V)>, k: K) -> Seq<(K, V)> {
    if has_key(s, k) {
        s.remove(index_of(s, k) as int)
    } else {
        s
    }
}

/// No key occurs twice.
pub open spec fn keys_distinct<K, V>(s: Seq<(K, V)>) -> bool {
    forall|i: int, j: int| 0 <= i < j < s.len() ==> #[trigger] s[i].0 != #[trigger] s[j].0
}

pub proof fn lemma_index_of<K, V>(s: Seq<(K, V)>, k: K)
    ensures
        index_of(s, k) <= s.len(),
        forall|i: int| 0 <= i < index_of(s, k) ==> (#[trigger] s[i]).0 != k,
        index_of(s, k) < s.len() ==> s[index_of(s, k) as int].0 == k,
    decreases s.len(),
{
    if s.len() == 0 || s[0].0 == k {
    } else {
        let rest = s.subrange(1, s.len() as int);
        lemma_index_of(rest, k);
        assert forall|i: int| 0 <= i < index_of(s, k) implies (#[trigger] s[i]).0 != k by {
            if i > 0 {
                assert(rest[i - 1] == s[i]);
            }
        }
    }
}

pub proof fn lemma_index_unique<K, V>(s: Seq<(K, V)>, k: K, n: nat)
    requires
        n <= s.len(),
        forall|i: int| 0 <= i < n ==> (#[trigger] s[i]).0 != k,
        n < s.len() ==> s[n as int].0 == k,
    ensures
        index_of(s, k) == n,
{
    lemma_index_of(s, k);
    let m = index_of(s, k);
    if m < n {
        assert(s[m as int].0 != k);
    } else if n < m {
        assert(s[n as int].0 != k);
    }
}

/// Where keys are distinct, a pair in the list is what its key finds.
pub proof fn lemma_lookup_at<K, V>(s: Seq<(K, V)>, i: int)
    requires
        keys_distinct(s),
        0 <= i < s.len(),
    ensures
        index_of(s, s[i].0) == i,
        lookup(s, s[i].0) == Some(s[i].1),
{
    assert forall|j: int| 0 <= j < i implies (#[trigger] s[j]).0 != s[i].0 by {}
    lemma_index_unique(s, s[i].0, i as nat);
}

/// A put value is found under its key, and other keys find what they found.
pub proof fn lemma_put<K, V>(s: Seq<(K, V)>, k: K, v: V, other: K)
    ensures
        lookup(put(s, k, v), other) == if other == k {
            Some(v)
        } else {
            lookup(s, other)
        },
{
    let t = put(s, k, v);
    lemma_index_of(s, k);
    lemma_index_of(s, other);
    let i = index_of(s, k);
    let j = index_of(s, other);
    if other == k {
        assert forall|x: int| 0 <= x < i implies (#[trigger] t[x]).0 != k by {
            assert(t[x] == s[x]);
        }
        lemma_index_unique(t, k, i);
    } else {
        if j < s.len() {
            assert forall|x: int| 0 <= x < j implies (#[trigger] t[x]).0 != other by {
                assert(s[x].0 != other);
            }
            lemma_index_unique(t, other, j);
        } else {
            assert forall|x: int| 0 <= x < t.len() implies (#[trigger] t[x]).0 != other by {
                if x < s.len() {
                    assert(s[x].0 != other);
                }
            }
            lemma_index_unique(t, other, t.len());
        }
    }
}

/// Of two values put under one key the second stays.
pub proof fn lemma_put_again<K, V>(s: Seq<(K, V)>, k: K, v: V, w: V)
    ensures
        put(put(s, k, v), k, w) == put(s, k, w),
{
    let t = put(s, k, v);
    lemma_index_of(s, k);
    let i = index_of(s, k);
    assert forall|x: int| 0 <= x < i implies (#[trigger] t[x]).0 != k by {
        assert(t[x] == s[x]);
    }
    lemma_index_unique(t, k, i);
    assert(put(t, k, w) =~= put(s, k, w));
}

/// Putting the value that is there changes nothing.
pub proof fn lemma_put_same<K, V>(s: Seq<(K, V)>, k: K, v: V)
    requires
        lookup(s, k) == Some(v),
    ensures
        put(s, k, v) == s,
{
    lemma_index_of(s, k);
    assert(put(s, k, v) =~= s);
}

pub proof fn lemma_put_distinct<K, V>(s: Seq<(K, V)>, k: K, v: V)
    requires
        keys_distinct(s),
    ensures
        keys_distinct(put(s, k, v)),
{
    lemma_index_of(s, k);
    let t = put(s, k, v);
    assert forall|i: int, j: int| 0 <= i < j < t.len() implies #[trigger] t[i].0 != #[trigger] t[j].0 by {
        if i < s.len() {
            assert(t[i].0 == s[i].0);
        }
        if j < s.len() {
            assert(t[j].0 == s[j].0);
        } else {
            assert(s[i].0 != k);
        }
    }
}

/// After an erase, its key finds nothing and other keys find what they found.
pub proof fn lemma_erase<K, V>(s: Seq<(K, V)>, k: K, other: K)
    requires
        keys_distinct(s),
    ensures
        lookup(erase(s, k), other) == if other == k {
            None
        } else {
            lookup(s, other)
        },
        keys_distinct(erase(s, k)),
{
    let t = erase(s, k);
    lemma_index_of(s, k);
    let i = index_of(s, k);
    if i < s.len() {
        assert forall|x: int| 0 <= x < t.len() implies #[trigger] t[x] == (if x < i {
            s[x]
        } else {
            s[x + 1]
        }) by {}
        lemma_index_of(s, other);
        let j = index_of(s, other);
        if other == k {
            assert forall|x: int| 0 <= x < t.len() implies (#[trigger] t[x]).0 != other by {
                if x >= i {
                    assert(s[i as int].0 != s[x + 1].0);
                } else {
                    assert(s[x].0 != k);
                }
            }
            lemma_index_unique(t, other, t.len());
        } else if j == s.len() {
            assert forall|x: int| 0 <= x < t.len() implies (#[trigger] t[x]).0 != other by {
                if x >= i {
                    assert(s[x + 1].0 != other);
                } else {
                    assert(s[x].0 != other);
                }
            }
            lemma_index_unique(t, other, t.len());
        } else {
            let n: nat = if j < i {
                j
            } else {
                (j - 1) as nat
            };
            assert forall|x: int| 0 <= x < n implies (#[trigger] t[x]).0 != other by {
                if x >= i {
                    assert(s[x + 1].0 != other);
                } else {
                    assert(s[x].0 != other);
                }
            }
            lemma_index_unique(t, other, n);
        }
    }
}

/// A table with text keys, in order of first insertion.
#[derive(Debug)]
pub struct Table<V> {
    items: Vec<(String, V)>,
}

impl<V: View> View for Table<V> {
    type V = Seq<(Seq<char>, V::V)>;

    closed spec fn view(&self) -> Seq<(Seq<char>, V::V)> {
        self.items@.map_values(|p: (String, V)| (p.0@, p.1@))
    }
}

impl<V: View> Table<V> {
    pub fn new() -> (t: Self)
        ensures
            t@ == Seq::<(Seq<char>, V::V)>::empty(),
    {
        let t = Table { items: Vec::new() };
        assert(t@ =~= Seq::<(Seq<char>, V::V)>::empty());
        t
    }

    pub fn len(&self) -> (n: usize)
        ensures
            n == self@.len(),
    {
        self.items.len()
    }

    pub fn key_at(&self, i: usize) -> (k: &String)
        requires
            i < self@.len(),
        ensures
            k@ == self@[i as int].0,
    {
        &self.items[i].0
    }

    pub fn value_at(&self, i: usize) -> (v: &V)
        requires
            i < self@.len(),
        ensures
            v@ == self@[i as int].1,
    {
        &self.items[i].1
    }

    /// The position of `key`, or the length of the table without it.
    pub fn position(&self, key: &str) -> (i: usize)
        ensures
            i == index_of(self@, key@),
            i <= self@.len(),
    {
        let mut i: usize = 0;
        while i < self.items.len()
            invariant
                i <= self.items@.len(),
                forall|j: int| 0 <= j < i ==> (#[trigger] self@[j]).0 != key@,
            decreases self.items@.len() - i,
        {
            if str_eq(self.items[i].0.as_str(), key) {
                proof {
                    assert(self@[i as int].0 == key@);
                    lemma_index_unique(self@, key@, i as nat);
                }
                return i;
            }
            assert(self@[i as int].0 != key@);
            i = i + 1;
        }
        proof {
            lemma_index_unique(self@, key@, i as nat);
        }
        i
    }

    pub fn contains_key(&self, key: &str) -> (r: bool)
        ensures
            r == has_key(self@, key@),
    {
        self.position(key) < self.items.len()
    }

    pub fn get(&self, key: &str) -> (r: Option<&V>)
        ensures
            match r {
                Some(v) => lookup(self@, key@) == Some(v@),
                None => lookup(self@, key@) is None,
            },
    {
        let i = self.position(key);
        if i < self.items.len() {
            Some(&self.items[i].1)
        } else {
            None
        }
    }

    /// Puts `value` under `key`, in the place of an earlier value.
    pub fn insert(&mut self, key: String, value: V)
        ensures
            final(self)@ == put(old(self)@, key@, value@),
    {
        let i = self.position(key.as_str());
        let ghost before = self@;
        let ghost pair = (key@, value@);
        proof {
            lemma_index_of(before, key@);
        }
        if i < self.items.len() {
            self.items.set(i, (key, value));
        } else {
            self.items.push((key, value));
        }
        assert(self@ =~= put(before, pair.0, pair.1));
    }

    /// The value at a position, to be changed in place.
    pub fn value_mut(&mut self, i: usize) -> (v: &mut V)
        requires
            i < old(self)@.len(),
        ensures
            v@ == old(self)@[i as int].1,
            final(self)@ == old(self)@.update(i as int, (old(self)@[i as int].0, (*final(v))@)),
    {
        &mut self.items[i].1
    }

    /// Empties the table.
    pub fn clear(&mut self)
        ensures
            final(self)@ == Seq::<(Seq<char>, V::V)>::empty(),
    {
        self.items.clear();
        assert(self@ =~= Seq::<(Seq<char>, V::V)>::empty());
    }

    /// Takes the value of `key` out of the table.
    pub fn remove(&mut self, key: &str) -> (r: Option<V>)
        ensures
            match r {
                Some(v) => lookup(old(self)@, key@) == Some(v@),
                None => lookup(old(self)@, key@) is None,
            },
            final(self)@ == erase(old(self)@, key@),
    {
        let i = self.position(key);
        let ghost before = self@;
        if i < self.items.len() {
            let pair = self.items.remove(i);
            assert(self@ =~= erase(before, key@));
            assert(before[i as int].1 == pair.1@);
            Some(pair.1)
        } else {
            None
        }
    }
}

/// A table with numbers as keys, in order of first insertion.
#[derive(Debug)]
pub struct IdTable<V> {
    items: Vec<(u32, V)>,
}

impl<V: View> View for IdTable<V> {
    type V = Seq<(u32, V::V)>;

    closed spec fn view(&self) -> Seq<(u32, V::V)> {
        self.items@.map_values(|p: (u32, V)| (p.0, p.1@))
    }
}

impl<V: View> IdTable<V> {
    pub fn new() -> (t: Self)
        ensures
            t@ == Seq::<(u32, V::V)>::empty(),
    {
        let t = IdTable { items: Vec::new() };
        assert(t@ =~= Seq::<(u32, V::V)>::empty());
        t
    }

    pub fn len(&self) -> (n: usize)
        ensures
            n == self@.len(),
    {
        self.items.len()
    }

    pub fn key_at(&self, i: usize) -> (k: u32)
        requires
            i < self@.len(),
        ensures
            k == self@[i as int].0,
    {
        self.items[i].0
    }

    /// The position of `key`, or the length of the table without it.
    pub fn position(&self, key: u32) -> (i: usize)
        ensures
            i == index_of(self@, key),
            i <= self@.len(),
    {
        let mut i: usize = 0;
        while i < self.items.len()
            invariant
                i <= self.items@.len(),
                forall|j: int| 0 <= j < i ==> (#[trigger] self@[j]).0 != key,
            decreases self.items@.len() - i,
        {
            if self.items[i].0 == key {
                proof {
                    assert(self@[i as int].0 == key);
                    lemma_index_unique(self@, key, i as nat);
                }
                return i;
            }
            assert(self@[i as int].0 != key);
            i = i + 1;
        }
        proof {
            lemma_index_unique(self@, key, i as nat);
        }
        i
    }

    pub fn get(&self, key: u32) -> (r: Option<&V>)
        ensures
            match r {
                Some(v) => lookup(self@, key) == Some(v@),
                None => lookup(self@, key) is None,
            },
    {
        let i = self.position(key);
        if i < self.items.len() {
            Some(&self.items[i].1)
        } else {
            None
        }
    }

    /// Puts `value` under `key`, in the place of an earlier value.
    pub fn insert(&mut self, key: u32, value: V)
        ensures
            final(self)@ == put(old(self)@, key, value@),
    {
        let i = self.position(key);
        let ghost before = self@;
        let ghost pair = (key, value@);
        proof {
            lemma_index_of(before, key);
        }
        if i < self.items.len() {
            self.items.set(i, (key, value));
        } else {
            self.items.push((key, value));
        }
        assert(self@ =~= put(before, pair.0, pair.1));
    }

    /// Takes the value of `key` out of the table.
    pub fn remove(&mut self, key: u32) -> (r: Option<V>)
        ensures
            match r {
                Some(v) => lookup(old(self)@, key) == Some(v@),
                None => lookup(old(self)@, key) is None,
            },
            final(self)@ == erase(old(self)@, key),
    {
        let i = self.position(key);
        let ghost before = self@;
        if i < self.items.len() {
            let pair = self.items.remove(i);
            assert(self@ =~= erase(before, key));
            assert(before[i as int].1 == pair.1@);
            Some(pair.1)
        } else {
            None
        }
    }

    /// Empties the table.
    pub fn clear(&mut self)
        ensures
            final(self)@ == Seq::<(u32, V::V)>::empty(),
    {
        self.items.clear();
        assert(self@ =~= Seq::<(u32, V::V)>::empty());
    }
}

/// A set of texts.
#[derive(Debug)]
pub struct TextSet {
    items: Vec<String>,
}

impl View for TextSet {
    type V = Set<Seq<char>>;

    closed spec fn view(&self) -> Set<Seq<char>> {
        Set::new(|t: Seq<char>| texts_of(self.items@).contains(t))
    }
}

impl TextSet {
    pub fn new() -> (s: TextSet)
        ensures
            s@ == Set::<Seq<char>>::empty(),
    {
        let s = TextSet { items: Vec::new() };
        assert(s@ =~= Set::<Seq<char>>::empty());
        s
    }

    pub fn contains(&self, text: &str) -> (r: bool)
        ensures
            r == self@.contains(text@),
    {
        let ghost all = texts_of(self.items@);
        let mut i: usize = 0;
        while i < self.items.len()
            invariant
                i <= self.items@.len(),
                all == texts_of(self.items@),
                forall|j: int| 0 <= j < i ==> #[trigger] all[j] != text@,
            decreases self.items@.len() - i,
        {
            assert(all[i as int] == self.items@[i as int]@);
            if str_eq(self.items[i].as_str(), text) {
                return true;
            }
            i = i + 1;
        }
        false
    }

    pub fn insert(&mut self, text: String)
        ensures
            final(self)@ == old(self)@.insert(text@),
    {
        let ghost before = self.items@;
        let ghost was = self@;
        let ghost added = text@;
        self.items.push(text);
        proof {
            let all = texts_of(self.items@);
            assert(all =~= texts_of(before).push(added));
            assert forall|t: Seq<char>| self@.contains(t) <==> was.insert(added).contains(t) by {
                if all.contains(t) && t != added {
                    let i = choose|i: int| 0 <= i < all.len() && all[i] == t;
                    assert(texts_of(before)[i] == t);
                }
                if texts_of(before).contains(t) {
                    let i = choose|i: int| 0 <= i < before.len() && texts_of(before)[i] == t;
                    assert(all[i] == t);
                }
                if t == added {
                    assert(all[before.len() as int] == t);
                }
            }
            assert(self@ =~= was.insert(added));
        }
    }

    pub fn remove(&mut self, text: &str)
        ensures
            final(self)@ == old(self)@.remove(text@),
    {
        let ghost start = self.items@;
        let ghost was = self@;
        let mut kept: Vec<String> = Vec::new();
        let mut i: usize = 0;
        while i < self.items.len()
            invariant
                i <= self.items@.len(),
                self.items@ == start,
                forall|t: Seq<char>|
                    #[trigger] texts_of(kept@).contains(t) <==> t != text@ && texts_of(
                        start.take(i as int),
                    ).contains(t),
            decreases self.items@.len() - i,
        {
            let ghost before = kept@;
            proof {
                lemma_texts_push(start.take(i as int), start[i as int]);
                assert(start.take(i + 1) =~= start.take(i as int).push(start[i as int]));
            }
            if !str_eq(self.items[i].as_str(), text) {
                kept.push(self.items[i].clone());
                proof {
                    lemma_texts_push(before, start[i as int]);
                }
            }
            i = i + 1;
        }
        assert(start.take(i as int) =~= start);
        self.items = kept;
        assert(self@ =~= was.remove(text@));
    }
}

impl TextSet {
    /// Keeps the texts that are in `live` too.
    pub fn keep_only(&mut self, live: &TextSet)
        ensures
            final(self)@ == old(self)@.intersect(live@),
    {
        let ghost start = self.items@;
        let ghost was = self@;
        let mut kept: Vec<String> = Vec::new();
        let mut i: usize = 0;
        while i < self.items.len()
            invariant
                i <= self.items@.len(),
                self.items@ == start,
                forall|t: Seq<char>|
                    #[trigger] texts_of(kept@).contains(t) <==> live@.contains(t) && texts_of(
                        start.take(i as int),
                    ).contains(t),
            decreases self.items@.len() - i,
        {
            let ghost before = kept@;
            proof {
                lemma_texts_push(start.take(i as int), start[i as int]);
                assert(start.take(i + 1) =~= start.take(i as int).push(start[i as int]));
            }
            if live.contains(self.items[i].as_str()) {
                kept.push(self.items[i].clone());
                proof {
                    lemma_texts_push(before, start[i as int]);
                }
            }
            i = i + 1;
        }
        assert(start.take(i as int) =~= start);
        self.items = kept;
        assert(self@ =~= was.intersect(live@));
    }
}

proof fn lemma_texts_push(v: Seq<String>, s: String)
    ensures
        forall|t: Seq<char>|
            #[trigger] texts_of(v.push(s)).contains(t) <==> t == s@ || texts_of(v).contains(t),
{
    let all = texts_of(v.push(s));
    assert(all =~= texts_of(v).push(s@));
    assert forall|t: Seq<char>| #[trigger] all.contains(t) <==> t == s@ || texts_of(v).contains(t) by {
        if all.contains(t) && t != s@ {
            let i = choose|i: int| 0 <= i < all.len() && all[i] == t;
            assert(texts_of(v)[i] == t);
        }
        if texts_of(v).contains(t) {
            let i = choose|i: int| 0 <= i < v.len() && texts_of(v)[i] == t;
            assert(all[i] == t);
        }
        if t == s@ {
            assert(all[v.len() as int] == t);
        }
    }
}

} // verus!
