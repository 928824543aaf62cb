//! A small map from names to values that keeps its entries in the order in
//! which they came.
//!
//! The ledger sums over its maps, and a sum over a sequence is stated more
//! directly than one over an unordered map.  So a [`StrMap`] is modelled as the
//! sequence of its entries, no two of which share a key.

use vstd::prelude::*;

verus! {

/// The entries of a map as the contracts see them: each key by its
/// characters, with its value.
pub type Entries<V> = Seq<(Seq<char>, V)>;

/// No key occurs twice.
pub open spec fn distinct_keys<V>(s: Entries<V>) -> bool {
    forall|i: int, j: int| 0 <= i < j < s.len() ==> (#[trigger] s[i]).0 != (#[trigger] s[j]).0
}

/// Whether some entry has the key.
pub open spec fn has_key<V>(s: Entries<V>, key: Seq<char>) -> bool {
    exists|i: int| 0 <= i < s.len() && (#[trigger] s[i]).0 == key
}

/// The place of the entry with the key, where there is one.
pub open spec fn position<V>(s: Entries<V>, key: Seq<char>) -> int {
    choose|i: int| 0 <= i < s.len() && (#[trigger] s[i]).0 == key
}

/// The value under the key.
pub open spec fn lookup<V>(s: Entries<V>, key: Seq<char>) -> Option<V> {
    if has_key(s, key) {
        Some(s[position(s, key)].1)
    } else {
        None
    }
}

/// The entries after `value` was put under `key`: in the place of the old
/// value, or at the end.
pub open spec fn upsert<V>(s: Entries<V>, key: Seq<char>, value: V) -> Entries<V> {
    if has_key(s, key) {
        s.update(position(s, key), (key, value))
    } else {
        s.push((key, value))
    }
}

/// The entries without the one under `key`.
pub open spec fn without<V>(s: Entries<V>, key: Seq<char>) -> Entries<V> {
    if has_key(s, key) {
        s.remove(position(s, key))
    } else {
        s
    }
}

/// Putting a value under a key keeps the keys distinct.
pub proof fn lemma_upsert_distinct<V>(s: Entries<V>, key: Seq<char>, value: V)
    requires
        distinct_keys(s),
    ensures
        distinct_keys(upsert(s, key, value)),
        has_key(upsert(s, key, value), key),
        lookup(upsert(s, key, value), key) == Some(value),
{
    let t = upsert(s, key, value);
    if has_key(s, key) {
        let p = position(s, key);
        assert(t[p].0 == key);
    } else {
        assert(t[s.len() as int].0 == key);
        assert forall|i: int, j: int| 0 <= i < j < t.len() implies (#[trigger] t[i]).0 != (
        #[trigger] t[j]).0 by {
            if j == s.len() {
                assert(s[i].0 != key);
            } else {
                assert(s[i].0 != s[j].0);
            }
        }
    }
    let q = position(t, key);
    assert(t[q].0 == key);
    if has_key(s, key) {
        let p = position(s, key);
        if q != p {
            assert(s[q].0 == key);
            assert(s[p].0 == key);
        }
    } else {
        if q != s.len() {
            assert(s[q].0 == key);
        }
    }
}

/// Taking a key out keeps the keys distinct and leaves no entry under it.
pub proof fn lemma_without_distinct<V>(s: Entries<V>, key: Seq<char>)
    requires
        distinct_keys(s),
    ensures
        distinct_keys(without(s, key)),
        !has_key(without(s, key), key),
{
    let t = without(s, key);
    if has_key(s, key) {
        let p = position(s, key);
        assert forall|i: int, j: int| 0 <= i < j < t.len() implies (#[trigger] t[i]).0 != (
        #[trigger] t[j]).0 by {
            let i2 = if i < p {
                i
            } else {
                i + 1
            };
            let j2 = if j < p {
                j
            } else {
                j + 1
            };
            assert(s[i2].0 != s[j2].0);
        }
        assert forall|i: int| 0 <= i < t.len() implies (#[trigger] t[i]).0 != key by {
            let i2 = if i < p {
                i
            } else {
                i + 1
            };
            if i2 < p {
                assert(s[i2].0 != s[p].0);
            } else {
                assert(s[p].0 != s[i2].0);
            }
        }
    }
}

/// Putting a value under a key, or taking a key out, leaves what is under
/// every other key.
pub proof fn lemma_other_keys<V>(s: Entries<V>, key: Seq<char>, value: V, other: Seq<char>)
    requires
        distinct_keys(s),
        other != key,
    ensures
        lookup(upsert(s, key, value), other) == lookup(s, other),
        lookup(without(s, key), other) == lookup(s, other),
{
    lemma_upsert_distinct(s, key, value);
    lemma_without_distinct(s, key);
    let more = upsert(s, key, value);
    let fewer = without(s, key);
    if has_key(s, other) {
        let q = position(s, other);
        // in the map with the value put
        let q_more = q;
        assert(more[q_more].0 == other) by {
            if has_key(s, key) {
                let p = position(s, key);
                assert(s[p].0 == key);
            }
        }
        let found = position(more, other);
        assert(more[found].0 == other);
        if found < q_more {
            assert(more[found].0 != more[q_more].0);
        }
        if q_more < found {
            assert(more[q_more].0 != more[found].0);
        }
        assert(more[q_more].1 == s[q].1) by {
            if has_key(s, key) {
                let p = position(s, key);
                assert(s[p].0 == key);
            }
        }
        // in the map with the key taken out
        if has_key(s, key) {
            let p = position(s, key);
            assert(s[p].0 == key);
            let q_fewer = if q < p {
                q
            } else {
                q - 1
            };
            assert(fewer[q_fewer] == s[q]);
            let found2 = position(fewer, other);
            assert(fewer[found2].0 == other);
            if found2 < q_fewer {
                assert(fewer[found2].0 != fewer[q_fewer].0);
            }
            if q_fewer < found2 {
                assert(fewer[q_fewer].0 != fewer[found2].0);
            }
        }
    } else {
        if has_key(more, other) {
            let i = position(more, other);
            assert(more[i].0 == other);
            if has_key(s, key) {
                let p = position(s, key);
                if i != p {
                    assert(s[i].0 == other);
                }
            } else if i < s.len() {
                assert(s[i].0 == other);
            }
        }
        if has_key(fewer, other) {
            let i = position(fewer, other);
            assert(fewer[i].0 == other);
            if has_key(s, key) {
                let p = position(s, key);
                let i2 = if i < p {
                    i
                } else {
                    i + 1
                };
                assert(s[i2].0 == other);
            }
        }
    }
}

/// One entry of a [`StrMap`].
pub struct Entry<V> {
    pub key: String,
    pub value: V,
}

/// A map from names to values, in the order of arrival.
pub struct StrMap<V> {
    entries: Vec<Entry<V>>,
}

impl<V> View for StrMap<V> {
    type V = Seq<(Seq<char>, V)>;

    closed spec fn view(&self) -> Seq<(Seq<char>, V)> {
        Seq::new(self.entries@.len(), |i: int| (self.entries@[i].key@, self.entries@[i].value))
    }
}

impl<V> StrMap<V> {
    /// No two entries share a key.
    #[verifier::type_invariant]
    pub open spec fn well_formed(self) -> bool {
        distinct_keys(self@)
    }

    /// A map without entries.
    pub fn new() -> (r: StrMap<V>)
        ensures
            r@ == Seq::<(Seq<char>, V)>::empty(),
    {
        let r = StrMap { entries: Vec::new() };
        assert(r@ =~= Seq::<(Seq<char>, V)>::empty());
        r
    }

    /// The number of entries.
    pub fn len(&self) -> (r: usize)
        ensures
            r == self@.len(),
    {
        self.entries.len()
    }

    /// Whether the map has no entries.
    pub fn is_empty(&self) -> (r: bool)
        ensures
            r == (self@.len() == 0),
    {
        self.entries.len() == 0
    }

    /// The place of the entry under `key`.
    pub fn find(&self, key: &String) -> (r: Option<usize>)
        ensures
            distinct_keys(self@),
            match r {
                Some(i) => has_key(self@, key@) && i == position(self@, key@) && i < self@.len(),
                None => !has_key(self@, key@),
            },
    {
        proof {
            use_type_invariant(self);
        }
        let mut i: usize = 0;
        while i < self.entries.len()
            invariant
                i <= self.entries.len(),
                distinct_keys(self@),
                forall|j: int| 0 <= j < i ==> (#[trigger] self@[j]).0 != key@,
            decreases self.entries.len() - i,
        {
            if self.entries[i].key == *key {
                proof {
                    assert(self@[i as int].0 == key@);
                    let p = position(self@, key@);
                    assert(self@[p].0 == key@);
                    if p < i {
                        assert(self@[p].0 != self@[i as int].0);
                    }
                    if i < p {
                        assert(self@[i as int].0 != self@[p].0);
                    }
                }
                return Some(i);
            }
            i += 1;
        }
        None
    }

    /// Whether some entry has the key.
    pub fn contains_key(&self, key: &String) -> (r: bool)
        ensures
            r == has_key(self@, key@),
    {
        self.find(key).is_some()
    }

    /// The value under `key`.
    pub fn get(&self, key: &String) -> (r: Option<&V>)
        ensures
            distinct_keys(self@),
            match r {
                Some(v) => lookup(self@, key@) == Some(*v),
                None => lookup(self@, key@).is_none(),
            },
    {
        match self.find(key) {
            Some(i) => Some(&self.entries[i].value),
            None => None,
        }
    }

    /// The key of the entry at place `i`.
    pub fn key_at(&self, i: usize) -> (r: &String)
        requires
            i < self@.len(),
        ensures
            r@ == self@[i as int].0,
            distinct_keys(self@),
    {
        proof {
            use_type_invariant(self);
        }
        &self.entries[i].key
    }

    /// The value of the entry at place `i`.
    pub fn value_at(&self, i: usize) -> (r: &V)
        requires
            i < self@.len(),
        ensures
            *r == self@[i as int].1,
            distinct_keys(self@),
    {
        proof {
            use_type_invariant(self);
        }
        &self.entries[i].value
    }

    /// Puts `value` under `key`: in the place of the old value, or at the end.
    pub fn insert(&mut self, key: String, value: V)
        ensures
            final(self)@ == upsert(old(self)@, key@, value),
            distinct_keys(final(self)@),
            lookup(final(self)@, key@) == Some(value),
    {
        proof {
            use_type_invariant(&*self);
            lemma_upsert_distinct(self@, key@, value);
        }
        let ghost before = self@;
        match self.find(&key) {
            Some(i) => {
                let mut entries: Vec<Entry<V>> = Vec::new();
                core::mem::swap(&mut self.entries, &mut entries);
                entries[i].value = value;
                proof {
                    let after = Seq::new(
                        entries@.len(),
                        |i: int| (entries@[i].key@, entries@[i].value),
                    );
                    assert(after =~= before.update(i as int, (key@, value)));
                }
                core::mem::swap(&mut self.entries, &mut entries);
                assert(self@ =~= before.update(i as int, (key@, value)));
            },
            None => {
                let mut entries: Vec<Entry<V>> = Vec::new();
                core::mem::swap(&mut self.entries, &mut entries);
                entries.push(Entry { key, value });
                proof {
                    let after = Seq::new(
                        entries@.len(),
                        |i: int| (entries@[i].key@, entries@[i].value),
                    );
                    assert(after =~= before.push((key@, value)));
                }
                core::mem::swap(&mut self.entries, &mut entries);
                assert(self@ =~= before.push((key@, value)));
            },
        }
    }

    /// Takes the entry under `key` out and returns its value.
    pub fn remove(&mut self, key: &String) -> (r: Option<V>)
        ensures
            final(self)@ == without(old(self)@, key@),
            r == lookup(old(self)@, key@),
            distinct_keys(final(self)@),
            lookup(final(self)@, key@).is_none(),
    {
        proof {
            use_type_invariant(&*self);
            lemma_without_distinct(self@, key@);
        }
        let ghost before = self@;
        match self.find(key) {
            Some(i) => {
                let mut entries: Vec<Entry<V>> = Vec::new();
                core::mem::swap(&mut self.entries, &mut entries);
                let e = entries.remove(i);
                proof {
                    let after = Seq::new(
                        entries@.len(),
                        |i: int| (entries@[i].key@, entries@[i].value),
                    );
                    assert(after =~= before.remove(i as int));
                }
                core::mem::swap(&mut self.entries, &mut entries);
                assert(self@ =~= before.remove(i as int));
                Some(e.value)
            },
            None => None,
        }
    }
}

impl<V: Clone> Clone for StrMap<V> {
    fn clone(&self) -> (r: Self)
        ensures
            r@.len() == self@.len(),
            forall|i: int|
                0 <= i < self@.len() ==> (#[trigger] r@[i]).0 == self@[i].0 && cloned::<V>(
                    self@[i].1,
                    r@[i].1,
                ),
            distinct_keys(r@),
    {
        proof {
            use_type_invariant(self);
        }
        let mut entries: Vec<Entry<V>> = Vec::new();
        let mut i: usize = 0;
        while i < self.entries.len()
            invariant
                i <= self.entries.len(),
                entries@.len() == i,
                forall|j: int|
                    0 <= j < i ==> (#[trigger] entries@[j]).key@ == self.entries@[j].key@
                        && cloned::<V>(self.entries@[j].value, entries@[j].value),
            decreases self.entries.len() - i,
        {
            let key = self.entries[i].key.clone();
            let value = self.entries[i].value.clone();
            entries.push(Entry { key, value });
            i += 1;
        }
        proof {
            let after = Seq::new(entries@.len(), |i: int| (entries@[i].key@, entries@[i].value));
            assert forall|a: int, b: int| 0 <= a < b < after.len() implies (#[trigger] after[a]).0
                != (#[trigger] after[b]).0 by {
                assert(self@[a].0 != self@[b].0);
            }
        }
        StrMap { entries }
    }
}

/// The entries with each value replaced by its view.
pub open spec fn deep<V: View>(s: Entries<V>) -> Entries<V::V> {
    Seq::new(s.len(), |i: int| (s[i].0, s[i].1@))
}

/// Viewing the values does not touch the keys: a key is found in the same
/// place, and putting and taking entries commute with the viewing.
pub proof fn lemma_deep<V: View>(s: Entries<V>, key: Seq<char>)
    requires
        distinct_keys(s),
    ensures
        distinct_keys(deep(s)),
        has_key(deep(s), key) == has_key(s, key),
        has_key(s, key) ==> position(deep(s), key) == position(s, key),
        lookup(deep(s), key) == (match lookup(s, key) {
            Some(v) => Some(v@),
            None => None,
        }),
        deep(without(s, key)) == without(deep(s), key),
{
    let d = deep(s);
    assert forall|i: int, j: int| 0 <= i < j < d.len() implies (#[trigger] d[i]).0 != (
    #[trigger] d[j]).0 by {
        assert(s[i].0 != s[j].0);
    }
    if has_key(s, key) {
        let p = position(s, key);
        assert(d[p].0 == key);
        let q = position(d, key);
        assert(s[q].0 == key);
        if p < q {
            assert(s[p].0 != s[q].0);
        }
        if q < p {
            assert(s[q].0 != s[p].0);
        }
        assert(deep(s.remove(p)) =~= d.remove(p));
    }
    if has_key(d, key) {
        let q = position(d, key);
        assert(s[q].0 == key);
    }
}

/// Putting a value commutes with viewing the values.
pub proof fn lemma_deep_upsert<V: View>(s: Entries<V>, key: Seq<char>, value: V)
    requires
        distinct_keys(s),
    ensures
        deep(upsert(s, key, value)) == upsert(deep(s), key, value@),
{
    lemma_deep(s, key);
    if has_key(s, key) {
        let p = position(s, key);
        assert(deep(s.update(p, (key, value))) =~= deep(s).update(p, (key, value@)));
    } else {
        assert(deep(s.push((key, value))) =~= deep(s).push((key, value@)));
    }
}

} // verus!
