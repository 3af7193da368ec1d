//! A map from strings to values that keeps its entries in the lexicographic
//! order of their keys.

use vstd::prelude::*;

use crate::text::compare;
use crate::text::lemma_lex_irreflexive;
use crate::text::lemma_lex_transitive;
use crate::text::lex_lt;
use crate::text::Order;

verus! {

/// Tells whether the keys of `entries` strictly increase.
pub open spec fn increasing<V>(entries: Seq<(String, V)>) -> bool {
    forall|i: int, j: int| 0 <= i < j < entries.len() ==> lex_lt(entries[i].0@, entries[j].0@)
}

/// Entries with strictly increasing keys hold each key once.
pub proof fn lemma_increasing_keys_differ<V>(entries: Seq<(String, V)>, i: int, j: int)
    requires
        increasing(entries),
        0 <= i < entries.len(),
        0 <= j < entries.len(),
        entries[i].0@ == entries[j].0@,
    ensures
        i == j,
{
    lemma_lex_irreflexive(entries[i].0@);
}

/// String keys with their values, ordered by key, each key once.
#[derive(Debug, PartialEq, Eq)]
pub struct OrderedMap<V> {
    entries: Vec<(String, V)>,
}

impl<V> OrderedMap<V> {
    #[verifier::type_invariant]
    spec fn ordered(&self) -> bool {
        increasing(self.entries@)
    }

    /// The entries in their stored order.
    pub closed spec fn entries(&self) -> Seq<(String, V)> {
        self.entries@
    }

    /// The number of entries.
    pub open spec fn count(&self) -> nat {
        self.entries().len()
    }

    /// The key of the entry at position `i`.
    pub open spec fn key(&self, i: int) -> Seq<char> {
        self.entries()[i].0@
    }

    /// The value of the entry at position `i`.
    pub open spec fn value(&self, i: int) -> V {
        self.entries()[i].1
    }

    /// Tells whether the map holds `v` under the key `k`.
    pub open spec fn holds(&self, k: Seq<char>, v: V) -> bool {
        exists|i: int| 0 <= i < self.count() && self.key(i) == k && self.value(i) == v
    }

    /// Tells whether the map holds an entry under the key `k`.
    pub open spec fn has_key(&self, k: Seq<char>) -> bool {
        exists|i: int| 0 <= i < self.count() && self.key(i) == k
    }

    /// A map without entries.
    pub fn new() -> (m: Self)
        ensures
            m.count() == 0,
            increasing(m.entries()),
    {
        OrderedMap { entries: Vec::new() }
    }

    /// The number of entries.
    pub fn len(&self) -> (n: usize)
        ensures
            n == self.count(),
            increasing(self.entries()),
    {
        proof {
            use_type_invariant(self);
        }
        self.entries.len()
    }

    /// Tells whether the map has no entries.
    pub fn is_empty(&self) -> (b: bool)
        ensures
            b == (self.count() == 0),
    {
        self.entries.len() == 0
    }

    /// The key at position `i` of the stored order.
    pub fn key_at(&self, i: usize) -> (k: &String)
        requires
            i < self.count(),
        ensures
            k@ == self.key(i as int),
    {
        &self.entries[i].0
    }

    /// The value at position `i` of the stored order.
    pub fn value_at(&self, i: usize) -> (v: &V)
        requires
            i < self.count(),
        ensures
            *v == self.value(i as int),
    {
        &self.entries[i].1
    }

    /// The position at which `key` stands, or would have to stand, and
    /// whether it stands there.
    fn locate(&self, key: &str) -> (at: (usize, bool))
        ensures
            at.0 <= self.count(),
            forall|j: int| 0 <= j < at.0 ==> lex_lt(self.key(j), key@),
            at.1 ==> at.0 < self.count() && self.key(at.0 as int) == key@,
            !at.1 ==> forall|j: int| at.0 <= j < self.count() ==> lex_lt(key@, self.key(j)),
    {
        proof {
            use_type_invariant(self);
        }
        let mut i: usize = 0;
        while i < self.entries.len()
            invariant
                i <= self.entries.len(),
                increasing(self.entries@),
                forall|j: int| 0 <= j < i ==> lex_lt(self.key(j), key@),
            decreases self.entries.len() - i,
        {
            match compare(self.entries[i].0.as_str(), key) {
                Order::Less => {},
                Order::Equal => {
                    return (i, true);
                },
                Order::Greater => {
                    proof {
                        assert forall|j: int| i <= j < self.count() implies lex_lt(
                            key@,
                            self.key(j),
                        ) by {
                            if i < j {
                                lemma_lex_transitive(key@, self.key(i as int), self.key(j));
                            }
                        }
                    }
                    return (i, false);
                },
            }
            i += 1;
        }
        (i, false)
    }

    /// The value that stands under `key`, if there is one.
    pub fn get(&self, key: &str) -> (found: Option<&V>)
        ensures
            found matches Some(v) ==> self.holds(key@, *v),
            found is None ==> !self.has_key(key@),
    {
        proof {
            use_type_invariant(self);
        }
        let (at, found) = self.locate(key);
        if found {
            Some(&self.entries[at].1)
        } else {
            proof {
                if self.has_key(key@) {
                    let i = choose|i: int| 0 <= i < self.count() && self.key(i) == key@;
                    lemma_lex_irreflexive(key@);
                }
            }
            None
        }
    }

    /// Puts `value` under `key`. A value that stood under the same key is
    /// replaced; every other entry stays, and the order by key is kept.
    pub fn insert(&mut self, key: String, value: V)
        ensures
            increasing(final(self).entries()),
            forall|k: Seq<char>, v: V|
                final(self).holds(k, v) <==> (k == key@ && v == value) || (k != key@ && old(
                    self,
                ).holds(k, v)),
            final(self).count() == old(self).count() + if old(self).has_key(key@) {
                0int
            } else {
                1int
            },
    {
        proof {
            use_type_invariant(&*self);
        }
        let (at, found) = self.locate(key.as_str());
        let ghost before = self.entries@;
        let ghost k0 = key@;
        proof {
            assert forall|j: int| 0 <= j < at implies lex_lt(before[j].0@, k0) by {
                assert(self.key(j) == before[j].0@);
            }
            if !found {
                assert forall|j: int| at <= j < before.len() implies lex_lt(k0, before[j].0@) by {
                    assert(self.key(j) == before[j].0@);
                }
            }
        }
        let mut entries: Vec<(String, V)> = Vec::new();
        std::mem::swap(&mut self.entries, &mut entries);
        assert(entries@ == before);
        if found {
            entries[at] = (key, value);
            proof {
                let after = entries@;
                assert(after == before.update(at as int, (key, value)));
                assert forall|i: int, j: int| 0 <= i < j < after.len() implies lex_lt(
                    after[i].0@,
                    after[j].0@,
                ) by {
                    assert(after[i].0@ == before[i].0@);
                    assert(after[j].0@ == before[j].0@);
                }
            }
            self.entries = entries;
            proof {
                assert forall|k: Seq<char>, v: V|
                    self.holds(k, v) <==> (k == k0 && v == value) || (k != k0 && old(self).holds(
                        k,
                        v,
                    )) by {
                    if self.holds(k, v) {
                        let i = choose|i: int|
                            0 <= i < self.count() && self.key(i) == k && self.value(i) == v;
                        if i != at {
                            assert(old(self).key(i) == k && old(self).value(i) == v);
                            if k == k0 {
                                lemma_increasing_keys_differ(before, i, at as int);
                            }
                        }
                    }
                    if k == k0 && v == value {
                        assert(self.key(at as int) == k && self.value(at as int) == v);
                    }
                    if k != k0 && old(self).holds(k, v) {
                        let i = choose|i: int|
                            0 <= i < before.len() && before[i].0@ == k && before[i].1 == v;
                        assert(self.key(i) == k && self.value(i) == v);
                    }
                }
                assert(old(self).has_key(k0)) by {
                    assert(old(self).key(at as int) == k0);
                }
            }
        } else {
            entries.insert(at, (key, value));
            proof {
                let after = entries@;
                assert(after == before.insert(at as int, (key, value)));
                assert forall|i: int, j: int| 0 <= i < j < after.len() implies lex_lt(
                    after[i].0@,
                    after[j].0@,
                ) by {
                    if i < at && j > at {
                        assert(after[i] == before[i]);
                        assert(after[j] == before[j - 1]);
                    } else if i < at && j < at {
                        assert(after[i] == before[i]);
                        assert(after[j] == before[j]);
                    } else if i < at && j == at {
                        assert(after[i] == before[i]);
                    } else if i == at {
                        assert(after[j] == before[j - 1]);
                    } else {
                        assert(after[i] == before[i - 1]);
                        assert(after[j] == before[j - 1]);
                    }
                }
            }
            self.entries = entries;
            proof {
                assert forall|k: Seq<char>, v: V|
                    self.holds(k, v) <==> (k == k0 && v == value) || (k != k0 && old(self).holds(
                        k,
                        v,
                    )) by {
                    if self.holds(k, v) {
                        let i = choose|i: int|
                            0 <= i < self.count() && self.key(i) == k && self.value(i) == v;
                        if i < at {
                            assert(old(self).key(i) == k && old(self).value(i) == v);
                            lemma_lex_irreflexive(k0);
                        } else if i > at {
                            assert(old(self).key(i - 1) == k && old(self).value(i - 1) == v);
                            lemma_lex_irreflexive(k0);
                        }
                    }
                    if k == k0 && v == value {
                        assert(self.key(at as int) == k && self.value(at as int) == v);
                    }
                    if k != k0 && old(self).holds(k, v) {
                        let i = choose|i: int|
                            0 <= i < before.len() && before[i].0@ == k && before[i].1 == v;
                        if i < at {
                            assert(self.key(i) == k && self.value(i) == v);
                        } else {
                            assert(self.key(i + 1) == k && self.value(i + 1) == v);
                        }
                    }
                }
                assert(!old(self).has_key(k0)) by {
                    if old(self).has_key(k0) {
                        let i = choose|i: int| 0 <= i < old(self).count() && old(self).key(i) == k0;
                        lemma_lex_irreflexive(k0);
                    }
                }
            }
        }
    }
}

impl<V: Clone> Clone for OrderedMap<V> {
    /// A map with the same keys, in the same order, each with a copy of
    /// its value.
    fn clone(&self) -> (copy: Self)
        ensures
            copy.count() == self.count(),
            forall|i: int| 0 <= i < self.count() ==> copy.key(i) == self.key(i),
    {
        proof {
            use_type_invariant(self);
        }
        let mut entries: Vec<(String, V)> = Vec::new();
        let mut i: usize = 0;
        while i < self.entries.len()
            invariant
                i <= self.entries@.len(),
                entries@.len() == i,
                forall|j: int| 0 <= j < i ==> (#[trigger] entries@[j]).0@ == self.entries@[j].0@,
            decreases self.entries@.len() - i,
        {
            entries.push((self.entries[i].0.clone(), self.entries[i].1.clone()));
            i += 1;
        }
        proof {
            assert forall|a: int, b: int| 0 <= a < b < entries@.len() implies lex_lt(
                entries@[a].0@,
                entries@[b].0@,
            ) by {
                assert(entries@[a].0@ == self.entries@[a].0@);
                assert(entries@[b].0@ == self.entries@[b].0@);
            }
        }
        OrderedMap { entries }
    }
}

/// Tells whether some entry stands under the key `k`.
pub open spec fn key_in<V>(entries: Seq<(String, V)>, k: Seq<char>) -> bool {
    exists|i: int| 0 <= i < entries.len() && (#[trigger] entries[i]).0@ == k
}

/// The order of an ordered map is determined by its keys: two of them with
/// the same set of keys have the same key at every position.
pub proof fn law_order_is_determined<V>(a: Seq<(String, V)>, b: Seq<(String, V)>)
    requires
        increasing(a),
        increasing(b),
        forall|k: Seq<char>| key_in(a, k) <==> key_in(b, k),
    ensures
        a.len() == b.len(),
        forall|i: int| 0 <= i < a.len() ==> a[i].0@ == b[i].0@,
    decreases a.len(),
{
    if a.len() == 0 {
        if b.len() > 0 {
            assert(b[0].0@ == b[0].0@);
            assert(key_in(b, b[0].0@));
            assert(key_in(a, b[0].0@));
        }
    } else if b.len() == 0 {
        assert(a[0].0@ == a[0].0@);
        assert(key_in(a, a[0].0@));
        assert(key_in(b, a[0].0@));
    } else {
        // The first keys agree: each is the least key of its map.
        assert(key_in(a, a[0].0@));
        assert(key_in(b, b[0].0@));
        let j = choose|j: int| 0 <= j < b.len() && (#[trigger] b[j]).0@ == a[0].0@;
        let i = choose|i: int| 0 <= i < a.len() && (#[trigger] a[i]).0@ == b[0].0@;
        if j > 0 && i > 0 {
            lemma_lex_transitive(a[0].0@, a[i].0@, b[j].0@);
            lemma_lex_irreflexive(a[0].0@);
        }
        assert(a[0].0@ == b[0].0@);
        let ra = a.skip(1);
        let rb = b.skip(1);
        assert forall|k: Seq<char>| key_in(ra, k) <==> key_in(rb, k) by {
            if key_in(ra, k) {
                let p = choose|p: int| 0 <= p < ra.len() && (#[trigger] ra[p]).0@ == k;
                assert(a[p + 1].0@ == k);
                assert(key_in(a, k));
                let q = choose|q: int| 0 <= q < b.len() && (#[trigger] b[q]).0@ == k;
                if q == 0 {
                    lemma_lex_irreflexive(a[0].0@);
                }
                assert(rb[q - 1].0@ == k);
            }
            if key_in(rb, k) {
                let q = choose|q: int| 0 <= q < rb.len() && (#[trigger] rb[q]).0@ == k;
                assert(b[q + 1].0@ == k);
                assert(key_in(b, k));
                let p = choose|p: int| 0 <= p < a.len() && (#[trigger] a[p]).0@ == k;
                if p == 0 {
                    lemma_lex_irreflexive(b[0].0@);
                }
                assert(ra[p - 1].0@ == k);
            }
        }
        law_order_is_determined(ra, rb);
        assert forall|p: int| 0 <= p < a.len() implies a[p].0@ == b[p].0@ by {
            if p > 0 {
                assert(ra[p - 1].0@ == rb[p - 1].0@);
            }
        }
    }
}

} // verus!
