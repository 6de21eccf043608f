//! A map kept as a sorted list, for keys made of texts.

use crate::order;
use crate::order::{Comparison, Keyed};
use vstd::prelude::*;

verus! {

/// Whether each key stands strictly before all later ones.
pub open spec fn strictly_ordered(keys: Seq<Seq<Seq<char>>>) -> bool {
    forall|i: int, j: int| 0 <= i < j < keys.len() ==> order::before(#[trigger] keys[i], #[trigger] keys[j])
}

/// A map from keys to values whose entries stand in the order of their keys.
#[derive(Debug)]
pub struct OrderedMap<K: Keyed, V> {
    entries: Vec<(K, V)>,
}

impl<K: Keyed, V> View for OrderedMap<K, V> {
    type V = Map<Seq<Seq<char>>, V>;

    open spec fn view(&self) -> Map<Seq<Seq<char>>, V> {
        Map::new(
            |k: Seq<Seq<char>>| self.keys().contains(k),
            |k: Seq<Seq<char>>| self.items()[self.keys().index_of(k)].1,
        )
    }
}

impl<K: Keyed, V> OrderedMap<K, V> {
    /// The entries in order.
    pub closed spec fn items(&self) -> Seq<(K, V)> {
        self.entries@
    }

    /// The keys in order.
    pub open spec fn keys(&self) -> Seq<Seq<Seq<char>>> {
        self.items().map_values(|e: (K, V)| e.0.key())
    }

    /// The entries stand in strictly ascending order of their keys.
    pub open spec fn wf(&self) -> bool {
        strictly_ordered(self.keys())
    }

    /// The entry at each position is what the map holds for its key.
    pub proof fn lemma_entry(&self, i: int)
        requires
            self.wf(),
            0 <= i < self.items().len(),
        ensures
            self@.contains_key(self.items()[i].0.key()),
            self@[self.items()[i].0.key()] == self.items()[i].1,
            self.keys().index_of(self.items()[i].0.key()) == i,
    {
        let k = self.items()[i].0.key();
        assert(self.keys()[i] == k);
        assert(self.keys().contains(k));
        let j = self.keys().index_of(k);
        assert(0 <= j < self.keys().len() && self.keys()[j] == k);
        if j != i {
            order::lemma_fields_order_laws(k, k);
            if j < i {
                assert(order::before(self.keys()[j], self.keys()[i]));
            } else {
                assert(order::before(self.keys()[i], self.keys()[j]));
            }
        }
    }

    /// Every key of the map stands at some position.
    pub proof fn lemma_position(&self, k: Seq<Seq<char>>) -> (i: int)
        requires
            self.wf(),
            self@.contains_key(k),
        ensures
            0 <= i < self.items().len(),
            self.items()[i].0.key() == k,
            self@[k] == self.items()[i].1,
    {
        let i = self.keys().index_of(k);
        assert(0 <= i < self.keys().len() && self.keys()[i] == k);
        i
    }

    /// The number of entries is the number of keys in the map.
    pub proof fn lemma_len(&self)
        requires
            self.wf(),
        ensures
            self@.dom().finite(),
            self@.dom().len() == self.items().len(),
    {
        assert forall|i: int, j: int| 0 <= i < self.keys().len() && 0 <= j < self.keys().len() && i != j implies self.keys()[i]
            != self.keys()[j] by {
            order::lemma_fields_order_laws(self.keys()[i], self.keys()[j]);
            if i < j {
                assert(order::before(self.keys()[i], self.keys()[j]));
            } else {
                assert(order::before(self.keys()[j], self.keys()[i]));
            }
        }
        assert(self.keys().no_duplicates());
        self.keys().unique_seq_to_set();
        assert(self@.dom() =~= self.keys().to_set());
    }

    /// A map without entries.
    pub fn new() -> (map: Self)
        ensures
            map.wf(),
            map@ == Map::<Seq<Seq<char>>, V>::empty(),
            map.items().len() == 0,
    {
        let map = OrderedMap { entries: Vec::new() };
        assert(map@ =~= Map::<Seq<Seq<char>>, V>::empty());
        map
    }

    /// The number of entries.
    pub fn len(&self) -> (n: usize)
        requires
            self.wf(),
        ensures
            n == self@.dom().len(),
            n == self.items().len(),
    {
        proof {
            self.lemma_len();
        }
        self.entries.len()
    }

    /// The entry at position `i` in key order.
    pub fn entry(&self, i: usize) -> (entry: &(K, V))
        requires
            i < self.items().len(),
        ensures
            *entry == self.items()[i as int],
    {
        &self.entries[i]
    }

    /// Where `key` stands, or where it would have to stand.
    fn find(&self, key: &K) -> (at: (usize, bool))
        requires
            self.wf(),
        ensures
            at.0 <= self.items().len(),
            at.1 ==> at.0 < self.items().len() && self.items()[at.0 as int].0.key() == key.key(),
            forall|j: int| 0 <= j < at.0 ==> order::before(#[trigger] self.keys()[j], key.key()),
            !at.1 ==> forall|j: int|
                at.0 <= j < self.keys().len() ==> order::before(key.key(), #[trigger] self.keys()[j]),
    {
        let mut lo: usize = 0;
        let mut hi: usize = self.entries.len();
        while lo < hi
            invariant
                self.wf(),
                lo <= hi <= self.entries.len(),
                self.items() == self.entries@,
                self.keys().len() == self.entries.len(),
                forall|j: int| 0 <= j < lo ==> order::before(#[trigger] self.keys()[j], key.key()),
                forall|j: int|
                    hi <= j < self.keys().len() ==> order::before(key.key(), #[trigger] self.keys()[j]),
            decreases hi - lo,
        {
            let mid: usize = lo + (hi - lo) / 2;
            let order = self.entries[mid].0.compare(key);
            let ghost at_mid = self.keys()[mid as int];
            proof {
                order::lemma_fields_order_laws(at_mid, key.key());
            }
            match order {
                Comparison::Equal => {
                    return (mid, true);
                },
                Comparison::Less => {
                    proof {
                        assert forall|j: int| 0 <= j < mid + 1 implies order::before(
                            #[trigger] self.keys()[j],
                            key.key(),
                        ) by {
                            if j < mid {
                                assert(order::before(self.keys()[j], self.keys()[mid as int]));
                                order::lemma_before_transitive(self.keys()[j], at_mid, key.key());
                            }
                        }
                    }
                    lo = mid + 1;
                },
                Comparison::Greater => {
                    proof {
                        assert forall|j: int| mid <= j < self.keys().len() implies order::before(
                            key.key(),
                            #[trigger] self.keys()[j],
                        ) by {
                            if j > mid {
                                assert(order::before(self.keys()[mid as int], self.keys()[j]));
                                order::lemma_before_transitive(key.key(), at_mid, self.keys()[j]);
                            }
                        }
                    }
                    hi = mid;
                },
            }
        }
        (lo, false)
    }

    proof fn lemma_absent(&self, at: int, k: Seq<Seq<char>>)
        requires
            0 <= at <= self.keys().len(),
            forall|j: int| 0 <= j < at ==> order::before(#[trigger] self.keys()[j], k),
            forall|j: int| at <= j < self.keys().len() ==> order::before(k, #[trigger] self.keys()[j]),
        ensures
            !self@.contains_key(k),
    {
        order::lemma_fields_order_laws(k, k);
        assert forall|j: int| 0 <= j < self.keys().len() implies #[trigger] self.keys()[j] != k by {
            if j < at {
                assert(order::before(self.keys()[j], k));
            } else {
                assert(order::before(k, self.keys()[j]));
            }
        }
    }

    /// The value held for `key`.
    pub fn get(&self, key: &K) -> (value: Option<&V>)
        requires
            self.wf(),
        ensures
            match value {
                Some(v) => self@.contains_key(key.key()) && *v == self@[key.key()],
                None => !self@.contains_key(key.key()),
            },
    {
        let (at, found) = self.find(key);
        if found {
            proof {
                self.lemma_entry(at as int);
            }
            Some(&self.entries[at].1)
        } else {
            proof {
                self.lemma_absent(at as int, key.key());
            }
            None
        }
    }

    /// Whether the map holds a value for `key`.
    pub fn contains_key(&self, key: &K) -> (held: bool)
        requires
            self.wf(),
        ensures
            held == self@.contains_key(key.key()),
    {
        self.get(key).is_some()
    }

    /// Holds `value` for `key` from now on, and hands out what was held before.
    pub fn insert(&mut self, key: K, value: V) -> (previous: Option<V>)
        requires
            old(self).wf(),
        ensures
            final(self).wf(),
            final(self)@ == old(self)@.insert(key.key(), value),
            match previous {
                Some(v) => old(self)@.contains_key(key.key()) && v == old(self)@[key.key()],
                None => !old(self)@.contains_key(key.key()),
            },
    {
        let (at, found) = self.find(&key);
        let ghost k = key.key();
        let ghost before_keys = self.keys();
        let ghost before_map = *self;
        if found {
            proof {
                self.lemma_entry(at as int);
            }
            let old_entry = self.entries.remove(at);
            self.entries.insert(at, (key, value));
            proof {
                assert(self.keys() =~= before_keys);
                assert(self@ =~= before_map@.insert(k, value)) by {
                    assert forall|x: Seq<Seq<char>>| self@.contains_key(x) implies self@[x]
                        == before_map@.insert(k, value)[x] by {
                        let i = self.lemma_position(x);
                        self.lemma_entry(i);
                        before_map.lemma_entry(i);
                        before_map.lemma_entry(at as int);
                    }
                }
            }
            Some(old_entry.1)
        } else {
            proof {
                self.lemma_absent(at as int, k);
            }
            self.entries.insert(at, (key, value));
            proof {
                assert(self.keys() =~= before_keys.insert(at as int, k));
                assert forall|i: int, j: int| 0 <= i < j < self.keys().len() implies order::before(
                    #[trigger] self.keys()[i],
                    #[trigger] self.keys()[j],
                ) by {
                    let a = if i < at { i } else { i - 1 };
                    let b = if j < at { j } else { j - 1 };
                    if i != at {
                        assert(self.keys()[i] == before_keys[a]);
                    }
                    if j != at {
                        assert(self.keys()[j] == before_keys[b]);
                    }
                }
                assert(self@ =~= before_map@.insert(k, value)) by {
                    assert forall|x: Seq<Seq<char>>|
                        #![auto]
                        self@.contains_key(x) <==> before_map@.insert(k, value).contains_key(x) by {
                        if before_keys.contains(x) {
                            let i = before_keys.index_of(x);
                            let j = if i < at { i } else { i + 1 };
                            assert(self.keys()[j] == x);
                        }
                        if x == k {
                            assert(self.keys()[at as int] == x);
                        }
                        if self.keys().contains(x) && x != k {
                            let i = self.keys().index_of(x);
                            let j = if i < at { i } else { i - 1 };
                            assert(before_keys[j] == x);
                        }
                    }
                    assert forall|x: Seq<Seq<char>>| self@.contains_key(x) implies self@[x]
                        == before_map@.insert(k, value)[x] by {
                        let i = self.lemma_position(x);
                        self.lemma_entry(i);
                        if i != at {
                            let j = if i < at { i } else { i - 1 };
                            before_map.lemma_entry(j);
                            assert(before_keys[j] == x);
                        }
                    }
                }
            }
            None
        }
    }

    /// Holds nothing for `key` from now on, and hands out what was held before.
    pub fn remove(&mut self, key: &K) -> (previous: Option<V>)
        requires
            old(self).wf(),
        ensures
            final(self).wf(),
            final(self)@ == old(self)@.remove(key.key()),
            match previous {
                Some(v) => old(self)@.contains_key(key.key()) && v == old(self)@[key.key()],
                None => !old(self)@.contains_key(key.key()),
            },
    {
        let (at, found) = self.find(key);
        let ghost k = key.key();
        let ghost before_keys = self.keys();
        let ghost before_map = *self;
        if found {
            proof {
                self.lemma_entry(at as int);
            }
            let old_entry = self.entries.remove(at);
            proof {
                assert(self.keys() =~= before_keys.remove(at as int));
                assert forall|i: int, j: int| 0 <= i < j < self.keys().len() implies order::before(
                    #[trigger] self.keys()[i],
                    #[trigger] self.keys()[j],
                ) by {
                    let a = if i < at { i } else { i + 1 };
                    let b = if j < at { j } else { j + 1 };
                    assert(self.keys()[i] == before_keys[a]);
                    assert(self.keys()[j] == before_keys[b]);
                }
                assert(self@ =~= before_map@.remove(k)) by {
                    assert forall|x: Seq<Seq<char>>|
                        #![auto]
                        self@.contains_key(x) <==> before_map@.remove(k).contains_key(x) by {
                        if before_keys.contains(x) && x != k {
                            let i = before_keys.index_of(x);
                            let j = if i < at { i } else { i - 1 };
                            assert(self.keys()[j] == x);
                        }
                        if self.keys().contains(x) {
                            let i = self.keys().index_of(x);
                            let j = if i < at { i } else { i + 1 };
                            assert(before_keys[j] == x);
                            before_map.lemma_entry(j);
                        }
                    }
                    assert forall|x: Seq<Seq<char>>| self@.contains_key(x) implies self@[x]
                        == before_map@.remove(k)[x] by {
                        let i = self.lemma_position(x);
                        self.lemma_entry(i);
                        let j = if i < at { i } else { i + 1 };
                        before_map.lemma_entry(j);
                        assert(before_keys[j] == x);
                    }
                }
            }
            Some(old_entry.1)
        } else {
            proof {
                self.lemma_absent(at as int, k);
                assert(self@ =~= before_map@.remove(k));
            }
            None
        }
    }

    /// Drops every entry.
    pub fn clear(&mut self)
        ensures
            final(self).wf(),
            final(self)@ == Map::<Seq<Seq<char>>, V>::empty(),
    {
        self.entries.clear();
        assert(self@ =~= Map::<Seq<Seq<char>>, V>::empty());
    }
}

impl OrderedMap<String, String> {
    /// A copy with the same entries.
    pub fn copied_texts(&self) -> (copy: Self)
        requires
            self.wf(),
        ensures
            copy.wf(),
            copy.items() == self.items(),
            copy@ == self@,
    {
        let mut entries: Vec<(String, String)> = Vec::new();
        let mut i: usize = 0;
        while i < self.entries.len()
            invariant
                i <= self.entries.len(),
                entries@ == self.entries@.take(i as int),
            decreases self.entries.len() - i,
        {
            entries.push((self.entries[i].0.clone(), self.entries[i].1.clone()));
            assert(self.entries@.take(i + 1) == self.entries@.take(i as int).push(self.entries@[i as int]));
            i += 1;
        }
        assert(entries@ == self.entries@);
        OrderedMap { entries }
    }
}

} // verus!
