//! A set kept as a sorted list, for keys made of texts.

use crate::order;
use crate::order::Keyed;
use crate::ordered_map;
use crate::ordered_map::OrderedMap;
use vstd::prelude::*;

verus! {

/// A set of keys in ascending order.
pub struct KeySet<K: Keyed> {
    map: OrderedMap<K, ()>,
}

impl<K: Keyed> View for KeySet<K> {
    type V = Set<Seq<Seq<char>>>;

    closed spec fn view(&self) -> Set<Seq<Seq<char>>> {
        self.map@.dom()
    }
}

impl<K: Keyed> KeySet<K> {
    /// The keys stand in strictly ascending order.
    pub closed spec fn wf(&self) -> bool {
        self.map.wf()
    }

    /// The members in order.
    pub closed spec fn members(&self) -> Seq<K> {
        self.map.items().map_values(|e: (K, ())| e.0)
    }

    /// The keys of the members in order.
    pub open spec fn keys(&self) -> Seq<Seq<Seq<char>>> {
        self.members().map_values(|m: K| m.key())
    }

    /// The members are in strictly ascending order, and are what the set holds.
    pub proof fn lemma_members(&self)
        requires
            self.wf(),
        ensures
            ordered_map::strictly_ordered(self.keys()),
            self@.finite(),
            self@.len() == self.members().len(),
            forall|k: Seq<Seq<char>>| self@.contains(k) <==> self.keys().contains(k),
            forall|i: int| 0 <= i < self.members().len() ==> self@.contains((#[trigger] self.members()[i]).key()),
    {
        assert(self.keys() =~= self.map.keys());
        self.map.lemma_len();
        assert forall|i: int| 0 <= i < self.members().len() implies self@.contains(
            (#[trigger] self.members()[i]).key(),
        ) by {
            self.map.lemma_entry(i);
        }
    }

    /// A set without members.
    pub fn new() -> (set: Self)
        ensures
            set.wf(),
            set@ == Set::<Seq<Seq<char>>>::empty(),
    {
        let set = KeySet { map: OrderedMap::new() };
        assert(set@ =~= Set::<Seq<Seq<char>>>::empty());
        set
    }

    /// The number of members.
    pub fn len(&self) -> (n: usize)
        requires
            self.wf(),
        ensures
            n == self@.len(),
            n == self.members().len(),
    {
        self.map.len()
    }

    /// Whether there is no member.
    pub fn is_empty(&self) -> (empty: bool)
        requires
            self.wf(),
        ensures
            empty == (self@ == Set::<Seq<Seq<char>>>::empty()),
    {
        proof {
            self.map.lemma_len();
            if self@.len() == 0 {
                assert(self@ =~= Set::<Seq<Seq<char>>>::empty());
            }
        }
        self.map.len() == 0
    }

    /// The member at position `i` in key order.
    pub fn at(&self, i: usize) -> (member: &K)
        requires
            i < self.members().len(),
        ensures
            *member == self.members()[i as int],
    {
        &self.map.entry(i).0
    }

    /// Whether `key` is a member.
    pub fn contains(&self, key: &K) -> (member: bool)
        requires
            self.wf(),
        ensures
            member == self@.contains(key.key()),
    {
        self.map.contains_key(key)
    }

    /// Makes `key` a member; answers whether it was none before.
    pub fn insert(&mut self, key: K) -> (new: bool)
        requires
            old(self).wf(),
        ensures
            final(self).wf(),
            final(self)@ == old(self)@.insert(key.key()),
            new == !old(self)@.contains(key.key()),
    {
        let ghost before = self.map@;
        let new = self.map.insert(key, ()).is_none();
        assert(self.map@.dom() =~= before.dom().insert(key.key()));
        new
    }

    /// Makes `key` no member; answers whether it was one before.
    pub fn remove(&mut self, key: &K) -> (was: bool)
        requires
            old(self).wf(),
        ensures
            final(self).wf(),
            final(self)@ == old(self)@.remove(key.key()),
            was == old(self)@.contains(key.key()),
    {
        let ghost before = self.map@;
        let was = self.map.remove(key).is_some();
        assert(self.map@.dom() =~= before.dom().remove(key.key()));
        was
    }

    /// The set of the keys of a list.
    pub fn from_list(list: Vec<K>) -> (set: Self)
        ensures
            set.wf(),
            forall|k: Seq<Seq<char>>| #[trigger]
                set@.contains(k) <==> exists|i: int| 0 <= i < list@.len() && (#[trigger] list@[i]).key() == k,
    {
        let ghost all = list@;
        let mut rest = list;
        let mut set = Self::new();
        while rest.len() > 0
            invariant
                set.wf(),
                rest@ == all.take(rest@.len() as int),
                rest@.len() <= all.len(),
                forall|k: Seq<Seq<char>>| #[trigger]
                    set@.contains(k) <==> exists|i: int| rest@.len() <= i < all.len() && (#[trigger] all[i]).key() == k,
            decreases rest@.len(),
        {
            let ghost n = rest@.len() - 1;
            let ghost earlier = set@;
            let key = rest.pop().unwrap();
            let ghost added = key.key();
            assert(key == all[n]);
            set.insert(key);
            assert(rest@ =~= all.take(n));
            assert forall|k: Seq<Seq<char>>| #[trigger] set@.contains(k) <==> exists|i: int|
                n <= i < all.len() && (#[trigger] all[i]).key() == k by {
                if set@.contains(k) {
                    if k == added {
                        assert(all[n].key() == k);
                    } else {
                        assert(earlier.contains(k));
                    }
                }
                if exists|i: int| n <= i < all.len() && (#[trigger] all[i]).key() == k {
                    let i = choose|i: int| n <= i < all.len() && (#[trigger] all[i]).key() == k;
                    if i > n {
                        assert(earlier.contains(k));
                    }
                }
            }
        }
        set
    }
}

} // verus!
