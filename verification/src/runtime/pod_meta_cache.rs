//! Watch-side cache of per-pod metadata, which attach looks up for the lines of a stream.

use crate::discovery::pod::Pod;
use crate::key_set::KeySet;
use crate::order::Keyed;
use crate::ordered_map::OrderedMap;
use crate::source::pod_meta;
use crate::source::pod_meta::{pod_meta_snapshot_from_pod, PodLocator, PodMetaSnapshot};
use crate::source::{ContextName, SourceKey};
use vstd::prelude::*;

verus! {

/// Pod metadata by [`PodLocator`].
pub struct PodMetaCache {
    entries: OrderedMap<PodLocator, PodMetaSnapshot>,
}

/// What is shown of a pod that is not in the cache.
pub open spec fn nothing_shown() -> (Option<String>, Map<Seq<Seq<char>>, String>) {
    (None, Map::empty())
}

/// The cache after the metadata of a pod was looked at.
pub open spec fn with_pod(
    cache: Map<Seq<Seq<char>>, (Option<String>, Map<Seq<Seq<char>>, String>)>,
    context: Seq<char>,
    pod: Pod,
) -> Map<Seq<Seq<char>>, (Option<String>, Map<Seq<Seq<char>>, String>)> {
    match pod.locator(context) {
        Some(k) => cache.insert(k, pod_meta::pod_shown(pod)),
        None => cache,
    }
}

/// The cache after the metadata of several pods was looked at, one after the other.
pub open spec fn with_pods(
    cache: Map<Seq<Seq<char>>, (Option<String>, Map<Seq<Seq<char>>, String>)>,
    context: Seq<char>,
    pods: Seq<Pod>,
) -> Map<Seq<Seq<char>>, (Option<String>, Map<Seq<Seq<char>>, String>)>
    decreases pods.len(),
{
    if pods.len() == 0 {
        cache
    } else {
        with_pod(with_pods(cache, context, pods.drop_last()), context, pods.last())
    }
}

impl View for PodMetaCache {
    type V = Map<Seq<Seq<char>>, (Option<String>, Map<Seq<Seq<char>>, String>)>;

    closed spec fn view(&self) -> Map<
        Seq<Seq<char>>,
        (Option<String>, Map<Seq<Seq<char>>, String>),
    > {
        self.entries@.map_values(|s: PodMetaSnapshot| s.shown())
    }
}

impl PodMetaCache {
    /// The entries are sorted, and the labels of each stand for a map.
    pub closed spec fn wf(&self) -> bool {
        &&& self.entries.wf()
        &&& forall|k: Seq<Seq<char>>| #[trigger]
            self.entries@.contains_key(k) ==> self.entries@[k].wf()
    }

    /// A cache without entries.
    pub fn new() -> (cache: Self)
        ensures
            cache.wf(),
            cache@ == Map::<
                Seq<Seq<char>>,
                (Option<String>, Map<Seq<Seq<char>>, String>),
            >::empty(),
    {
        let cache = PodMetaCache { entries: OrderedMap::new() };
        assert(cache@ =~= Map::empty());
        cache
    }

    /// Holds what a pod shows from now on; a pod that cannot be located is passed over.
    pub fn update_from_pod(&mut self, context: &ContextName, pod: &Pod)
        requires
            old(self).wf(),
            pod.wf(),
        ensures
            final(self).wf(),
            final(self)@ == with_pod(old(self)@, context.0@, *pod),
    {
        match PodLocator::try_from_pod(context, pod) {
            None => {},
            Some(locator) => {
                let snapshot = pod_meta_snapshot_from_pod(pod);
                let ghost before = *self;
                let ghost k = locator.key();
                self.entries.insert(locator, snapshot);
                assert(self@ =~= before@.insert(k, pod_meta::pod_shown(*pod)));
            },
        }
    }

    /// Drops every entry.
    pub fn clear(&mut self)
        ensures
            final(self).wf(),
            final(self)@ == Map::<
                Seq<Seq<char>>,
                (Option<String>, Map<Seq<Seq<char>>, String>),
            >::empty(),
    {
        self.entries.clear();
        assert(self@ =~= Map::empty());
    }

    /// Drops the entries of all pods but those to keep.
    pub fn prune(&mut self, keep: &KeySet<PodLocator>)
        requires
            old(self).wf(),
            keep.wf(),
        ensures
            final(self).wf(),
            final(self)@ == old(self)@.restrict(keep@),
    {
        let ghost before = *self;
        let mut stale: Vec<PodLocator> = Vec::new();
        let n: usize = self.entries.len();
        let mut i: usize = 0;
        while i < n
            invariant
                i <= n,
                *self == before,
                self.entries.wf(),
                keep.wf(),
                n == self.entries.items().len(),
                forall|j: int| 0 <= j < stale@.len() ==> !keep@.contains((#[trigger] stale@[j]).key()),
                forall|j: int|
                    0 <= j < i && !keep@.contains(self.entries.items()[j].0.key()) ==> exists|a: int|
                        0 <= a < stale@.len() && (#[trigger] stale@[a]).key()
                            == (#[trigger] self.entries.items()[j]).0.key(),
            decreases n - i,
        {
            let locator = &self.entries.entry(i).0;
            let ghost earlier = stale@;
            if !keep.contains(locator) {
                stale.push(locator.clone());
                proof {
                    assert(stale@[earlier.len() as int].key() == self.entries.items()[i as int].0.key());
                    assert forall|j: int|
                        0 <= j < i && !keep@.contains(self.entries.items()[j].0.key()) implies exists|a: int|
                        0 <= a < stale@.len() && (#[trigger] stale@[a]).key()
                            == (#[trigger] self.entries.items()[j]).0.key() by {
                        let a = choose|a: int|
                            0 <= a < earlier.len() && (#[trigger] earlier[a]).key()
                                == self.entries.items()[j].0.key();
                        assert(stale@[a] == earlier[a]);
                    }
                }
            }
            i += 1;
        }
        let mut a: usize = 0;
        while a < stale.len()
            invariant
                a <= stale@.len(),
                self.wf(),
                before.wf(),
                forall|k: Seq<Seq<char>>| #[trigger]
                    self.entries@.contains_key(k) ==> before.entries@.contains_key(k)
                        && self.entries@[k] == before.entries@[k],
                forall|k: Seq<Seq<char>>| #[trigger]
                    before.entries@.contains_key(k) && !self.entries@.contains_key(k) ==> exists|j: int|
                        0 <= j < a && (#[trigger] stale@[j]).key() == k,
                forall|j: int| 0 <= j < a ==> !self.entries@.contains_key((#[trigger] stale@[j]).key()),
            decreases stale@.len() - a,
        {
            let ghost earlier = self.entries@;
            self.entries.remove(&stale[a]);
            proof {
                assert forall|k: Seq<Seq<char>>| #[trigger]
                    before.entries@.contains_key(k) && !self.entries@.contains_key(k) implies exists|j: int|
                    0 <= j < a + 1 && (#[trigger] stale@[j]).key() == k by {
                    if earlier.contains_key(k) {
                        assert(stale@[a as int].key() == k);
                    } else {
                        let j = choose|j: int| 0 <= j < a && (#[trigger] stale@[j]).key() == k;
                        assert(stale@[j].key() == k);
                    }
                }
            }
            a += 1;
        }
        proof {
            assert forall|k: Seq<Seq<char>>| self@.contains_key(k) <==> before@.restrict(
                keep@,
            ).contains_key(k) by {
                if self.entries@.contains_key(k) && !keep@.contains(k) {
                    let i = before.entries.lemma_position(k);
                    let j = choose|j: int|
                        0 <= j < stale@.len() && (#[trigger] stale@[j]).key()
                            == before.entries.items()[i].0.key();
                    assert(stale@[j].key() == k);
                }
                if before.entries@.contains_key(k) && !self.entries@.contains_key(k) {
                    let j = choose|j: int| 0 <= j < stale@.len() && (#[trigger] stale@[j]).key() == k;
                    assert(!keep@.contains(stale@[j].key()));
                }
            }
            assert(self@ =~= before@.restrict(keep@));
        }
    }

    /// Holds nothing for a pod from now on; a pod that cannot be located is passed over.
    pub fn remove_pod(&mut self, context: &ContextName, pod: &Pod)
        requires
            old(self).wf(),
        ensures
            final(self).wf(),
            final(self)@ == match pod.locator(context.0@) {
                Some(k) => old(self)@.remove(k),
                None => old(self)@,
            },
    {
        match PodLocator::try_from_pod(context, pod) {
            None => {},
            Some(locator) => {
                let ghost before = *self;
                self.entries.remove(&locator);
                assert(self@ =~= before@.remove(locator.key()));
            },
        }
    }

    /// What is shown of the pod of a stream; nothing if the pod is not in the cache.
    pub fn lookup(&self, key: &SourceKey) -> (snapshot: PodMetaSnapshot)
        requires
            self.wf(),
        ensures
            snapshot.wf(),
            snapshot.shown() == if self@.contains_key(pod_meta::locator_key(key.key())) {
                self@[pod_meta::locator_key(key.key())]
            } else {
                nothing_shown()
            },
    {
        let locator = PodLocator::from_source_key(key);
        match self.entries.get(&locator) {
            Some(snapshot) => snapshot.copied(),
            None => PodMetaSnapshot::default(),
        }
    }
}

/// A lookup gives back the update of its pod, whatever was cached before, until that pod is updated
/// again or dropped.
pub proof fn law_lookup_gives_update(
    cache: Map<Seq<Seq<char>>, (Option<String>, Map<Seq<Seq<char>>, String>)>,
    context: Seq<char>,
    pod: Pod,
    others: Seq<Pod>,
    k: Seq<Seq<char>>,
)
    requires
        pod.locator(context) == Some(k),
        forall|i: int| 0 <= i < others.len() ==> (#[trigger] others[i]).locator(context) != Some(k),
    ensures
        with_pods(with_pod(cache, context, pod), context, others).contains_key(k),
        with_pods(with_pod(cache, context, pod), context, others)[k] == pod_meta::pod_shown(pod),
    decreases others.len(),
{
    if others.len() > 0 {
        let rest = others.drop_last();
        assert forall|i: int| 0 <= i < rest.len() implies (#[trigger] rest[i]).locator(context)
            != Some(k) by {
            assert(rest[i] == others[i]);
        }
        law_lookup_gives_update(cache, context, pod, rest, k);
        assert(others.last() == others[others.len() - 1]);
    }
}

/// Looking at a pod changes its own entry alone, and a pod that cannot be located changes nothing.
pub proof fn law_other_entries_stay(
    cache: Map<Seq<Seq<char>>, (Option<String>, Map<Seq<Seq<char>>, String>)>,
    context: Seq<char>,
    pod: Pod,
    k: Seq<Seq<char>>,
)
    requires
        pod.locator(context) != Some(k),
    ensures
        with_pod(cache, context, pod).contains_key(k) == cache.contains_key(k),
        cache.contains_key(k) ==> with_pod(cache, context, pod)[k] == cache[k],
        pod.locator(context) is None ==> with_pod(cache, context, pod) == cache,
{
}

/// A pod that is not in the cache shows no node and no label.
pub proof fn law_unknown_pod_shows_nothing(name: Seq<Seq<char>>)
    ensures
        nothing_shown().0 is None,
        !nothing_shown().1.contains_key(name),
{
}

} // verus!
