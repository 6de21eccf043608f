//! The log streams that are running.
//!
//! Every change names the streams to stop and the streams to start. All that are to stop are
//! stopped first: their task is cancelled, their cursor forgotten, and the mux told to drop them.

use crate::discovery::pod::{str_or_empty, Pod};
use crate::discovery::pod;
use crate::discovery::pod_reconcile;
use crate::discovery::pod_reconcile::{reconcile, ReconcileDiff};
use crate::key_set::KeySet;
use crate::order::Keyed;
use crate::source::{ContextName, SourceKey};
use crate::text;
use vstd::prelude::*;

verus! {

/// The log streams that are running.
pub struct PodStreamRegistry {
    active: KeySet<SourceKey>,
}

/// Whether the stream of key `k` belongs to a pod. Without a uid, any pod of that name will do.
pub open spec fn belongs(
    k: Seq<Seq<char>>,
    context: Seq<char>,
    namespace: Seq<char>,
    pod_name: Seq<char>,
    uid: Option<Seq<char>>,
) -> bool {
    &&& k[0] == context
    &&& k[1] == namespace
    &&& k[2] == pod_name
    &&& uid matches Some(u) ==> k[4] == u
}

/// The streams among `active` that belong to a pod.
pub open spec fn of_pod(
    active: Set<Seq<Seq<char>>>,
    context: Seq<char>,
    namespace: Seq<char>,
    pod_name: Seq<char>,
    uid: Option<Seq<char>>,
) -> Set<Seq<Seq<char>>> {
    active.filter(|k: Seq<Seq<char>>| belongs(k, context, namespace, pod_name, uid))
}

/// The streams that a deleted pod leaves behind among `active`.
pub open spec fn of_deleted(active: Set<Seq<Seq<char>>>, context: Seq<char>, pod: Pod) -> Set<
    Seq<Seq<char>>,
> {
    of_pod(
        active,
        context,
        pod::text_or_empty(pod.namespace),
        pod::text_or_empty(pod.name),
        match pod.uid {
            Some(uid) => Some(uid@),
            None => None,
        },
    )
}

/// The streams of all pods of that name among `active`, whatever their uid.
pub open spec fn of_name(active: Set<Seq<Seq<char>>>, context: Seq<char>, pod: Pod) -> Set<
    Seq<Seq<char>>,
> {
    of_pod(
        active,
        context,
        pod::text_or_empty(pod.namespace),
        pod::text_or_empty(pod.name),
        None,
    )
}

impl View for PodStreamRegistry {
    type V = Set<Seq<Seq<char>>>;

    closed spec fn view(&self) -> Set<Seq<Seq<char>>> {
        self.active@
    }
}

impl PodStreamRegistry {
    /// The set of streams is sorted.
    pub closed spec fn wf(&self) -> bool {
        self.active.wf()
    }

    /// A registry without streams.
    pub fn new() -> (registry: Self)
        ensures
            registry.wf(),
            registry@ == Set::<Seq<Seq<char>>>::empty(),
    {
        PodStreamRegistry { active: KeySet::new() }
    }

    /// The streams that are running.
    pub fn active_keys(&self) -> (active: &KeySet<SourceKey>)
        requires
            self.wf(),
        ensures
            active.wf(),
            active@ == self@,
    {
        &self.active
    }

    /// The running streams that belong to a pod.
    pub fn keys_for_pod_locator(
        &self,
        context: &ContextName,
        namespace: &str,
        pod_name: &str,
        uid: Option<&str>,
    ) -> (keys: KeySet<SourceKey>)
        requires
            self.wf(),
        ensures
            keys.wf(),
            keys@ == of_pod(
                self@,
                context.0@,
                namespace@,
                pod_name@,
                match uid {
                    Some(u) => Some(u@),
                    None => None,
                },
            ),
    {
        let mut keys: KeySet<SourceKey> = KeySet::new();
        let ghost wanted = match uid {
            Some(u) => Some(u@),
            None => None,
        };
        let n: usize = self.active.len();
        let mut i: usize = 0;
        proof {
            self.active.lemma_members();
        }
        while i < n
            invariant
                i <= n,
                n == self.active.members().len(),
                keys.wf(),
                wanted == match uid {
                    Some(u) => Some(u@),
                    None => None,
                },
                forall|k: Seq<Seq<char>>| #[trigger]
                    keys@.contains(k) <==> belongs(k, context.0@, namespace@, pod_name@, wanted)
                        && self.active.keys().take(i as int).contains(k),
            decreases n - i,
        {
            let key = self.active.at(i);
            let ghost earlier = keys@;
            let ghost all = self.active.keys();
            assert(all[i as int] == key.key());
            let uid_fits = match uid {
                Some(u) => text::same(key.uid.as_str(), u),
                None => true,
            };
            let fits = text::same(key.context.0.as_str(), context.0.as_str()) && text::same(
                key.namespace.as_str(),
                namespace,
            ) && text::same(key.pod.as_str(), pod_name) && uid_fits;
            if fits {
                keys.insert(key.clone());
            }
            proof {
                assert(fits == belongs(key.key(), context.0@, namespace@, pod_name@, wanted));
                assert(all.take(i + 1) =~= all.take(i as int).push(key.key()));
                assert forall|k: Seq<Seq<char>>| #[trigger] keys@.contains(k) <==> belongs(
                    k,
                    context.0@,
                    namespace@,
                    pod_name@,
                    wanted,
                ) && all.take(i + 1).contains(k) by {
                    assert(earlier.contains(k) <==> belongs(
                        k,
                        context.0@,
                        namespace@,
                        pod_name@,
                        wanted,
                    ) && all.take(i as int).contains(k));
                    if all.take(i as int).contains(k) {
                        let j = all.take(i as int).index_of(k);
                        assert(all.take(i + 1)[j] == k);
                    }
                    if k == key.key() {
                        assert(all.take(i + 1)[i as int] == k);
                    }
                }
            }
            i += 1;
        }
        proof {
            assert(self.active.keys().take(i as int) =~= self.active.keys());
            assert(keys@ =~= of_pod(self@, context.0@, namespace@, pod_name@, wanted));
        }
        keys
    }

    /// Counts these streams as stopped.
    fn drop_keys(&mut self, keys: &Vec<SourceKey>)
        requires
            old(self).wf(),
        ensures
            final(self).wf(),
            final(self)@ == old(self)@.difference(pod_reconcile::keys_of(keys@).to_set()),
    {
        let ghost before = self@;
        let ghost all = pod_reconcile::keys_of(keys@);
        let mut i: usize = 0;
        assert(self@ =~= before.difference(all.take(0).to_set()));
        while i < keys.len()
            invariant
                i <= keys@.len(),
                self.wf(),
                all == pod_reconcile::keys_of(keys@),
                self@ == before.difference(all.take(i as int).to_set()),
            decreases keys@.len() - i,
        {
            self.active.remove(&keys[i]);
            proof {
                let grown = all.take(i + 1);
                assert(grown =~= all.take(i as int).push(all[i as int]));
                assert forall|k: Seq<Seq<char>>| grown.to_set().contains(k) <==> all.take(
                    i as int,
                ).to_set().insert(all[i as int]).contains(k) by {
                    if all.take(i as int).contains(k) {
                        let j = all.take(i as int).index_of(k);
                        assert(grown[j] == k);
                    }
                    if k == all[i as int] {
                        assert(grown[i as int] == k);
                    }
                }
                assert(self@ =~= before.difference(grown.to_set()));
            }
            i += 1;
        }
        assert(all.take(i as int) =~= all);
    }

    /// Counts these streams as running; answers which of them were not.
    fn add_keys(&mut self, keys: &Vec<SourceKey>) -> (started: Vec<SourceKey>)
        requires
            old(self).wf(),
            crate::ordered_map::strictly_ordered(pod_reconcile::keys_of(keys@)),
        ensures
            final(self).wf(),
            final(self)@ == old(self)@.union(pod_reconcile::keys_of(keys@).to_set()),
            pod_reconcile::lists_in_order(
                started@,
                pod_reconcile::keys_of(keys@).to_set().difference(old(self)@),
            ),
    {
        let ghost before = self@;
        let ghost all = pod_reconcile::keys_of(keys@);
        let mut started: Vec<SourceKey> = Vec::new();
        let ghost mut places: Seq<int> = Seq::empty();
        let mut i: usize = 0;
        assert(self@ =~= before.union(all.take(0).to_set()));
        while i < keys.len()
            invariant
                i <= keys@.len(),
                self.wf(),
                all == pod_reconcile::keys_of(keys@),
                crate::ordered_map::strictly_ordered(all),
                self@ == before.union(all.take(i as int).to_set()),
                places.len() == started@.len(),
                forall|a: int| 0 <= a < places.len() ==> 0 <= #[trigger] places[a] < i,
                forall|a: int, b: int|
                    0 <= a < b < places.len() ==> #[trigger] places[a] < #[trigger] places[b],
                forall|a: int|
                    0 <= a < places.len() ==> #[trigger] pod_reconcile::keys_of(started@)[a]
                        == all[places[a]] && !before.contains(all[places[a]]),
                forall|j: int|
                    0 <= j < i && !before.contains(all[j]) ==> pod_reconcile::keys_of(
                        started@,
                    ).contains(#[trigger] all[j]),
            decreases keys@.len() - i,
        {
            let ghost earlier = pod_reconcile::keys_of(started@);
            let ghost held = self@;
            proof {
                lemma_not_before(all, i as int);
            }
            if self.active.insert(keys[i].clone()) {
                started.push(keys[i].clone());
                proof {
                    places = places.push(i as int);
                    assert(pod_reconcile::keys_of(started@) =~= earlier.push(all[i as int]));
                    assert forall|j: int|
                        0 <= j < i + 1 && !before.contains(all[j]) implies pod_reconcile::keys_of(
                        started@,
                    ).contains(#[trigger] all[j]) by {
                        if j < i {
                            let a = earlier.index_of(all[j]);
                            assert(pod_reconcile::keys_of(started@)[a] == all[j]);
                        } else {
                            assert(pod_reconcile::keys_of(started@)[earlier.len() as int] == all[j]);
                        }
                    }
                }
            }
            proof {
                let grown = all.take(i + 1);
                assert(grown =~= all.take(i as int).push(all[i as int]));
                assert forall|k: Seq<Seq<char>>| grown.to_set().contains(k) <==> all.take(
                    i as int,
                ).to_set().insert(all[i as int]).contains(k) by {
                    if all.take(i as int).contains(k) {
                        let j = all.take(i as int).index_of(k);
                        assert(grown[j] == k);
                    }
                    if k == all[i as int] {
                        assert(grown[i as int] == k);
                    }
                }
                assert(self@ =~= before.union(grown.to_set()));
            }
            i += 1;
        }
        proof {
            assert(all.take(i as int) =~= all);
            let new = pod_reconcile::keys_of(started@);
            assert forall|a: int, b: int| 0 <= a < b < new.len() implies crate::order::before(
                #[trigger] new[a],
                #[trigger] new[b],
            ) by {
                assert(places[a] < places[b]);
            }
            assert forall|k: Seq<Seq<char>>| all.to_set().difference(before).contains(k)
                <==> new.contains(k) by {
                if all.to_set().difference(before).contains(k) {
                    let j = all.index_of(k);
                    assert(all[j] == k);
                }
                if new.contains(k) {
                    let a = new.index_of(k);
                    assert(new[a] == all[places[a]]);
                    assert(all.contains(k));
                }
            }
        }
        started
    }

    /// Stops the streams of a pod.
    pub fn remove_pod(&mut self, pod: &Pod, context: &ContextName) -> (diff: ReconcileDiff)
        requires
            old(self).wf(),
        ensures
            final(self).wf(),
            final(self)@ == old(self)@.difference(of_deleted(old(self)@, context.0@, *pod)),
            pod_reconcile::lists_in_order(diff.to_drop@, of_deleted(old(self)@, context.0@, *pod)),
            diff.to_add@.len() == 0,
    {
        let uid = match &pod.uid {
            Some(uid) => Some(uid.as_str()),
            None => None,
        };
        let keys = self.keys_for_pod_locator(
            context,
            str_or_empty(&pod.namespace),
            str_or_empty(&pod.name),
            uid,
        );
        let none: KeySet<SourceKey> = KeySet::new();
        let diff = reconcile(&keys, &none);
        self.drop_keys(&diff.to_drop);
        proof {
            let gone = of_deleted(old(self)@, context.0@, *pod);
            assert(keys@.difference(none@) =~= gone);
            lemma_listed(diff.to_drop@, gone);
            if diff.to_add@.len() > 0 {
                let k = pod_reconcile::keys_of(diff.to_add@)[0];
                assert(pod_reconcile::keys_of(diff.to_add@).contains(k));
                assert(none@.difference(keys@).contains(k));
            }
        }
        diff
    }

    /// Makes the streams of a snapshot the running ones.
    pub fn reconcile_snapshot(&mut self, snapshot: &KeySet<SourceKey>) -> (diff: ReconcileDiff)
        requires
            old(self).wf(),
            snapshot.wf(),
        ensures
            final(self).wf(),
            final(self)@ == snapshot@,
            pod_reconcile::lists_in_order(diff.to_drop@, old(self)@.difference(snapshot@)),
            pod_reconcile::lists_in_order(diff.to_add@, snapshot@.difference(old(self)@)),
    {
        let diff = reconcile(&self.active, snapshot);
        let ghost before = self@;
        self.drop_keys(&diff.to_drop);
        let started = self.add_keys(&diff.to_add);
        proof {
            lemma_listed(diff.to_drop@, before.difference(snapshot@));
            lemma_listed(diff.to_add@, snapshot@.difference(before));
            let dropped = before.difference(before.difference(snapshot@));
            assert(snapshot@.difference(before).difference(dropped) =~= snapshot@.difference(before));
            assert(self@ =~= snapshot@);
        }
        ReconcileDiff { to_add: started, to_drop: diff.to_drop }
    }

    /// Makes the desired streams the running ones of a pod, and of all pods of its name.
    pub fn reconcile_pod(
        &mut self,
        pod: &Pod,
        desired: &KeySet<SourceKey>,
        context: &ContextName,
    ) -> (diff: ReconcileDiff)
        requires
            old(self).wf(),
            desired.wf(),
        ensures
            final(self).wf(),
            final(self)@ == old(self)@.difference(of_name(old(self)@, context.0@, *pod)).union(
                desired@,
            ),
            pod_reconcile::lists_in_order(
                diff.to_drop@,
                of_name(old(self)@, context.0@, *pod).difference(desired@),
            ),
            pod_reconcile::lists_in_order(diff.to_add@, desired@.difference(old(self)@)),
    {
        let ghost before = self@;
        let current = self.keys_for_pod_locator(
            context,
            str_or_empty(&pod.namespace),
            str_or_empty(&pod.name),
            None,
        );
        let diff = reconcile(&current, desired);
        self.drop_keys(&diff.to_drop);
        let ghost kept = self@;
        let started = self.add_keys(&diff.to_add);
        proof {
            lemma_listed(diff.to_drop@, current@.difference(desired@));
            lemma_listed(diff.to_add@, desired@.difference(current@));
            assert(desired@.difference(current@).difference(kept) =~= desired@.difference(before));
            assert(self@ =~= before.difference(current@).union(desired@));
        }
        ReconcileDiff { to_add: started, to_drop: diff.to_drop }
    }
}

proof fn lemma_not_before(keys: Seq<Seq<Seq<char>>>, i: int)
    requires
        crate::ordered_map::strictly_ordered(keys),
        0 <= i < keys.len(),
    ensures
        !keys.take(i).contains(keys[i]),
{
    if keys.take(i).contains(keys[i]) {
        let j = keys.take(i).index_of(keys[i]);
        assert(keys[j] == keys[i]);
        assert(crate::order::before(keys[j], keys[i]));
        crate::order::lemma_fields_order_laws(keys[i], keys[i]);
    }
}

proof fn lemma_listed(list: Seq<SourceKey>, set: Set<Seq<Seq<char>>>)
    requires
        pod_reconcile::lists_in_order(list, set),
    ensures
        pod_reconcile::keys_of(list).to_set() == set,
{
    assert forall|k: Seq<Seq<char>>| pod_reconcile::keys_of(list).to_set().contains(k)
        <==> set.contains(k) by {
        assert(set.contains(k) <==> pod_reconcile::keys_of(list).contains(k));
    }
    assert(pod_reconcile::keys_of(list).to_set() =~= set);
}

/// Reconciling a pod leaves the streams of other pods alone.
pub proof fn law_other_pods_are_untouched(
    active: Set<Seq<Seq<char>>>,
    desired: Set<Seq<Seq<char>>>,
    context: Seq<char>,
    pod: Pod,
    k: Seq<Seq<char>>,
)
    requires
        !belongs(k, context, pod::text_or_empty(pod.namespace), pod::text_or_empty(pod.name), None),
        !desired.contains(k),
    ensures
        active.difference(of_name(active, context, pod)).union(desired).contains(k)
            <==> active.contains(k),
        active.difference(of_deleted(active, context, pod)).contains(k) <==> active.contains(k),
{
}

/// Reconciling a pod twice with the same streams changes nothing the second time.
pub proof fn law_reconcile_pod_settles(
    active: Set<Seq<Seq<char>>>,
    desired: Set<Seq<Seq<char>>>,
    context: Seq<char>,
    pod: Pod,
)
    requires
        forall|k: Seq<Seq<char>>| #[trigger]
            desired.contains(k) ==> belongs(
                k,
                context,
                pod::text_or_empty(pod.namespace),
                pod::text_or_empty(pod.name),
                None,
            ),
    ensures
        ({
            let settled = active.difference(of_name(active, context, pod)).union(desired);
            &&& of_name(settled, context, pod) == desired
            &&& desired.difference(settled) == Set::<Seq<Seq<char>>>::empty()
            &&& settled.difference(of_name(settled, context, pod)).union(desired) == settled
        }),
{
    let settled = active.difference(of_name(active, context, pod)).union(desired);
    assert(of_name(settled, context, pod) =~= desired);
    assert(desired.difference(settled) =~= Set::<Seq<Seq<char>>>::empty());
    assert(settled.difference(of_name(settled, context, pod)).union(desired) =~= settled);
}

/// A stream belongs to a pod exactly if context, namespace and name are the same and, where the pod
/// has one, the uid too; the container does not matter.
pub proof fn law_streams_of_a_pod(
    active: Set<Seq<Seq<char>>>,
    context: Seq<char>,
    pod: Pod,
    name: String,
    key: SourceKey,
)
    requires
        pod.name == Some(name),
        active.contains(key.key()),
    ensures
        ({
            let same_name = key.context.0@ == context && key.pod@ == name@ && key.namespace@
                == match pod.namespace {
                Some(ns) => ns@,
                None => Seq::empty(),
            };
            &&& of_name(active, context, pod).contains(key.key()) <==> same_name
            &&& of_deleted(active, context, pod).contains(key.key()) <==> same_name && (
            pod.uid matches Some(uid) ==> key.uid@ == uid@)
        }),
{
}

/// Only streams that run can be left behind by a pod.
pub proof fn law_only_running_streams_are_left(
    active: Set<Seq<Seq<char>>>,
    context: Seq<char>,
    pod: Pod,
    k: Seq<Seq<char>>,
)
    requires
        !active.contains(k),
    ensures
        !of_name(active, context, pod).contains(k),
        !of_deleted(active, context, pod).contains(k),
{
}

} // verus!
