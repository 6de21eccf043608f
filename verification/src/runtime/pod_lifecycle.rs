//! Pod admission, metadata, and stream registry lifecycle in one place.
//!
//! Keeps the order of steps: admit, update the metadata and reconcile when a pod is applied; drop
//! metadata and streams together when it is deleted; prune the metadata after a full list.

use crate::discovery::pod::Pod;
use crate::discovery::pod_reconcile;
use crate::discovery::pod_reconcile::ReconcileDiff;
use crate::key_set::KeySet;
use crate::order::Keyed;
use crate::runtime::pod_meta_cache;
use crate::runtime::pod_meta_cache::PodMetaCache;
use crate::runtime::registry;
use crate::runtime::registry::PodStreamRegistry;
use crate::runtime::watch_admission::WatchAdmissionPolicy;
use crate::runtime::watch_admission;
use crate::runtime::watch_admission::AdmissionRules;
use crate::source::pod_meta;
use crate::source::pod_meta::PodLocator;
use crate::source::SourceKey;
use vstd::prelude::*;

verus! {

/// What the watch tells of the pods.
pub enum WatchEvent {
    /// A pod is there, or has changed.
    Apply(Pod),
    /// A pod is gone.
    Delete(Pod),
    /// A full list starts.
    Init,
    /// A pod is on the list.
    InitApply(Pod),
    /// The list is complete.
    InitDone,
}

/// Streams and pending pods of a watch.
pub struct PodLifecycle {
    registry: PodStreamRegistry,
    pending_pods: Vec<Pod>,
}

/// The pods that streams belong to, by key.
pub open spec fn locators(streams: Set<Seq<Seq<char>>>) -> Set<Seq<Seq<char>>> {
    streams.map(|k: Seq<Seq<char>>| pod_meta::locator_key(k))
}

/// The streams that run after a pod was applied.
pub open spec fn active_after_apply(
    active: Set<Seq<Seq<char>>>,
    rules: AdmissionRules,
    pod: Pod,
) -> Set<Seq<Seq<char>>> {
    if rules.admits(pod) {
        active.difference(registry::of_name(active, rules.context, pod)).union(
            rules.streams(pod).to_set(),
        )
    } else {
        active_after_delete(active, rules, pod)
    }
}

/// The streams that run after a pod was deleted.
pub open spec fn active_after_delete(
    active: Set<Seq<Seq<char>>>,
    rules: AdmissionRules,
    pod: Pod,
) -> Set<Seq<Seq<char>>> {
    active.difference(registry::of_deleted(active, rules.context, pod))
}

/// The metadata after a pod was applied.
pub open spec fn cache_after_apply(
    cache: Map<Seq<Seq<char>>, (Option<String>, Map<Seq<Seq<char>>, String>)>,
    rules: AdmissionRules,
    pod: Pod,
) -> Map<Seq<Seq<char>>, (Option<String>, Map<Seq<Seq<char>>, String>)> {
    if rules.admits(pod) {
        pod_meta_cache::with_pod(cache, rules.context, pod)
    } else {
        cache_after_delete(cache, rules, pod)
    }
}

/// The metadata after a pod was deleted.
pub open spec fn cache_after_delete(
    cache: Map<Seq<Seq<char>>, (Option<String>, Map<Seq<Seq<char>>, String>)>,
    rules: AdmissionRules,
    pod: Pod,
) -> Map<Seq<Seq<char>>, (Option<String>, Map<Seq<Seq<char>>, String>)> {
    match pod.locator(rules.context) {
        Some(k) => cache.remove(k),
        None => cache,
    }
}

/// The metadata after a full list: that of the pods with a stream.
pub open spec fn cache_after_list(
    cache: Map<Seq<Seq<char>>, (Option<String>, Map<Seq<Seq<char>>, String>)>,
    rules: AdmissionRules,
    pods: Seq<Pod>,
) -> Map<Seq<Seq<char>>, (Option<String>, Map<Seq<Seq<char>>, String>)> {
    pod_meta_cache::with_pods(cache, rules.context, pods).restrict(
        locators(rules.snapshot(pods)),
    )
}

/// Whether `diff` turns `before` into `after`.
pub open spec fn turns(
    diff: ReconcileDiff,
    before: Set<Seq<Seq<char>>>,
    after: Set<Seq<Seq<char>>>,
) -> bool {
    &&& pod_reconcile::lists_in_order(diff.to_drop@, before.difference(after))
    &&& pod_reconcile::lists_in_order(diff.to_add@, after.difference(before))
}

/// The pods that the streams of a set belong to.
fn locators_of(streams: &KeySet<SourceKey>) -> (pods: KeySet<PodLocator>)
    requires
        streams.wf(),
    ensures
        pods.wf(),
        pods@ == locators(streams@),
{
    let mut pods: KeySet<PodLocator> = KeySet::new();
    let n: usize = streams.len();
    let mut i: usize = 0;
    proof {
        streams.lemma_members();
    }
    while i < n
        invariant
            i <= n,
            n == streams.members().len(),
            pods.wf(),
            forall|l: Seq<Seq<char>>| #[trigger]
                pods@.contains(l) <==> exists|j: int|
                    0 <= j < i && pod_meta::locator_key(#[trigger] streams.keys()[j]) == l,
        decreases n - i,
    {
        let ghost earlier = pods@;
        let locator = PodLocator::from_source_key(streams.at(i));
        let ghost added = locator.key();
        assert(streams.keys()[i as int] == streams.members()[i as int].key());
        pods.insert(locator);
        proof {
            assert forall|l: Seq<Seq<char>>| #[trigger] pods@.contains(l) <==> exists|j: int|
                0 <= j < i + 1 && pod_meta::locator_key(#[trigger] streams.keys()[j]) == l by {
                if pods@.contains(l) {
                    if l == added {
                        assert(pod_meta::locator_key(streams.keys()[i as int]) == l);
                    } else {
                        assert(earlier.contains(l));
                        let j = choose|j: int|
                            0 <= j < i && pod_meta::locator_key(#[trigger] streams.keys()[j]) == l;
                        assert(pod_meta::locator_key(streams.keys()[j]) == l);
                    }
                }
                if exists|j: int|
                    0 <= j < i + 1 && pod_meta::locator_key(#[trigger] streams.keys()[j]) == l {
                    let j = choose|j: int|
                        0 <= j < i + 1 && pod_meta::locator_key(#[trigger] streams.keys()[j]) == l;
                    if j < i {
                        assert(earlier.contains(l));
                    }
                }
            }
        }
        i += 1;
    }
    proof {
        streams.lemma_members();
        assert forall|l: Seq<Seq<char>>| pods@.contains(l) <==> locators(streams@).contains(l) by {
            if pods@.contains(l) {
                let j = choose|j: int|
                    0 <= j < n && pod_meta::locator_key(#[trigger] streams.keys()[j]) == l;
                assert(streams.keys().contains(streams.keys()[j]));
                assert(streams@.contains(streams.keys()[j]));
            }
            if locators(streams@).contains(l) {
                let k = choose|k: Seq<Seq<char>>| streams@.contains(k) && pod_meta::locator_key(k)
                    == l;
                assert(streams.keys().contains(k));
                let j = streams.keys().index_of(k);
                assert(streams.keys()[j] == k);
            }
        }
        assert(pods@ =~= locators(streams@));
    }
    pods
}

impl PodLifecycle {
    /// The set of streams is sorted, and the labels of the pending pods stand for maps.
    pub closed spec fn wf(&self) -> bool {
        &&& self.registry.wf()
        &&& forall|i: int| 0 <= i < self.pending_pods@.len() ==> (#[trigger] self.pending_pods@[i]).wf()
    }

    /// The streams that are running, by key.
    pub closed spec fn active(&self) -> Set<Seq<Seq<char>>> {
        self.registry@
    }

    /// The pods of the list that is under way.
    pub closed spec fn pending(&self) -> Seq<Pod> {
        self.pending_pods@
    }

    /// A watch that has seen nothing yet.
    pub fn new() -> (lifecycle: Self)
        ensures
            lifecycle.wf(),
            lifecycle.active() == Set::<Seq<Seq<char>>>::empty(),
            lifecycle.pending().len() == 0,
    {
        PodLifecycle { registry: PodStreamRegistry::new(), pending_pods: Vec::new() }
    }

    /// The streams that are running.
    pub fn active_keys(&self) -> (active: &KeySet<SourceKey>)
        requires
            self.wf(),
        ensures
            active.wf(),
            active@ == self.active(),
    {
        self.registry.active_keys()
    }

    /// Drops metadata and streams of a pod.
    pub fn on_delete(&mut self, pod: &Pod, policy: &WatchAdmissionPolicy, cache: &mut PodMetaCache) -> (diff:
        ReconcileDiff)
        requires
            old(self).wf(),
            old(cache).wf(),
        ensures
            final(self).wf(),
            final(cache).wf(),
            final(self).pending() == old(self).pending(),
            final(self).active() == active_after_delete(old(self).active(), policy.rules(), *pod),
            final(cache)@ == cache_after_delete(old(cache)@, policy.rules(), *pod),
            turns(diff, old(self).active(), final(self).active()),
    {
        cache.remove_pod(policy.context_name(), pod);
        let diff = self.registry.remove_pod(pod, policy.context_name());
        proof {
            let gone = registry::of_deleted(old(self).active(), policy.rules().context, *pod);
            assert(old(self).active().difference(self.active()) =~= gone);
            assert(self.active().difference(old(self).active()) =~= Set::empty());
            assert(pod_reconcile::keys_of(diff.to_add@) =~= Seq::empty());
        }
        diff
    }

    /// Takes a pod that is there, or has changed. One that is not shown counts as deleted.
    pub fn on_apply(&mut self, pod: &Pod, policy: &WatchAdmissionPolicy, cache: &mut PodMetaCache) -> (diff:
        ReconcileDiff)
        requires
            old(self).wf(),
            old(cache).wf(),
            policy.wf(),
            pod.wf(),
        ensures
            final(self).wf(),
            final(cache).wf(),
            final(self).pending() == old(self).pending(),
            final(self).active() == active_after_apply(old(self).active(), policy.rules(), *pod),
            final(cache)@ == cache_after_apply(old(cache)@, policy.rules(), *pod),
            turns(diff, old(self).active(), final(self).active()),
    {
        if !policy.admit_pod(pod) {
            return self.on_delete(pod, policy, cache);
        }
        cache.update_from_pod(policy.context_name(), pod);
        let streams = policy.admit_streams(pod);
        let mut desired: KeySet<SourceKey> = KeySet::new();
        watch_admission::add_all(&mut desired, &streams);
        let diff = self.registry.reconcile_pod(pod, &desired, policy.context_name());
        proof {
            let rules = policy.rules();
            let before = old(self).active();
            assert(desired@ =~= rules.streams(*pod).to_set());
            assert(before.difference(self.active()) =~= registry::of_name(
                before,
                rules.context,
                *pod,
            ).difference(desired@));
            assert(self.active().difference(before) =~= desired@.difference(before));
        }
        diff
    }

    /// Starts a full list: forgets the pods of an earlier one, and all metadata.
    pub fn on_init_begin(&mut self, cache: &mut PodMetaCache)
        requires
            old(self).wf(),
        ensures
            final(self).wf(),
            final(cache).wf(),
            final(self).pending().len() == 0,
            final(self).active() == old(self).active(),
            final(cache)@ == Map::<
                Seq<Seq<char>>,
                (Option<String>, Map<Seq<Seq<char>>, String>),
            >::empty(),
    {
        self.pending_pods.clear();
        cache.clear();
    }

    /// Takes a pod of a full list.
    pub fn on_init_apply(&mut self, pod: Pod, policy: &WatchAdmissionPolicy, cache: &mut PodMetaCache)
        requires
            old(self).wf(),
            old(cache).wf(),
            pod.wf(),
        ensures
            final(self).wf(),
            final(cache).wf(),
            final(self).pending() == old(self).pending().push(pod),
            final(self).active() == old(self).active(),
            final(cache)@ == pod_meta_cache::with_pod(old(cache)@, policy.rules().context, pod),
    {
        cache.update_from_pod(policy.context_name(), &pod);
        self.pending_pods.push(pod);
    }

    /// Takes a full list: the streams of its pods run from now on, and no others.
    pub fn on_init_snapshot(
        &mut self,
        pods: &Vec<Pod>,
        policy: &WatchAdmissionPolicy,
        cache: &mut PodMetaCache,
    ) -> (diff: ReconcileDiff)
        requires
            old(self).wf(),
            old(cache).wf(),
            policy.wf(),
            forall|i: int| 0 <= i < pods@.len() ==> (#[trigger] pods@[i]).wf(),
        ensures
            final(self).wf(),
            final(cache).wf(),
            final(self).pending() == old(self).pending(),
            final(self).active() == policy.rules().snapshot(pods@),
            final(cache)@ == cache_after_list(old(cache)@, policy.rules(), pods@),
            turns(diff, old(self).active(), final(self).active()),
    {
        let ghost before = cache@;
        let ghost context = policy.rules().context;
        let mut i: usize = 0;
        assert(pods@.take(0) =~= Seq::empty());
        while i < pods.len()
            invariant
                i <= pods@.len(),
                cache.wf(),
                context == policy.rules().context,
                forall|j: int| 0 <= j < pods@.len() ==> (#[trigger] pods@[j]).wf(),
                cache@ == pod_meta_cache::with_pods(before, context, pods@.take(i as int)),
            decreases pods@.len() - i,
        {
            assert(pods@.take(i + 1).drop_last() =~= pods@.take(i as int));
            assert(pods@.take(i + 1).last() == pods@[i as int]);
            cache.update_from_pod(policy.context_name(), &pods[i]);
            i += 1;
        }
        assert(pods@.take(i as int) =~= pods@);
        let snapshot = policy.collect_snapshot(pods);
        let keep = locators_of(&snapshot);
        cache.prune(&keep);
        self.registry.reconcile_snapshot(&snapshot)
    }

    /// Ends a full list: the streams of its pods run from now on, and no others.
    pub fn on_init_done(&mut self, policy: &WatchAdmissionPolicy, cache: &mut PodMetaCache) -> (diff:
        ReconcileDiff)
        requires
            old(self).wf(),
            old(cache).wf(),
            policy.wf(),
        ensures
            final(self).wf(),
            final(cache).wf(),
            final(self).pending().len() == 0,
            final(self).active() == policy.rules().snapshot(old(self).pending()),
            final(cache)@ == cache_after_list(old(cache)@, policy.rules(), old(self).pending()),
            turns(diff, old(self).active(), final(self).active()),
    {
        let mut pods: Vec<Pod> = Vec::new();
        std::mem::swap(&mut pods, &mut self.pending_pods);
        self.on_init_snapshot(&pods, policy, cache)
    }

    /// Takes what the watch tells.
    pub fn on_event(
        &mut self,
        event: WatchEvent,
        policy: &WatchAdmissionPolicy,
        cache: &mut PodMetaCache,
    ) -> (diff: ReconcileDiff)
        requires
            old(self).wf(),
            old(cache).wf(),
            policy.wf(),
            match event {
                WatchEvent::Apply(pod) | WatchEvent::Delete(pod) | WatchEvent::InitApply(pod) => pod.wf(),
                _ => true,
            },
        ensures
            final(self).wf(),
            final(cache).wf(),
            turns(diff, old(self).active(), final(self).active()),
            match event {
                WatchEvent::Apply(pod) => {
                    &&& final(self).pending() == old(self).pending()
                    &&& final(self).active() == active_after_apply(
                        old(self).active(),
                        policy.rules(),
                        pod,
                    )
                    &&& final(cache)@ == cache_after_apply(old(cache)@, policy.rules(), pod)
                },
                WatchEvent::Delete(pod) => {
                    &&& final(self).pending() == old(self).pending()
                    &&& final(self).active() == active_after_delete(
                        old(self).active(),
                        policy.rules(),
                        pod,
                    )
                    &&& final(cache)@ == cache_after_delete(old(cache)@, policy.rules(), pod)
                },
                WatchEvent::Init => {
                    &&& final(self).pending().len() == 0
                    &&& final(self).active() == old(self).active()
                    &&& final(cache)@.dom() == Set::<Seq<Seq<char>>>::empty()
                },
                WatchEvent::InitApply(pod) => {
                    &&& final(self).pending() == old(self).pending().push(pod)
                    &&& final(self).active() == old(self).active()
                    &&& final(cache)@ == pod_meta_cache::with_pod(
                        old(cache)@,
                        policy.rules().context,
                        pod,
                    )
                },
                WatchEvent::InitDone => {
                    &&& final(self).pending().len() == 0
                    &&& final(self).active() == policy.rules().snapshot(old(self).pending())
                    &&& final(cache)@ == cache_after_list(
                        old(cache)@,
                        policy.rules(),
                        old(self).pending(),
                    )
                },
            },
    {
        let unchanged = ReconcileDiff { to_add: Vec::new(), to_drop: Vec::new() };
        proof {
            let active = old(self).active();
            assert(active.difference(active) =~= Set::empty());
            assert(pod_reconcile::keys_of(unchanged.to_add@) =~= Seq::empty());
            assert(pod_reconcile::keys_of(unchanged.to_drop@) =~= Seq::empty());
        }
        match event {
            WatchEvent::Apply(pod) => self.on_apply(&pod, policy, cache),
            WatchEvent::Delete(pod) => self.on_delete(&pod, policy, cache),
            WatchEvent::Init => {
                self.on_init_begin(cache);
                assert(cache@.dom() =~= Set::empty());
                unchanged
            },
            WatchEvent::InitApply(pod) => {
                self.on_init_apply(pod, policy, cache);
                unchanged
            },
            WatchEvent::InitDone => self.on_init_done(policy, cache),
        }
    }
}

/// Whether every running stream finds the metadata of its pod.
pub open spec fn all_have_meta(
    active: Set<Seq<Seq<char>>>,
    cache: Map<Seq<Seq<char>>, (Option<String>, Map<Seq<Seq<char>>, String>)>,
) -> bool {
    forall|k: Seq<Seq<char>>| #[trigger]
        active.contains(k) ==> k.len() == 5 && cache.contains_key(pod_meta::locator_key(k))
}

/// A stream that is shown of a pod belongs to that pod.
pub proof fn lemma_streams(rules: AdmissionRules, pod: Pod, k: Seq<Seq<char>>)
    requires
        rules.streams(pod).contains(k),
    ensures
        k.len() == 5,
        pod.locator(rules.context) == Some(pod_meta::locator_key(k)),
        registry::belongs(
            k,
            rules.context,
            crate::discovery::pod::text_or_empty(pod.namespace),
            crate::discovery::pod::text_or_empty(pod.name),
            None,
        ),
{
    let all = pod.streams(rules.context);
    watch_admission::lemma_shown(rules, all, k);
    let i = all.index_of(k);
    pod_meta::law_streams_belong_to_pod(pod, rules.context, i);
}

/// If every running stream finds the metadata of its pod, it still does after a pod was applied.
pub proof fn law_apply_keeps_meta(
    active: Set<Seq<Seq<char>>>,
    cache: Map<Seq<Seq<char>>, (Option<String>, Map<Seq<Seq<char>>, String>)>,
    rules: AdmissionRules,
    pod: Pod,
)
    requires
        all_have_meta(active, cache),
    ensures
        all_have_meta(
            active_after_apply(active, rules, pod),
            cache_after_apply(cache, rules, pod),
        ),
{
    if rules.admits(pod) {
        assert forall|k: Seq<Seq<char>>| #[trigger]
            active_after_apply(active, rules, pod).contains(k) implies k.len() == 5
            && cache_after_apply(cache, rules, pod).contains_key(pod_meta::locator_key(k)) by {
            if rules.streams(pod).contains(k) {
                lemma_streams(rules, pod, k);
            } else {
                assert(active.contains(k));
            }
        }
    } else {
        law_delete_keeps_meta(active, cache, rules, pod);
    }
}

/// If every running stream finds the metadata of its pod, it still does after a pod was deleted.
pub proof fn law_delete_keeps_meta(
    active: Set<Seq<Seq<char>>>,
    cache: Map<Seq<Seq<char>>, (Option<String>, Map<Seq<Seq<char>>, String>)>,
    rules: AdmissionRules,
    pod: Pod,
)
    requires
        all_have_meta(active, cache),
    ensures
        all_have_meta(
            active_after_delete(active, rules, pod),
            cache_after_delete(cache, rules, pod),
        ),
{
    assert forall|k: Seq<Seq<char>>| #[trigger]
        active_after_delete(active, rules, pod).contains(k) implies k.len() == 5
        && cache_after_delete(cache, rules, pod).contains_key(pod_meta::locator_key(k)) by {
        assert(active.contains(k));
        if pod.locator(rules.context) == Some(pod_meta::locator_key(k)) {
            let l = pod_meta::locator_key(k);
            assert(l[0] == k[0] && l[1] == k[1] && l[2] == k[2] && l[3] == k[4]);
        }
    }
}

proof fn lemma_cached(
    cache: Map<Seq<Seq<char>>, (Option<String>, Map<Seq<Seq<char>>, String>)>,
    context: Seq<char>,
    pods: Seq<Pod>,
    i: int,
    l: Seq<Seq<char>>,
)
    requires
        0 <= i < pods.len(),
        pods[i].locator(context) == Some(l),
    ensures
        pod_meta_cache::with_pods(cache, context, pods).contains_key(l),
    decreases pods.len(),
{
    if i < pods.len() - 1 {
        assert(pods.drop_last()[i] == pods[i]);
        lemma_cached(cache, context, pods.drop_last(), i, l);
    }
}

/// After a full list exactly the streams of its admitted pods run, each finds the metadata of its
/// pod, and no metadata of other pods is left.
pub proof fn law_list_settles(
    cache: Map<Seq<Seq<char>>, (Option<String>, Map<Seq<Seq<char>>, String>)>,
    rules: AdmissionRules,
    pods: Seq<Pod>,
)
    ensures
        all_have_meta(rules.snapshot(pods), cache_after_list(cache, rules, pods)),
        forall|l: Seq<Seq<char>>| #[trigger]
            cache_after_list(cache, rules, pods).contains_key(l) ==> locators(
                rules.snapshot(pods),
            ).contains(l),
{
    let streams = rules.snapshot(pods);
    assert forall|k: Seq<Seq<char>>| #[trigger] streams.contains(k) implies k.len() == 5
        && cache_after_list(cache, rules, pods).contains_key(pod_meta::locator_key(k)) by {
        let i = choose|i: int|
            0 <= i < pods.len() && rules.admits(#[trigger] pods[i]) && rules.streams(
                pods[i],
            ).contains(k);
        lemma_streams(rules, pods[i], k);
        lemma_cached(cache, rules.context, pods, i, pod_meta::locator_key(k));
        assert(locators(streams).contains(pod_meta::locator_key(k)));
    }
}

/// Listing pod by pod comes to the same as taking the list at once: the metadata gathered on the way
/// does not change when the list is complete.
pub proof fn law_list_pod_by_pod(
    context: Seq<char>,
    pods: Seq<Pod>,
    cache: Map<Seq<Seq<char>>, (Option<String>, Map<Seq<Seq<char>>, String>)>,
)
    requires
        cache == pod_meta_cache::with_pods(Map::empty(), context, pods),
    ensures
        pod_meta_cache::with_pods(cache, context, pods) == cache,
{
    lemma_again(context, pods, cache, pods.len() as int);
    assert(pods.take(pods.len() as int) =~= pods);
    assert(pod_meta_cache::with_pods(cache, context, pods) =~= cache);
}

proof fn lemma_again(
    context: Seq<char>,
    pods: Seq<Pod>,
    cache: Map<Seq<Seq<char>>, (Option<String>, Map<Seq<Seq<char>>, String>)>,
    n: int,
)
    requires
        cache == pod_meta_cache::with_pods(Map::empty(), context, pods),
        0 <= n <= pods.len(),
    ensures
        pod_meta_cache::with_pods(cache, context, pods.take(n)).dom() == cache.dom(),
        forall|l: Seq<Seq<char>>| #[trigger]
            pod_meta_cache::with_pods(cache, context, pods.take(n)).contains_key(l)
                ==> pod_meta_cache::with_pods(cache, context, pods.take(n))[l]
                == if pod_meta_cache::with_pods(Map::empty(), context, pods.take(n)).contains_key(
                l,
            ) {
                pod_meta_cache::with_pods(Map::empty(), context, pods.take(n))[l]
            } else {
                cache[l]
            },
    decreases n,
{
    if n > 0 {
        lemma_again(context, pods, cache, n - 1);
        assert(pods.take(n).drop_last() =~= pods.take(n - 1));
        assert(pods.take(n).last() == pods[n - 1]);
        match pods[n - 1].locator(context) {
            Some(l) => {
                lemma_cached(Map::empty(), context, pods, n - 1, l);
                assert(pod_meta_cache::with_pods(cache, context, pods.take(n)).dom() =~= cache.dom());
            },
            None => {},
        }
    }
}

/// After a pod that is shown was applied, of the streams of that name exactly those run that are shown
/// of it, and every other stream runs as before.
pub proof fn law_applied_pod_runs_its_streams(
    active: Set<Seq<Seq<char>>>,
    rules: AdmissionRules,
    pod: Pod,
    name: String,
    key: SourceKey,
)
    requires
        rules.admits(pod),
        pod.name == Some(name),
    ensures
        ({
            let same_name = key.context.0@ == rules.context && key.pod@ == name@ && key.namespace@
                == crate::discovery::pod::text_or_empty(pod.namespace);
            active_after_apply(active, rules, pod).contains(key.key()) <==> rules.streams(
                pod,
            ).contains(key.key()) || (active.contains(key.key()) && !same_name)
        }),
{
}

/// After a pod was deleted, or applied though it is not shown, no stream of it runs any more: none of
/// its name and, where it has one, of its uid. Every other stream runs as before.
pub proof fn law_deleted_pod_stops_its_streams(
    active: Set<Seq<Seq<char>>>,
    rules: AdmissionRules,
    pod: Pod,
    name: String,
    key: SourceKey,
)
    requires
        pod.name == Some(name),
    ensures
        ({
            let of_pod = key.context.0@ == rules.context && key.pod@ == name@ && key.namespace@
                == crate::discovery::pod::text_or_empty(pod.namespace) && (pod.uid matches Some(uid)
                ==> key.uid@ == uid@);
            &&& active_after_delete(active, rules, pod).contains(key.key()) <==> active.contains(
                key.key(),
            ) && !of_pod
            &&& !rules.admits(pod) ==> active_after_apply(active, rules, pod) == active_after_delete(
                active,
                rules,
                pod,
            )
        }),
{
}

/// Deleting a pod forgets what was shown of it and nothing else; applying one that is shown remembers
/// what it shows now.
pub proof fn law_metadata_follows_the_pod(
    cache: Map<Seq<Seq<char>>, (Option<String>, Map<Seq<Seq<char>>, String>)>,
    rules: AdmissionRules,
    pod: Pod,
    l: Seq<Seq<char>>,
)
    ensures
        pod.locator(rules.context) == Some(l) ==> !cache_after_delete(cache, rules, pod).contains_key(l),
        pod.locator(rules.context) != Some(l) ==> cache_after_delete(cache, rules, pod).contains_key(l)
            == cache.contains_key(l) && cache_after_apply(cache, rules, pod).contains_key(l)
            == cache.contains_key(l),
        pod.locator(rules.context) != Some(l) && cache.contains_key(l) ==> cache_after_delete(
            cache,
            rules,
            pod,
        )[l] == cache[l] && cache_after_apply(cache, rules, pod)[l] == cache[l],
        pod.locator(rules.context) == Some(l) && rules.admits(pod) ==> cache_after_apply(
            cache,
            rules,
            pod,
        ).contains_key(l) && cache_after_apply(cache, rules, pod)[l] == pod_meta::pod_shown(pod),
        pod.locator(rules.context) == Some(l) && !rules.admits(pod) ==> !cache_after_apply(
            cache,
            rules,
            pod,
        ).contains_key(l),
{
}

/// A change stops exactly the streams that ran and no longer do, and starts exactly those that did
/// not run and do now.
pub proof fn law_change_is_what_differs(
    diff: ReconcileDiff,
    before: Set<Seq<Seq<char>>>,
    after: Set<Seq<Seq<char>>>,
    k: Seq<Seq<char>>,
)
    requires
        turns(diff, before, after),
    ensures
        pod_reconcile::keys_of(diff.to_drop@).contains(k) <==> before.contains(k) && !after.contains(k),
        pod_reconcile::keys_of(diff.to_add@).contains(k) <==> after.contains(k) && !before.contains(k),
{
    assert(before.difference(after).contains(k) <==> pod_reconcile::keys_of(diff.to_drop@).contains(k));
    assert(after.difference(before).contains(k) <==> pod_reconcile::keys_of(diff.to_add@).contains(k));
}

/// The pods that streams belong to are those that some stream of the set belongs to.
pub proof fn law_pods_of_streams(streams: Set<Seq<Seq<char>>>, key: SourceKey)
    requires
        streams.contains(key.key()),
    ensures
        locators(streams).contains(
            seq![key.context.0@, key.namespace@, key.pod@, key.uid@],
        ),
{
    assert(pod_meta::locator_key(key.key()) =~= seq![
        key.context.0@,
        key.namespace@,
        key.pod@,
        key.uid@,
    ]);
}

/// A pod is among those that streams belong to only if some stream of the set belongs to it.
pub proof fn law_pods_have_a_stream(streams: Set<Seq<Seq<char>>>, l: Seq<Seq<char>>)
    requires
        locators(streams).contains(l),
    ensures
        exists|k: Seq<Seq<char>>| #[trigger]
            streams.contains(k) && k[0] == l[0] && k[1] == l[1] && k[2] == l[2] && k[4] == l[3],
{
    let k = choose|k: Seq<Seq<char>>| streams.contains(k) && pod_meta::locator_key(k) == l;
    assert(streams.contains(k));
}

/// What is left of the metadata after a full list is what the pods of the list show.
pub proof fn law_list_keeps_what_is_shown(
    cache: Map<Seq<Seq<char>>, (Option<String>, Map<Seq<Seq<char>>, String>)>,
    rules: AdmissionRules,
    pods: Seq<Pod>,
    others: Seq<Pod>,
    pod: Pod,
    l: Seq<Seq<char>>,
)
    requires
        pod.locator(rules.context) == Some(l),
        forall|i: int|
            0 <= i < others.len() ==> (#[trigger] others[i]).locator(rules.context) != Some(l),
        cache_after_list(cache, rules, pods.push(pod) + others).contains_key(l),
    ensures
        cache_after_list(cache, rules, pods.push(pod) + others)[l] == pod_meta::pod_shown(pod),
{
    let context = rules.context;
    let all = pods.push(pod) + others;
    lemma_with_pods_in_two(cache, context, pods.push(pod), others);
    assert(pods.push(pod).drop_last() =~= pods);
    pod_meta_cache::law_lookup_gives_update(
        pod_meta_cache::with_pods(cache, context, pods),
        context,
        pod,
        others,
        l,
    );
}

proof fn lemma_with_pods_in_two(
    cache: Map<Seq<Seq<char>>, (Option<String>, Map<Seq<Seq<char>>, String>)>,
    context: Seq<char>,
    a: Seq<Pod>,
    b: Seq<Pod>,
)
    ensures
        pod_meta_cache::with_pods(cache, context, a + b) == pod_meta_cache::with_pods(
            pod_meta_cache::with_pods(cache, context, a),
            context,
            b,
        ),
    decreases b.len(),
{
    if b.len() == 0 {
        assert(a + b =~= a);
    } else {
        lemma_with_pods_in_two(cache, context, a, b.drop_last());
        assert((a + b).drop_last() =~= a + b.drop_last());
        assert((a + b).last() == b.last());
    }
}

} // verus!
