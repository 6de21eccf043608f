//! Event-time pod and container admission for the watch reconcile loop.
//!
//! Label and field selectors are applied by the server; they are not looked at again here.

use crate::discovery::pod::{keys_from_pod, Pod};
use crate::discovery::pod_condition;
use crate::discovery::pod_condition::PodConditionFilter;
use crate::discovery::pod_reconcile;
use crate::key_set::KeySet;
use crate::order::Keyed;
use crate::regex_limits;
use crate::regex_limits::Pattern;
use crate::source::{ContextName, SourceKey};
use crate::text;
use vstd::prelude::*;

verus! {

/// Which pods and which of their streams are shown.
pub struct WatchAdmissionPolicy {
    context_name: ContextName,
    pod_regex: Option<Pattern>,
    exclude_pod: Vec<Pattern>,
    allowed_ns: Option<KeySet<String>>,
    pod_condition: Option<PodConditionFilter>,
    container_incl: Pattern,
    container_excl: Vec<Pattern>,
}

/// The namespaces that a pod may be in; any if none are named. All namespaces are watched as such,
/// and a single namespace is left to the server.
pub open spec fn allowed_namespaces(namespaces: Seq<Seq<char>>, all_namespaces: bool) -> Option<
    Set<Seq<char>>,
> {
    if all_namespaces || namespaces.len() <= 1 {
        None
    } else {
        Some(namespaces.to_set())
    }
}

/// What a policy admits, in terms of what it was made from.
pub struct AdmissionRules {
    pub context: Seq<char>,
    pub pod_regex: Option<Seq<char>>,
    pub exclude_pod: Seq<Seq<char>>,
    pub allowed_ns: Option<Set<Seq<char>>>,
    pub pod_condition: Option<PodConditionFilter>,
    pub container: Seq<char>,
    pub exclude_container: Seq<Seq<char>>,
}

/// Whether some pattern of the list occurs in `name`.
pub open spec fn any_matches(patterns: Seq<Seq<char>>, name: Seq<char>) -> bool {
    exists|i: int|
        0 <= i < patterns.len() && regex_limits::pattern_matches(#[trigger] patterns[i], name)
}

impl AdmissionRules {
    /// Whether a pod is shown.
    pub open spec fn admits(&self, pod: Pod) -> bool {
        match (pod.name, pod.namespace) {
            (Some(name), Some(ns)) => {
                &&& self.allowed_ns matches Some(allowed) ==> allowed.contains(ns@)
                &&& !any_matches(self.exclude_pod, name@)
                &&& self.pod_regex matches Some(re) ==> regex_limits::pattern_matches(re, name@)
                &&& self.pod_condition matches Some(filter) ==> pod_condition::pod_passes(
                    pod,
                    filter,
                )
            },
            _ => false,
        }
    }

    /// Whether a container of that name is shown.
    pub open spec fn admits_container(&self, container: Seq<char>) -> bool {
        &&& regex_limits::pattern_matches(self.container, container)
        &&& !any_matches(self.exclude_container, container)
    }

    /// Those of a list of streams whose container is shown.
    pub open spec fn shown(&self, keys: Seq<Seq<Seq<char>>>) -> Seq<Seq<Seq<char>>>
        decreases keys.len(),
    {
        if keys.len() == 0 {
            Seq::empty()
        } else {
            let rest = self.shown(keys.drop_last());
            if self.admits_container(keys.last()[3]) {
                rest.push(keys.last())
            } else {
                rest
            }
        }
    }

    /// The streams of a pod that are shown, by key.
    pub open spec fn streams(&self, pod: Pod) -> Seq<Seq<Seq<char>>> {
        self.shown(pod.streams(self.context))
    }

    /// Whether the stream of key `k` is shown once these pods are there.
    pub open spec fn shows(&self, pods: Seq<Pod>, k: Seq<Seq<char>>) -> bool {
        exists|i: int|
            0 <= i < pods.len() && self.admits(#[trigger] pods[i]) && self.streams(pods[i]).contains(
                k,
            )
    }

    /// The streams that are shown once these pods are there, by key.
    pub open spec fn snapshot(&self, pods: Seq<Pod>) -> Set<Seq<Seq<char>>> {
        Set::new(|k: Seq<Seq<char>>| self.shows(pods, k))
    }
}

/// The members of a set of texts.
pub open spec fn text_members(set: Set<Seq<Seq<char>>>) -> Set<Seq<char>> {
    Set::new(|t: Seq<char>| set.contains(seq![t]))
}

proof fn lemma_sources_match(list: Seq<Pattern>, name: Seq<char>)
    ensures
        regex_limits::any_accepts(list, name) == any_matches(regex_limits::sources(list), name),
{
    let patterns = regex_limits::sources(list);
    if regex_limits::any_accepts(list, name) {
        let i = choose|i: int| 0 <= i < list.len() && (#[trigger] list[i]).accepts(name);
        assert(regex_limits::pattern_matches(patterns[i], name));
    }
    if any_matches(patterns, name) {
        let i = choose|i: int|
            0 <= i < patterns.len() && regex_limits::pattern_matches(#[trigger] patterns[i], name);
        assert(list[i].accepts(name));
    }
}

/// The namespaces that a pod may be in; any if none are named.
pub fn resolve_allowed_ns(namespaces: &Vec<String>, all_namespaces: bool) -> (allowed: Option<
    KeySet<String>,
>)
    ensures
        match allowed {
            Some(set) => set.wf() && allowed_namespaces(text::texts(namespaces@), all_namespaces)
                == Some(text_members(set@)),
            None => allowed_namespaces(text::texts(namespaces@), all_namespaces) is None,
        },
{
    if all_namespaces || namespaces.len() <= 1 {
        return None;
    }
    let mut set: KeySet<String> = KeySet::new();
    let ghost all = text::texts(namespaces@);
    let mut i: usize = 0;
    while i < namespaces.len()
        invariant
            i <= namespaces@.len(),
            set.wf(),
            all == text::texts(namespaces@),
            forall|t: Seq<char>| #[trigger]
                set@.contains(seq![t]) <==> all.take(i as int).contains(t),
        decreases namespaces@.len() - i,
    {
        let ghost earlier = set@;
        set.insert(namespaces[i].clone());
        proof {
            let added = namespaces@[i as int]@;
            assert(all.take(i + 1) =~= all.take(i as int).push(added));
            assert forall|t: Seq<char>| #[trigger]
                set@.contains(seq![t]) <==> all.take(i + 1).contains(t) by {
                assert(seq![t] == seq![added] <==> t == added) by {
                    assert(seq![t][0] == t && seq![added][0] == added);
                }
                if all.take(i as int).contains(t) {
                    let j = all.take(i as int).index_of(t);
                    assert(all.take(i + 1)[j] == t);
                }
                if t == added {
                    assert(all.take(i + 1)[i as int] == t);
                }
                assert(earlier.contains(seq![t]) <==> all.take(i as int).contains(t));
            }
        }
        i += 1;
    }
    proof {
        assert(all.take(i as int) =~= all);
        assert forall|t: Seq<char>| all.to_set().contains(t) <==> text_members(set@).contains(t) by {
            assert(set@.contains(seq![t]) <==> all.contains(t));
        }
        assert(all.to_set() =~= text_members(set@));
    }
    Some(set)
}

impl WatchAdmissionPolicy {
    /// The list of namespaces is sorted.
    pub closed spec fn wf(&self) -> bool {
        self.allowed_ns matches Some(set) ==> set.wf()
    }

    /// What the policy admits.
    pub closed spec fn rules(&self) -> AdmissionRules {
        AdmissionRules {
            context: self.context_name.0@,
            pod_regex: match self.pod_regex {
                Some(re) => Some(re@),
                None => None,
            },
            exclude_pod: regex_limits::sources(self.exclude_pod@),
            allowed_ns: match self.allowed_ns {
                Some(set) => Some(text_members(set@)),
                None => None,
            },
            pod_condition: self.pod_condition,
            container: self.container_incl@,
            exclude_container: regex_limits::sources(self.container_excl@),
        }
    }

    /// The context whose pods are watched.
    pub fn context_name(&self) -> (context: &ContextName)
        ensures
            context.0@ == self.rules().context,
    {
        &self.context_name
    }

    /// A policy made from the patterns of the user. The error says what is wrong with the first
    /// pattern that does not compile: of the pods to hide, of the containers to show, and of the
    /// containers to hide, in this order.
    pub fn try_new(
        context_name: ContextName,
        pod_regex: Option<Pattern>,
        exclude_pod: &Vec<String>,
        namespaces: &Vec<String>,
        all_namespaces: bool,
        container: &str,
        exclude_container: &Vec<String>,
        pod_condition: Option<PodConditionFilter>,
    ) -> (policy: Result<Self, String>)
        ensures
            match policy {
                Ok(p) => {
                    &&& p.wf()
                    &&& regex_limits::first_error(text::texts(exclude_pod@)) is None
                    &&& regex_limits::pattern_compiles(container@)
                    &&& regex_limits::first_error(text::texts(exclude_container@)) is None
                    &&& p.rules() == (AdmissionRules {
                        context: context_name.0@,
                        pod_regex: match pod_regex {
                            Some(re) => Some(re@),
                            None => None,
                        },
                        exclude_pod: text::texts(exclude_pod@),
                        allowed_ns: allowed_namespaces(text::texts(namespaces@), all_namespaces),
                        pod_condition,
                        container: container@,
                        exclude_container: text::texts(exclude_container@),
                    })
                },
                Err(reason) => {
                    match regex_limits::first_error(text::texts(exclude_pod@)) {
                        Some(e) => reason@ == e,
                        None => if !regex_limits::pattern_compiles(container@) {
                            reason@ == regex_limits::pattern_error(container@)
                        } else {
                            regex_limits::first_error(text::texts(exclude_container@)) == Some(
                                reason@,
                            )
                        },
                    }
                },
            },
    {
        let exclude_pod = match regex_limits::compile_all(exclude_pod) {
            Ok(list) => list,
            Err(reason) => return Err(reason),
        };
        let container_incl = match Pattern::compile(container) {
            Ok(p) => p,
            Err(reason) => return Err(reason),
        };
        let container_excl = match regex_limits::compile_all(exclude_container) {
            Ok(list) => list,
            Err(reason) => return Err(reason),
        };
        let allowed_ns = resolve_allowed_ns(namespaces, all_namespaces);
        Ok(
            WatchAdmissionPolicy {
                context_name,
                pod_regex,
                exclude_pod,
                allowed_ns,
                pod_condition,
                container_incl,
                container_excl,
            },
        )
    }

    /// Whether a pod is shown.
    pub fn admit_pod(&self, pod: &Pod) -> (admitted: bool)
        requires
            self.wf(),
        ensures
            admitted == self.rules().admits(*pod),
    {
        let name = match &pod.name {
            Some(name) => name,
            None => return false,
        };
        let ns = match &pod.namespace {
            Some(ns) => ns,
            None => return false,
        };
        match &self.allowed_ns {
            Some(allowed) => {
                if !allowed.contains(ns) {
                    return false;
                }
            },
            None => {},
        }
        proof {
            lemma_sources_match(self.exclude_pod@, name@);
        }
        if regex_limits::any_match(&self.exclude_pod, name.as_str()) {
            return false;
        }
        match &self.pod_regex {
            Some(re) => {
                if !re.is_match(name.as_str()) {
                    return false;
                }
            },
            None => {},
        }
        match &self.pod_condition {
            Some(filter) => pod_condition::pod_matches_condition(pod, filter),
            None => true,
        }
    }

    /// Whether a container of that name is shown.
    pub fn admit_container(&self, container: &str) -> (admitted: bool)
        ensures
            admitted == self.rules().admits_container(container@),
    {
        proof {
            lemma_sources_match(self.container_excl@, container@);
        }
        self.container_incl.is_match(container) && !regex_limits::any_match(
            &self.container_excl,
            container,
        )
    }

    /// The streams of a pod that are shown.
    pub fn admit_streams(&self, pod: &Pod) -> (keys: Vec<SourceKey>)
        ensures
            pod_reconcile::keys_of(keys@) == self.rules().streams(*pod),
    {
        let all = keys_from_pod(pod, &self.context_name);
        let mut keys: Vec<SourceKey> = Vec::new();
        let ghost rules = self.rules();
        let ghost streams = pod.streams(rules.context);
        let mut i: usize = 0;
        assert(streams.take(0) =~= Seq::empty());
        assert(pod_reconcile::keys_of(keys@) =~= Seq::empty());
        while i < all.len()
            invariant
                i <= all@.len(),
                rules == self.rules(),
                pod_reconcile::keys_of(all@) == streams,
                pod_reconcile::keys_of(keys@) == rules.shown(streams.take(i as int)),
            decreases all@.len() - i,
        {
            let key = &all[i];
            let ghost earlier = keys@;
            proof {
                assert(streams[i as int] == key.key());
                assert(key.key()[3] == key.container@);
                assert(streams.take(i + 1).drop_last() =~= streams.take(i as int));
                assert(streams.take(i + 1).last() == key.key());
            }
            if self.admit_container(key.container.as_str()) {
                keys.push(key.clone());
                assert(pod_reconcile::keys_of(keys@) =~= pod_reconcile::keys_of(earlier).push(
                    key.key(),
                ));
            }
            i += 1;
        }
        assert(streams.take(i as int) =~= streams);
        keys
    }

    /// The streams that are shown once these pods are there.
    pub fn collect_snapshot(&self, pods: &Vec<Pod>) -> (snapshot: KeySet<SourceKey>)
        requires
            self.wf(),
        ensures
            snapshot.wf(),
            snapshot@ == self.rules().snapshot(pods@),
    {
        let mut snapshot: KeySet<SourceKey> = KeySet::new();
        let ghost rules = self.rules();
        let mut i: usize = 0;
        assert(snapshot@ =~= rules.snapshot(pods@.take(0)));
        while i < pods.len()
            invariant
                i <= pods@.len(),
                self.wf(),
                rules == self.rules(),
                snapshot.wf(),
                snapshot@ == rules.snapshot(pods@.take(i as int)),
            decreases pods@.len() - i,
        {
            let pod = &pods[i];
            let ghost earlier = snapshot@;
            if self.admit_pod(pod) {
                let keys = self.admit_streams(pod);
                add_all(&mut snapshot, &keys);
            }
            proof {
                lemma_one_more_pod(rules, pods@, i as int, earlier, snapshot@);
            }
            i += 1;
        }
        assert(pods@.take(i as int) =~= pods@);
        snapshot
    }
}

proof fn lemma_one_more_pod(
    rules: AdmissionRules,
    pods: Seq<Pod>,
    i: int,
    before: Set<Seq<Seq<char>>>,
    after: Set<Seq<Seq<char>>>,
)
    requires
        0 <= i < pods.len(),
        before == rules.snapshot(pods.take(i)),
        after == if rules.admits(pods[i]) {
            before.union(rules.streams(pods[i]).to_set())
        } else {
            before
        },
    ensures
        after == rules.snapshot(pods.take(i + 1)),
{
    assert forall|k: Seq<Seq<char>>| after.contains(k) <==> rules.snapshot(
        pods.take(i + 1),
    ).contains(k) by {
        if rules.shows(pods.take(i), k) {
            let j = choose|j: int|
                0 <= j < pods.take(i).len() && rules.admits(#[trigger] pods.take(i)[j])
                    && rules.streams(pods.take(i)[j]).contains(k);
            assert(pods.take(i + 1)[j] == pods.take(i)[j]);
        }
        if rules.admits(pods[i]) && rules.streams(pods[i]).contains(k) {
            assert(pods.take(i + 1)[i] == pods[i]);
        }
        if rules.shows(pods.take(i + 1), k) {
            let j = choose|j: int|
                0 <= j < pods.take(i + 1).len() && rules.admits(#[trigger] pods.take(i + 1)[j])
                    && rules.streams(pods.take(i + 1)[j]).contains(k);
            if j < i {
                assert(pods.take(i)[j] == pods.take(i + 1)[j]);
            }
        }
    }
    assert(after =~= rules.snapshot(pods.take(i + 1)));
}

/// Makes every key of a list a member.
pub fn add_all(set: &mut KeySet<SourceKey>, list: &Vec<SourceKey>)
    requires
        old(set).wf(),
    ensures
        final(set).wf(),
        final(set)@ == old(set)@.union(pod_reconcile::keys_of(list@).to_set()),
{
    let ghost before = set@;
    let ghost keys = pod_reconcile::keys_of(list@);
    let mut i: usize = 0;
    assert(set@ =~= before.union(keys.take(0).to_set()));
    while i < list.len()
        invariant
            i <= list@.len(),
            set.wf(),
            keys == pod_reconcile::keys_of(list@),
            set@ == before.union(keys.take(i as int).to_set()),
        decreases list@.len() - i,
    {
        set.insert(list[i].clone());
        proof {
            let grown = keys.take(i + 1);
            assert(grown =~= keys.take(i as int).push(keys[i as int]));
            assert forall|k: Seq<Seq<char>>| grown.to_set().contains(k) <==> keys.take(
                i as int,
            ).to_set().insert(keys[i as int]).contains(k) by {
                if keys.take(i as int).contains(k) {
                    let j = keys.take(i as int).index_of(k);
                    assert(grown[j] == k);
                }
                if k == keys[i as int] {
                    assert(grown[i as int] == k);
                }
            }
            assert(set@ =~= before.union(grown.to_set()));
        }
        i += 1;
    }
    assert(keys.take(i as int) =~= keys);
}

/// A stream of a list is shown exactly if its container is.
pub proof fn lemma_shown(rules: AdmissionRules, keys: Seq<Seq<Seq<char>>>, k: Seq<Seq<char>>)
    ensures
        rules.shown(keys).contains(k) <==> keys.contains(k) && rules.admits_container(k[3]),
    decreases keys.len(),
{
    if keys.len() > 0 {
        let rest = keys.drop_last();
        lemma_shown(rules, rest, k);
        let before = rules.shown(rest);
        if rules.shown(keys).contains(k) {
            let i = rules.shown(keys).index_of(k);
            if i < before.len() {
                assert(before[i] == k);
                let j = rest.index_of(k);
                assert(keys[j] == k);
            } else {
                assert(keys[keys.len() - 1] == k);
            }
        }
        if keys.contains(k) && rules.admits_container(k[3]) {
            let j = keys.index_of(k);
            if j < rest.len() {
                assert(rest[j] == k);
                let i = before.index_of(k);
                assert(rules.shown(keys)[i] == k);
            } else {
                assert(rules.shown(keys)[before.len() as int] == k);
            }
        }
    }
}

/// A stream is shown exactly if its container is, and some pod that is shown has it.
pub proof fn law_snapshot_is_admitted(rules: AdmissionRules, pods: Seq<Pod>, k: Seq<Seq<char>>)
    ensures
        rules.snapshot(pods).contains(k) <==> rules.admits_container(k[3]) && exists|i: int|
            0 <= i < pods.len() && rules.admits(#[trigger] pods[i]) && pods[i].streams(
                rules.context,
            ).contains(k),
{
    if rules.snapshot(pods).contains(k) {
        let i = choose|i: int|
            0 <= i < pods.len() && rules.admits(#[trigger] pods[i]) && rules.streams(
                pods[i],
            ).contains(k);
        lemma_shown(rules, pods[i].streams(rules.context), k);
    }
    if rules.admits_container(k[3]) && exists|i: int|
        0 <= i < pods.len() && rules.admits(#[trigger] pods[i]) && pods[i].streams(
            rules.context,
        ).contains(k) {
        let i = choose|i: int|
            0 <= i < pods.len() && rules.admits(#[trigger] pods[i]) && pods[i].streams(
                rules.context,
            ).contains(k);
        lemma_shown(rules, pods[i].streams(rules.context), k);
        assert(rules.streams(pods[i]).contains(k));
    }
}

/// A pod that an excluding pattern at any position matches is not shown, nor one whose name the
/// pattern of the query does not match, nor one outside the namespaces, nor one that fails the
/// condition, nor one without a name or a namespace.
pub proof fn law_what_refuses_a_pod(rules: AdmissionRules, pod: Pod, name: String, ns: String, i: int)
    requires
        pod.name == Some(name),
        pod.namespace == Some(ns),
        ({
            ||| 0 <= i < rules.exclude_pod.len() && regex_limits::pattern_matches(
                rules.exclude_pod[i],
                name@,
            )
            ||| rules.pod_regex matches Some(re) && !regex_limits::pattern_matches(re, name@)
            ||| rules.allowed_ns matches Some(allowed) && !allowed.contains(ns@)
            ||| rules.pod_condition matches Some(filter) && !pod_condition::pod_passes(pod, filter)
        }),
    ensures
        !rules.admits(pod),
{
    if 0 <= i < rules.exclude_pod.len() && regex_limits::pattern_matches(rules.exclude_pod[i], name@) {
        assert(any_matches(rules.exclude_pod, name@));
    }
}

/// A pod that nothing refuses is shown, and one without a name or a namespace never is.
pub proof fn law_what_shows_a_pod(rules: AdmissionRules, pod: Pod)
    ensures
        pod.name is None || pod.namespace is None ==> !rules.admits(pod),
        pod.name matches Some(name) ==> (pod.namespace matches Some(ns) ==> ((forall|i: int|
            0 <= i < rules.exclude_pod.len() ==> !regex_limits::pattern_matches(
                #[trigger] rules.exclude_pod[i],
                name@,
            )) && (rules.pod_regex matches Some(re) ==> regex_limits::pattern_matches(re, name@)) && (
        rules.allowed_ns matches Some(allowed) ==> allowed.contains(ns@)) && (
        rules.pod_condition matches Some(filter) ==> pod_condition::pod_passes(pod, filter))
            ==> rules.admits(pod))),
{
}

/// A container is shown exactly if the one pattern matches its name and no excluding pattern, at any
/// position, does.
pub proof fn law_what_shows_a_container(rules: AdmissionRules, container: Seq<char>)
    ensures
        rules.admits_container(container) <==> regex_limits::pattern_matches(
            rules.container,
            container,
        ) && forall|i: int|
            0 <= i < rules.exclude_container.len() ==> !regex_limits::pattern_matches(
                #[trigger] rules.exclude_container[i],
                container,
            ),
{
}

/// With several namespaces a pod has to be in one of them, whichever; with one or none, and with all,
/// the server has chosen already.
pub proof fn law_namespaces_that_are_allowed(namespaces: Seq<Seq<char>>, ns: Seq<char>)
    ensures
        allowed_namespaces(namespaces, true) is None,
        namespaces.len() <= 1 ==> allowed_namespaces(namespaces, false) is None,
        namespaces.len() > 1 ==> (allowed_namespaces(namespaces, false) matches Some(allowed) && (
        allowed.contains(ns) <==> exists|i: int|
            0 <= i < namespaces.len() && #[trigger] namespaces[i] == ns)),
{
    if namespaces.len() > 1 && namespaces.contains(ns) {
        assert(namespaces[namespaces.index_of(ns)] == ns);
    }
}

/// The streams of a pod that are shown are those of its containers that are shown, in their order.
pub proof fn law_streams_by_container(
    rules: AdmissionRules,
    before: Seq<Seq<Seq<char>>>,
    key: Seq<Seq<char>>,
    after: Seq<Seq<Seq<char>>>,
)
    ensures
        rules.shown(before.push(key) + after) == if rules.admits_container(key[3]) {
            rules.shown(before).push(key) + rules.shown(after)
        } else {
            rules.shown(before) + rules.shown(after)
        },
    decreases after.len(),
{
    let all = before.push(key) + after;
    let head = if rules.admits_container(key[3]) {
        rules.shown(before).push(key)
    } else {
        rules.shown(before)
    };
    if after.len() == 0 {
        assert(all.drop_last() =~= before);
        assert(all.last() == key);
        assert(head + rules.shown(after) =~= head);
    } else {
        let rest = after.drop_last();
        law_streams_by_container(rules, before, key, rest);
        assert(all.drop_last() =~= before.push(key) + rest);
        assert(all.last() == after.last());
        assert(rules.shown(all) =~= head + rules.shown(after));
    }
}

} // verus!
