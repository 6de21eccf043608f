//! Admission, metadata, streams and their lifecycle.

use rustern_core::discovery::pod::{running_containers, ContainerStatus, Pod};
use rustern_core::discovery::pod_condition::{PodCondition, PodConditionFilter};
use rustern_core::key_set::KeySet;
use rustern_core::regex_limits::Pattern;
use rustern_core::runtime::pod_lifecycle::{PodLifecycle, WatchEvent};
use rustern_core::runtime::pod_meta_cache::PodMetaCache;
use rustern_core::runtime::registry::PodStreamRegistry;
use rustern_core::runtime::watch_admission::WatchAdmissionPolicy;
use rustern_core::source::pod_meta::{PodLocator, PodMetaSnapshot};
use rustern_core::source::{ContextName, Labels, SourceKey};
use rustern_core::compile_user_regex;

struct Rules {
    pod_regex: Option<Pattern>,
    exclude_pod: Vec<String>,
    namespaces: Vec<String>,
    all_namespaces: bool,
    container: String,
    exclude_container: Vec<String>,
    pod_condition: Option<PodConditionFilter>,
}

fn strings(list: &[&str]) -> Vec<String> {
    list.iter().map(|s| s.to_string()).collect()
}

fn rules() -> Rules {
    Rules {
        pod_regex: None,
        exclude_pod: Vec::new(),
        namespaces: strings(&["ns"]),
        all_namespaces: false,
        container: ".*".to_string(),
        exclude_container: Vec::new(),
        pod_condition: None,
    }
}

fn pattern(p: &str) -> Option<Pattern> {
    Some(compile_user_regex("pod", p).unwrap())
}

fn policy(r: Rules) -> WatchAdmissionPolicy {
    WatchAdmissionPolicy::try_new(
        ContextName("ctx".into()),
        r.pod_regex,
        &r.exclude_pod,
        &r.namespaces,
        r.all_namespaces,
        &r.container,
        &r.exclude_container,
        r.pod_condition,
    )
    .ok()
    .expect("policy")
}

fn pod_named(ns: &str, name: &str, containers: &[&str]) -> Pod {
    Pod {
        name: Some(name.to_string()),
        namespace: Some(ns.to_string()),
        uid: Some(format!("uid-{name}")),
        labels: None,
        node_name: None,
        conditions: None,
        containers: strings(containers),
    }
}

fn containers_of(keys: &[SourceKey]) -> Vec<String> {
    keys.iter().map(|k| k.container.clone()).collect()
}

#[test]
fn selector_only_implicit_dot_admits_all_pod_names() {
    let p = policy(Rules { pod_regex: pattern(".*"), ..rules() });
    assert!(p.admit_pod(&pod_named("ns", "anything", &["app"])));
}

#[test]
fn pod_regex_filters_by_name() {
    let p = policy(Rules { pod_regex: pattern("^api-.*"), ..rules() });
    assert!(p.admit_pod(&pod_named("ns", "api-v1", &["app"])));
    assert!(!p.admit_pod(&pod_named("ns", "worker-1", &["app"])));
}

#[test]
fn allowed_ns_rejects_out_of_list() {
    let p = policy(Rules { namespaces: strings(&["a", "b"]), ..rules() });
    assert!(p.admit_pod(&pod_named("a", "p", &["app"])));
    assert!(!p.admit_pod(&pod_named("other", "p", &["app"])));
}

#[test]
fn exclude_pod_rejects_matching_names() {
    let p = policy(Rules { exclude_pod: strings(&["^debug-"]), ..rules() });
    assert!(!p.admit_pod(&pod_named("ns", "debug-1", &["app"])));
    assert!(p.admit_pod(&pod_named("ns", "app-1", &["app"])));
}

fn pod_with_condition(status: &str) -> Pod {
    let mut pod = pod_named("ns", "p", &["app"]);
    pod.conditions = Some(vec![PodCondition {
        condition_type: "Ready".to_string(),
        status: status.to_string(),
    }]);
    pod
}

#[test]
fn pod_condition_filters_ready_pods() {
    let filter = PodConditionFilter { condition_type: "ready".into(), status: "True".into() };
    let p = policy(Rules { pod_condition: Some(filter), ..rules() });
    assert!(p.admit_pod(&pod_with_condition("True")));
    assert!(!p.admit_pod(&pod_with_condition("False")));
}

#[test]
fn admit_streams_includes_matching_containers() {
    let pod = pod_named("ns", "p", &["app", "sidecar", "istio-proxy"]);
    let p = policy(Rules { container: "app|sidecar".to_string(), ..rules() });
    assert_eq!(containers_of(&p.admit_streams(&pod)), vec!["app", "sidecar"]);
}

#[test]
fn admit_streams_excludes_matching_containers() {
    let pod = pod_named("ns", "p", &["app", "sidecar", "istio-proxy"]);
    let p = policy(Rules { exclude_container: strings(&["istio-proxy"]), ..rules() });
    assert_eq!(containers_of(&p.admit_streams(&pod)), vec!["app", "sidecar"]);
}

#[test]
fn collect_snapshot_applies_pod_and_container_filters() {
    let allowed = pod_named("ns", "app-1", &["app", "istio-proxy"]);
    let excluded = pod_named("ns", "debug-1", &["app"]);
    let p = policy(Rules {
        pod_regex: pattern("app-.*"),
        container: "app".to_string(),
        ..rules()
    });
    let snap = p.collect_snapshot(&vec![allowed, excluded]);
    assert_eq!(snap.len(), 1);
    assert_eq!(snap.at(0).container, "app");
}

#[test]
fn single_namespace_skips_client_side_filter() {
    let p = policy(Rules { namespaces: strings(&["prod"]), ..rules() });
    assert!(p.admit_pod(&pod_named("prod", "p", &["app"])));
    assert!(p.admit_pod(&pod_named("other", "p", &["app"])));
}

#[test]
fn admit_pod_rejects_missing_namespace() {
    let mut pod = pod_named("ns", "p", &["app"]);
    pod.namespace = None;
    assert!(!policy(rules()).admit_pod(&pod));
}

#[test]
fn all_namespaces_skips_client_side_namespace_filter() {
    let p = policy(Rules { namespaces: strings(&["prod"]), all_namespaces: true, ..rules() });
    assert!(p.admit_pod(&pod_named("any-ns", "p", &["app"])));
}

#[test]
fn combined_namespace_pod_and_container_filters() {
    let p = policy(Rules {
        namespaces: strings(&["prod", "staging"]),
        pod_regex: pattern("^web-"),
        exclude_pod: strings(&["web-canary"]),
        container: "app".to_string(),
        exclude_container: strings(&["istio-proxy"]),
        ..rules()
    });
    let ok = pod_named("prod", "web-1", &["app", "istio-proxy"]);
    let bad_ns = pod_named("dev", "web-1", &["app"]);
    let bad_name = pod_named("prod", "web-canary", &["app"]);
    assert!(p.admit_pod(&ok));
    assert!(!p.admit_pod(&bad_ns));
    assert!(!p.admit_pod(&bad_name));
    let snap = p.collect_snapshot(&vec![ok]);
    assert_eq!(snap.len(), 1);
}

#[test]
fn patterns_that_do_not_compile_are_refused() {
    let bad = |exclude_pod: &[&str], container: &str, exclude_container: &[&str]| {
        WatchAdmissionPolicy::try_new(
            ContextName("ctx".into()),
            None,
            &strings(exclude_pod),
            &Vec::new(),
            true,
            container,
            &strings(exclude_container),
            None,
        )
        .err()
        .unwrap()
    };
    assert!(bad(&["ok", "(a"], "(b", &["(c"]).contains("(a"));
    assert!(bad(&["ok"], "(b", &["(c"]).contains("(b"));
    assert!(bad(&["ok"], "ok", &["(c"]).contains("(c"));
}

fn context() -> ContextName {
    ContextName("ctx".into())
}

fn test_pod() -> Pod {
    let mut labels = Labels::default();
    labels.insert("tier".into(), "api".into());
    Pod {
        name: Some("pod-a".into()),
        namespace: Some("ns".into()),
        uid: Some("uid-1".into()),
        labels: Some(labels),
        node_name: Some("worker-3".into()),
        conditions: None,
        containers: strings(&["app"]),
    }
}

fn stream(pod: &str, container: &str, uid: &str) -> SourceKey {
    SourceKey {
        context: context(),
        namespace: "ns".into(),
        pod: pod.into(),
        container: container.into(),
        uid: uid.into(),
    }
}

fn is_default(snapshot: &PodMetaSnapshot) -> bool {
    snapshot.node.is_none() && snapshot.labels.is_empty()
}

#[test]
fn lookup_returns_snapshot_after_update() {
    let mut cache = PodMetaCache::new();
    cache.update_from_pod(&context(), &test_pod());
    let snap = cache.lookup(&stream("pod-a", "app", "uid-1"));
    assert_eq!(snap.node.as_deref(), Some("worker-3"));
    assert_eq!(snap.labels.get("tier").map(String::as_str), Some("api"));
}

#[test]
fn lookup_defaults_when_pod_unknown() {
    let cache = PodMetaCache::new();
    let snap = cache.lookup(&stream("missing", "app", "uid-x"));
    assert!(snap.node.is_none());
    assert!(snap.labels.is_empty());
}

fn keep_only(pod: &Pod) -> KeySet<PodLocator> {
    KeySet::from_list(vec![PodLocator::try_from_pod(&context(), pod).expect("locator")])
}

#[test]
fn prune_drops_stale_locators() {
    let mut cache = PodMetaCache::new();
    cache.update_from_pod(&context(), &test_pod());
    let mut gone = pod_named("ns", "gone", &[]);
    gone.node_name = Some("worker-9".into());
    cache.update_from_pod(&context(), &gone);
    cache.prune(&keep_only(&test_pod()));
    assert!(!is_default(&cache.lookup(&stream("pod-a", "app", "uid-1"))));
    assert!(is_default(&cache.lookup(&stream("gone", "app", "uid-gone"))));
}

#[test]
fn prune_drops_stale_entries_across_shards() {
    let mut cache = PodMetaCache::new();
    for i in 0..32 {
        let mut pod = pod_uid(&format!("pod-{i}"), &format!("uid-{i}"), &[]);
        pod.node_name = Some("worker-9".into());
        cache.update_from_pod(&context(), &pod);
    }
    cache.update_from_pod(&context(), &test_pod());
    cache.prune(&keep_only(&test_pod()));
    for i in 0..32 {
        let key = stream(&format!("pod-{i}"), "app", &format!("uid-{i}"));
        assert!(is_default(&cache.lookup(&key)));
    }
    assert!(!is_default(&cache.lookup(&stream("pod-a", "app", "uid-1"))));
}

#[test]
fn remove_pod_drops_entry() {
    let mut cache = PodMetaCache::new();
    cache.update_from_pod(&context(), &test_pod());
    cache.remove_pod(&context(), &test_pod());
    assert!(is_default(&cache.lookup(&stream("pod-a", "app", "uid-1"))));
}

#[test]
fn update_from_pod_is_idempotent_for_unchanged_snapshot() {
    let mut cache = PodMetaCache::new();
    cache.update_from_pod(&context(), &test_pod());
    cache.update_from_pod(&context(), &test_pod());
    let snap = cache.lookup(&stream("pod-a", "app", "uid-1"));
    assert_eq!(snap.node.as_deref(), Some("worker-3"));
}

#[test]
fn update_from_pod_refreshes_when_labels_change() {
    let mut cache = PodMetaCache::new();
    let mut pod = test_pod();
    cache.update_from_pod(&context(), &pod);
    pod.labels.as_mut().expect("labels").insert("tier".into(), "worker".into());
    cache.update_from_pod(&context(), &pod);
    let snap = cache.lookup(&stream("pod-a", "app", "uid-1"));
    assert_eq!(snap.labels.get("tier").map(String::as_str), Some("worker"));
}

#[test]
fn attach_deps_uses_pod_meta_cache() {
    let p = policy(rules());
    let mut cache = PodMetaCache::new();
    cache.update_from_pod(p.context_name(), &test_pod());
    let snap = cache.lookup(&stream("pod-a", "app", "uid-1"));
    assert_eq!(snap.node.as_deref(), Some("worker-3"));
    cache.clear();
    assert!(is_default(&cache.lookup(&stream("pod-a", "app", "uid-1"))));
}

fn pod_uid(name: &str, uid: &str, containers: &[&str]) -> Pod {
    let mut pod = pod_named("ns", name, containers);
    pod.uid = Some(uid.to_string());
    pod
}

fn running(keys: Vec<SourceKey>) -> PodStreamRegistry {
    let mut reg = PodStreamRegistry::new();
    reg.reconcile_snapshot(&KeySet::from_list(keys));
    reg
}

#[test]
fn reconcile_pod_drops_removed_container_on_apply() {
    let c1 = || stream("pod-a", "c1", "uid-1");
    let c2 = || stream("pod-a", "c2", "uid-1");
    let mut reg = running(vec![c1(), c2()]);
    let pod = pod_uid("pod-a", "uid-1", &["c2"]);
    let desired = KeySet::from_list(policy(rules()).admit_streams(&pod));
    let diff = reg.reconcile_pod(&pod, &desired, &context());
    assert!(!reg.active_keys().contains(&c1()));
    assert!(reg.active_keys().contains(&c2()));
    assert_eq!(diff.to_drop, vec![c1()]);
    assert!(diff.to_add.is_empty());
}

#[test]
fn reconcile_pod_drops_old_uid_on_rolling_update() {
    let mut reg = running(vec![stream("pod-a", "c1", "uid-old")]);
    let pod = pod_uid("pod-a", "uid-new", &["c1"]);
    let desired = KeySet::from_list(policy(rules()).admit_streams(&pod));
    let diff = reg.reconcile_pod(&pod, &desired, &context());
    assert!(!reg.active_keys().contains(&stream("pod-a", "c1", "uid-old")));
    assert!(reg.active_keys().contains(&stream("pod-a", "c1", "uid-new")));
    assert_eq!(diff.to_drop, vec![stream("pod-a", "c1", "uid-old")]);
    assert_eq!(diff.to_add, vec![stream("pod-a", "c1", "uid-new")]);
    let again = reg.reconcile_pod(&pod, &desired, &context());
    assert!(again.to_add.is_empty() && again.to_drop.is_empty());
}

#[test]
fn removing_a_pod_goes_by_its_uid_if_it_has_one() {
    let all = || vec![stream("pod-a", "c", "u1"), stream("pod-a", "c", "u2"), stream("b", "c", "u1")];
    let mut reg = running(all());
    let diff = reg.remove_pod(&pod_uid("pod-a", "u1", &[]), &context());
    assert_eq!(diff.to_drop, vec![stream("pod-a", "c", "u1")]);
    let mut reg = running(all());
    let mut any = pod_uid("pod-a", "u1", &[]);
    any.uid = None;
    let diff = reg.remove_pod(&any, &context());
    assert_eq!(diff.to_drop.len(), 2);
    assert_eq!(reg.active_keys().len(), 1);
}

#[test]
fn on_init_snapshot_admits_and_prunes_meta() {
    let p = policy(rules());
    let mut cache = PodMetaCache::new();
    let mut lifecycle = PodLifecycle::new();
    let mut idle = pod_uid("idle", "uid-idle", &[]);
    idle.node_name = Some("worker-9".into());
    let pods = vec![pod_uid("pod-a", "uid-a", &["app"]), idle];
    lifecycle.on_init_snapshot(&pods, &p, &mut cache);
    assert_eq!(lifecycle.active_keys().len(), 1);
    assert!(lifecycle.active_keys().contains(&stream("pod-a", "app", "uid-a")));
    assert!(is_default(&cache.lookup(&stream("idle", "app", "uid-idle"))));
}

#[test]
fn on_apply_adds_streams_for_admitted_pod() {
    let p = policy(rules());
    let mut cache = PodMetaCache::new();
    let mut lifecycle = PodLifecycle::new();
    let diff = lifecycle.on_apply(&pod_uid("pod-a", "uid-a", &["app"]), &p, &mut cache);
    assert!(lifecycle.active_keys().contains(&stream("pod-a", "app", "uid-a")));
    assert_eq!(diff.to_add, vec![stream("pod-a", "app", "uid-a")]);
}

#[test]
fn on_apply_drops_streams_when_pod_no_longer_admitted() {
    let p = policy(Rules { pod_regex: pattern("^pod-"), ..rules() });
    let mut cache = PodMetaCache::new();
    let mut lifecycle = PodLifecycle::new();
    lifecycle.on_apply(&pod_uid("pod-a", "uid-a", &["app"]), &p, &mut cache);
    let stale = pod_uid("pod-a", "uid-a", &[]);
    let diff = lifecycle.on_apply(&stale, &p, &mut cache);
    assert!(lifecycle.active_keys().is_empty());
    assert_eq!(diff.to_drop, vec![stream("pod-a", "app", "uid-a")]);

    lifecycle.on_apply(&pod_uid("pod-a", "uid-a", &["app"]), &p, &mut cache);
    let mut unnamed = pod_uid("pod-a", "uid-a", &["app"]);
    unnamed.namespace = None;
    let diff = lifecycle.on_apply(&unnamed, &p, &mut cache);
    assert!(diff.to_drop.is_empty() && !lifecycle.active_keys().is_empty());
}

#[test]
fn on_delete_removes_streams_and_meta() {
    let p = policy(rules());
    let mut cache = PodMetaCache::new();
    let mut lifecycle = PodLifecycle::new();
    let mut pod = pod_uid("pod-a", "uid-a", &["app"]);
    pod.node_name = Some("worker-1".into());
    lifecycle.on_apply(&pod, &p, &mut cache);
    assert!(!is_default(&cache.lookup(&stream("pod-a", "app", "uid-a"))));
    let diff = lifecycle.on_delete(&pod, &p, &mut cache);
    assert!(lifecycle.active_keys().is_empty());
    assert_eq!(diff.to_drop, vec![stream("pod-a", "app", "uid-a")]);
    assert!(is_default(&cache.lookup(&stream("pod-a", "app", "uid-a"))));
}

#[test]
fn init_sequence_matches_snapshot_path() {
    let p = policy(rules());
    let mut cache = PodMetaCache::new();
    let mut lifecycle = PodLifecycle::new();
    lifecycle.on_init_begin(&mut cache);
    lifecycle.on_init_apply(pod_uid("pod-a", "uid-a", &["app"]), &p, &mut cache);
    lifecycle.on_init_apply(pod_uid("pod-b", "uid-b", &["app"]), &p, &mut cache);
    lifecycle.on_init_done(&p, &mut cache);
    assert_eq!(lifecycle.active_keys().len(), 2);

    let mut at_once = PodLifecycle::new();
    let mut other_cache = PodMetaCache::new();
    let pods = vec![
        pod_uid("pod-a", "uid-a", &["app"]),
        pod_uid("pod-b", "uid-b", &["app"]),
    ];
    at_once.on_init_snapshot(&pods, &p, &mut other_cache);
    assert_eq!(at_once.active_keys().len(), 2);
}

fn play(events: Vec<WatchEvent>) -> (usize, usize, PodMetaCache) {
    let p = policy(rules());
    let mut cache = PodMetaCache::new();
    let mut lifecycle = PodLifecycle::new();
    let mut adds = 0;
    let mut removes = 0;
    for event in events {
        let diff = lifecycle.on_event(event, &p, &mut cache);
        adds += diff.to_add.len();
        removes += diff.to_drop.len();
    }
    (adds, removes, cache)
}

#[test]
fn init_events_reconcile_snapshot() {
    let (adds, removes, _) = play(vec![
        WatchEvent::Init,
        WatchEvent::InitApply(pod_uid("pod-a", "uid-a", &["app"])),
        WatchEvent::InitApply(pod_uid("pod-b", "uid-b", &["app"])),
        WatchEvent::InitDone,
    ]);
    assert_eq!((adds, removes), (2, 0));
}

#[test]
fn apply_event_attaches_admitted_pod() {
    let (adds, _, _) = play(vec![WatchEvent::Apply(pod_uid("pod-a", "uid-a", &["app"]))]);
    assert_eq!(adds, 1);
}

#[test]
fn delete_event_drops_streams() {
    let (_, removes, cache) = play(vec![
        WatchEvent::Apply(pod_uid("pod-a", "uid-a", &["app"])),
        WatchEvent::Delete(pod_uid("pod-a", "uid-a", &["app"])),
    ]);
    assert_eq!(removes, 1);
    assert!(is_default(&cache.lookup(&stream("pod-a", "app", "uid-a"))));
}

#[test]
fn init_done_prunes_stale_pod_meta() {
    let mut idle = pod_uid("idle", "uid-idle", &[]);
    idle.node_name = Some("worker-9".into());
    let (adds, _, cache) = play(vec![
        WatchEvent::Init,
        WatchEvent::InitApply(pod_uid("pod-a", "uid-a", &["app"])),
        WatchEvent::InitApply(idle),
        WatchEvent::InitDone,
    ]);
    assert_eq!(adds, 1);
    assert!(is_default(&cache.lookup(&stream("idle", "app", "uid-idle"))));
}

#[test]
fn only_running_containers_have_a_log_to_read() {
    let status = |name: &str, running: bool| ContainerStatus { name: name.to_string(), running };
    let statuses = vec![status("b", true), status("init", false), status("a", true)];
    assert_eq!(running_containers(&statuses), vec!["b", "a"]);
    assert!(running_containers(&Vec::new()).is_empty());
}
