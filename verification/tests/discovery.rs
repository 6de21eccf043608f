//! Contexts, conditions, queries, selectors and reconciliation.

use rustern_core::discovery::context::{
    apply_exec_token_to_kubeconfig, default_namespace, kubeconfig_path, pick_context_name, AuthInfo,
    Cluster, Context, ContextError, ContextSelector, ExecConfig, Kubeconfig, NamedAuthInfo,
    NamedCluster, NamedContext,
};
use rustern_core::discovery::pod::{keys_from_pod, Pod};
use rustern_core::discovery::pod_condition::{
    parse_pod_condition, pod_matches_condition, ParsePodConditionError, PodCondition,
};
use rustern_core::discovery::pod_list::{
    combined_field_selector, merged_field_selector_for_pod_name, PodListError, PodWatchPlan,
    PodWatchPlanConfig,
};
use rustern_core::discovery::resource::{
    label_selector_for, parse_query, Query, QueryParseError, ResourceKind,
};
use rustern_core::discovery::{reconcile, ReconcileDiff};
use rustern_core::key_set::KeySet;
use rustern_core::source::{ContextName, SourceKey};

fn context(name: &str, cluster: &str, user: &str, namespace: Option<&str>) -> NamedContext {
    NamedContext {
        name: name.to_string(),
        context: Some(Context {
            cluster: cluster.to_string(),
            user: Some(user.to_string()),
            namespace: namespace.map(|n| n.to_string()),
        }),
    }
}

fn cluster(name: &str, server: &str) -> NamedCluster {
    NamedCluster {
        name: name.to_string(),
        cluster: Some(Cluster {
            server: Some(server.to_string()),
            certificate_authority_data: None,
            insecure_skip_tls_verify: None,
        }),
    }
}

fn user(name: &str) -> NamedAuthInfo {
    NamedAuthInfo {
        name: name.to_string(),
        auth_info: Some(AuthInfo { token: None, plugin: None }),
    }
}

fn sample() -> Kubeconfig {
    Kubeconfig {
        current_context: Some("default".to_string()),
        contexts: vec![
            context("default", "local", "dev", None),
            context("prod", "prod", "prod", None),
        ],
        clusters: vec![
            cluster("local", "https://localhost"),
            cluster("prod", "https://prod.example.com"),
        ],
        auth_infos: vec![user("dev"), user("prod")],
    }
}

fn selector(path: Option<&str>, name: Option<&str>) -> ContextSelector {
    ContextSelector {
        kubeconfig_path: path.map(|p| p.to_string()),
        context_name: name.map(|n| n.to_string()),
    }
}

#[test]
fn resolves_explicit_path() {
    let sel = selector(Some("/tmp/kubeconfig"), None);
    assert_eq!(kubeconfig_path(&sel, None, None).unwrap(), "/tmp/kubeconfig");
    assert_eq!(pick_context_name(&sample(), &sel).unwrap(), "default");
}

#[test]
fn path_comes_from_variable_then_from_home() {
    let sel = ContextSelector::default();
    assert_eq!(kubeconfig_path(&sel, Some("/a:/b"), Some("/home/u")).unwrap(), "/a");
    assert_eq!(kubeconfig_path(&sel, None, Some("/home/u")).unwrap(), "/home/u/.kube/config");
    let err = kubeconfig_path(&sel, Some(""), None).unwrap_err();
    assert_eq!(err.message(), "kubeconfig parse error: empty KUBECONFIG");
}

#[test]
fn picks_explicit_context() {
    let cfg = sample();
    let sel = selector(None, Some("prod"));
    assert_eq!(pick_context_name(&cfg, &sel).unwrap(), "prod");
}

#[test]
fn errors_on_missing_context() {
    let cfg = sample();
    let sel = selector(None, Some("ghost"));
    let err = pick_context_name(&cfg, &sel).unwrap_err();
    assert!(matches!(err, ContextError::ContextNotFound(_)));
    assert_eq!(err.message(), "context 'ghost' not found in kubeconfig");
}

#[test]
fn default_namespace_uses_context_namespace_when_set() {
    let cfg = Kubeconfig {
        current_context: Some("staging".to_string()),
        contexts: vec![context("staging", "local", "dev", Some("team-a"))],
        clusters: vec![cluster("local", "https://localhost")],
        auth_infos: vec![user("dev")],
    };
    let sel = selector(Some("/tmp/kubeconfig"), None);
    assert_eq!(default_namespace(&cfg, &sel).unwrap(), "team-a");
}

#[test]
fn default_namespace_falls_back_to_default_when_unset() {
    let cfg = sample();
    let sel = selector(Some("/tmp/kubeconfig"), None);
    assert_eq!(default_namespace(&cfg, &sel).unwrap(), "default");
}

#[test]
fn default_namespace_honors_explicit_context_flag() {
    let cfg = Kubeconfig {
        current_context: Some("default".to_string()),
        contexts: vec![
            context("default", "local", "dev", Some("wrong")),
            context("prod", "prod", "prod", Some("production")),
        ],
        clusters: vec![
            cluster("local", "https://localhost"),
            cluster("prod", "https://prod.example.com"),
        ],
        auth_infos: vec![user("dev"), user("prod")],
    };
    let sel = selector(Some("/tmp/kubeconfig"), Some("prod"));
    assert_eq!(default_namespace(&cfg, &sel).unwrap(), "production");
}

#[test]
fn token_takes_the_place_of_the_plugin() {
    let mut cfg = sample();
    cfg.auth_infos[0].auth_info = Some(AuthInfo {
        token: None,
        plugin: Some(ExecConfig {
            api_version: None,
            command: Some("plugin".to_string()),
            args: None,
            env: None,
            drop_env: None,
            interactive_mode: None,
            provide_cluster_info: false,
        }),
    });
    apply_exec_token_to_kubeconfig(&mut cfg, "default", Some("tok".to_string()));
    let info = cfg.auth_infos[0].auth_info.as_ref().unwrap();
    assert_eq!(info.token.as_deref(), Some("tok"));
    assert!(info.plugin.is_none());
}

fn pod_with_conditions(conditions: Option<Vec<PodCondition>>) -> Pod {
    Pod {
        name: Some("p".to_string()),
        namespace: None,
        uid: None,
        labels: None,
        node_name: None,
        conditions,
        containers: Vec::new(),
    }
}

fn condition(name: &str, status: &str) -> PodCondition {
    PodCondition { condition_type: name.to_string(), status: status.to_string() }
}

#[test]
fn parse_name_defaults_true() {
    let f = parse_pod_condition("Ready").unwrap();
    assert_eq!(f.condition_type, "ready");
    assert_eq!(f.status, "True");
}

#[test]
fn parse_name_equals_value() {
    let f = parse_pod_condition("ready=false").unwrap();
    assert_eq!(f.status, "False");
}

#[test]
fn condition_errors_name_the_value() {
    assert_eq!(parse_pod_condition("  "), Err(ParsePodConditionError::Empty));
    let err = parse_pod_condition("ready=maybe").unwrap_err();
    assert_eq!(err.message(), "invalid condition value `maybe` (use true, false, or unknown)");
    assert_eq!(ParsePodConditionError::Empty.message(), "empty --condition");
}

#[test]
fn matches_ready_true() {
    let pod = pod_with_conditions(Some(vec![condition("Ready", "True")]));
    let f = parse_pod_condition("ready").unwrap();
    assert!(pod_matches_condition(&pod, &f));
}

#[test]
fn ready_false_without_condition_matches_job_like_pod() {
    let pod = pod_with_conditions(None);
    let f = parse_pod_condition("ready=false").unwrap();
    assert!(pod_matches_condition(&pod, &f));
}

#[test]
fn ready_true_without_condition_does_not_match() {
    let pod = pod_with_conditions(None);
    let f = parse_pod_condition("ready=true").unwrap();
    assert!(!pod_matches_condition(&pod, &f));
}

fn plan_cfg<'a>(
    query: &'a str,
    field_selector: Option<&'a str>,
    node: Option<&'a str>,
    namespaces: &'a [String],
) -> PodWatchPlanConfig<'a> {
    PodWatchPlanConfig {
        query,
        selector: None,
        field_selector,
        node,
        namespaces,
        all_namespaces: false,
    }
}

#[test]
fn combined_field_selector_merges_node_and_field() {
    let ns = ["default".to_string()];
    let c = plan_cfg(".*", Some("status.phase=Running"), Some("node-1"), &ns);
    assert_eq!(
        combined_field_selector(&c).as_deref(),
        Some("status.phase=Running,spec.nodeName=node-1")
    );
}

#[test]
fn merged_field_selector_for_pod_name_includes_metadata_name() {
    let ns = ["default".to_string()];
    let c = plan_cfg("pod/foo", Some("status.phase=Running"), None, &ns);
    assert_eq!(
        merged_field_selector_for_pod_name("foo", &c),
        "metadata.name=foo,status.phase=Running"
    );
}

#[test]
fn plan_for_pattern_keeps_the_pattern() {
    let ns = ["default".to_string()];
    let c = plan_cfg("api-.*", None, None, &ns);
    let plan = PodWatchPlan::build(&c, Vec::new()).unwrap();
    assert_eq!(plan.pod_regex.unwrap().as_str(), "api-.*");
    assert!(plan.list_params.label_selector.is_none());
}

#[test]
fn plan_for_workload_uses_its_selector() {
    let ns = ["default".to_string()];
    let c = plan_cfg("deploy/api", None, None, &ns);
    let plan = PodWatchPlan::build(&c, vec![Ok("app=api,tier=web".to_string())]).unwrap();
    assert_eq!(plan.list_params.label_selector.as_deref(), Some("app=api,tier=web"));
    assert_eq!(plan.watch_cfg.label_selector.as_deref(), Some("app=api,tier=web"));
    assert!(plan.pod_regex.is_none());
}

#[test]
fn plan_rejects_unknown_kind() {
    let ns = ["default".to_string()];
    let c = plan_cfg("foo/bar", None, None, &ns);
    assert!(matches!(
        PodWatchPlan::build(&c, Vec::new()),
        Err(PodListError::Query(QueryParseError::UnknownKind(_)))
    ));
}

fn key(pod: &str) -> SourceKey {
    SourceKey {
        context: ContextName("ctx".into()),
        namespace: "ns".into(),
        pod: pod.into(),
        container: "c".into(),
        uid: format!("uid-{pod}"),
    }
}

fn set(keys: Vec<SourceKey>) -> KeySet<SourceKey> {
    KeySet::from_list(keys)
}

#[test]
fn diff_adds_new_keys() {
    let active = set(vec![key("p1")]);
    let snapshot = set(vec![key("p1"), key("p2")]);
    let diff = reconcile(&active, &snapshot);
    assert_eq!(diff.to_add, vec![key("p2")]);
    assert!(diff.to_drop.is_empty());
}

#[test]
fn diff_drops_orphans() {
    let active = set(vec![key("p1"), key("p2")]);
    let snapshot = set(vec![key("p2")]);
    let diff = reconcile(&active, &snapshot);
    assert!(diff.to_add.is_empty());
    assert_eq!(diff.to_drop, vec![key("p1")]);
}

#[test]
fn diff_empty_when_equal() {
    let active = set(vec![key("p1")]);
    let snapshot = set(vec![key("p1")]);
    let diff = reconcile(&active, &snapshot);
    assert!(diff.to_add.is_empty());
    assert!(diff.to_drop.is_empty());
}

#[test]
fn diff_returns_keys_in_stable_order() {
    let active = set(vec![key("p3"), key("p1")]);
    let snapshot = set(vec![key("p2")]);
    let diff: ReconcileDiff = reconcile(&active, &snapshot);
    assert_eq!(diff.to_add, vec![key("p2")]);
    assert_eq!(diff.to_drop, vec![key("p1"), key("p3")]);
}

#[test]
fn keys_need_name_and_uid() {
    let mut pod = pod_with_conditions(None);
    pod.containers = vec!["a".to_string(), "b".to_string()];
    let ctx = ContextName("ctx".into());
    assert!(keys_from_pod(&pod, &ctx).is_empty());
    pod.uid = Some("u".to_string());
    let keys = keys_from_pod(&pod, &ctx);
    assert_eq!(keys.len(), 2);
    assert_eq!(keys[0].namespace, "");
    assert_eq!(keys[1].container, "b");
    assert_eq!(keys[1].uid, "u");
}

#[test]
fn regex_query() {
    assert_eq!(parse_query("auth-.*").unwrap(), Query::PodNameRegex("auth-.*".into()));
}

#[test]
fn deployment_short() {
    assert_eq!(
        parse_query("deploy/api").unwrap(),
        Query::LabelSelector { kind: ResourceKind::Deployment, name: "api".into() }
    );
}

#[test]
fn stern_supported_kind_aliases_parse() {
    for (q, kind, name) in [
        ("pod/p", ResourceKind::Pod, "p"),
        ("po/p", ResourceKind::Pod, "p"),
        ("deploy/api", ResourceKind::Deployment, "api"),
        ("deployment/api", ResourceKind::Deployment, "api"),
        ("rs/api", ResourceKind::ReplicaSet, "api"),
        ("replicaset/api", ResourceKind::ReplicaSet, "api"),
        ("ds/api", ResourceKind::DaemonSet, "api"),
        ("daemonset/api", ResourceKind::DaemonSet, "api"),
        ("sts/api", ResourceKind::StatefulSet, "api"),
        ("statefulset/api", ResourceKind::StatefulSet, "api"),
        ("svc/api", ResourceKind::Service, "api"),
        ("service/api", ResourceKind::Service, "api"),
        ("rc/api", ResourceKind::ReplicationController, "api"),
        ("replicationcontroller/api", ResourceKind::ReplicationController, "api"),
        ("job/batch", ResourceKind::Job, "batch"),
    ] {
        assert_eq!(
            parse_query(q).unwrap(),
            Query::LabelSelector { kind, name: name.into() },
            "expected exact kind/name parse for {q}"
        );
    }
}

#[test]
fn rejects_unknown_kind() {
    let err = parse_query("foo/bar").unwrap_err();
    assert!(matches!(err, QueryParseError::UnknownKind(_)));
}

#[test]
fn rejects_invalid_regex() {
    assert!(matches!(
        parse_query("(unclosed").unwrap_err(),
        QueryParseError::UserRegex(_)
    ));
}

#[test]
fn fallback_deployment_maps_to_app_label() {
    assert_eq!(label_selector_for(ResourceKind::Deployment, "api"), "app=api");
}
