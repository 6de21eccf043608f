//! Label selectors of workloads, and exec credential plugins with their cache.

use rustern_core::discovery::context::{Cluster, ExecConfig, ExecEnvEntry, ExecInteractiveMode};
use rustern_core::discovery::exec_resolver::{
    cache_file_name, cache_key, credential_to_cache, exec_invocation, read_cached_status,
    resolve_exec_token, run_exec_plugin, status_still_valid, status_valid_at, ExecCredential,
    ExecCredentialStatus,
};
use rustern_core::discovery::resource::ResourceKind;
use rustern_core::discovery::workload_selector::{
    btree_to_label_selector, label_selector_from_meta, resolve_label_selector_for_kind_query,
    resolve_label_selector_for_namespaces, unify_label_selectors, workload_label_selector,
    LabelSelector, LabelSelectorRequirement, Workload, WorkloadSpec,
};
use rustern_core::ordered_map::OrderedMap;
use rustern_core::source::{EventTime, Labels};

fn labels(pairs: &[(&str, &str)]) -> Labels {
    let mut all = Labels::default();
    for (name, value) in pairs {
        all.insert(name.to_string(), value.to_string());
    }
    all
}

fn requirement(key: &str, operator: &str, values: Option<&[&str]>) -> LabelSelectorRequirement {
    LabelSelectorRequirement {
        key: key.to_string(),
        operator: operator.to_string(),
        values: values.map(|v| v.iter().map(|s| s.to_string()).collect()),
    }
}

#[test]
fn unify_same_selectors_across_namespaces() {
    assert_eq!(
        unify_label_selectors(
            &["app=api,tier=web".into(), "app=api,tier=web".into()],
            ResourceKind::Deployment,
            "api"
        ),
        "app=api,tier=web"
    );
}

#[test]
fn unify_differing_selectors_falls_back_to_app() {
    assert_eq!(
        unify_label_selectors(
            &["app=api".into(), "app=api,tier=web".into()],
            ResourceKind::Deployment,
            "api"
        ),
        "app=api"
    );
}

#[test]
fn btree_join_sorted() {
    assert_eq!(btree_to_label_selector(&labels(&[("z", "1"), ("a", "2")])), "a=2,z=1");
}

#[test]
fn match_labels_and_expressions_anded() {
    let ls = LabelSelector {
        match_expressions: Some(vec![requirement("role", "In", Some(&["x"]))]),
        match_labels: Some(labels(&[("tier", "web")])),
    };
    assert_eq!(label_selector_from_meta(&ls, None, "api"), "role in (x),tier=web");
}

#[test]
fn match_expression_operators() {
    let ls = LabelSelector {
        match_expressions: Some(vec![
            requirement("env", "NotIn", Some(&["dev", "qa"])),
            requirement("sidecar", "Exists", None),
            requirement("legacy", "DoesNotExist", None),
        ]),
        match_labels: None,
    };
    assert_eq!(
        label_selector_from_meta(&ls, None, "api"),
        "!legacy,env notin (dev,qa),sidecar"
    );
}

#[test]
fn template_labels_when_selector_maps_empty() {
    let template = labels(&[("app.kubernetes.io/name", "payments")]);
    let ls = LabelSelector { match_expressions: None, match_labels: None };
    assert_eq!(
        label_selector_from_meta(&ls, Some(&template), "api"),
        "app.kubernetes.io/name=payments"
    );
}

#[test]
fn expressions_only_ignores_template_labels() {
    let template = labels(&[("app", "shop")]);
    let ls = LabelSelector {
        match_expressions: Some(vec![requirement("tier", "In", Some(&["prod"]))]),
        match_labels: None,
    };
    assert_eq!(label_selector_from_meta(&ls, Some(&template), "api"), "tier in (prod)");
}

#[test]
fn selector_of_a_fetched_workload() {
    let workload = Workload::Deployment(Some(WorkloadSpec {
        selector: LabelSelector {
            match_labels: Some(labels(&[("app", "api"), ("tier", "web")])),
            match_expressions: None,
        },
        template_labels: None,
    }));
    assert_eq!(workload_label_selector(&workload, "api"), "app=api,tier=web");
    let by_kind = resolve_label_selector_for_kind_query(
        ResourceKind::Deployment,
        "api",
        Some("ns"),
        Ok(workload),
    );
    assert_eq!(by_kind.unwrap(), "app=api,tier=web");
    let failed = resolve_label_selector_for_kind_query(
        ResourceKind::Deployment,
        "api",
        Some("ns"),
        Err("forbidden".to_string()),
    );
    assert_eq!(failed.unwrap_err(), "forbidden");
}

#[test]
fn selectors_of_several_namespaces_are_unified() {
    let namespaces = ["a".to_string(), "b".to_string()];
    let replies = vec![Ok("app=api".to_string()), Ok("app=api,tier=web".to_string())];
    let selector = resolve_label_selector_for_namespaces(
        ResourceKind::Deployment,
        "api",
        &namespaces,
        false,
        replies,
    );
    assert_eq!(selector.unwrap(), "app=api");
}

fn plugin(args: Option<&[&str]>) -> ExecConfig {
    let mut entry: OrderedMap<String, String> = OrderedMap::new();
    entry.insert("name".to_string(), "PLUGIN_ENV".to_string());
    entry.insert("value".to_string(), "plugin-value".to_string());
    ExecConfig {
        api_version: Some("client.authentication.k8s.io/v1".into()),
        command: Some("/bin/fake-exec.sh".into()),
        args: args.map(|a| a.iter().map(|s| s.to_string()).collect()),
        env: Some(vec![ExecEnvEntry(entry)]),
        drop_env: None,
        interactive_mode: None,
        provide_cluster_info: false,
    }
}

fn answer(token: Option<&str>, expiry: Option<&str>, certificate: Option<&str>) -> ExecCredential {
    ExecCredential {
        api_version: Some("client.authentication.k8s.io/v1".into()),
        kind: Some("ExecCredential".into()),
        details: None,
        status: Some(ExecCredentialStatus {
            token: token.map(|t| t.to_string()),
            expiration_timestamp: expiry.map(|e| e.to_string()),
            client_certificate_data: certificate.map(|c| c.to_string()),
            client_key_data: None,
        }),
    }
}

fn now() -> EventTime {
    EventTime { secs: 1_700_000_000, nanos: 0 }
}

#[test]
fn resolve_exec_token_returns_token_on_success() {
    let token = resolve_exec_token(true, Some(answer(Some("tok-ok"), None, None)));
    assert_eq!(token.as_deref(), Some("tok-ok"));
}

#[test]
fn resolve_exec_token_returns_none_on_failure() {
    assert!(resolve_exec_token(false, None).is_none());
    assert!(resolve_exec_token(false, Some(answer(Some("tok"), None, None))).is_none());
}

#[test]
fn cert_only_response_returns_none() {
    assert!(resolve_exec_token(true, Some(answer(None, None, Some("Y2VydA==")))).is_none());
}

#[test]
fn provide_cluster_info_without_cluster_returns_none() {
    let mut exec = plugin(None);
    exec.provide_cluster_info = true;
    assert!(exec_invocation(&exec, None).is_none());
}

#[test]
fn exec_info_env_is_always_set() {
    let mut exec = plugin(None);
    exec.interactive_mode = Some(ExecInteractiveMode::Never);
    let run = exec_invocation(&exec, None).unwrap();
    assert_eq!(run.info.kind.as_deref(), Some("ExecCredential"));
    assert_eq!(run.info.details.unwrap().interactive, Some(false));
    assert!(!run.interactive);
    assert_eq!(run.env, vec![("PLUGIN_ENV".to_string(), "plugin-value".to_string())]);
    let token = resolve_exec_token(
        true,
        Some(answer(Some("tok-env"), Some("2099-01-01T00:00:00Z"), None)),
    );
    assert_eq!(token.as_deref(), Some("tok-env"));
}

#[test]
fn provide_cluster_info_includes_cluster_in_exec_info() {
    let mut exec = plugin(None);
    exec.provide_cluster_info = true;
    let cluster = Cluster {
        server: Some("https://cluster.example".into()),
        certificate_authority_data: Some("Y2E=".into()),
        insecure_skip_tls_verify: None,
    };
    let run = exec_invocation(&exec, Some(&cluster)).unwrap();
    let told = run.info.details.unwrap().cluster.unwrap();
    assert_eq!(told.server.as_deref(), Some("https://cluster.example"));
    assert_eq!(told.certificate_authority_data.as_deref(), Some("Y2E="));
}

#[test]
fn cache_hit_avoids_second_exec_call() {
    let exec = plugin(Some(&["--count"]));
    let status = run_exec_plugin(
        true,
        Some(answer(Some("tok-1"), Some("2099-01-01T00:00:00Z"), None)),
    )
    .unwrap();
    let cached = credential_to_cache(&exec, status);
    let read = read_cached_status(Some(cached), now()).unwrap();
    assert_eq!(read.token.as_deref(), Some("tok-1"));
}

#[test]
fn expired_cache_triggers_reexec() {
    let stale = answer(Some("stale"), Some("2000-01-01T00:00:00Z"), None);
    assert!(!status_valid_at(stale.status.as_ref().unwrap(), now()));
    assert!(read_cached_status(Some(stale), now()).is_none());
}

#[test]
fn different_args_use_separate_cache_entries() {
    let server = "https://cluster.example";
    let a = plugin(Some(&["--count"]));
    let b = plugin(Some(&["--other"]));
    assert_ne!(cache_key(server, &a), cache_key(server, &b));
    assert_eq!(cache_key(server, &a), cache_key(server, &plugin(Some(&["--count"]))));
    assert_ne!(cache_key(server, &a), cache_key("https://other.example", &a));
}

#[test]
fn cert_only_response_is_not_cached() {
    let answered = answer(None, None, Some("Y2VydA=="));
    assert!(resolve_exec_token(true, Some(answered)).is_none());
    let kept = answer(None, Some("2099-01-01T00:00:00Z"), Some("Y2VydA=="));
    assert!(read_cached_status(Some(kept), now()).is_none());
}

#[test]
fn cache_files_are_named_in_hexadecimal() {
    assert_eq!(cache_file_name(0), "0000000000000000");
    assert_eq!(cache_file_name(0xdead_beef), "00000000deadbeef");
    assert_eq!(cache_file_name(u64::MAX), "ffffffffffffffff");
}

#[test]
fn expiry_is_measured_by_the_clock() {
    let status = |expiry: Option<&str>| ExecCredentialStatus {
        token: Some("t".to_string()),
        expiration_timestamp: expiry.map(|e| e.to_string()),
        client_certificate_data: None,
        client_key_data: None,
    };
    assert!(status_still_valid(&status(Some("9999-01-01T00:00:00Z"))));
    assert!(!status_still_valid(&status(Some("2001-01-01T00:00:00Z"))));
    assert!(!status_still_valid(&status(Some("tomorrow"))));
    assert!(!status_still_valid(&status(None)));
}
