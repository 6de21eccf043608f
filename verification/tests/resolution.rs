//! Query and namespace resolution.

use rustern_core::discovery::context::{
    AuthInfo, Cluster, Context, ContextError, ContextSelector, Kubeconfig, NamedAuthInfo,
    NamedCluster, NamedContext,
};
use rustern_core::discovery::run_resolution::{
    needs_kubeconfig, resolve_run_input, resolve_run_namespaces, resolve_run_query,
    RunResolutionError, RunResolutionInput,
};
use rustern_core::discovery::watch_scope;
use rustern_core::discovery::watch_scope::{
    resolve_namespaces, resolve_pod_query, resolve_watch_scope, WatchScopeError, WatchScopeInput,
    WatchScopeResolved,
};

fn input<'a>(
    query: Option<&'a str>,
    selector: Option<&'a str>,
    field_selector: Option<&'a str>,
    all_namespaces: bool,
    namespace_flags: &'a [String],
) -> RunResolutionInput<'a> {
    RunResolutionInput {
        query,
        selector,
        field_selector,
        node: None,
        all_namespaces,
        namespace_flags,
    }
}

fn scope_input<'a>(
    query: Option<&'a str>,
    selector: Option<&'a str>,
    field_selector: Option<&'a str>,
    all_namespaces: bool,
    namespace_flags: &'a [String],
) -> WatchScopeInput<'a> {
    WatchScopeInput { query, selector, field_selector, all_namespaces, namespace_flags }
}

fn kubeconfig(namespace: &str) -> Result<Kubeconfig, ContextError> {
    Ok(Kubeconfig {
        current_context: Some("ctx".to_string()),
        contexts: vec![NamedContext {
            name: "ctx".to_string(),
            context: Some(Context {
                cluster: "c".to_string(),
                user: Some("u".to_string()),
                namespace: Some(namespace.to_string()),
            }),
        }],
        clusters: vec![NamedCluster {
            name: "c".to_string(),
            cluster: Some(Cluster {
                server: Some("https://localhost".to_string()),
                certificate_authority_data: None,
                insecure_skip_tls_verify: None,
            }),
        }],
        auth_infos: vec![NamedAuthInfo {
            name: "u".to_string(),
            auth_info: Some(AuthInfo { token: None, plugin: None }),
        }],
    })
}

fn unread() -> Result<Kubeconfig, ContextError> {
    Err(ContextError::Io("No such file or directory".to_string()))
}

#[test]
fn pod_query_resolution_cases() {
    let empty_ns: [String; 0] = [];
    let cases: [(Option<&str>, Option<&str>, Option<&str>, Option<&str>); 6] = [
        (Some("myapp.*"), None, None, Some("myapp.*")),
        (None, Some("app=foo"), None, Some(".*")),
        (None, None, Some("metadata.name=foo"), Some(".*")),
        (Some("."), Some("app=foo"), None, Some(".")),
        (Some("."), None, Some("metadata.name=foo"), Some(".*")),
        (None, None, None, None),
    ];
    for (query, selector, field_selector, expect) in cases {
        let i = input(query, selector, field_selector, false, &empty_ns);
        match expect {
            Some(want) => assert_eq!(resolve_run_query(&i).unwrap(), want),
            None => assert!(matches!(
                resolve_run_query(&i),
                Err(RunResolutionError::QueryRequired)
            )),
        }
    }
}

#[test]
fn namespace_resolution_cases() {
    let empty_ns: [String; 0] = [];
    let ctx = ContextSelector::default();

    let i = input(Some("q"), None, None, true, &empty_ns);
    assert!(resolve_run_namespaces(&i, &ctx, unread()).unwrap().is_empty());

    let flags = vec!["a,b".to_string(), "a".to_string()];
    let i = input(Some("q"), None, None, false, &flags);
    assert_eq!(resolve_run_namespaces(&i, &ctx, unread()).unwrap(), vec!["a", "b"]);

    let i = input(Some("q"), None, None, false, &empty_ns);
    assert_eq!(resolve_run_namespaces(&i, &ctx, kubeconfig("team-ns")).unwrap(), vec!["team-ns"]);

    let i = input(Some("q"), None, None, false, &empty_ns);
    let ctx = ContextSelector {
        kubeconfig_path: Some("/nonexistent/rustern-kubeconfig-test".into()),
        context_name: None,
    };
    assert!(needs_kubeconfig(&i));
    assert!(resolve_run_namespaces(&i, &ctx, unread()).is_err());
}

#[test]
fn explicit_empty_namespace_flags_return_invalid_namespace_flags() {
    let ctx = ContextSelector::default();
    for flags in [
        vec!["".to_string()],
        vec![",".to_string()],
        vec!["  ".to_string()],
        vec!["".to_string(), "  ".to_string()],
    ] {
        let i = input(Some("q"), None, None, false, &flags);
        assert!(matches!(
            resolve_run_namespaces(&i, &ctx, kubeconfig("team-ns")),
            Err(RunResolutionError::InvalidNamespaceFlags)
        ));
    }
}

#[test]
fn resolve_run_input_combines_query_and_namespaces() {
    let flags = vec!["ns1".to_string()];
    let i = input(Some("deploy/.*"), None, None, false, &flags);
    let ctx = ContextSelector::default();
    let resolved = resolve_run_input(&i, &ctx, unread()).unwrap();
    assert_eq!(resolved.resolved_query(), "deploy/.*");
    assert_eq!(resolved.resolved_namespaces(), &["ns1".to_string()]);
    assert!(!resolved.all_namespaces());
    assert!(!resolved.validation().implicit_query_from_selector);
}

#[test]
fn implicit_query_sets_validation_flag() {
    let flags = vec!["default".to_string()];
    let i = input(None, Some("app=foo"), None, false, &flags);
    let ctx = ContextSelector::default();
    let resolved = resolve_run_input(&i, &ctx, unread()).unwrap();
    assert_eq!(resolved.resolved_query(), ".*");
    assert!(resolved.validation().implicit_query_from_selector);
}

#[test]
fn resolve_run_input_all_namespaces_with_selector() {
    let ns: [String; 0] = [];
    let i = input(None, Some("app=foo"), None, true, &ns);
    let ctx = ContextSelector::default();
    let resolved = resolve_run_input(&i, &ctx, unread()).unwrap();
    assert_eq!(resolved.resolved_query(), ".*");
    assert!(resolved.resolved_namespaces().is_empty());
    assert!(resolved.all_namespaces());
    assert!(resolved.validation().implicit_query_from_selector);
}

#[test]
fn resolve_run_input_multiple_namespaces_with_explicit_query() {
    let flags = vec!["ns1".to_string(), "ns2".to_string()];
    let i = input(Some("pod-.*"), None, None, false, &flags);
    let ctx = ContextSelector::default();
    let resolved = resolve_run_input(&i, &ctx, unread()).unwrap();
    assert_eq!(resolved.resolved_query(), "pod-.*");
    assert_eq!(resolved.resolved_namespaces(), &["ns1".to_string(), "ns2".to_string()]);
    assert!(!resolved.all_namespaces());
}

#[test]
fn resolve_run_input_dot_sentinel_with_kubeconfig_namespace() {
    let ns: [String; 0] = [];
    let i = input(Some("."), Some("app=foo"), None, false, &ns);
    let ctx = ContextSelector::default();
    let resolved = resolve_run_input(&i, &ctx, kubeconfig("ctx-ns")).unwrap();
    assert_eq!(resolved.resolved_query(), ".");
    assert_eq!(resolved.resolved_namespaces(), &["ctx-ns".to_string()]);
    let (query, namespaces, all) = resolved.into_resolved();
    assert_eq!((query.as_str(), namespaces.len(), all), (".", 1, false));
}

#[test]
fn node_field_does_not_affect_resolution() {
    let flags = vec!["ns1".to_string()];
    let i = RunResolutionInput {
        node: Some("worker-1"),
        ..input(Some("q"), None, None, false, &flags)
    };
    assert_eq!(i.node, Some("worker-1"));
    let ctx = ContextSelector::default();
    let resolved = resolve_run_input(&i, &ctx, unread()).unwrap();
    assert_eq!(resolved.resolved_query(), "q");
    assert_eq!(resolved.resolved_namespaces(), &["ns1".to_string()]);
}

#[test]
fn resolution_errors_have_texts() {
    let ns: [String; 0] = [];
    let ctx = ContextSelector::default();
    let i = input(None, None, None, false, &ns);
    let err = resolve_run_input(&i, &ctx, unread()).unwrap_err();
    assert!(!err.message().is_empty());
    let i = input(Some("q"), None, None, false, &ns);
    let err = resolve_run_input(&i, &ctx, unread()).unwrap_err();
    assert!(err.message().contains("No such file or directory"));
}

#[test]
fn explicit_query_is_preserved() {
    let ns: [String; 0] = [];
    let i = scope_input(Some("myapp.*"), None, None, false, &ns);
    assert_eq!(resolve_pod_query(&i).unwrap(), "myapp.*");
}

#[test]
fn label_selector_implies_wildcard_query() {
    let ns: [String; 0] = [];
    let i = scope_input(None, Some("app=foo"), None, false, &ns);
    assert_eq!(resolve_pod_query(&i).unwrap(), ".*");
}

#[test]
fn field_selector_implies_wildcard_query() {
    let ns: [String; 0] = [];
    let i = scope_input(None, None, Some("metadata.name=foo"), false, &ns);
    assert_eq!(resolve_pod_query(&i).unwrap(), ".*");
}

#[test]
fn dot_sentinel_with_label_selector_is_preserved_for_runner_compat() {
    let ns: [String; 0] = [];
    let i = scope_input(Some("."), Some("app=foo"), None, false, &ns);
    assert_eq!(resolve_pod_query(&i).unwrap(), ".");
}

#[test]
fn dot_sentinel_with_field_selector_normalizes_to_wildcard() {
    let ns: [String; 0] = [];
    let i = scope_input(Some("."), None, Some("metadata.name=foo"), false, &ns);
    assert_eq!(resolve_pod_query(&i).unwrap(), ".*");
}

#[test]
fn missing_query_without_selector_fails() {
    let ns: [String; 0] = [];
    let i = scope_input(None, None, None, false, &ns);
    assert!(matches!(resolve_pod_query(&i), Err(WatchScopeError::QueryRequired)));
}

#[test]
fn all_namespaces_yields_empty_list() {
    let ns: [String; 0] = [];
    let i = scope_input(Some("q"), None, None, true, &ns);
    let ctx = ContextSelector::default();
    assert!(resolve_namespaces(&i, &ctx, unread()).unwrap().is_empty());
}

#[test]
fn explicit_namespace_is_deduped() {
    let flags = vec!["a,b".to_string(), "a".to_string()];
    let i = scope_input(Some("q"), None, None, false, &flags);
    let ctx = ContextSelector::default();
    assert_eq!(resolve_namespaces(&i, &ctx, unread()).unwrap(), vec!["a", "b"]);
}

#[test]
fn implicit_namespace_from_kubeconfig() {
    let ns: [String; 0] = [];
    let i = scope_input(Some("q"), None, None, false, &ns);
    let ctx = ContextSelector::default();
    assert_eq!(resolve_namespaces(&i, &ctx, kubeconfig("team-ns")).unwrap(), vec!["team-ns"]);
}

#[test]
fn kubeconfig_read_failure_surfaces_in_resolved_namespaces() {
    let ns: [String; 0] = [];
    let i = scope_input(Some("q"), None, None, false, &ns);
    let ctx = ContextSelector {
        kubeconfig_path: Some("/nonexistent/rustern-kubeconfig-test".into()),
        context_name: None,
    };
    assert!(watch_scope::resolve_namespaces(&i, &ctx, unread()).is_err());
}

#[test]
fn resolve_watch_scope_combines_query_and_namespaces() {
    let flags = vec!["ns1".to_string()];
    let i = scope_input(Some("deploy/.*"), None, None, false, &flags);
    let ctx = ContextSelector::default();
    let resolved = resolve_watch_scope(&i, &ctx, unread()).unwrap();
    assert_eq!(
        resolved,
        WatchScopeResolved {
            query: "deploy/.*".to_string(),
            namespaces: vec!["ns1".to_string()],
            all_namespaces: false,
        }
    );
}
