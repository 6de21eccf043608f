//! Log lines, requests, retries, and pod metadata.

use std::sync::Arc;

use chrono::DateTime;
use rustern_core::discovery::pod::Pod;
use rustern_core::source::log_opener::ScriptLogSourceOpener;
use rustern_core::source::pod_log::{
    build_log_params, item_from_read, parse_log_line, parse_log_line_at, parse_log_line_bytes,
    parse_since_time, retry_after_failure, OpenFailure, PodLogRequest, ReadOutcome, RetryStep,
};
use rustern_core::source::pod_meta::{pod_meta_snapshot_from_pod, PodLocator};
use rustern_core::source::retry::{
    full_jitter_backoff, kube_error_is_client_error, longest_backoff,
};
use rustern_core::source::{
    ContextName, EventTime, Labels, LogEvent, LogLevel, LogSourceError, SourceKey, SourceKind,
    SourceMeta,
};
use rustern_core::text;

fn sample_meta() -> SourceMeta {
    SourceMeta {
        context: ContextName("c".into()),
        namespace: "ns".into(),
        pod: "p".into(),
        container: "app".into(),
        kind: SourceKind::PodLog,
        node: None,
        labels: Arc::new(Labels::default()),
        uid: "uid".into(),
        palette_index: Some(3),
        container_palette_index: None,
    }
}

fn seconds_of(stamp: &str) -> i64 {
    DateTime::parse_from_rfc3339(stamp).unwrap().timestamp()
}

#[test]
fn build_log_params_sets_previous_and_since_time() {
    let since = parse_since_time("2024-03-15T10:30:45Z").unwrap();
    let params = build_log_params(
        &sample_meta(),
        &PodLogRequest {
            follow: true,
            tail: Some(100),
            since_time: Some(since),
            previous: true,
            ..Default::default()
        },
    );
    assert!(params.previous);
    assert!(params.since_time.is_some());
    assert!(params.since_seconds.is_none());
    assert_eq!(params.tail_lines, Some(100));
    assert!(params.timestamps);
    assert_eq!(params.container.as_deref(), Some("app"));
}

#[test]
fn build_log_params_uses_since_seconds_when_no_since_time() {
    let params = build_log_params(
        &sample_meta(),
        &PodLogRequest { since_seconds: Some(300), ..Default::default() },
    );
    assert_eq!(params.since_seconds, Some(300));
    assert!(params.since_time.is_none());
}

#[test]
fn parse_since_time_accepts_rfc3339() {
    let since = parse_since_time("2024-03-15T10:30:45Z").unwrap();
    assert_eq!(since.secs, seconds_of("2024-03-15T10:30:45Z"));
    assert_eq!(since.nanos, 0);
    assert!(parse_since_time("not-a-time").is_err());
    assert!(parse_since_time("").is_err());
    assert_eq!(
        parse_since_time(" nope ").unwrap_err(),
        "invalid --since-time (expected RFC3339): nope"
    );
}

#[test]
fn parse_log_line_strips_rfc3339_prefix() {
    let (ts, msg) = parse_log_line("2024-03-15T10:30:45Z hello world");
    assert_eq!(ts, EventTime { secs: seconds_of("2024-03-15T10:30:45Z"), nanos: 0 });
    assert_eq!(&*msg, "hello world");
}

#[test]
fn parse_log_line_fallback_without_timestamp() {
    let (_, msg) = parse_log_line("plain line without prefix");
    assert_eq!(&*msg, "plain line without prefix");
}

#[test]
fn parse_log_line_bytes_matches_str_parser() {
    let line = b"2024-03-15T10:30:45Z hello world\n";
    let (ts_str, msg_str) = parse_log_line("2024-03-15T10:30:45Z hello world");
    let (ts_bytes, msg_bytes) = parse_log_line_bytes(line);
    assert_eq!(ts_str, ts_bytes);
    assert_eq!(msg_str, msg_bytes);
}

#[test]
fn lines_that_are_no_utf8_are_mended() {
    let now = EventTime { secs: 7, nanos: 0 };
    let (ts, msg) = parse_log_line_at(b"caf\xff\r\n", now);
    assert_eq!(ts, now);
    assert_eq!(&*msg, "caf\u{fffd}");
}

#[test]
fn reads_become_items() {
    let meta = Arc::new(sample_meta());
    let now = EventTime { secs: 7, nanos: 0 };
    assert!(item_from_read(&meta, ReadOutcome::End, now).is_none());
    let (item, last) =
        item_from_read(&meta, ReadOutcome::Line(b"plain\n".to_vec()), now).unwrap();
    let ev = item.unwrap();
    assert!(!last);
    assert_eq!(&*ev.message, "plain");
    assert_eq!(ev.timestamp, now);
    assert_eq!(ev.palette_index, Some(3));
    let (item, last) =
        item_from_read(&meta, ReadOutcome::Failed("reset".to_string()), now).unwrap();
    assert!(last);
    assert_eq!(item.err().unwrap().message(), "api error: reset");
}

#[test]
fn opening_is_retried_until_the_tries_are_used_up() {
    let failure = |status| OpenFailure { status, reason: "boom".to_string() };
    match retry_after_failure(0, 3, failure(Some(500))) {
        RetryStep::RetryAfter { base_ms, attempt, next } => {
            assert_eq!((base_ms, attempt, next), (200, 0, 1));
        }
        RetryStep::GiveUp(_) => panic!("expected another try"),
    }
    match retry_after_failure(2, 3, failure(None)) {
        RetryStep::GiveUp(e) => assert_eq!(e.message(), "api error: after 3 attempts: boom"),
        RetryStep::RetryAfter { .. } => panic!("expected no further try"),
    }
    match retry_after_failure(0, 3, failure(Some(404))) {
        RetryStep::GiveUp(e) => assert_eq!(e.message(), "api error: boom"),
        RetryStep::RetryAfter { .. } => panic!("expected no further try"),
    }
}

#[test]
fn backoff_stays_below_its_bound() {
    assert_eq!(longest_backoff(250, 0), 250);
    assert_eq!(longest_backoff(250, 2), 1000);
    for attempt in 0..40 {
        assert!(full_jitter_backoff(250, attempt) <= longest_backoff(250, attempt));
    }
    assert_eq!(full_jitter_backoff(0, 5), 0);
    assert!(kube_error_is_client_error(Some(404)));
    assert!(!kube_error_is_client_error(Some(429)));
    assert!(!kube_error_is_client_error(Some(500)));
    assert!(!kube_error_is_client_error(None));
}

#[test]
fn log_source_error_displays_messages() {
    assert_eq!(LogSourceError::Eof.message(), "upstream stream ended");
    assert_eq!(LogSourceError::Api("conn reset".into()).message(), "api error: conn reset");
    assert_eq!(LogSourceError::Cancelled.message(), "cancelled");
}

#[test]
fn levels_have_names() {
    assert_eq!(LogLevel::Warn.as_str(), "warn");
    assert_eq!(LogLevel::Other("notice".to_string()).as_str(), "notice");
    assert_eq!(LogLevel::Trace.to_shown(), "Trace");
    assert_eq!(LogLevel::Other("a\"b".to_string()).to_shown(), "Other(\"a\\\"b\")");
}

fn pod_with_meta(labels: Option<Labels>, node: Option<&str>) -> Pod {
    Pod {
        name: Some("pod-a".into()),
        namespace: Some("ns".into()),
        uid: Some("uid-1".into()),
        labels,
        node_name: node.map(|n| n.to_string()),
        conditions: None,
        containers: Vec::new(),
    }
}

#[test]
fn snapshot_extracts_node_and_labels() {
    let mut labels = Labels::default();
    labels.insert("app".into(), "web".into());
    let snap = pod_meta_snapshot_from_pod(&pod_with_meta(Some(labels), Some("node-1")));
    assert_eq!(snap.node.as_deref(), Some("node-1"));
    assert_eq!(snap.labels.get("app").map(String::as_str), Some("web"));
}

#[test]
fn snapshot_defaults_when_metadata_absent() {
    let snap = pod_meta_snapshot_from_pod(&pod_with_meta(None, None));
    assert!(snap.node.is_none());
    assert!(snap.labels.is_empty());
}

#[test]
fn locator_round_trips_source_key_fields() {
    let key = SourceKey {
        context: ContextName("ctx".into()),
        namespace: "ns".into(),
        pod: "pod-a".into(),
        container: "app".into(),
        uid: "uid-1".into(),
    };
    let loc = PodLocator::from_source_key(&key);
    assert_eq!(loc.context, key.context);
    assert_eq!(loc.namespace, key.namespace);
    assert_eq!(loc.pod, key.pod);
    assert_eq!(loc.uid, key.uid);
    let found = PodLocator::try_from_pod(&ContextName("ctx".into()), &pod_with_meta(None, None));
    assert_eq!(found, Some(loc));
    let mut nameless = pod_with_meta(None, None);
    nameless.name = None;
    assert!(PodLocator::try_from_pod(&ContextName("ctx".into()), &nameless).is_none());
}

#[test]
fn scripts_are_handed_out_in_order() {
    let line = |m: &str| -> Result<LogEvent, LogSourceError> {
        Ok(LogEvent {
            source: Arc::new(sample_meta()),
            timestamp: EventTime { secs: 0, nanos: 0 },
            message: Arc::from(m),
            structured: None,
            level: None,
            palette_index: None,
            container_palette_index: None,
        })
    };
    let mut opener = ScriptLogSourceOpener::new(vec![vec![line("first")], vec![line("second")]]);
    assert_eq!(&*opener.open()[0].as_ref().unwrap().message, "first");
    assert_eq!(&*opener.open()[0].as_ref().unwrap().message, "second");
    assert!(opener.open().is_empty());
}

#[test]
fn texts_are_split_trimmed_and_joined() {
    assert_eq!(text::split("a..b", '.'), vec!["a", "", "b"]);
    assert_eq!(text::trim("\u{2003} a b\t\n"), "a b");
    assert_eq!(text::join(&vec!["a".to_string(), "b".to_string()], ", "), "a, b");
    assert_eq!(text::to_decimal(0), "0");
    assert_eq!(text::to_decimal(u64::MAX), "18446744073709551615");
    assert_eq!(text::to_signed_decimal(-70), "-70");
    assert_eq!(text::split_once("k=v=w", '='), Some(("k", "v=w")));
    assert!(text::eq_ignore_ascii_case("ReaDY", "ready"));
    assert!(!text::eq_ignore_ascii_case("É", "é"));
}
