//! Configuration, counters, cursors, attach, mux and the outcome of a run.

use std::sync::Arc;

use chrono::DateTime;
use rustern_core::discovery::pod::Pod;
use rustern_core::discovery::context::ContextSelector;
use rustern_core::format_display::{TimestampStyle, TimestampZone};
use rustern_core::pipeline::{FilterOn, JqError, QueryMode};
use rustern_core::regex_limits::Pattern;
use rustern_core::runtime::attach::{
    source_meta_for_key, AttachAction, AttachEvent, AttachState, MAX_REOPEN_START_RETRIES,
};
use rustern_core::runtime::config::{log_request_permits, Interval, OutputMode};
use rustern_core::runtime::cursor_service::{
    flush_step, reopen_request, CursorTracker, FlushStep, StreamEnd, CURSOR_FLUSH_RETRIES,
};
use rustern_core::runtime::cursor_store::{
    overlap_since_time, pod_log_request_for_reopen, pod_log_request_for_reopen_with_overlap,
    CursorUpdate, ReconnectCursorStore,
};
use rustern_core::runtime::forward::{
    forward_item, forward_sent, ForwardAction, ForwardStep, SendOutcome,
};
use rustern_core::runtime::list_pods::{PageStep, PodPages};
use rustern_core::runtime::mux::{mux_sent, waits_for_room, MuxState, MuxStep};
use rustern_core::runtime::pod_meta_cache::PodMetaCache;
use rustern_core::runtime::run::{
    api_scope, list_streams, prepare_run, ApiScope, RunEnd, RunEvent,
};
use rustern_core::source::log_opener::ScriptLogSourceOpener;
use rustern_core::source::{
    ContextName, EventTime, Labels, LogEvent, LogSourceError, SourceKey, SourceKind, SourceMeta,
};
use rustern_core::{
    compile_user_regex, BackpressurePolicy, CoreRunConfig, FormatterChoice, LossyMetrics, MuxCmd,
    MuxForwardCore, PodLogRequest, RunError, RunStats, RuntimeFwdConfig, RuntimeStatsConfig,
};

fn at(stamp: &str) -> EventTime {
    EventTime { secs: DateTime::parse_from_rfc3339(stamp).unwrap().timestamp(), nanos: 0 }
}

fn key(pod: &str, container: &str, uid: &str) -> SourceKey {
    SourceKey {
        context: ContextName("ctx".into()),
        namespace: "ns".into(),
        pod: pod.into(),
        container: container.into(),
        uid: uid.into(),
    }
}

fn event(stamp: EventTime, message: &str) -> LogEvent {
    LogEvent {
        source: Arc::new(SourceMeta {
            context: ContextName("ctx".into()),
            namespace: "ns".into(),
            pod: "pod-a".into(),
            container: "app".into(),
            kind: SourceKind::PodLog,
            node: None,
            labels: Arc::new(Labels::default()),
            uid: "uid-1".into(),
            palette_index: None,
            container_palette_index: None,
        }),
        timestamp: stamp,
        message: Arc::from(message),
        structured: None,
        level: None,
        palette_index: None,
        container_palette_index: None,
    }
}

fn fwd(buffer_size: usize, lossy: bool) -> RuntimeFwdConfig {
    RuntimeFwdConfig {
        buffer_size,
        lossy,
        mux_policy: BackpressurePolicy::Blocking,
        stats: None,
        max_log_requests: 10,
    }
}

#[test]
fn render_channel_capacity_matches_buffer_size() {
    assert_eq!(fwd(8192, false).render_channel_capacity(), 8192);
}

#[test]
fn render_channel_capacity_clamps_zero_to_one() {
    assert_eq!(fwd(0, false).render_channel_capacity(), 1);
    assert_eq!(log_request_permits(0), 1);
    assert_eq!(log_request_permits(7), 7);
}

#[test]
fn backpressure_policy_from_lossy_maps_both_branches() {
    assert_eq!(BackpressurePolicy::from_lossy(false), BackpressurePolicy::Blocking);
    assert_eq!(BackpressurePolicy::from_lossy(true), BackpressurePolicy::Lossy);
}

#[test]
fn resolved_mux_policy_returns_configured_policy() {
    let blocking = RuntimeFwdConfig {
        buffer_size: 1,
        lossy: true,
        mux_policy: BackpressurePolicy::Blocking,
        stats: None,
        max_log_requests: 1,
    };
    let lossy = RuntimeFwdConfig { mux_policy: BackpressurePolicy::Lossy, ..blocking.clone() };
    assert_eq!(blocking.resolved_mux_policy(), BackpressurePolicy::Blocking);
    assert_eq!(lossy.resolved_mux_policy(), BackpressurePolicy::Lossy);
}

#[test]
fn forwards_all_events_when_buffer_sufficient() {
    let mut stats = RunStats::new(false);
    let mut metrics = LossyMetrics::new();
    let cfg = fwd(1024, false);
    let mut got = 0;
    for _ in 0..50 {
        match forward_item(Ok(event(at("2026-04-28T08:00:05Z"), "x")), false, &cfg) {
            ForwardAction::Send(_) => {
                assert_eq!(
                    forward_sent(SendOutcome::Sent, 0, &mut stats, &mut metrics),
                    ForwardStep::Forwarded
                );
                got += 1;
            }
            _ => panic!("expected the line to be handed on"),
        }
    }
    assert_eq!(got, 50);
    assert_eq!(stats.snapshot_and_reset().forwarded_lines, 50);
}

#[test]
fn lossy_try_send_skips_when_render_backpressured() {
    let cfg = fwd(1, true);
    let mut stats = RunStats::new(true);
    let mut metrics = LossyMetrics::new();
    let item = || Ok(event(at("2026-04-28T08:00:05Z"), "x"));
    assert!(matches!(forward_item(item(), false, &cfg), ForwardAction::TrySend(_)));
    assert_eq!(
        forward_sent(SendOutcome::Full, 0, &mut stats, &mut metrics),
        ForwardStep::Dropped { warn: true }
    );
    assert_eq!(
        forward_sent(SendOutcome::Full, 1, &mut stats, &mut metrics),
        ForwardStep::Dropped { warn: false }
    );
    assert_eq!(
        forward_sent(SendOutcome::Closed, 2, &mut stats, &mut metrics),
        ForwardStep::Stop
    );
    assert_eq!(metrics.drop_count(), 2);
    assert!(matches!(forward_item(item(), true, &cfg), ForwardAction::Stop));
}

#[test]
fn run_stats_track_forwarded_and_dropped_lines_per_window() {
    let mut stats = RunStats::new(true);
    let mut metrics = LossyMetrics::new();
    forward_sent(SendOutcome::Sent, 0, &mut stats, &mut metrics);
    forward_sent(SendOutcome::Full, 0, &mut stats, &mut metrics);
    let snapshot = stats.snapshot_and_reset();
    assert_eq!(snapshot.forwarded_lines, 1);
    assert_eq!(snapshot.dropped_lines, 1);
    assert_eq!(metrics.drop_count(), 1);
    assert_eq!(stats.snapshot_and_reset().dropped_lines, 0);
}

#[test]
fn run_stats_report_includes_drop_count_only_for_lossy_mode() {
    let mut lossy = RunStats::new(true);
    lossy.set_active_streams(2);
    lossy.record_forwarded_line();
    lossy.record_dropped_line();
    assert_eq!(
        lossy.format_window(Interval::from_secs(30)),
        "stats: active streams=2, forwarded lines=1/30s, dropped lines=1/30s"
    );

    let mut lossless = RunStats::new(false);
    lossless.set_active_streams(1);
    lossless.record_forwarded_line();
    assert_eq!(
        lossless.format_window(Interval::from_secs(30)),
        "stats: active streams=1, forwarded lines=1/30s"
    );
}

#[test]
fn source_errors_are_remembered() {
    let mut stats = RunStats::new(false);
    stats.record_item(&Ok(event(at("2026-04-28T08:00:05Z"), "x")));
    stats.record_item(&Err(LogSourceError::Eof));
    assert!(!stats.had_source_errors());
    stats.record_item(&Err(LogSourceError::Api("boom".to_string())));
    assert!(stats.had_source_errors());
    let reported = forward_item(Err(LogSourceError::Eof), false, &fwd(1, false));
    assert!(matches!(reported, ForwardAction::Report(LogSourceError::Eof)));
}

#[test]
fn drops_are_summed_up() {
    let mut metrics = LossyMetrics::new();
    let mut stats = RunStats::new(true);
    assert!(metrics.record_drop(0, &mut stats));
    assert!(!metrics.record_drop(1, &mut stats));
    assert!(metrics.record_drop(5_000_000_000, &mut stats));
    assert_eq!(metrics.drop_count(), 3);
    assert_eq!(stats.snapshot_and_reset().dropped_lines, 3);
    assert_eq!(metrics.take_total(), Some(3));
    assert_eq!(metrics.take_total(), None);
}

fn base_request() -> PodLogRequest {
    PodLogRequest {
        follow: true,
        tail: Some(25),
        since_seconds: Some(300),
        ..Default::default()
    }
}

#[test]
fn reopen_without_cursor_keeps_initial_tail_and_since() {
    let req = pod_log_request_for_reopen(&base_request(), None, true);
    assert_eq!(req.tail, Some(25));
    assert_eq!(req.since_seconds, Some(300));
    assert!(req.since_time.is_none());
}

#[test]
fn reconnect_request_uses_overlap_and_drops_tail_and_since() {
    let req =
        pod_log_request_for_reopen(&base_request(), Some(at("2026-04-28T08:00:05Z")), true);
    assert!(req.follow);
    assert!(req.tail.is_none());
    assert!(req.since_seconds.is_none());
    let since = req.since_time.unwrap();
    assert_eq!((since.secs, since.nanos), (at("2026-04-28T08:00:04Z").secs, 0));
}

#[test]
fn reopen_keeps_base_when_overlap_returns_none() {
    let req = pod_log_request_for_reopen_with_overlap(&base_request(), None, true);
    assert_eq!(req.tail, Some(25));
    assert_eq!(req.since_seconds, Some(300));
    assert!(req.since_time.is_none());
}

#[test]
fn overlap_keeps_nanoseconds_and_leaves_leap_seconds() {
    let mut t = at("2026-04-28T08:00:05Z");
    t.nanos = 123_456_789;
    let since = overlap_since_time(t).unwrap();
    assert_eq!((since.secs, since.nanos), (at("2026-04-28T08:00:04Z").secs, 123_456_789));
    let leap = EventTime { secs: at("2016-12-31T23:59:59Z").secs, nanos: 1_500_000_000 };
    let since = overlap_since_time(leap).unwrap();
    assert_eq!((since.secs, since.nanos), (at("2016-12-31T23:59:59Z").secs, 500_000_000));
}

#[test]
fn store_records_gets_and_removes_cursor() {
    let mut store = ReconnectCursorStore::new();
    let k = key("p", "c", "u");
    let ts = at("2026-04-28T08:00:05Z");
    assert!(store.get(&k).is_none());
    store.record(&k, ts);
    assert_eq!(store.get(&k), Some(ts));
    store.remove(&k);
    assert!(store.get(&k).is_none());
}

#[test]
fn different_shards_record_and_get_independently() {
    let mut store = ReconnectCursorStore::new();
    let left = key("pod-a", "c", "uid-a");
    let right = key("pod-b", "c", "uid-b");
    store.record(&left, at("2026-04-28T08:00:01Z"));
    store.record(&right, at("2026-04-28T08:00:02Z"));
    assert_eq!(store.get(&left), Some(at("2026-04-28T08:00:01Z")));
    assert_eq!(store.get(&right), Some(at("2026-04-28T08:00:02Z")));
    store.remove(&left);
    assert_eq!(store.get(&right), Some(at("2026-04-28T08:00:02Z")));
}

#[test]
fn same_shard_concurrent_records_last_write_visible() {
    let mut store = ReconnectCursorStore::new();
    let shared = key("shared", "c", "uid-shared");
    store.record(&shared, at("2026-04-28T08:00:01Z"));
    store.record(&shared, at("2026-04-28T08:00:09Z"));
    assert_eq!(store.get(&shared), Some(at("2026-04-28T08:00:09Z")));
}

#[test]
fn same_shard_high_concurrency_records_all_keys() {
    let mut store = ReconnectCursorStore::new();
    let base = at("2026-04-28T08:00:00Z");
    let one = |i: u32| key(&format!("pod-{i}"), &format!("c-{i}"), &format!("uid-{i}"));
    for i in 0..64 {
        store.record(&one(i), EventTime { secs: base.secs, nanos: i * 1_000_000 });
    }
    for i in 0..64 {
        assert_eq!(store.get(&one(i)).unwrap().nanos, i * 1_000_000);
    }
}

#[test]
fn processor_applies_channel_updates_to_store() {
    let mut store = ReconnectCursorStore::new();
    let update = CursorUpdate { key: key("p", "c", "u"), timestamp: at("2026-04-28T08:00:05Z") };
    store.apply_update(&update);
    assert_eq!(store.get(&key("p", "c", "u")), Some(at("2026-04-28T08:00:05Z")));
}

#[test]
fn processor_applies_many_same_shard_updates() {
    let mut store = ReconnectCursorStore::new();
    let base = at("2026-04-28T09:00:00Z");
    for i in 0..200 {
        let k = key(&format!("pod-{i}"), &format!("c-{i}"), &format!("uid-{i}"));
        let timestamp = EventTime { secs: base.secs, nanos: i * 1_000_000 };
        store.apply_update(&CursorUpdate { key: k, timestamp });
    }
    for i in 0..200 {
        let k = key(&format!("pod-{i}"), &format!("c-{i}"), &format!("uid-{i}"));
        assert_eq!(store.get(&k).unwrap().nanos, i * 1_000_000);
    }
}

#[test]
fn stats_count_updates_and_gets() {
    let mut store = ReconnectCursorStore::new_with_stats();
    let k = key("p", "c", "u");
    store.record(&k, at("2026-04-28T08:00:05Z"));
    store.get(&k);
    store.get(&k);
    let stats = store.stats().unwrap();
    assert_eq!(stats.cursor_updates, 1);
    assert_eq!(stats.cursor_gets, 2);
}

#[test]
fn reopen_request_waits_for_flush_and_applies_overlap() {
    let ts = at("2026-04-28T08:00:05Z");
    let mut store = ReconnectCursorStore::new();
    let mut tracker = CursorTracker::new(key("pod-a", "app", "uid-1"), true);
    let update = tracker.on_item(&Ok(event(ts, "line"))).unwrap();
    assert_eq!(tracker.finish(false), Some(StreamEnd::Eof { last_line_ts: Some(ts) }));
    assert_eq!(tracker.finish(false), None);

    let got = store.get(&update.key);
    assert_eq!(flush_step(Some(ts), got, 0), FlushStep::Yield);
    store.apply_update(&update);
    let got = store.get(&update.key);
    assert_eq!(flush_step(Some(ts), got, 1), FlushStep::Flushed);

    let req = reopen_request(true, &base_request(), true, got);
    assert!(req.follow);
    assert!(req.tail.is_none());
    assert!(req.since_seconds.is_none());
    assert_eq!(req.since_time.unwrap().secs, at("2026-04-28T08:00:04Z").secs);
}

#[test]
fn flush_is_given_up_after_some_looks() {
    let ts = at("2026-04-28T08:00:05Z");
    assert_eq!(flush_step(None, None, 0), FlushStep::Flushed);
    assert_eq!(flush_step(Some(ts), None, CURSOR_FLUSH_RETRIES - 1), FlushStep::Yield);
    assert_eq!(flush_step(Some(ts), Some(ts), CURSOR_FLUSH_RETRIES), FlushStep::GiveUp);
}

#[test]
fn disabled_service_passthrough_without_reopen() {
    let mut tracker = CursorTracker::new(key("pod-a", "app", "uid-1"), false);
    assert!(tracker.on_item(&Ok(event(at("2026-04-28T08:00:05Z"), "line"))).is_none());
    assert_eq!(tracker.finish(false), Some(StreamEnd::Eof { last_line_ts: None }));
    let base = PodLogRequest { follow: true, tail: Some(25), ..Default::default() };
    let req = reopen_request(false, &base, true, Some(at("2026-04-28T08:00:05Z")));
    assert_eq!(req.tail, Some(25));
}

fn pod(name: &str, uid: &str, labels: &[(&str, &str)], node: Option<&str>) -> Pod {
    let mut all = Labels::default();
    for (k, v) in labels {
        all.insert(k.to_string(), v.to_string());
    }
    Pod {
        name: Some(name.to_string()),
        namespace: Some("ns".to_string()),
        uid: Some(uid.to_string()),
        labels: Some(all),
        node_name: node.map(|n| n.to_string()),
        conditions: None,
        containers: vec!["app".to_string()],
    }
}

#[test]
fn source_meta_for_key_without_kube_mock() {
    let mut cache = PodMetaCache::new();
    let ctx = ContextName("ctx".into());
    cache.update_from_pod(&ctx, &pod("pod-a", "uid-1", &[("app", "api")], Some("worker-1")));
    let meta = source_meta_for_key(&ctx, &cache, &key("pod-a", "app", "uid-1"));
    assert_eq!(meta.node.as_deref(), Some("worker-1"));
    assert_eq!(meta.labels.get("app").map(String::as_str), Some("api"));
}

#[test]
fn source_meta_for_key_uses_cached_pod_labels_and_node() {
    let mut cache = PodMetaCache::new();
    let ctx = ContextName("ctx".into());
    cache.update_from_pod(&ctx, &pod("pod-a", "uid-1", &[("app", "api")], Some("worker-1")));
    let meta = source_meta_for_key(&ctx, &cache, &key("pod-a", "app", "uid-1"));
    assert_eq!(meta.node.as_deref(), Some("worker-1"));
    assert_eq!(meta.labels.get("app").map(String::as_str), Some("api"));
    let other = source_meta_for_key(&ctx, &cache, &key("pod-a", "app", "uid-2"));
    assert!(other.node.is_none() && other.labels.is_empty());
    assert_eq!(other.container, "app");
}

#[test]
fn reconnects_follow_stream_with_cursor_since_time() {
    let mut state = AttachState::new(true, true);
    assert_eq!(
        state.step(AttachEvent::Begin { cancelled: false }),
        AttachAction::AskPermit { wait: false }
    );
    assert_eq!(state.step(AttachEvent::Permitted), AttachAction::Open { reopen: false });
    assert_eq!(state.step(AttachEvent::Opened), AttachAction::HandOver);
    let ts = at("2026-04-28T08:00:05Z");
    let first = reopen_request(true, &base_request(), false, None);
    assert_eq!((first.tail, first.since_seconds), (Some(25), Some(300)));
    let end = Some(StreamEnd::Eof { last_line_ts: Some(ts) });
    assert_eq!(
        state.step(AttachEvent::Ended { end }),
        AttachAction::FlushThenBegin { expected: Some(ts) }
    );
    state.step(AttachEvent::Begin { cancelled: false });
    assert_eq!(state.step(AttachEvent::Permitted), AttachAction::Open { reopen: true });
    let second = reopen_request(true, &base_request(), true, Some(ts));
    assert_eq!(second.since_time.unwrap().secs, at("2026-04-28T08:00:04Z").secs);
    assert!(second.tail.is_none() && second.since_seconds.is_none());
    state.step(AttachEvent::Opened);
    assert_eq!(
        state.step(AttachEvent::Ended { end: Some(StreamEnd::Cancelled) }),
        AttachAction::Stop
    );
}

#[test]
fn reconnects_follow_with_script_opener_without_kube_mock() {
    let ts1 = at("2026-04-28T08:00:05Z");
    let ts2 = at("2026-04-28T08:00:06Z");
    let mut opener = ScriptLogSourceOpener::new(vec![
        vec![Ok(event(ts1, "first"))],
        vec![Ok(event(ts2, "second"))],
    ]);
    let mut state = AttachState::new(true, true);
    let mut seen = Vec::new();
    for _ in 0..2 {
        state.step(AttachEvent::Begin { cancelled: false });
        state.step(AttachEvent::Permitted);
        state.step(AttachEvent::Opened);
        let mut tracker = CursorTracker::new(key("pod-a", "app", "uid-1"), true);
        for item in opener.open() {
            tracker.on_item(&item);
            seen.push(item.unwrap().message.to_string());
        }
        let end = tracker.finish(false);
        assert!(matches!(
            state.step(AttachEvent::Ended { end }),
            AttachAction::FlushThenBegin { expected: Some(_) }
        ));
    }
    assert_eq!(seen, vec!["first", "second"]);
}

#[test]
fn reopening_is_retried_a_few_times() {
    let mut state = AttachState::new(true, true);
    assert_eq!(state.step(AttachEvent::OpenFailed { cancelled: false }), AttachAction::Stop);
    state.step(AttachEvent::Ended { end: Some(StreamEnd::Eof { last_line_ts: None }) });
    for attempt in 0..MAX_REOPEN_START_RETRIES {
        assert_eq!(
            state.step(AttachEvent::OpenFailed { cancelled: false }),
            AttachAction::BackOffThenBegin { attempt }
        );
    }
    assert_eq!(state.step(AttachEvent::OpenFailed { cancelled: false }), AttachAction::Stop);
    state.step(AttachEvent::Opened);
    assert_eq!(
        state.step(AttachEvent::OpenFailed { cancelled: false }),
        AttachAction::BackOffThenBegin { attempt: 0 }
    );
    assert_eq!(state.step(AttachEvent::OpenFailed { cancelled: true }), AttachAction::Stop);
}

#[test]
fn too_many_streams_end_a_following_run_only() {
    let mut follow = AttachState::new(true, false);
    assert_eq!(follow.step(AttachEvent::Refused), AttachAction::LimitReached);
    let mut once = AttachState::new(false, true);
    assert_eq!(
        once.step(AttachEvent::Begin { cancelled: false }),
        AttachAction::AskPermit { wait: true }
    );
    assert_eq!(once.step(AttachEvent::Refused), AttachAction::Stop);
    assert_eq!(once.step(AttachEvent::Begin { cancelled: true }), AttachAction::Stop);
    assert_eq!(once.step(AttachEvent::MuxClosed), AttachAction::Stop);
    let end = Some(StreamEnd::Eof { last_line_ts: None });
    assert_eq!(once.step(AttachEvent::Ended { end }), AttachAction::Stop);
    assert_eq!(follow.step(AttachEvent::Ended { end: None }), AttachAction::Stop);
}

#[test]
fn add_and_remove_update_active_stream_stats() {
    let mut stats = RunStats::new(false);
    let mut mux = MuxState::new();
    let source_key = |name: &str| SourceKey {
        namespace: "default".into(),
        ..key(&format!("pod-{name}"), "app", &format!("uid-{name}"))
    };
    let add: MuxCmd<u8> = MuxCmd::Add(source_key("a"), 0);
    assert_eq!(mux.on_command(Some(&add), &mut stats), MuxStep::Continue);
    assert_eq!(stats.snapshot_and_reset().active_streams, 1);
    mux.on_command(Some(&add), &mut stats);
    assert_eq!(stats.snapshot_and_reset().active_streams, 1);
    let remove: MuxCmd<u8> = MuxCmd::Remove(source_key("a"));
    assert_eq!(mux.on_command(Some(&remove), &mut stats), MuxStep::Continue);
    assert_eq!(stats.snapshot_and_reset().active_streams, 0);
    assert!(mux.is_empty());
    assert_eq!(mux.on_command::<u8>(None, &mut stats), MuxStep::Stop);
}

#[test]
fn mux_ends_with_no_active_stream() {
    let mut stats = RunStats::new(false);
    let mut mux = MuxState::new();
    mux.on_command(Some(&MuxCmd::Add(key("a", "app", "u"), 0u8)), &mut stats);
    mux.on_command(Some(&MuxCmd::Add(key("b", "app", "u"), 0u8)), &mut stats);
    mux.on_stream_end(&key("a", "app", "u"));
    assert!(!mux.is_empty());
    mux.finish(&mut stats);
    assert_eq!(stats.snapshot_and_reset().active_streams, 0);
}

#[test]
fn items_are_dropped_only_where_they_may_be_lost() {
    assert!(waits_for_room(BackpressurePolicy::Blocking));
    assert!(!waits_for_room(BackpressurePolicy::Lossy));
    assert_eq!(mux_sent(BackpressurePolicy::Lossy, SendOutcome::Full), MuxStep::Drop);
    assert_eq!(mux_sent(BackpressurePolicy::Lossy, SendOutcome::Closed), MuxStep::Stop);
    assert_eq!(mux_sent(BackpressurePolicy::Blocking, SendOutcome::Sent), MuxStep::Continue);
    assert_eq!(mux_sent(BackpressurePolicy::Blocking, SendOutcome::Closed), MuxStep::Stop);
}

#[test]
fn assembly_follows_the_configuration() {
    let mut cfg = fwd(0, false);
    cfg.stats = Some(RuntimeStatsConfig { interval: Interval::from_secs(30) });
    let plan = MuxForwardCore::plan(&cfg, true);
    assert_eq!((plan.command_capacity, plan.raw_capacity, plan.render_capacity), (256, 1, 1));
    assert_eq!(plan.flush_ms, 50);
    assert_eq!(plan.report_every, Some(Interval::from_secs(30)));
    assert!(plan.renders);
}

#[test]
fn pages_are_gathered_until_the_last() {
    let pages = PodPages::new();
    let page = |name: &str| vec![pod(name, "u", &[], None)];
    let (pages, token) = match pages.add_page(page("a"), Some("t1".to_string())) {
        PageStep::Next(pages, token) => (pages, token),
        _ => panic!("expected another page"),
    };
    assert_eq!(token, "t1");
    match pages.add_page(page("b"), Some(String::new())) {
        PageStep::Done(pods) => {
            let names: Vec<_> = pods.iter().map(|p| p.name.clone().unwrap()).collect();
            assert_eq!(names, vec!["a", "b"]);
        }
        _ => panic!("expected the end of the list"),
    }
}

#[test]
fn endless_lists_are_given_up() {
    let mut pages = PodPages::new();
    for _ in 0..999 {
        pages = match pages.add_page(Vec::new(), Some("more".to_string())) {
            PageStep::Next(pages, _) => pages,
            _ => panic!("expected another page"),
        };
    }
    match pages.add_page(Vec::new(), Some("more".to_string())) {
        PageStep::Failed(e) => {
            assert_eq!(e.message(), "pod list pagination exceeded 1000 pages");
        }
        _ => panic!("expected the list to be given up"),
    }
}

fn config() -> CoreRunConfig {
    CoreRunConfig {
        context: ContextSelector::default(),
        query: ".*".to_string(),
        namespaces: vec!["ns".to_string()],
        all_namespaces: false,
        selector: None,
        field_selector: None,
        node: None,
        exclude_pod: Vec::new(),
        container: ".*".to_string(),
        exclude_container: Vec::new(),
        pod_condition: None,
        pod_log: PodLogRequest::default(),
        cursor_reconnect: false,
        includes: Vec::new(),
        excludes: Vec::new(),
        highlight: Vec::new(),
        only_log_lines: false,
        filter_on: FilterOn::Original,
        json_query: None,
        json_query_mode: QueryMode::Replace,
        level_key: None,
        exit_on: Vec::new(),
        exit_on_level: None,
        output: OutputMode::Default,
        formatter: FormatterChoice::Default {
            timestamp_style: TimestampStyle::Omit,
            timestamp_zone: TimestampZone::Utc,
            color_enabled: false,
            pod_colors: false,
            container_colors: false,
        },
        diff_container: false,
        fwd: fwd(16, false),
    }
}

fn setup_error(change: impl Fn(&mut CoreRunConfig)) -> RunError {
    let mut cfg = config();
    change(&mut cfg);
    prepare_run(&cfg, &ContextName("ctx".into()), None).err().unwrap()
}

#[test]
fn a_run_is_set_up_from_its_configuration() {
    let cfg = config();
    let pod_regex: Pattern = compile_user_regex("query", "pod-.*").unwrap();
    let run = prepare_run(&cfg, &ContextName("ctx".into()), Some(pod_regex)).unwrap();
    assert!(matches!(run.scope, ApiScope::Namespace(ref ns) if ns == "ns"));
    assert_eq!(run.permits, 10);
    assert!(run.admission.admit_pod(&pod("pod-a", "u", &[], None)));
    assert!(!run.admission.admit_pod(&pod("other", "u", &[], None)));
    assert!(!run.pipeline.triggered());
}

#[test]
fn setup_errors_name_the_first_bad_option() {
    let bad = || vec!["(".to_string()];
    let e = setup_error(|c| {
        c.includes = bad();
        c.excludes = bad();
    });
    assert!(e.message().starts_with("invalid --include regex: "));
    let e = setup_error(|c| {
        c.excludes = bad();
        c.exit_on = bad();
    });
    assert!(e.message().starts_with("invalid --exclude regex: "));
    let e = setup_error(|c| {
        c.json_query = Some("(".to_string());
        c.exit_on = bad();
    });
    assert!(matches!(e, RunError::Jq(JqError::Parse(_))));
    let e = setup_error(|c| {
        c.exit_on = bad();
        c.exclude_pod = bad();
    });
    assert!(e.message().starts_with("invalid --exit-on regex: "));
    for change in [
        |c: &mut CoreRunConfig| c.exclude_pod = vec!["(".to_string()],
        |c: &mut CoreRunConfig| c.container = "(".to_string(),
        |c: &mut CoreRunConfig| c.exclude_container = vec!["(".to_string()],
    ] {
        let e = setup_error(change);
        assert!(e.message().starts_with("invalid watch admission regex: "));
    }
    let e = setup_error(|c| c.highlight = vec!["(".to_string()]);
    assert!(e.message().starts_with("invalid highlight/include regex: "));
}

#[test]
fn a_single_namespace_is_asked_for_as_such() {
    let one = vec!["a".to_string()];
    let two = vec!["a".to_string(), "b".to_string()];
    assert!(matches!(api_scope(false, &one), ApiScope::Namespace(ref ns) if ns == "a"));
    assert!(matches!(api_scope(true, &one), ApiScope::All));
    assert!(matches!(api_scope(false, &two), ApiScope::All));
}

#[test]
fn listed_streams_find_their_metadata() {
    let run = prepare_run(&config(), &ContextName("ctx".into()), None).unwrap();
    let mut cache = PodMetaCache::new();
    let pods = vec![pod("pod-a", "uid-1", &[("app", "api")], Some("worker-1"))];
    let keys = list_streams(&run.admission, &pods, &mut cache);
    assert_eq!(keys.len(), 1);
    assert_eq!(cache.lookup(keys.at(0)).node.as_deref(), Some("worker-1"));
}

#[test]
fn failures_count_in_order() {
    let mut end = RunEnd::new();
    assert!(!end.on_event(RunEvent::Cancelled));
    assert!(!end.on_event(RunEvent::NoMoreStreams));
    assert!(end.outcome(false, true).unwrap().had_source_errors);
    assert!(matches!(end.outcome(true, false), Err(RunError::ExitOnTriggered)));
    assert_eq!(
        RunError::ExitOnTriggered.message(),
        "--exit-on / --exit-on-level condition matched"
    );
    assert!(end.on_event(RunEvent::LimitReached));
    assert_eq!(
        end.outcome(true, false).unwrap_err().message(),
        "max concurrent log streams reached (--max-log-requests)"
    );
    assert!(end.on_event(RunEvent::PipelineEnded(Some("panic".to_string()))));
    assert_eq!(
        end.outcome(true, false).unwrap_err().message(),
        "pipeline forward task failed: panic"
    );
}

#[test]
fn an_aborted_pipeline_is_no_failure() {
    let mut end = RunEnd::new();
    end.on_pipeline_shut_down(Some("cancelled".to_string()), true);
    assert!(end.outcome(false, false).is_ok());
    end.on_pipeline_shut_down(Some("panic".to_string()), false);
    assert!(end.outcome(false, false).is_err());
}
