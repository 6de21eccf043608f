//! The stages of the pipeline, one by one and together.

use std::sync::Arc;

use rustern_core::pipeline::color_assign::slot_of_hash;
use rustern_core::pipeline::jq_evaluate::{apply_jq_outputs, keep_succeeded, JqKind, JqOutput};
use rustern_core::pipeline::{
    apply_palette_to_meta, color_assign, container_filter, exit_watch_level, exit_watch_message,
    include_exclude, jq_evaluate, json_annotate, level_classify, validate_filter, ColorAssignOpts,
    ExitOnLevel, ExitWatchState, FilterOn, JqError, PipelineStageOrder, QueryMode,
};
use rustern_core::regex_limits::Pattern;
use rustern_core::source::parsed_json::{
    jaq_dot_path_keys, json_pointer_from_dot_path, ParsedJson,
};
use rustern_core::source::{
    ContextName, EventTime, Labels, LogEvent, LogLevel, LogSourceError, SourceKind, SourceMeta,
};
use rustern_core::{
    compile_user_regex, PipelineSpec, PipelineSpecBuilder, MAX_USER_REGEX_PATTERN_LEN,
};

fn re(pattern: &str) -> Pattern {
    compile_user_regex("test", pattern).unwrap()
}

fn meta(pod: &str, container: &str) -> SourceMeta {
    SourceMeta {
        context: ContextName("ctx".into()),
        namespace: "ns".into(),
        pod: pod.into(),
        container: container.into(),
        kind: SourceKind::PodLog,
        node: None,
        labels: Arc::new(Labels::default()),
        uid: "u".into(),
        palette_index: None,
        container_palette_index: None,
    }
}

fn event(pod: &str, container: &str, message: &str) -> LogEvent {
    LogEvent {
        source: Arc::new(meta(pod, container)),
        timestamp: EventTime { secs: 1_700_000_000, nanos: 0 },
        message: Arc::from(message),
        structured: None,
        level: None,
        palette_index: None,
        container_palette_index: None,
    }
}

fn ev(message: &str) -> LogEvent {
    event("p", "c", message)
}

fn json_ev(raw: &str, use_jaq_val: bool) -> LogEvent {
    json_annotate(Ok(ev(raw)), use_jaq_val).unwrap()
}

const ALL_COLORS: ColorAssignOpts =
    ColorAssignOpts { pod_colors: true, container_colors: true, diff_container: false };

#[test]
fn stable_per_pod_name() {
    let a = color_assign(Ok(event("web-1", "c", "m")), ALL_COLORS).unwrap().palette_index;
    let b = color_assign(Ok(event("web-1", "c", "m")), ALL_COLORS).unwrap().palette_index;
    assert_eq!(a, b);
    assert!(a.unwrap() < 16);
}

#[test]
fn often_differs_between_pods() {
    let a = color_assign(Ok(event("pod-aaaaaa", "c", "m")), ALL_COLORS).unwrap();
    let b = color_assign(Ok(event("pod-bbbbbb", "c", "m")), ALL_COLORS).unwrap();
    assert_ne!(a.palette_index.unwrap(), b.palette_index.unwrap());
}

#[test]
fn diff_container_uses_container_name() {
    let opts = ColorAssignOpts { pod_colors: false, container_colors: true, diff_container: true };
    let a = color_assign(Ok(event("p", "app", "m")), opts).unwrap();
    let b = color_assign(Ok(event("p", "sidecar", "m")), opts).unwrap();
    assert_ne!(a.container_palette_index.unwrap(), b.container_palette_index.unwrap());
    assert!(a.palette_index.is_none());
}

#[test]
fn container_without_diff_matches_pod_slot() {
    let e = color_assign(Ok(event("web-1", "c", "m")), ALL_COLORS).unwrap();
    assert_eq!(e.palette_index, e.container_palette_index);
}

#[test]
fn slots_set_at_attach_agree_with_the_pipeline() {
    let mut m = meta("web-1", "c");
    apply_palette_to_meta(&mut m, ALL_COLORS);
    let e = color_assign(Ok(event("web-1", "c", "m")), ALL_COLORS).unwrap();
    assert_eq!(m.palette_index, e.palette_index);
    assert_eq!(m.container_palette_index, e.container_palette_index);
    assert_eq!(slot_of_hash(33), 1);
}

#[test]
fn keeps_matching_only() {
    let incl = re("app");
    let none = Vec::new();
    let kept = container_filter(Ok(event("p", "app", "m")), &incl, &none);
    assert_eq!(kept.unwrap().unwrap().source.container, "app");
    assert!(container_filter(Ok(event("p", "sidecar", "m")), &incl, &none).is_none());
}

#[test]
fn excludes_when_pattern_set() {
    let incl = re(".*");
    let excl = vec![re("istio-proxy")];
    let kept = container_filter(Ok(event("p", "app", "m")), &incl, &excl);
    assert_eq!(kept.unwrap().unwrap().source.container, "app");
    assert!(container_filter(Ok(event("p", "istio-proxy", "m")), &incl, &excl).is_none());
}

#[test]
fn message_match_triggers_cancel() {
    let mut state = ExitWatchState::new();
    exit_watch_message(&Ok(ev("oh no panic")), &vec![re("panic")], &mut state);
    assert!(state.triggered());
    assert!(!state.fire());
}

#[test]
fn message_no_match_does_not_trigger() {
    let mut state = ExitWatchState::new();
    exit_watch_message(&Ok(ev("all fine")), &vec![re("panic")], &mut state);
    assert!(!state.triggered());
    assert!(state.fire());
}

fn leveled(message: &str, level: LogLevel) -> Result<LogEvent, LogSourceError> {
    let mut e = ev(message);
    e.level = Some(level);
    Ok(e)
}

#[test]
fn level_warn_matches_warn_and_error() {
    let mut state = ExitWatchState::new();
    exit_watch_level(&leveled("a", LogLevel::Info), ExitOnLevel::Warn, &mut state);
    assert!(!state.triggered());
    exit_watch_level(&leveled("b", LogLevel::Warn), ExitOnLevel::Warn, &mut state);
    assert!(state.triggered());
    let mut state = ExitWatchState::new();
    exit_watch_level(&leveled("c", LogLevel::Error), ExitOnLevel::Warn, &mut state);
    assert!(state.triggered());
}

#[test]
fn level_info_does_not_match_debug() {
    let mut state = ExitWatchState::new();
    exit_watch_level(&leveled("a", LogLevel::Debug), ExitOnLevel::Info, &mut state);
    assert!(!state.triggered());
}

#[test]
fn parses_exit_on_level_aliases() {
    assert_eq!(ExitOnLevel::parse("warn").unwrap(), ExitOnLevel::Warn);
    assert_eq!(ExitOnLevel::parse("WARNING").unwrap(), ExitOnLevel::Warn);
    assert!(ExitOnLevel::parse("bogus").is_err());
}

#[test]
fn includes_matching_message() {
    let incl = vec![re("error")];
    let kept = include_exclude(Ok(ev("boom error")), &incl, &Vec::new());
    assert_eq!(&*kept.unwrap().unwrap().message, "boom error");
    assert!(include_exclude(Ok(ev("boom info")), &incl, &Vec::new()).is_none());
}

#[test]
fn excludes_matching_message() {
    let excl = vec![re("health")];
    assert!(include_exclude(Ok(ev("GET /healthz")), &Vec::new(), &excl).is_none());
    let kept = include_exclude(Ok(ev("POST /api")), &Vec::new(), &excl);
    assert_eq!(&*kept.unwrap().unwrap().message, "POST /api");
}

#[test]
fn include_takes_priority_over_exclude_when_both_match() {
    let kept =
        include_exclude(Ok(ev("error and /healthz")), &vec![re("error")], &vec![re("health")]);
    assert!(kept.is_some());
}

#[test]
fn errors_pass_the_message_filters() {
    let kept = include_exclude(Err(LogSourceError::Eof), &vec![re("error")], &Vec::new());
    assert!(matches!(kept, Some(Err(LogSourceError::Eof))));
}

#[test]
fn validates_simple_path() {
    assert!(validate_filter(".level").is_ok());
}

#[test]
fn rejects_unclosed_paren() {
    let err = validate_filter("(unclosed").err().unwrap();
    assert!(matches!(err, JqError::Parse(_)));
    assert!(err.message().starts_with("parse error: "));
    let eval = JqError::Eval("boom".to_string());
    assert_eq!(eval.message(), "evaluation error: boom");
}

#[test]
fn replace_mode_overwrites_message() {
    let f = validate_filter(".level").unwrap();
    let raw = r#"{"level":"error","msg":"boom"}"#;
    let out = jq_evaluate(Ok(json_ev(raw, false)), &f, QueryMode::Replace).unwrap().unwrap();
    assert_eq!(&*out.message, "\"error\"");
    assert!(out.structured.is_none());
}

#[test]
fn append_mode_concatenates() {
    let f = validate_filter(".level").unwrap();
    let raw = r#"{"level":"error","msg":"boom"}"#;
    let out = jq_evaluate(Ok(json_ev(raw, false)), &f, QueryMode::Append).unwrap().unwrap();
    let m = &*out.message;
    assert!(m.contains("error"));
    assert!(m.contains('|'));
    assert_eq!(m, r#"{"level":"error","msg":"boom"} | "error""#);
}

#[test]
fn filter_mode_keeps_when_truthy() {
    let f = validate_filter(r#"select(.level=="error")"#).unwrap();
    let raw = r#"{"level":"error","msg":"boom"}"#;
    let out = jq_evaluate(Ok(json_ev(raw, false)), &f, QueryMode::Filter).unwrap().unwrap();
    assert_eq!(&*out.message, raw);
    let again = jq_evaluate(Ok(json_ev(raw, true)), &f.clone(), QueryMode::Filter);
    assert_eq!(&*again.unwrap().unwrap().message, raw);
}

#[test]
fn filter_mode_drops_when_falsy_or_null() {
    let f = validate_filter(r#"select(.level=="error")"#).unwrap();
    let raw = r#"{"level":"info"}"#;
    assert!(jq_evaluate(Ok(json_ev(raw, false)), &f, QueryMode::Filter).is_none());
    let null = validate_filter(".missing").unwrap();
    assert!(jq_evaluate(Ok(json_ev(raw, false)), &null, QueryMode::Filter).is_none());
}

#[test]
fn jq_passes_lines_without_payload_except_through_a_filter() {
    let f = validate_filter(".level").unwrap();
    let out = jq_evaluate(Ok(ev("plain")), &f, QueryMode::Replace).unwrap().unwrap();
    assert_eq!(&*out.message, "plain");
    assert!(jq_evaluate(Ok(ev("plain")), &f, QueryMode::Filter).is_none());
    let err = jq_evaluate(Err(LogSourceError::Cancelled), &f, QueryMode::Filter);
    assert!(matches!(err, Some(Err(LogSourceError::Cancelled))));
}

fn output(kind: JqKind, text: &str) -> JqOutput {
    JqOutput { kind, text: text.to_string() }
}

#[test]
fn outputs_decide_what_becomes_of_a_line() {
    let outputs = keep_succeeded(vec![
        Some(output(JqKind::Null, "null")),
        None,
        Some(output(JqKind::Other, "1")),
    ]);
    assert_eq!(outputs.len(), 2);
    let out = apply_jq_outputs(ev("m"), &outputs, QueryMode::Replace).unwrap();
    assert_eq!(&*out.message, "null\n1");
    let out = apply_jq_outputs(ev("m"), &outputs, QueryMode::Append).unwrap();
    assert_eq!(&*out.message, "m | null\n1");
    assert!(apply_jq_outputs(ev("m"), &outputs, QueryMode::Filter).is_some());
    let falsy = vec![output(JqKind::Null, "null"), output(JqKind::Bool(false), "false")];
    assert!(apply_jq_outputs(ev("m"), &falsy, QueryMode::Filter).is_none());
}

#[test]
fn annotates_json_object_line() {
    assert!(json_ev(r#"{"a":1}"#, false).structured.is_some());
}

#[test]
fn annotates_jaq_val_when_requested() {
    assert!(matches!(json_ev(r#"{"a":1}"#, true).structured, Some(ParsedJson::Jaq(_))));
}

#[test]
fn leaves_plain_text() {
    assert!(json_ev("hello", false).structured.is_none());
    assert!(json_ev("[1]", false).structured.is_none());
    assert!(json_ev("{broken", true).structured.is_none());
    assert!(json_ev("  {}", false).structured.is_some());
}

#[test]
fn extracts_error_level() {
    let raw = r#"{"level":"error","msg":"boom"}"#;
    let out = level_classify(Ok(json_ev(raw, false)), Some("level")).unwrap();
    assert!(matches!(out.level.unwrap(), LogLevel::Error));
}

#[test]
fn extracts_level_from_jaq_val() {
    let raw = r#"{"level":"warn","msg":"boom"}"#;
    let out = level_classify(Ok(json_ev(raw, true)), Some("level")).unwrap();
    assert!(matches!(out.level.unwrap(), LogLevel::Warn));
}

#[test]
fn preserves_unknown_level_token() {
    let raw = r#"{"level":"notice","msg":"hey"}"#;
    let out = level_classify(Ok(json_ev(raw, false)), Some("level")).unwrap();
    assert!(matches!(out.level.unwrap(), LogLevel::Other(s) if s == "notice"));
}

#[test]
fn original_without_exit_runs_include_before_container() {
    let order = PipelineStageOrder::resolve(FilterOn::Original, false, false);
    assert!(order.include_before_container);
    assert!(!order.include_after_transform);
    assert!(!order.exit_on_message_before_filters);
}

#[test]
fn original_exit_on_message_runs_before_filters() {
    let order = PipelineStageOrder::resolve(FilterOn::Original, true, false);
    assert!(order.exit_on_message_before_filters);
    assert!(order.include_before_container);
    assert!(!order.include_after_transform);
}

#[test]
fn original_exit_on_level_defers_include_until_after_transform() {
    let order = PipelineStageOrder::resolve(FilterOn::Original, false, true);
    assert!(!order.include_before_container);
    assert!(order.include_after_transform);
}

#[test]
fn original_both_exit_triggers_defer_include() {
    let order = PipelineStageOrder::resolve(FilterOn::Original, true, true);
    assert!(order.exit_on_message_before_filters);
    assert!(!order.include_before_container);
    assert!(order.include_after_transform);
}

#[test]
fn transformed_always_defers_include_and_places_message_exit_after_container() {
    let order = PipelineStageOrder::resolve(FilterOn::Transformed, true, true);
    assert!(!order.exit_on_message_before_filters);
    assert!(!order.include_before_container);
    assert!(order.include_after_transform);
}

#[test]
fn rejects_oversized_pattern() {
    let long = "a".repeat(MAX_USER_REGEX_PATTERN_LEN + 1);
    let err = compile_user_regex("--include", &long).err().unwrap();
    assert!(err.contains("exceeds"));
    assert_eq!(err, "--include: pattern exceeds 1024 characters");
}

#[test]
fn accepts_normal_pattern() {
    assert!(compile_user_regex("--include", "error|warn").is_ok());
    let err = compile_user_regex("--include", "(").err().unwrap();
    assert!(err.starts_with("invalid --include regex: "));
}

#[test]
fn precomputed_jaq_keys_match_dot_path_lookup() {
    let parsed = json_ev(r#"{"meta":{"level":"warn"}}"#, true).structured.unwrap();
    let keys = jaq_dot_path_keys("meta.level");
    assert_eq!(
        parsed.level_str_at_dot_path("meta.level"),
        parsed.level_str_at_dot_path_with_serde_pointer("meta.level", None, Some(&keys))
    );
    assert_eq!(parsed.level_str_at_dot_path("meta.level").as_deref(), Some("warn"));
}

#[test]
fn precomputed_jaq_keys_preserve_empty_segment_behavior() {
    let parsed = json_ev(r#"{"meta":{"level":"warn"}}"#, true).structured.unwrap();
    let keys = jaq_dot_path_keys(".meta..level.");
    assert_eq!(
        parsed.level_str_at_dot_path(".meta..level."),
        parsed.level_str_at_dot_path_with_serde_pointer(".meta..level.", None, Some(&keys))
    );
}

#[test]
fn precomputed_pointer_matches_dot_path_lookup() {
    let parsed = json_ev(r#"{"meta":{"a/b":"warn"}}"#, false).structured.unwrap();
    let pointer = json_pointer_from_dot_path("meta.a/b");
    assert_eq!(pointer, "/meta/a~1b");
    assert_eq!(parsed.level_str_at_dot_path("meta.a/b").as_deref(), Some("warn"));
    assert_eq!(
        parsed.level_str_at_dot_path_with_serde_pointer("meta.a/b", Some(&pointer), None).as_deref(),
        Some("warn")
    );
}

#[test]
fn payloads_convert_both_ways() {
    let serde = json_ev(r#"{"a":"x"}"#, false).structured.unwrap();
    let jaq = ParsedJson::Jaq(serde.to_jaq_val().unwrap());
    assert_eq!(jaq.level_str_at_dot_path("a").as_deref(), Some("x"));
    let back = ParsedJson::Serde(jaq.to_serde_value());
    assert_eq!(back.level_str_at_dot_path("a").as_deref(), Some("x"));
}

fn spec_with_exit_on(exit_on: &str) -> PipelineSpec {
    PipelineSpecBuilder::new()
        .with_includes(vec![re("visible")])
        .with_exit_on(vec![re(exit_on)])
        .build(ExitWatchState::new())
}

#[test]
fn triggered_reflects_exit_on_via_apply() {
    let mut spec = spec_with_exit_on("secret");
    assert!(spec.apply(Ok(ev("secret hidden line"))).is_none());
    assert!(spec.triggered());
}

#[test]
fn triggered_false_when_exit_on_does_not_match() {
    let mut spec = spec_with_exit_on("secret");
    assert!(spec.apply(Ok(ev("visible line"))).is_some());
    assert!(!spec.triggered());
}

#[test]
fn exit_on_level_triggers_via_builder_and_apply() {
    let raw = r#"{"level":"error","msg":"boom"}"#;
    let mut spec = PipelineSpecBuilder::new()
        .with_level_key(Some("level".into()))
        .with_exit_on_level(Some(ExitOnLevel::Warn))
        .build(ExitWatchState::new());
    let out = spec.apply(Ok(json_ev(raw, false))).unwrap().unwrap();
    assert!(matches!(out.level, Some(LogLevel::Error)));
    assert!(spec.triggered());
}

#[test]
fn transformed_filters_look_at_the_rewritten_message() {
    let raw = r#"{"level":"error","msg":"boom"}"#;
    let mut spec = PipelineSpecBuilder::new()
        .with_includes(vec![re("^\"boom\"$")])
        .with_filter_on(FilterOn::Transformed)
        .with_jq(Some((validate_filter(".msg").unwrap(), QueryMode::Replace)))
        .with_color_assign(ALL_COLORS)
        .build(ExitWatchState::new());
    let out = spec.apply(Ok(ev(raw))).unwrap().unwrap();
    assert_eq!(&*out.message, "\"boom\"");
    assert!(out.palette_index.is_some());
    assert!(spec.apply(Ok(ev(r#"{"msg":"other"}"#))).is_none());
}

#[test]
fn empty_pipeline_hands_lines_on() {
    let mut spec = PipelineSpecBuilder::new()
        .with_excludes(Vec::new())
        .build(ExitWatchState::new());
    let out = spec.apply(Ok(ev("as it is"))).unwrap().unwrap();
    assert_eq!(&*out.message, "as it is");
    assert!(out.palette_index.is_none() && out.level.is_none() && out.structured.is_none());
    assert!(matches!(spec.apply(Err(LogSourceError::Eof)), Some(Err(LogSourceError::Eof))));
    assert!(!spec.triggered());
}
