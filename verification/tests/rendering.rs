//! Output lines.

use std::sync::Arc;

use rustern_core::format_display::{TimestampStyle, TimestampZone};
use rustern_core::pipeline::ColorAssignOpts;
use rustern_core::render::color::{color_of_slot, colorize};
use rustern_core::render::default_renderer::{format_wall_prefix, DefaultLineFormatter};
use rustern_core::render::ext_json_renderer::ExtJsonLineFormatter;
use rustern_core::render::highlight::{
    compile_stern_highlight_regex, highlight_alternation, highlight_default_line,
    SternHighlightLineFormatter,
};
use rustern_core::render::json_renderer::JsonLineFormatter;
use rustern_core::render::raw_renderer::RawLineFormatter;
use rustern_core::render::setup::{
    build_line_formatter, color_assign_opts, BuiltFormatter, RenderSetupError,
};
use rustern_core::render::{render_step, LineFormatter, RenderAction, RenderCommand};
use rustern_core::source::{
    ContextName, EventTime, Labels, LogEvent, LogLevel, SourceKind, SourceMeta,
};
use rustern_core::regex_limits::to_positions;
use rustern_core::{compile_user_regex, FormatterChoice};
use serde_json::Value;

fn ev() -> LogEvent {
    LogEvent {
        source: Arc::new(SourceMeta {
            context: ContextName("c".into()),
            namespace: "ns".into(),
            pod: "p".into(),
            container: "ctn".into(),
            kind: SourceKind::PodLog,
            node: None,
            labels: Arc::new(Labels::default()),
            uid: "uid-1".into(),
            palette_index: None,
            container_palette_index: None,
        }),
        timestamp: EventTime { secs: 1_718_452_800, nanos: 0 },
        message: Arc::from("hello"),
        structured: None,
        level: None,
        palette_index: None,
        container_palette_index: None,
    }
}

fn formatter(color_enabled: bool) -> DefaultLineFormatter {
    DefaultLineFormatter {
        timestamp_style: TimestampStyle::Omit,
        timestamp_zone: TimestampZone::Utc,
        color_enabled,
        pod_colors: true,
        container_colors: true,
    }
}

#[test]
fn formats_prefix_and_message_no_color() {
    assert_eq!(formatter(false).format_line(&ev()), "p/ctn | hello\n");
}

#[test]
fn colors_pod_and_container_when_indices_set() {
    let mut e = ev();
    e.palette_index = Some(0);
    e.container_palette_index = Some(1);
    let out = formatter(true).format_line(&e);
    assert!(out.contains('\x1b'), "expected ANSI escapes");
    assert!(out.contains("hello"));
    assert!(out.contains('/'));
    assert_eq!(
        out,
        "\x1b[38;2;255;99;71mp\x1b[39m/\x1b[38;2;60;179;113mctn\x1b[39m | hello\n"
    );
}

#[test]
fn pod_only_colors_pod_segment() {
    let mut e = ev();
    e.palette_index = Some(0);
    e.container_palette_index = Some(1);
    let f = DefaultLineFormatter { pod_colors: true, container_colors: false, ..formatter(true) };
    let out = f.format_line(&e);
    let slash = out.find('/').expect("pod/container separator");
    let container_part = &out[slash + 1..];
    let container_end = container_part.find(" | ").expect("message separator");
    assert!(out[..slash].contains('\x1b'), "pod segment should be colored");
    assert!(
        !container_part[..container_end].contains('\x1b'),
        "container segment should be plain"
    );
    assert!(out.contains("hello"));
}

#[test]
fn palette_starts_over() {
    assert_eq!(color_of_slot(8), color_of_slot(0));
    assert_eq!(color_of_slot(7), (255, 192, 203));
    assert_eq!(color_of_slot(15), (255, 192, 203));
    assert_eq!(colorize("x", Some(2), false), "x");
    assert_eq!(colorize("x", None, true), "x");
}

#[test]
fn times_stand_in_front_of_the_line() {
    let line = |style, zone| {
        let f = DefaultLineFormatter {
            timestamp_style: style,
            timestamp_zone: zone,
            ..formatter(false)
        };
        f.format_line(&ev())
    };
    assert_eq!(
        line(TimestampStyle::EpochSeconds, TimestampZone::Utc),
        "1718452800 p/ctn | hello\n"
    );
    assert_eq!(
        line(TimestampStyle::Rfc3339, TimestampZone::Utc),
        "2024-06-15T12:00:00.000000000+00:00 p/ctn | hello\n"
    );
    assert_eq!(
        line(TimestampStyle::SternShort, TimestampZone::Utc),
        "06-15 12:00:00 p/ctn | hello\n"
    );
    let berlin = || TimestampZone::parse_arg("Europe/Berlin").unwrap();
    assert_eq!(
        line(TimestampStyle::Rfc3339, berlin()),
        "2024-06-15T14:00:00.000000000+02:00 p/ctn | hello\n"
    );
    assert_eq!(line(TimestampStyle::SternShort, berlin()), "06-15 14:00:00 p/ctn | hello\n");
    let local = line(TimestampStyle::Rfc3339, TimestampZone::Local);
    assert!(local.ends_with(" p/ctn | hello\n") && local.len() == 50);
    let local = line(TimestampStyle::SternShort, TimestampZone::Local);
    assert!(local.ends_with(" p/ctn | hello\n") && local.len() == 29);
}

#[test]
fn zones_are_parsed() {
    assert!(matches!(TimestampZone::parse_arg(" UTC "), Ok(TimestampZone::Utc)));
    assert!(matches!(TimestampZone::parse_arg("local"), Ok(TimestampZone::Local)));
    assert_eq!(TimestampZone::parse_arg("  ").err().unwrap(), "empty --timezone");
    assert_eq!(
        TimestampZone::parse_arg("Nowhere/Land").err().unwrap(),
        "invalid --timezone (Nowhere/Land)"
    );
}

#[test]
fn times_outside_the_range_are_told_apart() {
    assert!(ev().timestamp.is_valid());
    assert!(EventTime { secs: -1, nanos: 0 }.is_valid());
    assert!(EventTime { secs: 59, nanos: 1_500_000_000 }.is_valid());
    assert!(!EventTime { secs: 58, nanos: 1_500_000_000 }.is_valid());
    assert!(EventTime { secs: -1, nanos: 1_500_000_000 }.is_valid());
    assert!(!EventTime { secs: 0, nanos: 2_000_000_000 }.is_valid());
    assert!(!EventTime { secs: i64::MAX, nanos: 0 }.is_valid());
    assert!(!EventTime { secs: i64::MIN, nanos: 0 }.is_valid());
}

#[test]
fn render_task_writes_lines_and_flush_on_shutdown() {
    let f = formatter(false);
    match render_step(&f, Some(&RenderCommand::Line(ev()))) {
        RenderAction::Write(line) => assert_eq!(line, "p/ctn | hello\n"),
        other => panic!("expected a line, got {other:?}"),
    }
    assert!(matches!(render_step(&f, Some(&RenderCommand::Flush)), RenderAction::Flush));
    assert!(matches!(
        render_step(&f, Some(&RenderCommand::Shutdown)),
        RenderAction::FlushAndStop
    ));
    assert!(matches!(render_step(&f, None), RenderAction::FlushAndStop));
}

fn sample_event(message: &str) -> LogEvent {
    let mut labels = Labels::default();
    labels.insert("app".into(), "web".into());
    let mut e = ev();
    e.source = Arc::new(SourceMeta {
        context: ContextName("ctx".into()),
        namespace: "production".into(),
        pod: "web-abc".into(),
        container: "app".into(),
        kind: SourceKind::PodLog,
        node: Some("node-1".into()),
        labels: Arc::new(labels),
        uid: "uid-1".into(),
        palette_index: None,
        container_palette_index: None,
    });
    e.message = Arc::from(message);
    e.level = Some(LogLevel::Info);
    e.palette_index = Some(2);
    e
}

fn ext_formatter(all_namespaces: bool, pretty: bool) -> ExtJsonLineFormatter {
    ExtJsonLineFormatter { color_enabled: false, all_namespaces, pretty }
}

#[test]
fn extjson_compact_has_stern_core_keys_and_extensions() {
    let f = ext_formatter(false, false);
    let s = f.format_line(&sample_event("plain log"));
    let v: Value = serde_json::from_str(s.trim()).unwrap();
    assert_eq!(v["pod"], "web-abc");
    assert_eq!(v["container"], "app");
    assert_eq!(v["message"], "plain log");
    assert_eq!(v["timestamp"], "2024-06-15T12:00:00+00:00");
    assert_eq!(v["node"], "node-1");
    assert_eq!(v["labels"]["app"], "web");
    assert_eq!(v["level"], "Info");
    assert!(v.get("namespace").is_none());
    assert!(s.ends_with('\n'));
    assert_eq!(s.matches('\n').count(), 1);
}

#[test]
fn extjson_includes_namespace_when_all_namespaces() {
    let f = ext_formatter(true, false);
    let s = f.format_line(&sample_event("x"));
    let v: Value = serde_json::from_str(s.trim()).unwrap();
    assert_eq!(v["namespace"], "production");
}

#[test]
fn extjson_embeds_json_message_inline() {
    let f = ext_formatter(false, false);
    let s = f.format_line(&sample_event(r#"{"level":"error","msg":"boom"}"#));
    let v: Value = serde_json::from_str(s.trim()).unwrap();
    assert_eq!(v["message"]["level"], "error");
    assert_eq!(v["message"]["msg"], "boom");
}

#[test]
fn ppextjson_is_pretty_printed() {
    let f = ext_formatter(false, true);
    let s = f.format_line(&sample_event("hello"));
    assert!(s.starts_with("{\n"));
    assert!(s.contains("\n  \"pod\""));
    assert!(s.ends_with("\n}\n"));
    let v: Value = serde_json::from_str(s.trim()).unwrap();
    assert_eq!(v["message"], "hello");
}

#[test]
fn color_enabled_wraps_pod_and_container() {
    let f = ExtJsonLineFormatter { color_enabled: true, all_namespaces: false, pretty: false };
    let s = f.format_line(&sample_event("x"));
    let v: Value = serde_json::from_str(s.trim()).unwrap();
    let pod = v["pod"].as_str().unwrap();
    assert!(pod.contains("\u{1b}["), "expected ANSI color in pod field");
    assert_eq!(pod, "\u{1b}[38;2;100;149;237mweb-abc\u{1b}[39m");
}

#[test]
fn extjson_trims_line_feeds_of_the_message() {
    let f = ext_formatter(false, false);
    let s = f.format_line(&sample_event("[1]\n\n"));
    let v: Value = serde_json::from_str(s.trim()).unwrap();
    assert_eq!(v["message"][0], 1);
    let s = f.format_line(&sample_event("two\nlines\n"));
    let v: Value = serde_json::from_str(s.trim()).unwrap();
    assert_eq!(v["message"], "two\nlines");
}

#[test]
fn extjson_reads_back_without_optional_members() {
    let s = ext_formatter(false, false).format_line(&ev());
    let v: Value = serde_json::from_str(s.trim()).unwrap();
    assert!(v.get("node").is_none() && v.get("labels").is_none() && v.get("level").is_none());
}

#[test]
fn ndjson_has_required_keys() {
    let mut e = ev();
    e.message = Arc::from("hi");
    e.level = Some(LogLevel::Error);
    let s = JsonLineFormatter.format_line(&e);
    let v: Value = serde_json::from_str(s.trim()).unwrap();
    assert_eq!(v["pod"], "p");
    assert_eq!(v["container"], "ctn");
    assert_eq!(v["namespace"], "ns");
    assert_eq!(v["message"], "hi");
    assert!(v.get("timestamp").is_some());
    assert!(v.get("level").is_some());
    assert!(s.ends_with('\n'));
    assert_eq!(
        s,
        "{\"pod\":\"p\",\"container\":\"ctn\",\"namespace\":\"ns\",\
         \"timestamp\":\"2024-06-15T12:00:00+00:00\",\"message\":\"hi\",\"level\":\"Error\"}\n"
    );
}

#[test]
fn ndjson_escapes_messages() {
    let mut e = ev();
    e.message = Arc::from("a\"b\\c\n\u{1}");
    let s = JsonLineFormatter.format_line(&e);
    assert!(s.contains(r#""message":"a\"b\\c\n\u0001""#));
    assert!(!s.contains("level"));
}

#[test]
fn raw_is_message_only() {
    let mut e = ev();
    e.message = Arc::from("plain");
    assert_eq!(RawLineFormatter.format_line(&e), "plain\n");
}

#[test]
fn merges_include_and_highlight_branches_sorted() {
    let re = compile_stern_highlight_regex(
        &vec!["foobar".into(), "a".into()],
        &vec!["zzz".into()],
    )
    .unwrap()
    .expect("combined pattern");
    assert_ne!(highlight_default_line("foobar", &re), "foobar");
    assert_eq!(re.as_str(), "(foobar|zzz|a)");

    let out = highlight_default_line("- foobar!", &re);
    assert!(out.contains("foobar"));
    assert!(out.starts_with('-'));
    assert!(out.contains('\x1b'));
    assert!(!out.ends_with('-'), "prefix before match should survive: {out:?}");
    assert_eq!(out, "- \x1b[1m\x1b[31mfoobar\x1b[39m\x1b[0m!");
}

#[test]
fn equally_long_branches_keep_their_order() {
    let all = highlight_alternation(
        &vec![" bb ".into(), "".into(), "é".into()],
        &vec!["cc".into(), "ddd".into()],
    );
    assert_eq!(all.as_deref(), Some("(ddd|bb|é|cc)"));
    assert!(highlight_alternation(&vec!["  ".into()], &Vec::new()).is_none());
    assert!(compile_stern_highlight_regex(&Vec::new(), &Vec::new()).unwrap().is_none());
    assert!(compile_stern_highlight_regex(&vec!["(".into()], &Vec::new()).is_err());
}

#[test]
fn emphasis_counts_characters() {
    let re = compile_stern_highlight_regex(&vec!["ü".into()], &Vec::new()).unwrap().unwrap();
    let out = highlight_default_line("grün über", &re);
    assert_eq!(
        out,
        "gr\x1b[1m\x1b[31mü\x1b[39m\x1b[0mn \x1b[1m\x1b[31mü\x1b[39m\x1b[0mber"
    );
    assert_eq!(highlight_default_line("plain", &re), "plain");
}

#[test]
fn highlight_wraps_another_formatter() {
    let re = compile_stern_highlight_regex(&vec!["hello".into()], &Vec::new()).unwrap().unwrap();
    let f = SternHighlightLineFormatter::new(formatter(false), re);
    assert_eq!(f.format_line(&ev()), "p/ctn | \x1b[1m\x1b[31mhello\x1b[39m\x1b[0m\n");
}

fn default_choice() -> FormatterChoice {
    FormatterChoice::Default {
        timestamp_style: TimestampStyle::Omit,
        timestamp_zone: TimestampZone::Utc,
        color_enabled: false,
        pod_colors: true,
        container_colors: false,
    }
}

#[test]
fn only_the_default_formatter_is_highlighted() {
    let wanted = vec!["hello".to_string()];
    let built = build_line_formatter(&default_choice(), &wanted, &Vec::new()).unwrap();
    assert!(matches!(built, BuiltFormatter::Highlighted(_)));
    assert!(built.format_line(&ev()).contains("\x1b[31mhello"));
    let built = build_line_formatter(&default_choice(), &Vec::new(), &Vec::new()).unwrap();
    assert!(matches!(built, BuiltFormatter::Plain(_)));
    let built = build_line_formatter(&FormatterChoice::Raw, &wanted, &Vec::new()).unwrap();
    assert_eq!(built.format_line(&ev()), "hello\n");
    let bad = vec!["(".to_string()];
    assert!(build_line_formatter(&FormatterChoice::Json, &bad, &Vec::new()).is_ok());
    let err = build_line_formatter(&default_choice(), &bad, &Vec::new()).err().unwrap();
    assert!(err.message().starts_with("invalid highlight/include regex: "));
    assert!(matches!(err, RenderSetupError::HighlightRegex(_)));
}

#[test]
fn formatter_choices_are_built() {
    let none: Vec<String> = Vec::new();
    let line = |choice: &FormatterChoice| {
        build_line_formatter(choice, &none, &none).unwrap().format_line(&sample_event("x"))
    };
    assert!(line(&FormatterChoice::Json).starts_with("{\"pod\":\"web-abc\""));
    let ext = line(&FormatterChoice::ExtJson { all_namespaces: true });
    assert!(ext.contains("\"namespace\":\"production\"") && !ext.contains("\\u001b"));
    let pretty = line(&FormatterChoice::PpExtJson { all_namespaces: false });
    assert!(pretty.starts_with("{\n  \"container\": \"app\""));
}

#[test]
fn palette_applies_to_the_default_formatter_only() {
    assert_eq!(
        color_assign_opts(&default_choice(), true),
        ColorAssignOpts { pod_colors: true, container_colors: false, diff_container: true }
    );
    assert_eq!(
        color_assign_opts(&FormatterChoice::Json, true),
        ColorAssignOpts { pod_colors: false, container_colors: false, diff_container: false }
    );
}

#[test]
fn byte_offsets_become_character_positions() {
    assert_eq!(to_positions("grün über", &vec![(2, 4), (6, 8)]), vec![(2, 3), (5, 6)]);
    assert_eq!(to_positions("€𝄞x", &vec![(0, 3), (3, 7), (7, 8)]), vec![(0, 1), (1, 2), (2, 3)]);
    assert_eq!(to_positions("", &vec![(0, 0)]), vec![(0, 0)]);
    let re = compile_user_regex("highlight", "x*").unwrap();
    assert_eq!(re.find_stretches("éx"), vec![(0, 0), (1, 2)]);
    assert!(compile_user_regex("highlight", "b").unwrap().find_stretches("éx").is_empty());
}

#[test]
fn stamps_have_nanosecond_precision() {
    let t = EventTime { secs: 1_710_498_645, nanos: 0 };
    let utc = TimestampZone::Utc;
    assert_eq!(
        format_wall_prefix(t, TimestampStyle::Rfc3339, &utc).as_deref(),
        Some("2024-03-15T10:30:45.000000000+00:00")
    );
    let t = EventTime { secs: 1_710_498_645, nanos: 120_000_000 };
    assert_eq!(
        format_wall_prefix(t, TimestampStyle::Rfc3339, &utc).as_deref(),
        Some("2024-03-15T10:30:45.120000000+00:00")
    );
    assert!(format_wall_prefix(t, TimestampStyle::Omit, &utc).is_none());
}

#[test]
fn local_stamps_tell_the_instant() {
    let t = EventTime { secs: 1_710_498_645, nanos: 120_000_000 };
    let shown = format_wall_prefix(t, TimestampStyle::Rfc3339, &TimestampZone::Local).unwrap();
    let read = chrono::DateTime::parse_from_rfc3339(&shown).unwrap();
    assert_eq!((read.timestamp(), read.timestamp_subsec_nanos()), (t.secs, t.nanos));
    let short = format_wall_prefix(t, TimestampStyle::SternShort, &TimestampZone::Local).unwrap();
    assert_eq!(short, read.format("%m-%d %H:%M:%S").to_string());
}
