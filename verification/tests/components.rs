use tracing_glog::clock::{format_timestamp, ClockParts};
use tracing_glog::level::{FmtLevel, FormatLevelChars, Severity};
use tracing_glog::process::{trim_path, FormatProcessData, PathMode};
use tracing_glog::span_context::{render_span_context, FormatSpanFields, SpanEntry};
use tracing_glog::Style;

#[test]
fn default_severity_table() {
    let chars = FormatLevelChars::const_default();
    assert_eq!(chars.trace, "T");
    assert_eq!(chars.debug, "D");
    assert_eq!(chars.info, "I");
    assert_eq!(chars.warn, "W");
    assert_eq!(chars.error, "E");
}

#[test]
fn severity_renders_its_table_entry() {
    let levels = [
        (Severity::Trace, "T"),
        (Severity::Debug, "D"),
        (Severity::Info, "I"),
        (Severity::Warn, "W"),
        (Severity::Error, "E"),
    ];
    for (level, expected) in levels {
        let rendered = FmtLevel::format_level(level, FormatLevelChars::const_default(), false)
            .render();
        assert_eq!(rendered, expected);
    }
}

#[test]
fn custom_severity_table_is_respected() {
    let chars = FormatLevelChars { trace: "t", debug: "d", info: "i", warn: "w", error: "e" };
    let rendered = FmtLevel::format_level(Severity::Warn, chars, false).render();
    assert_eq!(rendered, "w");
}

#[test]
fn timestamp_pads_every_component() {
    let parts = ClockParts { month: 2, day: 3, hour: 4, minute: 5, second: 6, microsecond: 7 };
    assert_eq!(format_timestamp(&parts), "0203 04:05:06.000007");
}

#[test]
fn timestamp_keeps_wide_components() {
    let parts = ClockParts {
        month: 12,
        day: 31,
        hour: 23,
        minute: 59,
        second: 59,
        microsecond: 123456,
    };
    assert_eq!(format_timestamp(&parts), "1231 23:59:59.123456");
}

#[test]
fn path_kept_verbatim_in_full_mode() {
    assert_eq!(trim_path("/a/b/c.rs", &PathMode::Full), "/a/b/c.rs");
}

#[test]
fn basename_mode_keeps_the_last_component() {
    assert_eq!(trim_path("/a/b/c.rs", &PathMode::Basename), "c.rs");
    assert_eq!(trim_path("c.rs", &PathMode::Basename), "c.rs");
    assert_eq!(trim_path("a/b/", &PathMode::Basename), "");
    assert_eq!(trim_path("", &PathMode::Basename), "");
}

#[test]
fn matching_prefix_is_stripped() {
    let mode = PathMode::StripPrefix(String::from("/a/"));
    assert_eq!(trim_path("/a/b/c.rs", &mode), "b/c.rs");
}

#[test]
fn unmatched_prefix_falls_back_to_the_full_path() {
    let mode = PathMode::StripPrefix(String::from("/x/"));
    assert_eq!(trim_path("/a/b/c.rs", &mode), "/a/b/c.rs");
}

#[test]
fn process_block_pid_right_justified() {
    let data = FormatProcessData {
        pid: 42,
        thread_name: None,
        target: String::from("app"),
        file: Some(String::from("a.rs")),
        line: Some(9),
        with_thread_names: false,
        with_target: false,
        path_mode: PathMode::Full,
    };
    assert_eq!(data.render(), "   42 a.rs:9");
}

#[test]
fn process_block_wide_pid_is_not_truncated() {
    let data = FormatProcessData {
        pid: 1025672,
        thread_name: Some(String::from("main")),
        target: String::from("yak_shave"),
        file: Some(String::from("examples/yak-shave.rs")),
        line: Some(34),
        with_thread_names: true,
        with_target: true,
        path_mode: PathMode::Full,
    };
    assert_eq!(data.render(), "1025672 main [yak_shave] examples/yak-shave.rs:34");
}

#[test]
fn thread_name_hidden_when_disabled() {
    let data = FormatProcessData {
        pid: 1,
        thread_name: Some(String::from("main")),
        target: String::from("app"),
        file: Some(String::from("a.rs")),
        line: Some(1),
        with_thread_names: false,
        with_target: false,
        path_mode: PathMode::Full,
    };
    assert_eq!(data.render(), "    1 a.rs:1");
}

#[test]
fn span_slot_renders_name_and_braced_fields() {
    let slot = FormatSpanFields::format_fields(
        String::from("shave"),
        Some(String::from("yak: 3")),
        false,
        true,
    );
    assert_eq!(slot.render(), "shave{yak: 3}");
}

#[test]
fn span_slot_without_fields_renders_the_bare_name() {
    let slot = FormatSpanFields::format_fields(String::from("shave"), None, false, true);
    assert_eq!(slot.render(), "shave");
}

#[test]
fn span_slot_without_names_renders_the_bare_fields() {
    let slot = FormatSpanFields::format_fields(
        String::from("shave"),
        Some(String::from("yak: 3")),
        false,
        false,
    );
    assert_eq!(slot.render(), "yak: 3");
}

#[test]
fn span_group_skips_non_contributing_spans() {
    let spans = vec![
        SpanEntry { name: String::from("outer"), fields: String::new() },
        SpanEntry { name: String::from("inner"), fields: String::from("k: 1") },
    ];
    let group = render_span_context(&spans, false, false);
    assert_eq!(group.as_deref(), Some("[k: 1] "));
}

#[test]
fn span_group_is_none_when_nothing_contributes() {
    let spans = vec![
        SpanEntry { name: String::from("outer"), fields: String::new() },
        SpanEntry { name: String::from("inner"), fields: String::new() },
    ];
    assert!(render_span_context(&spans, false, false).is_none());
    let no_spans: Vec<SpanEntry> = vec![];
    assert!(render_span_context(&no_spans, true, false).is_none());
}

#[test]
fn null_style_tokens_are_empty() {
    let style = Style::new();
    assert_eq!(style.prefix(), "");
    assert_eq!(style.infix(Style::new()), "");
    assert_eq!(style.suffix(), "");
    assert_eq!(style.bold().prefix(), "");
}
