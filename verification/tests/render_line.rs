use tracing_glog::clock::{ClockParts, Timer};
use tracing_glog::fields::{Field, FieldValue, GlogFields};
use tracing_glog::level::Severity;
use tracing_glog::process::PathMode;
use tracing_glog::span_context::SpanEntry;
use tracing_glog::{Event, FormatError, Glog};

fn clock(month: u8, day: u8, hour: u8, minute: u8, second: u8, microsecond: u32) -> ClockParts {
    ClockParts { month, day, hour, minute, second, microsecond }
}

fn str_field(name: &str, value: &str) -> Field {
    Field { name: String::from(name), value: FieldValue::Str(String::from(value)) }
}

fn debug_field(name: &str, value: &str) -> Field {
    Field { name: String::from(name), value: FieldValue::Debugged(String::from(value)) }
}

#[test]
fn yak_shave_example_line() {
    let glog = Glog::default();
    let fields_fmt = GlogFields::default();
    let event = Event {
        severity: Severity::Info,
        target: String::from("yak_shave"),
        file: Some(String::from("examples/yak.rs")),
        line: Some(34),
        fields: vec![
            str_field("message", "preparing to shave yaks"),
            debug_field("number_of_yaks", "3"),
        ],
    };
    let spans: Vec<SpanEntry> = vec![];
    let now = clock(1, 1, 0, 0, 0, 0);
    let line = glog.format_event_at(&fields_fmt, &event, &spans, &now, 1234, &None);
    assert_eq!(
        line,
        "I0101 00:00:00.000000  1234 examples/yak.rs:34] preparing to shave yaks, number_of_yaks: 3\n"
    );
}

#[test]
fn rendering_twice_is_byte_identical() {
    let glog = Glog::default();
    let fields_fmt = GlogFields::default();
    let event = Event {
        severity: Severity::Warn,
        target: String::from("app"),
        file: Some(String::from("src/main.rs")),
        line: Some(7),
        fields: vec![str_field("message", "careful"), debug_field("count", "2")],
    };
    let spans = vec![SpanEntry {
        name: String::from("job"),
        fields: String::from("id: 9"),
    }];
    let now = clock(12, 31, 23, 59, 59, 999999);
    let first = glog.format_event_at(&fields_fmt, &event, &spans, &now, 42, &None);
    let second = glog.format_event_at(&fields_fmt, &event, &spans, &now, 42, &None);
    assert_eq!(first, second);
}

#[test]
fn line_ends_with_exactly_one_terminator() {
    let glog = Glog::default().with_target(true).with_thread_names(true);
    let fields_fmt = GlogFields::default();
    let event = Event {
        severity: Severity::Error,
        target: String::from("srv"),
        file: None,
        line: None,
        fields: vec![str_field("message", "boom")],
    };
    let spans = vec![SpanEntry {
        name: String::from("req"),
        fields: String::new(),
    }];
    let now = clock(6, 5, 4, 3, 2, 1);
    let thread = Some(String::from("worker"));
    let line = glog.format_event_at(&fields_fmt, &event, &spans, &now, 99, &thread);
    assert!(line.ends_with('\n'));
    assert_eq!(line.matches('\n').count(), 1);
}

#[test]
fn span_context_with_names_and_fields() {
    let glog = Glog::default();
    let fields_fmt = GlogFields::default();
    let event = Event {
        severity: Severity::Info,
        target: String::from("yak_shave"),
        file: Some(String::from("examples/yak.rs")),
        line: Some(75),
        fields: vec![str_field("message", "shaving yaks")],
    };
    let spans = vec![SpanEntry {
        name: String::from("shaving_yaks"),
        fields: String::from("yaks: 3"),
    }];
    let now = clock(12, 1, 1, 13, 4, 724948);
    let line = glog.format_event_at(&fields_fmt, &event, &spans, &now, 1025672, &None);
    assert_eq!(
        line,
        "I1201 01:13:04.724948 1025672 examples/yak.rs:75] [shaving_yaks{yaks: 3}] shaving yaks\n"
    );
}

#[test]
fn nested_spans_join_with_comma() {
    let glog = Glog::default();
    let fields_fmt = GlogFields::default();
    let event = Event {
        severity: Severity::Warn,
        target: String::from("yak_shave"),
        file: Some(String::from("examples/yak.rs")),
        line: Some(56),
        fields: vec![str_field("message", "could not locate yak")],
    };
    let spans = vec![
        SpanEntry { name: String::from("shaving_yaks"), fields: String::from("yaks: 3") },
        SpanEntry { name: String::from("shave"), fields: String::from("yak: 3") },
    ];
    let now = clock(12, 1, 1, 13, 4, 725071);
    let line = glog.format_event_at(&fields_fmt, &event, &spans, &now, 1025672, &None);
    assert_eq!(
        line,
        "W1201 01:13:04.725071 1025672 examples/yak.rs:56] [shaving_yaks{yaks: 3}, shave{yak: 3}] could not locate yak\n"
    );
}

#[test]
fn span_names_suppressed_flattens_fields() {
    let glog = Glog::default().with_span_names(false);
    let fields_fmt = GlogFields::default();
    let event = Event {
        severity: Severity::Info,
        target: String::from("app"),
        file: Some(String::from("examples/tokio.rs")),
        line: Some(38),
        fields: vec![str_field("message", "polling subtask"), debug_field("number", "10")],
    };
    let spans = vec![
        SpanEntry {
            name: String::from("parent_task"),
            fields: String::from("subtasks: 10, reason: \"testing\""),
        },
        SpanEntry { name: String::from("subtask"), fields: String::from("number: 10") },
    ];
    let now = clock(7, 31, 16, 23, 45, 674465);
    let line = glog.format_event_at(&fields_fmt, &event, &spans, &now, 990039, &None);
    assert_eq!(
        line,
        "I0731 16:23:45.674465 990039 examples/tokio.rs:38] [subtasks: 10, reason: \"testing\", number: 10] polling subtask, number: 10\n"
    );
}

#[test]
fn span_group_absent_when_disabled() {
    let glog = Glog::default().with_span_context(false);
    let fields_fmt = GlogFields::default();
    let event = Event {
        severity: Severity::Info,
        target: String::from("app"),
        file: Some(String::from("a.rs")),
        line: Some(1),
        fields: vec![str_field("message", "hi")],
    };
    let spans = vec![SpanEntry {
        name: String::from("busy"),
        fields: String::from("k: 1"),
    }];
    let now = clock(1, 1, 0, 0, 0, 0);
    let line = glog.format_event_at(&fields_fmt, &event, &spans, &now, 5, &None);
    assert_eq!(line, "I0101 00:00:00.000000     5 a.rs:1] hi\n");
    assert!(!line.contains('['));
    assert_eq!(line.matches(']').count(), 1);
}

#[test]
fn span_group_absent_when_nothing_contributes() {
    let glog = Glog::default().with_span_names(false);
    let fields_fmt = GlogFields::default();
    let event = Event {
        severity: Severity::Info,
        target: String::from("app"),
        file: Some(String::from("a.rs")),
        line: Some(1),
        fields: vec![str_field("message", "hi")],
    };
    let spans = vec![
        SpanEntry { name: String::from("outer"), fields: String::new() },
        SpanEntry { name: String::from("inner"), fields: String::new() },
    ];
    let now = clock(1, 1, 0, 0, 0, 0);
    let line = glog.format_event_at(&fields_fmt, &event, &spans, &now, 5, &None);
    assert_eq!(line, "I0101 00:00:00.000000     5 a.rs:1] hi\n");
}

#[test]
fn thread_name_and_target_toggles() {
    let glog = Glog::default().with_thread_names(true).with_target(true);
    let fields_fmt = GlogFields::default();
    let event = Event {
        severity: Severity::Info,
        target: String::from("yak_shave"),
        file: Some(String::from("examples/yak-shave.rs")),
        line: Some(34),
        fields: vec![str_field("message", "ready")],
    };
    let spans: Vec<SpanEntry> = vec![];
    let now = clock(12, 1, 1, 13, 4, 724801);
    let thread = Some(String::from("main"));
    let line = glog.format_event_at(&fields_fmt, &event, &spans, &now, 1025672, &thread);
    assert_eq!(
        line,
        "I1201 01:13:04.724801 1025672 main [yak_shave] examples/yak-shave.rs:34] ready\n"
    );
}

#[test]
fn basename_mode_in_full_line() {
    let glog = Glog::default().with_path_mode(PathMode::Basename);
    let fields_fmt = GlogFields::default();
    let event = Event {
        severity: Severity::Debug,
        target: String::from("app"),
        file: Some(String::from("/a/b/c.rs")),
        line: Some(2),
        fields: vec![str_field("message", "x")],
    };
    let spans: Vec<SpanEntry> = vec![];
    let now = clock(2, 3, 4, 5, 6, 7);
    let line = glog.format_event_at(&fields_fmt, &event, &spans, &now, 1, &None);
    assert_eq!(line, "D0203 04:05:06.000007     1 c.rs:2] x\n");
}

#[test]
fn missing_file_and_line_render_empty() {
    let glog = Glog::default();
    let fields_fmt = GlogFields::default();
    let event = Event {
        severity: Severity::Trace,
        target: String::from("app"),
        file: None,
        line: None,
        fields: vec![str_field("message", "x")],
    };
    let spans: Vec<SpanEntry> = vec![];
    let now = clock(1, 1, 0, 0, 0, 0);
    let line = glog.format_event_at(&fields_fmt, &event, &spans, &now, 77, &None);
    assert_eq!(line, "T0101 00:00:00.000000    77 :] x\n");
}

#[test]
fn utc_timer_always_renders() {
    let glog = Glog::default().with_timer(Timer::Utc);
    let fields_fmt = GlogFields::default();
    let event = Event {
        severity: Severity::Info,
        target: String::from("app"),
        file: Some(String::from("a.rs")),
        line: Some(3),
        fields: vec![str_field("message", "now")],
    };
    let spans: Vec<SpanEntry> = vec![];
    let line = glog
        .format_event(&fields_fmt, &event, &spans, 4321, &None)
        .expect("UTC rendering never fails");
    assert!(line.starts_with('I'));
    assert!(line.ends_with("a.rs:3] now\n"));
    assert_eq!(line.matches('\n').count(), 1);
}

#[test]
fn local_timer_renders_or_reports_unavailable_offset() {
    let glog = Glog::default().with_timer(Timer::Local);
    let fields_fmt = GlogFields::default();
    let event = Event {
        severity: Severity::Info,
        target: String::from("app"),
        file: Some(String::from("a.rs")),
        line: Some(3),
        fields: vec![str_field("message", "now")],
    };
    let spans: Vec<SpanEntry> = vec![];
    match glog.format_event(&fields_fmt, &event, &spans, 4321, &None) {
        Ok(line) => {
            assert!(line.ends_with("a.rs:3] now\n"));
        }
        Err(e) => {
            assert_eq!(e, FormatError::LocalTimeUnavailable);
        }
    }
}
