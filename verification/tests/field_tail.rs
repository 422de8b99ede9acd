use tracing_glog::fields::{Field, FieldValue, GlogFields, GlogVisitor};

fn str_field(name: &str, value: &str) -> Field {
    Field { name: String::from(name), value: FieldValue::Str(String::from(value)) }
}

fn debug_field(name: &str, value: &str) -> Field {
    Field { name: String::from(name), value: FieldValue::Debugged(String::from(value)) }
}

fn error_field(name: &str, message: &str, sources: Vec<&str>) -> Field {
    Field {
        name: String::from(name),
        value: FieldValue::Error {
            message: String::from(message),
            sources: sources.into_iter().map(String::from).collect(),
        },
    }
}

#[test]
fn string_field_quoted_by_default() {
    let fmt = GlogFields::default();
    let tail = fmt.format_fields(&vec![str_field("name", "hi there")]);
    assert_eq!(tail, "name: \"hi there\"");
}

#[test]
fn string_field_bare_when_quoting_disabled() {
    let fmt = GlogFields::default().should_quote_strings(false);
    let tail = fmt.format_fields(&vec![str_field("name", "hi there")]);
    assert_eq!(tail, "name: hi there");
}

#[test]
fn quoting_escapes_quotes_and_backslashes() {
    let fmt = GlogFields::default();
    let tail = fmt.format_fields(&vec![str_field("path", "a\"b\\c")]);
    assert_eq!(tail, "path: \"a\\\"b\\\\c\"");
}

#[test]
fn compact_drops_quotes_and_whitespace() {
    let fmt = GlogFields::default().compact();
    let tail = fmt.format_fields(&vec![str_field("name", "hi"), debug_field("n", "4")]);
    assert_eq!(tail, "name:hi, n:4");
}

#[test]
fn field_order_is_preserved() {
    let fmt = GlogFields::default();
    let tail = fmt.format_fields(&vec![
        debug_field("a", "1"),
        debug_field("b", "2"),
        debug_field("c", "3"),
    ]);
    assert_eq!(tail, "a: 1, b: 2, c: 3");
}

#[test]
fn duplicate_fields_are_not_deduplicated() {
    let fmt = GlogFields::default();
    let tail = fmt.format_fields(&vec![debug_field("a", "1"), debug_field("a", "1")]);
    assert_eq!(tail, "a: 1, a: 1");
}

#[test]
fn message_renders_first_wherever_declared() {
    let fmt = GlogFields::default();
    let tail = fmt.format_fields(&vec![
        debug_field("a", "1"),
        str_field("message", "the event"),
        debug_field("b", "2"),
    ]);
    assert_eq!(tail, "the event, a: 1, b: 2");
}

#[test]
fn message_is_never_quoted() {
    let fmt = GlogFields::default();
    let tail = fmt.format_fields(&vec![str_field("message", "hi there")]);
    assert_eq!(tail, "hi there");
}

#[test]
fn metadata_fields_are_dropped_without_separator() {
    let fmt = GlogFields::default();
    let tail = fmt.format_fields(&vec![
        debug_field("log.target", "noise"),
        debug_field("a", "1"),
        debug_field("log.module_path", "noise"),
        debug_field("b", "2"),
    ]);
    assert_eq!(tail, "a: 1, b: 2");
}

#[test]
fn raw_identifier_labels_lose_their_marker() {
    let fmt = GlogFields::default();
    let tail = fmt.format_fields(&vec![debug_field("r#type", "thing")]);
    assert_eq!(tail, "type: thing");
}

#[test]
fn error_with_two_causes_lists_them_innermost_outward() {
    let fmt = GlogFields::default();
    let tail = fmt.format_fields(&vec![error_field("error", "outer", vec!["mid", "root"])]);
    assert_eq!(tail, "error: outer, error.sources: [mid, root]");
}

#[test]
fn error_without_causes_shows_its_text_alone() {
    let fmt = GlogFields::default();
    let tail = fmt.format_fields(&vec![error_field("error", "out of cash", vec![])]);
    assert_eq!(tail, "error: out of cash");
}

#[test]
fn empty_field_list_renders_nothing() {
    let fmt = GlogFields::default();
    let tail = fmt.format_fields(&vec![]);
    assert_eq!(tail, "");
}

#[test]
fn visitor_steps_match_declaration_order() {
    let fmt = GlogFields::default();
    let mut visitor: GlogVisitor = fmt.make_visitor();
    visitor.record_str("message", "go");
    visitor.record_debug("n", "1");
    visitor.record_error("error", "bad", &vec![String::from("worse")]);
    let tail = visitor.finish();
    assert_eq!(tail, "go, n: 1, error: bad, error.sources: [worse]");
}
