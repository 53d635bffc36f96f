//! The stream parser: decoding, noise handling, and the emptiness filter.

use ccs::{gather_reasons, Level, Reason};

fn compiler_message_line() -> String {
    r#"{"reason":"compiler-message","message":{"message":"unused variable: `x`","level":"warning","code":{"code":"unused_variables"},"spans":[{"file_name":"src/main.rs","line_start":3,"column_start":5,"text":[{"highlight_start":9,"highlight_end":10,"text":"    let x = 1;"}]}],"children":[]}}"#.to_string()
}

#[test]
fn gather_keeps_valid_nonempty_entries_in_order() {
    let input = format!(
        "{}\nthis is not json\n{{\"reason\":\"build-finished\",\"success\":true}}\n{}",
        compiler_message_line(),
        compiler_message_line()
    );
    let reasons = gather_reasons(&input);
    assert_eq!(reasons.len(), 2);
    for reason in &reasons {
        match reason {
            Reason::CompilerMessage { message } => {
                assert_eq!(message.message, "unused variable: `x`");
                assert!(matches!(message.level, Level::Warning));
                assert_eq!(message.code.as_ref().unwrap().code, "unused_variables");
                assert_eq!(message.spans.len(), 1);
                assert_eq!(message.spans[0].file_name, "src/main.rs");
                assert_eq!(message.spans[0].line_start, 3);
                assert_eq!(message.spans[0].column_start, 5);
                assert_eq!(message.spans[0].text[0].highlight_start, 9);
                assert_eq!(message.spans[0].text[0].highlight_end, 10);
                assert_eq!(message.spans[0].text[0].text, "    let x = 1;");
            }
            _ => panic!("expected a compiler message"),
        }
    }
}

#[test]
fn gather_drops_build_finished_events() {
    let input = "{\"reason\":\"build-finished\",\"success\":true}\n{\"reason\":\"build-finished\",\"success\":false}";
    let reasons = gather_reasons(input);
    assert_eq!(reasons.len(), 0);
}

#[test]
fn gather_drops_unknown_and_empty_events() {
    let input = "{\"reason\":\"artifact\",\"target\":\"x\"}\n{\"reason\":\"compiler-message\",\"message\":{\"message\":\"m\",\"level\":\"error\",\"spans\":[],\"children\":[]}}\n{\"reason\":17}\n{}";
    let reasons = gather_reasons(input);
    assert_eq!(reasons.len(), 0);
}

#[test]
fn gather_drops_schema_violations() {
    // a span without a file name, a text with an inverted highlight range,
    // and a message without a level are all noise
    let missing_file = r#"{"reason":"compiler-message","message":{"message":"m","level":"error","spans":[{"line_start":1,"column_start":1,"text":[]}],"children":[]}}"#;
    let inverted = r#"{"reason":"compiler-message","message":{"message":"m","level":"error","spans":[{"file_name":"f","line_start":1,"column_start":1,"text":[{"highlight_start":5,"highlight_end":2,"text":"abc"}]}],"children":[]}}"#;
    let no_level = r#"{"reason":"compiler-message","message":{"message":"m","spans":[],"children":[]}}"#;
    let input = format!("{missing_file}\n{inverted}\n{no_level}");
    assert_eq!(gather_reasons(&input).len(), 0);
}

#[test]
fn gather_reads_levels_and_null_codes() {
    let line = r#"{"reason":"compiler-message","message":{"message":"m","level":"failure-note","code":null,"spans":[{"file_name":"f","line_start":1,"column_start":1,"text":[]}],"children":[]}}"#;
    let reasons = gather_reasons(line);
    assert_eq!(reasons.len(), 1);
    match &reasons[0] {
        Reason::CompilerMessage { message } => {
            assert!(matches!(message.level, Level::FailureNote));
            assert!(message.code.is_none());
        }
        _ => panic!("expected a compiler message"),
    }
}

#[test]
fn gather_reads_unknown_levels_and_children() {
    let line = r#"{"reason":"compiler-message","message":{"message":"m","level":"whatever","spans":[],"children":[{"message":"child","level":"note","spans":[],"children":[]}]}}"#;
    let reasons = gather_reasons(line);
    assert_eq!(reasons.len(), 1);
    match &reasons[0] {
        Reason::CompilerMessage { message } => {
            assert!(matches!(message.level, Level::Unknown));
            assert_eq!(message.children.len(), 1);
            assert_eq!(message.children[0].message, "child");
            assert!(matches!(message.children[0].level, Level::Note));
        }
        _ => panic!("expected a compiler message"),
    }
}

#[test]
fn reason_emptiness() {
    let ignored = gather_reasons(r#"{"reason":"artifact"}"#);
    assert!(ignored.is_empty());
    let with_spans = gather_reasons(&compiler_message_line());
    assert_eq!(with_spans.len(), 1);
    assert!(with_spans[0].is_not_empty());
    assert!(!with_spans[0].is_empty());
}

#[test]
fn gather_handles_an_empty_stream() {
    assert_eq!(gather_reasons("").len(), 0);
    assert_eq!(gather_reasons("\n\n\n").len(), 0);
}
