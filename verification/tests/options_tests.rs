//! Filters and render options: parsing rules, suppression, idempotence.

use ccs::{Filter, Level, RenderOptions};

#[test]
fn filter_parses_the_accepted_forms() {
    assert!(matches!(Filter::from_str("warning=all"), Ok(Filter::AllWarnings)));
    assert!(matches!(Filter::from_str("error=all"), Ok(Filter::AllErrors)));
    match Filter::from_str("warning=unused_imports") {
        Ok(Filter::Warning(name)) => assert_eq!(name, "unused_imports"),
        _ => panic!("expected a named warning rule"),
    }
    match Filter::from_str("  error=E0308  ") {
        Ok(Filter::Error(name)) => assert_eq!(name, "E0308"),
        _ => panic!("expected a named error rule"),
    }
}

#[test]
fn filter_rejects_empty_input() {
    match Filter::from_str("   ") {
        Err(e) => assert_eq!(e, "input cannot be empty"),
        _ => panic!("expected an error"),
    }
}

#[test]
fn filter_rejects_unknown_levels() {
    match Filter::from_str("lint=thing") {
        Err(e) => assert_eq!(e, "unknown lint/level: lint=thing"),
        _ => panic!("expected an error"),
    }
}

#[test]
fn filter_rejects_empty_level() {
    match Filter::from_str("=thing") {
        Err(e) => assert_eq!(e, "\n{level}=thing: level cannot be empty"),
        _ => panic!("expected an error"),
    }
}

#[test]
fn filter_rejects_empty_lint() {
    match Filter::from_str("warning=") {
        Err(e) => assert_eq!(e, "\nwarning={lint}: lint cannot be empty"),
        _ => panic!("expected an error"),
    }
}

#[test]
fn filter_rejects_a_bare_lint() {
    match Filter::from_str("unused_imports") {
        Err(e) => assert_eq!(
            e,
            "\nexpected one of: warning | error.\ngot a lint: unused_imports"
        ),
        _ => panic!("expected an error"),
    }
}

#[test]
fn named_warning_rule_suppresses_matching_code_only() {
    let o = RenderOptions::default().without_warning("unused_variable".to_string());
    assert!(o.is_ignored(Level::Warning, Some("unused_variable")));
    assert!(o.is_ignored(Level::Warning, Some("UNUSED_VARIABLE")));
    assert!(!o.is_ignored(Level::Warning, Some("dead_code")));
    assert!(!o.is_ignored(Level::Error, Some("unused_variable")));
    assert!(!o.is_ignored(Level::Warning, None));
}

#[test]
fn blanket_rules_suppress_their_level() {
    let o = RenderOptions::default().without_errors();
    assert!(o.is_ignored(Level::Error, None));
    assert!(o.is_ignored(Level::Error, Some("anything")));
    assert!(!o.is_ignored(Level::Warning, None));
    let o = RenderOptions::default().without_warnings();
    assert!(o.is_ignored(Level::Warning, None));
    assert!(!o.is_ignored(Level::Note, None));
}

#[test]
fn without_errors_is_idempotent() {
    let once = RenderOptions::default().without_errors();
    let twice = RenderOptions::default().without_errors().without_errors();
    assert_eq!(once.filter.len(), twice.filter.len());
    assert_eq!(once.filter.len(), 1);
    assert_eq!(
        once.is_ignored(Level::Error, None),
        twice.is_ignored(Level::Error, None)
    );
    assert_eq!(
        once.is_ignored(Level::Warning, Some("x")),
        twice.is_ignored(Level::Warning, Some("x"))
    );
}

#[test]
fn named_rules_dedup_by_name() {
    let o = RenderOptions::default()
        .without_error("E0308".to_string())
        .without_error("E0308".to_string())
        .without_error("E0433".to_string());
    assert_eq!(o.filter.len(), 2);
}

#[test]
fn defaults_are_quiet() {
    let o = RenderOptions::default();
    assert!(o.filter.is_empty());
    assert!(!o.is_ignored(Level::Warning, Some("anything")));
    assert!(matches!(o.render, ccs::RenderStyle::Short));
    assert!(matches!(o.include_notes, ccs::IncludeNotes::No));
    assert!(o.continuation.is_none());
    assert!(o.delimiter.is_none());
    assert!(!o.new_line);
}
