//! The plain-text extractors: the single-line form (with its styled
//! rewrite), the multi-line form, and the helpers they build on.

use ccs::{
    parse_short_line, u64_to_string, Extract, Extra, LintKind, LongParser, Short, ShortParser,
    Toolchain,
};

#[test]
fn short_line_parses_into_its_parts() {
    let line = parse_short_line("src/main.rs:3:5: warning: unused variable: `x`").unwrap();
    assert_eq!(line.path.0, "src/main.rs:3:5");
    assert!(matches!(line.kind, LintKind::Warning));
    assert_eq!(line.message.0, "unused variable: `x`");
}

#[test]
fn short_line_reads_error_codes() {
    let line = parse_short_line("a.rs:1:2: error[E0308]: mismatched types").unwrap();
    assert_eq!(line.path.0, "a.rs:1:2");
    match line.kind {
        LintKind::Error(Some(code)) => assert_eq!(code, "E0308"),
        _ => panic!("expected a coded error"),
    }
    assert_eq!(line.message.0, "mismatched types");
    let line = parse_short_line("a.rs:1:2: error: anything").unwrap();
    assert!(matches!(line.kind, LintKind::Error(None)));
}

#[test]
fn short_line_rejects_other_shapes() {
    assert!(parse_short_line("no location here").is_none());
    assert!(parse_short_line("a.rs:1:2: note: something").is_none());
    assert!(parse_short_line("a.rs:1: warning: missing a column").is_none());
    assert!(parse_short_line("").is_none());
}

#[test]
fn short_line_takes_the_earliest_location() {
    let line = parse_short_line("x:9:9: y.rs:1:2: warning: w").unwrap();
    // the first reference that lets the rest parse wins
    assert_eq!(line.path.0, "x:9:9: y.rs:1:2");
}

#[test]
fn short_extractor_renders_a_yellow_warning_tag() {
    let mut parser = ShortParser::new();
    let out = parser.extract("src/main.rs:3:5: warning: unused variable: `x`");
    // a yellow tag first, then the bold message, then the location suffix
    assert!(out.starts_with("\u{1b}[33mwarning\u{1b}[0m "));
    assert!(out.contains("unused variable: `x`"));
    assert!(out.contains("src/main.rs:3:5"));
    let warning_at = out.find("warning").unwrap();
    let message_at = out.find("unused variable").unwrap();
    let location_at = out.find("src/main.rs:3:5").unwrap();
    assert!(warning_at < message_at && message_at < location_at);
}

#[test]
fn short_extractor_passes_noise_over() {
    let mut parser = ShortParser::new();
    assert_eq!(parser.extract("    Compiling ccs v0.1.0"), "");
}

#[test]
fn extractor_trait_form_matches() {
    let mut short = Short::new();
    let out = short.extract("a.rs:1:2: error: boom");
    assert!(out.starts_with("\u{1b}[31merror\u{1b}[0m "));
    assert!(out.contains("boom"));
    assert!(out.contains("a.rs:1:2"));
}

#[test]
fn long_parser_assembles_a_group() {
    let mut parser = LongParser::new();
    assert_eq!(parser.extract("warning: unused variable: `x`"), "");
    assert_eq!(parser.extract(" --> src/main.rs:3:5"), "");
    assert_eq!(parser.extract("3 | let x = 1;"), "");
    assert_eq!(parser.extract(" = note: by default"), "");
    let out = parser.extract("");
    assert!(out.starts_with("\u{1b}[33mwarning\u{1b}[0m "));
    assert!(out.contains("unused variable: `x`"));
    assert!(out.contains("--> let x = 1;"));
    assert!(out.contains("src/main.rs:3:5"));
    // the notes are kept but not printed
    assert!(!out.contains("by default"));
}

#[test]
fn long_parser_needs_a_complete_group() {
    let mut parser = LongParser::new();
    assert_eq!(parser.extract("warning: alone"), "");
    assert_eq!(parser.extract(""), "");
    // the blank line reset the state
    assert_eq!(parser.extract(" --> a.rs:1:1"), "");
    assert_eq!(parser.extract(""), "");
}

#[test]
fn long_parser_reads_coded_error_headers() {
    let mut parser = LongParser::new();
    assert_eq!(parser.extract("error[E0433]: failed to resolve"), "");
    assert_eq!(parser.extract(" --> b.rs:2:2"), "");
    assert_eq!(parser.extract("2 | use nope;"), "");
    let out = parser.extract("");
    assert!(out.starts_with("\u{1b}[31mE0433\u{1b}[0m "));
    assert!(out.contains("failed to resolve"));
}

#[test]
fn decimal_rendering_is_exact() {
    assert_eq!(u64_to_string(0), "0");
    assert_eq!(u64_to_string(7), "7");
    assert_eq!(u64_to_string(42), "42");
    assert_eq!(u64_to_string(1005), "1005");
    assert_eq!(u64_to_string(u64::MAX), "18446744073709551615");
}

#[test]
fn extra_flags_come_in_fixed_order() {
    let extra = Extra {
        allow: vec!["a1".to_string(), "a2".to_string()],
        warning: vec!["w1".to_string()],
        deny: vec!["d1".to_string()],
    };
    let flags = extra.as_flags();
    let expected = vec![
        ("-A".to_string(), "a1".to_string()),
        ("-A".to_string(), "a2".to_string()),
        ("-W".to_string(), "w1".to_string()),
        ("-D".to_string(), "d1".to_string()),
    ];
    assert_eq!(flags, expected);
    assert!(!extra.is_empty());
    assert!(Extra::default().is_empty());
}

#[test]
fn toolchain_argument() {
    assert_eq!(Toolchain::Nightly.as_str(), Some("+nightly"));
    assert_eq!(Toolchain::Stable.as_str(), None);
}
