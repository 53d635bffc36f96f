//! The theme loader and the colour parser.

use ccs::{Color, Theme};

#[test]
fn hex_colors_parse_exactly() {
    assert_eq!(Color::from_str("#ff007f"), Ok(Color(0xFF, 0x00, 0x7F)));
    assert_eq!(Color::from_str("FF007F"), Ok(Color(0xFF, 0x00, 0x7F)));
    assert_eq!(Color::from_str("00a1b2"), Ok(Color(0x00, 0xA1, 0xB2)));
}

#[test]
fn named_colors_parse_case_insensitively() {
    assert_eq!(Color::from_str("Red"), Ok(Color(0x80, 0x00, 0x00)));
    assert_eq!(Color::from_str("red"), Ok(Color(0x80, 0x00, 0x00)));
    assert_eq!(Color::from_str("BrightRed"), Ok(Color(0xFF, 0x00, 0x00)));
    assert_eq!(Color::from_str("Bright Red"), Ok(Color(0xFF, 0x00, 0x00)));
    assert_eq!(Color::from_str("bright yellow"), Ok(Color(0xFF, 0xFF, 0x00)));
}

#[test]
fn unknown_colors_are_reported() {
    match Color::from_str("chartreuse") {
        Err(e) => assert_eq!(e, "unknown color: chartreuse"),
        _ => panic!("expected an error"),
    }
}

#[test]
fn rgb_to_named_finds_the_name() {
    assert_eq!(Color(0xFF, 0x00, 0x00).rgb_to_named(), Some("BrightRed"));
    assert_eq!(Color(0x12, 0x34, 0x56).rgb_to_named(), None);
}

#[test]
fn try_from_named_matches_loosely_bright_names() {
    assert_eq!(Color::try_from_named("BRIGHTCYAN"), Ok(Color(0x00, 0xFF, 0xFF)));
    assert!(Color::try_from_named("no such colour").is_err());
}

#[test]
fn theme_load_sets_roles_and_reports_the_rest() {
    let entries = vec![
        ("warning".to_string(), "#010203".to_string()),
        ("error".to_string(), "BrightBlue".to_string()),
        ("sparkle".to_string(), "#010203".to_string()),
        ("highlight".to_string(), "not a colour".to_string()),
    ];
    let (theme, report) = Theme::load(&entries).unwrap();
    assert_eq!(theme.warning, Color(1, 2, 3));
    assert_eq!(theme.error, Color(0x00, 0x00, 0xFF));
    // an untouched role keeps its default
    assert_eq!(theme.note, Theme::default().note);
    assert_eq!(theme.highlight, Theme::default().highlight);
    assert_eq!(report.unknown_keys, vec!["sparkle".to_string()]);
    assert_eq!(report.invalid_values.len(), 1);
    assert_eq!(report.invalid_values[0].0, "highlight");
    assert_eq!(report.invalid_values[0].1, "unknown color: not a colour");
}

#[test]
fn theme_load_lets_later_entries_override() {
    let entries = vec![
        ("note".to_string(), "#000001".to_string()),
        ("note".to_string(), "#000002".to_string()),
    ];
    let (theme, report) = Theme::load(&entries).unwrap();
    assert_eq!(theme.note, Color(0, 0, 2));
    assert!(report.unknown_keys.is_empty());
    assert!(report.invalid_values.is_empty());
}

#[test]
fn default_theme_roles() {
    let th = Theme::default();
    assert_eq!(th.warning, Color(0xFF, 0xFF, 0x00));
    assert_eq!(th.error, Color(0xFF, 0x00, 0x00));
    assert_eq!(th.note, Color(0x00, 0xFF, 0x00));
    assert_eq!(th.unknown, Color(0x00, 0x80, 0x80));
    assert_eq!(th.message, Color(0xFF, 0xFF, 0xFF));
    assert_eq!(th.code, Color(0xC0, 0xC0, 0xC0));
    assert_eq!(th.highlight, Color(0x00, 0x00, 0xFF));
    assert_eq!(th.continuation, Color(0x80, 0x80, 0x80));
    assert_eq!(th.location, Color(0x80, 0x80, 0x80));
    assert_eq!(th.lint_name, Color(0x80, 0x00, 0x80));
}
