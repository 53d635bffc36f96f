//! The rendering engine: headers, note suppression, snippet highlighting,
//! determinism, and the Short/Full relationship.

use ccs::{
    ceil_char_boundary, floor_char_boundary, is_utf8_char_boundary, Code, Color, IncludeNotes,
    Level, Message, Reason, RenderOptions, RenderStyle, Span, Text, Theme,
};

fn options() -> RenderOptions {
    RenderOptions::default()
}

fn plain_message(level: Level, text: &str) -> Message {
    Message {
        code: None,
        message: text.to_string(),
        level,
        spans: Vec::new(),
        children: Vec::new(),
    }
}

#[test]
fn warning_header_is_exact() {
    let m = plain_message(Level::Warning, "hello");
    let out = m.render(&options(), &Theme::default());
    // the warning tag in the theme's warning colour, then the message, bold,
    // in the message colour
    let expected = "\u{1b}[38;2;255;255;0mwarning\u{1b}[39m \u{1b}[1m\u{1b}[38;2;255;255;255mhello\u{1b}[39m\u{1b}[0m\n";
    assert_eq!(out, expected);
}

#[test]
fn error_with_code_prints_the_code_as_tag() {
    let mut m = plain_message(Level::Error, "boom");
    m.code = Some(Code { code: "E0308".to_string() });
    let out = m.render(&options(), &Theme::default());
    let expected = "\u{1b}[38;2;255;0;0mE0308\u{1b}[39m \u{1b}[1m\u{1b}[38;2;255;255;255mboom\u{1b}[39m\u{1b}[0m\n";
    assert_eq!(out, expected);
}

#[test]
fn note_suppressed_without_include_notes() {
    let m = plain_message(Level::Note, "a note");
    let out = m.render(&options(), &Theme::default());
    assert_eq!(out, "");
}

#[test]
fn note_rendered_when_included() {
    let m = plain_message(Level::Note, "a note");
    let mut o = options();
    o.include_notes = IncludeNotes::Yes;
    let out = m.render(&o, &Theme::default());
    assert!(!out.is_empty());
    assert!(out.contains("a note"));
    assert!(out.contains("\u{1b}[38;2;0;255;0mnote\u{1b}[39m "));
}

#[test]
fn suppressed_note_drops_children_too() {
    let mut m = plain_message(Level::Note, "parent");
    m.children.push(plain_message(Level::Error, "child"));
    let out = m.render(&options(), &Theme::default());
    assert_eq!(out, "");
}

#[test]
fn rendering_is_deterministic() {
    let mut m = plain_message(Level::Warning, "w");
    m.spans.push(span_with("src/a.rs", 1, 2, "  héllo wörld", 5, 9));
    let o = options();
    let th = Theme::default();
    assert_eq!(m.render(&o, &th), m.render(&o, &th));
}

fn span_with(file: &str, line: usize, col: usize, text: &str, hs: usize, he: usize) -> Span {
    Span {
        column_start: col,
        line_start: line,
        file_name: file.to_string(),
        text: vec![Text { highlight_start: hs, highlight_end: he, text: text.to_string() }],
    }
}

#[test]
fn short_render_prints_the_location_line() {
    let mut m = plain_message(Level::Warning, "w");
    m.spans.push(span_with("src/a.rs", 3, 5, "  let x = 1;", 7, 8));
    let out = m.render(&options(), &Theme::default());
    assert!(out.contains("src/a.rs:3:5"));
    // the hyperlink wraps the reference
    assert!(out.contains("\u{1b}]8;;src/a.rs:3:5\u{1b}\\src/a.rs:3:5\u{1b}]8;;\u{1b}\\"));
}

#[test]
fn full_render_contains_all_short_lines() {
    let mut m = plain_message(Level::Warning, "w");
    m.spans.push(span_with("src/a.rs", 3, 5, "    let x = 1;", 9, 10));
    let o_short = options();
    let mut o_full = options();
    o_full.render = RenderStyle::Full;
    let th = Theme::default();
    let short = m.render(&o_short, &th);
    let full = m.render(&o_full, &th);
    for line in short.split('\n') {
        assert!(full.contains(line));
    }
    assert!(full.len() > short.len());
}

#[test]
fn full_render_never_splits_a_codepoint() {
    // highlight bounds that land inside the two-byte `é` after the pad comes
    // off: the segments are clamped outward, and the line survives intact
    let mut m = plain_message(Level::Warning, "w");
    m.spans.push(span_with("f.rs", 1, 1, "  éé x", 4, 5));
    let mut o = options();
    o.render = RenderStyle::Full;
    let out = m.render(&o, &Theme::default());
    assert!(out.contains("éé x") || {
        // the segments may be cut between the characters; stripping the
        // styling must recover the stripped line
        let plain: String = strip_ansi(&out);
        plain.contains("éé x")
    });
}

fn strip_ansi(s: &str) -> String {
    let mut out = String::new();
    let mut chars = s.chars().peekable();
    while let Some(c) = chars.next() {
        if c == '\u{1b}' {
            match chars.peek() {
                Some('[') => {
                    for d in chars.by_ref() {
                        if d == 'm' {
                            break;
                        }
                    }
                }
                Some(']') => {
                    // a hyperlink escape, closed by ESC backslash
                    let mut prev = ' ';
                    for d in chars.by_ref() {
                        if prev == '\u{1b}' && d == '\\' {
                            break;
                        }
                        prev = d;
                    }
                }
                _ => {}
            }
        } else {
            out.push(c);
        }
    }
    out
}

#[test]
fn lint_name_follows_warning_spans() {
    let mut m = plain_message(Level::Warning, "w");
    m.code = Some(Code { code: "unused_variables".to_string() });
    m.spans.push(span_with("f.rs", 1, 1, "let x;", 5, 6));
    let out = m.render(&options(), &Theme::default());
    assert!(out.contains("(\u{1b}[38;2;128;0;128munused_variables\u{1b}[39m)"));
}

#[test]
fn continuation_marker_precedes_the_location() {
    let mut m = plain_message(Level::Warning, "w");
    m.spans.push(span_with("f.rs", 1, 1, "let x;", 5, 6));
    let mut o = options();
    o.continuation = Some("\u{2ba1}".to_string());
    let out = m.render(&o, &Theme::default());
    assert!(out.contains("\u{1b}[38;2;128;128;128m\u{2ba1}\u{1b}[39m"));
}

#[test]
fn build_finished_renders_nothing() {
    let r = Reason::BuildFinished { success: true };
    let out = r.render(&options(), &Theme::default());
    assert_eq!(out, "");
    let r = Reason::BuildFinished { success: false };
    assert_eq!(r.render(&options(), &Theme::default()), "");
}

#[test]
fn char_boundary_helpers_are_exact() {
    // "aé" is the bytes 61 C3 A9
    let s = "aé";
    assert!(is_utf8_char_boundary(0x61));
    assert!(is_utf8_char_boundary(0xC3));
    assert!(!is_utf8_char_boundary(0xA9));
    assert_eq!(floor_char_boundary(s, 0), 0);
    assert_eq!(floor_char_boundary(s, 1), 1);
    assert_eq!(floor_char_boundary(s, 2), 1);
    assert_eq!(floor_char_boundary(s, 3), 3);
    assert_eq!(floor_char_boundary(s, 9), 3);
    assert_eq!(ceil_char_boundary(s, 0), 0);
    assert_eq!(ceil_char_boundary(s, 1), 1);
    assert_eq!(ceil_char_boundary(s, 2), 3);
    assert_eq!(ceil_char_boundary(s, 3), 3);
    assert_eq!(ceil_char_boundary(s, 9), 3);
}

#[test]
fn paint_wraps_in_the_exact_rgb_escape() {
    // holds the colour wrapper to its contract on a concrete value
    let m = plain_message(Level::Unknown, "");
    let out = m.render(&options(), &Theme::default());
    // unknown severities get no tag; the empty message is still wrapped
    let expected = "\u{1b}[1m\u{1b}[38;2;255;255;255m\u{1b}[39m\u{1b}[0m\n";
    assert_eq!(out, expected);
}

#[test]
fn color_hex_string_is_exact() {
    assert_eq!(Color(0xFF, 0x00, 0x7F).to_hex_string(), "#ff007f");
    assert_eq!(Color(0, 0, 0).to_hex_string(), "#000000");
}

#[test]
fn blank_snippet_lines_are_skipped() {
    let mut m = plain_message(Level::Warning, "w");
    m.spans.push(Span {
        column_start: 1,
        line_start: 1,
        file_name: "f.rs".to_string(),
        text: vec![
            Text { highlight_start: 1, highlight_end: 1, text: "   ".to_string() },
            Text { highlight_start: 3, highlight_end: 6, text: "  let x;".to_string() },
        ],
    });
    let mut o = options();
    o.render = RenderStyle::Full;
    let out = m.render(&o, &Theme::default());
    // the pad comes from the first line with content, and the blank line
    // contributes no snippet line of its own
    assert!(strip_ansi(&out).contains("  let x;\n"));
    assert!(!strip_ansi(&out).contains("   \n"));
}
