//! The interactive session's decisions: labels, selection, events, states.

use ccs::SessionEvent as E;
use ccs::SessionState as S;
use ccs::{
    build_link, gather_reasons, label_for, legend, render_batch, render_report, session_step,
    Action, InputEvent, KeyCode, KeyEvent, MouseKind, RenderOptions, Theme,
};

fn batch() -> Vec<ccs::Reason> {
    let warning = r#"{"reason":"compiler-message","message":{"message":"first","level":"warning","code":{"code":"dead_code"},"spans":[{"file_name":"src/a.rs","line_start":1,"column_start":2,"text":[]}],"children":[]}}"#;
    let error = r#"{"reason":"compiler-message","message":{"message":"second","level":"error","spans":[{"file_name":"src/b.rs","line_start":3,"column_start":4,"text":[]}],"children":[]}}"#;
    gather_reasons(&format!("{warning}\n{error}"))
}

#[test]
fn labels_cycle_through_the_alphabet() {
    assert_eq!(label_for(0), b'a');
    assert_eq!(label_for(25), b'z');
    assert_eq!(label_for(26), b'A');
    assert_eq!(label_for(51), b'Z');
    assert_eq!(label_for(52), b'0');
    assert_eq!(label_for(61), b'9');
    assert_eq!(label_for(62), b'a');
    assert_eq!(label_for(63), b'b');
}

#[test]
fn render_batch_labels_each_survivor() {
    let reasons = batch();
    let (out, mapping) = render_batch(&reasons, &RenderOptions::default(), &Theme::default());
    assert_eq!(mapping, vec![(b'a', 0), (b'b', 1)]);
    // each label is painted red and followed by a blank
    assert!(out.starts_with("\u{1b}[38;2;255;0;0ma\u{1b}[39m "));
    assert!(out.contains("\u{1b}[38;2;255;0;0mb\u{1b}[39m "));
    assert!(out.contains("first"));
    assert!(out.contains("second"));
}

#[test]
fn render_batch_skips_suppressed_diagnostics() {
    let reasons = batch();
    let o = RenderOptions::default().without_warning("dead_code".to_string());
    let (out, mapping) = render_batch(&reasons, &o, &Theme::default());
    // the error keeps label a, and its index points into the full batch
    assert_eq!(mapping, vec![(b'a', 1)]);
    assert!(!out.contains("first"));
    assert!(out.contains("second"));
}

#[test]
fn render_batch_separates_items() {
    let reasons = batch();
    let mut o = RenderOptions::default();
    o.delimiter = Some("----".to_string());
    let (out, _) = render_batch(&reasons, &o, &Theme::default());
    assert!(out.contains("\n----\n"));
    let mut o = RenderOptions::default();
    o.new_line = true;
    let (out, _) = render_batch(&reasons, &o, &Theme::default());
    assert!(out.contains("\n\n"));
}

#[test]
fn render_report_prints_without_labels() {
    let reasons = batch();
    let out = render_report(&reasons, &RenderOptions::default(), &Theme::default());
    assert!(out.contains("first"));
    assert!(out.contains("second"));
    // no painted label prefix stands in a report
    assert!(!out.contains("\u{1b}[38;2;255;0;0ma\u{1b}[39m "));
}

#[test]
fn build_link_resolves_a_label_to_its_location() {
    let reasons = batch();
    let (_, mapping) = render_batch(&reasons, &RenderOptions::default(), &Theme::default());
    assert_eq!(build_link(&mapping, &reasons, b'a'), Some("src/a.rs:1:2".to_string()));
    assert_eq!(build_link(&mapping, &reasons, b'b'), Some("src/b.rs:3:4".to_string()));
    assert_eq!(build_link(&mapping, &reasons, b'z'), None);
}

#[test]
fn legend_lists_assigned_labels() {
    let reasons = batch();
    let (_, mapping) = render_batch(&reasons, &RenderOptions::default(), &Theme::default());
    let text = legend(&mapping, &reasons);
    assert_eq!(text, "available links:\na: src/a.rs:1:2\nb: src/b.rs:3:4\n");
}

fn release(code: KeyCode, ctrl: bool) -> InputEvent {
    InputEvent::Key(KeyEvent { code, ctrl, release: true })
}

#[test]
fn quit_and_legend_keys() {
    let reasons = batch();
    let (_, mapping) = render_batch(&reasons, &RenderOptions::default(), &Theme::default());
    assert!(matches!(
        release(KeyCode::Char('c'), true).respond(&mapping, &reasons),
        Action::Quit
    ));
    assert!(matches!(
        release(KeyCode::Char('?'), false).respond(&mapping, &reasons),
        Action::ShowLegend
    ));
}

#[test]
fn label_keys_copy_their_location() {
    let reasons = batch();
    let (_, mapping) = render_batch(&reasons, &RenderOptions::default(), &Theme::default());
    match release(KeyCode::Char('b'), false).respond(&mapping, &reasons) {
        Action::CopyLink(link) => assert_eq!(link, "src/b.rs:3:4"),
        _ => panic!("expected a copied link"),
    }
    assert!(matches!(
        release(KeyCode::Char('q'), false).respond(&mapping, &reasons),
        Action::Nothing
    ));
}

#[test]
fn scroll_events_carry_their_step() {
    let reasons = batch();
    let (_, mapping) = render_batch(&reasons, &RenderOptions::default(), &Theme::default());
    assert!(matches!(
        release(KeyCode::Up, false).respond(&mapping, &reasons),
        Action::Scroll(-1)
    ));
    assert!(matches!(
        release(KeyCode::Down, false).respond(&mapping, &reasons),
        Action::Scroll(1)
    ));
    assert!(matches!(
        release(KeyCode::Home, false).respond(&mapping, &reasons),
        Action::Scroll(i16::MIN)
    ));
    assert!(matches!(
        release(KeyCode::End, false).respond(&mapping, &reasons),
        Action::Scroll(i16::MAX)
    ));
    assert!(matches!(
        InputEvent::Mouse(MouseKind::ScrollDown).respond(&mapping, &reasons),
        Action::Scroll(3)
    ));
    assert!(matches!(
        InputEvent::Mouse(MouseKind::ScrollUp).respond(&mapping, &reasons),
        Action::Scroll(-3)
    ));
    // a press that is not a release does nothing
    assert!(matches!(
        InputEvent::Key(KeyEvent { code: KeyCode::Up, ctrl: false, release: false }).respond(
            &mapping,
            &reasons
        ),
        Action::Nothing
    ));
}

#[test]
fn session_states_follow_the_machine() {
    assert_eq!(session_step(S::Idle, E::Start), S::Rebuilding);
    assert_eq!(session_step(S::Rebuilding, E::BatchReady), S::Rendered);
    assert_eq!(session_step(S::Rendered, E::Drawn), S::AwaitingInput);
    assert_eq!(session_step(S::AwaitingInput, E::FsChanged), S::Rebuilding);
    assert_eq!(session_step(S::AwaitingInput, E::QuitRequested), S::Terminated);
    assert_eq!(session_step(S::AwaitingInput, E::ChannelClosed), S::Terminated);
    // an event out of place leaves the state alone
    assert_eq!(session_step(S::Rebuilding, E::FsChanged), S::Rebuilding);
    assert_eq!(session_step(S::Terminated, E::Start), S::Terminated);
}
