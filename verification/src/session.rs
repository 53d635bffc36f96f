//! The decisions of the interactive session: which label each surviving
//! diagnostic gets, what one redraw prints, how a label resolves to a
//! source location, what a key or mouse event means, and the session's
//! state machine. The terminal, the file watcher and the clipboard are
//! driven outside this library; they hand events in and carry actions out.

use vstd::prelude::*;
use vstd::string::StringExecFns;

use crate::ansi::paint;
use crate::ansi::spec_painted;
use crate::options::spec_is_ignored;
use crate::options::RenderOptions;
use crate::parse::spec_continuation;
use crate::parse::spec_link_text;
use crate::parse::Reason;
use crate::strops::push_char;
use crate::theme::Color;
use crate::theme::Theme;

verus! {

/// The label alphabet: lower-case letters, upper-case letters, digits, in
/// that order, sixty-two in all; labels wrap around when diagnostics
/// outnumber them.
pub open spec fn spec_label_byte(i: int) -> u8
    recommends
        0 <= i < 62,
{
    if i < 26 {
        (97 + i) as u8
    } else if i < 52 {
        (65 + i - 26) as u8
    } else {
        (48 + i - 52) as u8
    }
}

/// The label of the diagnostic at position `i` among the survivors.
pub open spec fn spec_label_for(i: int) -> u8
    recommends
        0 <= i,
{
    spec_label_byte(i % 62)
}

/// The label byte of the survivor at position `i`.
pub fn label_for(i: usize) -> (r: u8)
    ensures
        r == spec_label_for(i as int),
{
    let k = i % 62;
    if k < 26 {
        97 + (k as u8)
    } else if k < 52 {
        65 + (k as u8) - 26
    } else {
        48 + (k as u8) - 52
    }
}

/// The index the label resolves to: the last writer wins when labels wrap
/// around and collide.
pub open spec fn spec_lookup_label(m: Seq<(u8, usize)>, key: u8) -> Option<usize>
    decreases m.len(),
{
    if m.len() == 0 {
        None
    } else if m.last().0 == key {
        Some(m.last().1)
    } else {
        spec_lookup_label(m.drop_last(), key)
    }
}

/// Resolves a label to the index it was last assigned to.
pub fn lookup_label(m: &Vec<(u8, usize)>, key: u8) -> (r: Option<usize>)
    ensures
        r == spec_lookup_label(m@, key),
{
    let n = m.len();
    let mut i: usize = n;
    proof {
        assert(m@.subrange(0, n as int) =~= m@);
    }
    loop
        invariant
            n == m@.len(),
            i <= n,
            spec_lookup_label(m@, key) == spec_lookup_label(m@.subrange(0, i as int), key),
        ensures
            spec_lookup_label(m@, key) == spec_lookup_label(m@.subrange(0, i as int), key),
            i == 0 || m@[i - 1].0 == key,
        decreases i,
    {
        if i == 0 {
            break ;
        }
        proof {
            assert(m@.subrange(0, i as int).last() == m@[i - 1]);
            assert(m@.subrange(0, i as int).drop_last() =~= m@.subrange(0, i - 1));
        }
        if m[i - 1].0 == key {
            break ;
        }
        i -= 1;
    }
    if i == 0 {
        proof {
            assert(m@.subrange(0, 0) =~= Seq::<(u8, usize)>::empty());
        }
        None
    } else {
        proof {
            assert(m@.subrange(0, i as int).last() == m@[i - 1]);
        }
        Some(m[i - 1].1)
    }
}

/// The `file:line:col` reference a label resolves to: the first span of the
/// diagnostic it was assigned to, when that diagnostic is a compiler
/// message with at least one span.
pub open spec fn spec_build_link(
    m: Seq<(u8, usize)>,
    reasons: Seq<Reason>,
    key: u8,
) -> Option<Seq<char>> {
    match spec_lookup_label(m, key) {
        Some(idx) => {
            if idx < reasons.len() {
                match reasons[idx as int] {
                    Reason::CompilerMessage { message } => {
                        if message.spans@.len() > 0 {
                            Some(spec_link_text(message.spans@[0]))
                        } else {
                            None
                        }
                    },
                    _ => None,
                }
            } else {
                None
            }
        },
        None => None,
    }
}

/// Resolves a label to the location reference of its diagnostic.
pub fn build_link(mapping: &Vec<(u8, usize)>, reasons: &Vec<Reason>, key: u8) -> (r: Option<
    String,
>)
    ensures
        match spec_build_link(mapping@, reasons@, key) {
            Some(link) => r is Some && r->0@ == link,
            None => r is None,
        },
{
    match lookup_label(mapping, key) {
        Some(idx) => {
            if idx < reasons.len() {
                match &reasons[idx] {
                    Reason::CompilerMessage { message } => {
                        if message.spans.len() > 0 {
                            Some(message.spans[0].link())
                        } else {
                            None
                        }
                    },
                    _ => None,
                }
            } else {
                None
            }
        },
        None => None,
    }
}

/// The separator put in front of every survivor but the first: the literal
/// delimiter on a line of its own when one is configured and non-empty, a
/// blank line when the blank-line toggle is set, nothing otherwise.
pub open spec fn spec_separator(o: RenderOptions) -> Seq<char> {
    match o.delimiter {
        Some(d) => {
            if d@.len() > 0 {
                d@ + seq!['\n']
            } else if o.new_line {
                seq!['\n']
            } else {
                Seq::empty()
            }
        },
        None => {
            if o.new_line {
                seq!['\n']
            } else {
                Seq::empty()
            }
        },
    }
}

/// Whether a diagnostic survives the suppression rules: a compiler message
/// is held against them by its level and named rule; everything else
/// passes.
pub open spec fn spec_keeps(o: RenderOptions, r: Reason) -> bool {
    match r {
        Reason::CompilerMessage { message } => !spec_is_ignored(
            o.spec_filters(),
            message.level,
            match message.code {
                Some(c) => Some(c.code@),
                None => None,
            },
        ),
        _ => true,
    }
}

/// The label colour of the interactive display.
pub open spec fn spec_label_color() -> Color {
    Color(0xFF, 0x00, 0x00)
}


/// Appends the separator of the options.
fn append_separator(out: &mut String, o: &RenderOptions)
    ensures
        final(out)@ == old(out)@ + spec_separator(*o),
{
    match &o.delimiter {
        Some(d) => {
            if !d.as_str().is_empty() {
                out.append(d.as_str());
                push_char(out, '\n');
            } else if o.new_line {
                push_char(out, '\n');
            }
        },
        None => {
            if o.new_line {
                push_char(out, '\n');
            }
        },
    }
    proof {
        assert(final(out)@ =~= old(out)@ + spec_separator(*o));
    }
}

/// What one redraw prints from position `from` on, with `survivors` items
/// already drawn, and the labels it assigns: each surviving diagnostic gets
/// the next cyclic label, painted, then a blank, then its rendered text,
/// with the separator in front of every survivor but the first. The label
/// table pairs each label with the index of its diagnostic in the batch.
pub open spec fn spec_render_batch(
    rs: Seq<Reason>,
    from: int,
    survivors: int,
    o: RenderOptions,
    th: Theme,
) -> (Seq<char>, Seq<(u8, usize)>)
    recommends
        0 <= survivors,
    decreases rs.len() - from,
{
    if from < 0 || from >= rs.len() {
        (Seq::empty(), Seq::empty())
    } else if !spec_keeps(o, rs[from]) {
        spec_render_batch(rs, from + 1, survivors, o, th)
    } else {
        let sep = if survivors > 0 {
            spec_separator(o)
        } else {
            Seq::<char>::empty()
        };
        let label = spec_label_for(survivors);
        let piece = sep + spec_painted(seq![label as char], spec_label_color()) + seq![' ']
            + rs[from].spec_render(o.render, o.include_notes, spec_continuation(o), th);
        let rest = spec_render_batch(rs, from + 1, survivors + 1, o, th);
        (piece + rest.0, seq![(label, from as usize)] + rest.1)
    }
}

/// Renders a batch for the interactive display: the text to print and the
/// label table for resolving selections.
#[verifier::rlimit(100)]
pub fn render_batch(reasons: &Vec<Reason>, o: &RenderOptions, th: &Theme) -> (r: (
    String,
    Vec<(u8, usize)>,
))
    requires
        forall|i: int| 0 <= i < reasons@.len() ==> (#[trigger] reasons@[i]).wf(),
    ensures
        (r.0@, r.1@) == spec_render_batch(reasons@, 0, 0, *o, *th),
{
    let mut out = String::new();
    let mut mapping: Vec<(u8, usize)> = Vec::new();
    let mut survivors: usize = 0;
    let n = reasons.len();
    let mut i: usize = 0;
    proof {
        let whole = spec_render_batch(reasons@, 0, 0, *o, *th);
        assert(whole.0 =~= out@ + spec_render_batch(reasons@, 0, 0, *o, *th).0);
        assert(whole.1 =~= mapping@ + spec_render_batch(reasons@, 0, 0, *o, *th).1);
    }
    while i < n
        invariant
            n == reasons@.len(),
            i <= n,
            survivors <= i,
            forall|j: int| 0 <= j < reasons@.len() ==> (#[trigger] reasons@[j]).wf(),
            spec_render_batch(reasons@, 0, 0, *o, *th).0 =~= out@ + spec_render_batch(
                reasons@,
                i as int,
                survivors as int,
                *o,
                *th,
            ).0,
            spec_render_batch(reasons@, 0, 0, *o, *th).1 =~= mapping@ + spec_render_batch(
                reasons@,
                i as int,
                survivors as int,
                *o,
                *th,
            ).1,
        decreases n - i,
    {
        let keep = match &reasons[i] {
            Reason::CompilerMessage { message } => {
                let name: Option<&str> = match &message.code {
                    Some(c) => Some(c.code.as_str()),
                    None => None,
                };
                !o.is_ignored(message.level, name)
            },
            _ => true,
        };
        proof {
            assert(keep == spec_keeps(*o, reasons@[i as int]));
        }
        if keep {
            if survivors > 0 {
                append_separator(&mut out, o);
            }
            let label = label_for(survivors);
            let mut label_text = String::new();
            push_char(&mut label_text, label as char);
            let painted = paint(label_text.as_str(), Color(0xFF, 0x00, 0x00));
            out.append(painted.as_str());
            push_char(&mut out, ' ');
            let rendered = reasons[i].render(o, th);
            out.append(rendered.as_str());
            mapping.push((label, i));
            proof {
                assert(label_text@ =~= seq![spec_label_for(survivors as int) as char]);
            }
            survivors += 1;
        }
        proof {
            assert(spec_render_batch(reasons@, 0, 0, *o, *th).0 =~= out@ + spec_render_batch(
                reasons@,
                i + 1,
                survivors as int,
                *o,
                *th,
            ).0);
            assert(spec_render_batch(reasons@, 0, 0, *o, *th).1 =~= mapping@ + spec_render_batch(
                reasons@,
                i + 1,
                survivors as int,
                *o,
                *th,
            ).1);
        }
        i += 1;
    }
    (out, mapping)
}

/// What one one-shot report prints: the same as a redraw, without labels.
pub open spec fn spec_render_report(
    rs: Seq<Reason>,
    from: int,
    survivors: int,
    o: RenderOptions,
    th: Theme,
) -> Seq<char>
    decreases rs.len() - from,
{
    if from < 0 || from >= rs.len() {
        Seq::empty()
    } else if !spec_keeps(o, rs[from]) {
        spec_render_report(rs, from + 1, survivors, o, th)
    } else {
        let sep = if survivors > 0 {
            spec_separator(o)
        } else {
            Seq::<char>::empty()
        };
        sep + rs[from].spec_render(o.render, o.include_notes, spec_continuation(o), th)
            + spec_render_report(rs, from + 1, survivors + 1, o, th)
    }
}

/// Renders a batch for the one-shot report.
#[verifier::rlimit(100)]
pub fn render_report(reasons: &Vec<Reason>, o: &RenderOptions, th: &Theme) -> (r: String)
    requires
        forall|i: int| 0 <= i < reasons@.len() ==> (#[trigger] reasons@[i]).wf(),
    ensures
        r@ == spec_render_report(reasons@, 0, 0, *o, *th),
{
    let mut out = String::new();
    let mut survivors: usize = 0;
    let n = reasons.len();
    let mut i: usize = 0;
    proof {
        assert(spec_render_report(reasons@, 0, 0, *o, *th) =~= out@ + spec_render_report(
            reasons@,
            0,
            0,
            *o,
            *th,
        ));
    }
    while i < n
        invariant
            n == reasons@.len(),
            i <= n,
            survivors <= i,
            forall|j: int| 0 <= j < reasons@.len() ==> (#[trigger] reasons@[j]).wf(),
            spec_render_report(reasons@, 0, 0, *o, *th) =~= out@ + spec_render_report(
                reasons@,
                i as int,
                survivors as int,
                *o,
                *th,
            ),
        decreases n - i,
    {
        let keep = match &reasons[i] {
            Reason::CompilerMessage { message } => {
                let name: Option<&str> = match &message.code {
                    Some(c) => Some(c.code.as_str()),
                    None => None,
                };
                !o.is_ignored(message.level, name)
            },
            _ => true,
        };
        proof {
            assert(keep == spec_keeps(*o, reasons@[i as int]));
        }
        if keep {
            if survivors > 0 {
                append_separator(&mut out, o);
            }
            let rendered = reasons[i].render(o, th);
            out.append(rendered.as_str());
            survivors += 1;
        }
        proof {
            assert(spec_render_report(reasons@, 0, 0, *o, *th) =~= out@ + spec_render_report(
                reasons@,
                i + 1,
                survivors as int,
                *o,
                *th,
            ));
        }
        i += 1;
    }
    out
}

/// The label legend: one line per assigned label, in assignment order, each
/// with the location its label resolves to; labels whose diagnostic has no
/// location are passed over.
pub open spec fn spec_legend(m: Seq<(u8, usize)>, reasons: Seq<Reason>, from: int) -> Seq<char>
    decreases m.len() - from,
{
    if from < 0 || from >= m.len() {
        Seq::empty()
    } else {
        (match spec_build_link(m, reasons, m[from].0) {
            Some(link) => seq![m[from].0 as char, ':', ' '] + link + seq!['\n'],
            None => Seq::empty(),
        }) + spec_legend(m, reasons, from + 1)
    }
}

/// Writes the label legend, headed by its title line.
pub fn legend(mapping: &Vec<(u8, usize)>, reasons: &Vec<Reason>) -> (r: String)
    ensures
        r@ == "available links:\n"@ + spec_legend(mapping@, reasons@, 0),
{
    let mut out = "available links:\n".to_owned();
    let ghost head = out@;
    let n = mapping.len();
    let mut i: usize = 0;
    proof {
        assert(head + spec_legend(mapping@, reasons@, 0) =~= out@ + spec_legend(
            mapping@,
            reasons@,
            0,
        ));
    }
    while i < n
        invariant
            n == mapping@.len(),
            i <= n,
            head == "available links:\n"@,
            head + spec_legend(mapping@, reasons@, 0) =~= out@ + spec_legend(
                mapping@,
                reasons@,
                i as int,
            ),
        decreases n - i,
    {
        match build_link(mapping, reasons, mapping[i].0) {
            Some(link) => {
                push_char(&mut out, mapping[i].0 as char);
                push_char(&mut out, ':');
                push_char(&mut out, ' ');
                out.append(link.as_str());
                push_char(&mut out, '\n');
            },
            None => {},
        }
        proof {
            assert(head + spec_legend(mapping@, reasons@, 0) =~= out@ + spec_legend(
                mapping@,
                reasons@,
                i + 1,
            ));
        }
        i += 1;
    }
    out
}

/// A key, as the session reads it.
#[derive(Copy, Clone, Debug, PartialEq, Eq, Structural)]
pub enum KeyCode {
    Char(char),
    Up,
    Down,
    Home,
    End,
    Other,
}

/// One key event: its key, whether control was held, and whether this is
/// the release edge (the session acts on releases alone).
#[derive(Copy, Clone, Debug, PartialEq, Eq, Structural)]
pub struct KeyEvent {
    pub code: KeyCode,
    pub ctrl: bool,
    pub release: bool,
}

/// A mouse event, reduced to its scroll direction.
#[derive(Copy, Clone, Debug, PartialEq, Eq, Structural)]
pub enum MouseKind {
    ScrollUp,
    ScrollDown,
    Other,
}

/// One terminal input event.
#[derive(Copy, Clone, Debug, PartialEq, Eq, Structural)]
pub enum InputEvent {
    Key(KeyEvent),
    Mouse(MouseKind),
    Other,
}

/// What the session does in response to one input event.
#[derive(Debug)]
pub enum Action {
    Quit,
    Scroll(i16),
    ShowLegend,
    CopyLink(String),
    Nothing,
}

/// The scroll step of a scrolling key or mouse event: one line per arrow
/// key, a whole page to either end, three lines per mouse wheel notch.
pub open spec fn spec_scroll_delta(ev: InputEvent) -> Option<i16> {
    match ev {
        InputEvent::Key(k) => {
            if !k.release {
                None
            } else {
                match k.code {
                    KeyCode::Up => Some(-1i16),
                    KeyCode::Down => Some(1i16),
                    KeyCode::Home => Some(i16::MIN),
                    KeyCode::End => Some(i16::MAX),
                    _ => None,
                }
            }
        },
        InputEvent::Mouse(MouseKind::ScrollDown) => Some(3i16),
        InputEvent::Mouse(MouseKind::ScrollUp) => Some(-3i16),
        _ => None,
    }
}

/// What the session answers to one input event: quit on control-c, the
/// legend on the question mark, scrolling on the scroll keys and wheel, the
/// location of a labelled diagnostic on its label key (labels are ASCII, so
/// other characters resolve to nothing), and otherwise nothing.
pub open spec fn spec_respond(
    ev: InputEvent,
    m: Seq<(u8, usize)>,
    reasons: Seq<Reason>,
) -> (Action, Option<Seq<char>>) {
    match spec_scroll_delta(ev) {
        Some(d) => (Action::Scroll(d), None),
        None => {
            match ev {
                InputEvent::Key(k) => {
                    if !k.release {
                        (Action::Nothing, None)
                    } else {
                        match k.code {
                            KeyCode::Char(c) => {
                                if c == 'c' && k.ctrl {
                                    (Action::Quit, None)
                                } else if c == '?' {
                                    (Action::ShowLegend, None)
                                } else if (c as u32) < 128 {
                                    match spec_build_link(m, reasons, c as u8) {
                                        Some(link) => (Action::Nothing, Some(link)),
                                        None => (Action::Nothing, None),
                                    }
                                } else {
                                    (Action::Nothing, None)
                                }
                            },
                            _ => (Action::Nothing, None),
                        }
                    }
                },
                _ => (Action::Nothing, None),
            }
        },
    }
}

impl InputEvent {
    /// Answers one input event, as `spec_respond` spells it out: the second
    /// component of the model is carried in `Action::CopyLink`.
    pub fn respond(self, mapping: &Vec<(u8, usize)>, reasons: &Vec<Reason>) -> (r: Action)
        ensures
            ({
                let m = spec_respond(self, mapping@, reasons@);
                match m.1 {
                    Some(link) => r is CopyLink && r->CopyLink_0@ == link,
                    None => match m.0 {
                        Action::Quit => r is Quit,
                        Action::Scroll(d) => r is Scroll && r->Scroll_0 == d,
                        Action::ShowLegend => r is ShowLegend,
                        _ => r is Nothing,
                    },
                }
            }),
    {
        match self {
            InputEvent::Key(k) => {
                if !k.release {
                    return Action::Nothing;
                }
                match k.code {
                    KeyCode::Up => Action::Scroll(-1),
                    KeyCode::Down => Action::Scroll(1),
                    KeyCode::Home => Action::Scroll(i16::MIN),
                    KeyCode::End => Action::Scroll(i16::MAX),
                    KeyCode::Char(c) => {
                        if c == 'c' && k.ctrl {
                            Action::Quit
                        } else if c == '?' {
                            Action::ShowLegend
                        } else if (c as u32) < 128 {
                            match build_link(mapping, reasons, c as u8) {
                                Some(link) => Action::CopyLink(link),
                                None => Action::Nothing,
                            }
                        } else {
                            Action::Nothing
                        }
                    },
                    KeyCode::Other => Action::Nothing,
                }
            },
            InputEvent::Mouse(MouseKind::ScrollDown) => Action::Scroll(3),
            InputEvent::Mouse(MouseKind::ScrollUp) => Action::Scroll(-3),
            InputEvent::Mouse(MouseKind::Other) => Action::Nothing,
            InputEvent::Other => Action::Nothing,
        }
    }
}

/// The states of the interactive session.
#[derive(Copy, Clone, Debug, PartialEq, Eq, Structural)]
pub enum SessionState {
    Idle,
    Rebuilding,
    Rendered,
    AwaitingInput,
    Terminated,
}

/// The events that move the session between states.
#[derive(Copy, Clone, Debug, PartialEq, Eq, Structural)]
pub enum SessionEvent {
    Start,
    BatchReady,
    Drawn,
    FsChanged,
    QuitRequested,
    ChannelClosed,
}

/// The session's state machine: it starts into a rebuild, a finished
/// rebuild is rendered, a rendered batch awaits input, a file-system change
/// triggers the next rebuild, and a quit request or a closed watch channel
/// terminates it; every other pairing leaves the state alone.
pub open spec fn spec_session_step(s: SessionState, e: SessionEvent) -> SessionState {
    match (s, e) {
        (SessionState::Idle, SessionEvent::Start) => SessionState::Rebuilding,
        (SessionState::Rebuilding, SessionEvent::BatchReady) => SessionState::Rendered,
        (SessionState::Rendered, SessionEvent::Drawn) => SessionState::AwaitingInput,
        (SessionState::AwaitingInput, SessionEvent::FsChanged) => SessionState::Rebuilding,
        (SessionState::AwaitingInput, SessionEvent::QuitRequested) => SessionState::Terminated,
        (SessionState::AwaitingInput, SessionEvent::ChannelClosed) => SessionState::Terminated,
        _ => s,
    }
}

/// Advances the session by one event.
pub fn session_step(s: SessionState, e: SessionEvent) -> (r: SessionState)
    ensures
        r == spec_session_step(s, e),
{
    match (s, e) {
        (SessionState::Idle, SessionEvent::Start) => SessionState::Rebuilding,
        (SessionState::Rebuilding, SessionEvent::BatchReady) => SessionState::Rendered,
        (SessionState::Rendered, SessionEvent::Drawn) => SessionState::AwaitingInput,
        (SessionState::AwaitingInput, SessionEvent::FsChanged) => SessionState::Rebuilding,
        (SessionState::AwaitingInput, SessionEvent::QuitRequested) => SessionState::Terminated,
        (SessionState::AwaitingInput, SessionEvent::ChannelClosed) => SessionState::Terminated,
        _ => s,
    }
}

} // verus!
