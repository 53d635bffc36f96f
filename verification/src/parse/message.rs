//! One diagnostic message: its severity, optional named rule, text, source
//! spans, and nested child messages, together with the rendering that turns
//! it into colourised terminal text.

use vstd::prelude::*;
use vstd::string::StringExecFns;

use crate::ansi::paint;
use crate::ansi::paint_bold;
use crate::ansi::spec_painted;
use crate::ansi::spec_painted_bold;
use crate::options::IncludeNotes;
use crate::options::RenderOptions;
use crate::options::RenderStyle;
use crate::theme::Color;
use crate::theme::Theme;

use super::span::spec_span_render;
use super::Code;
use super::Level;
use super::Span;

verus! {

/// One message of the analysis stream. Children are attached notes and
/// suggestions, each a full message of its own.
#[derive(Debug)]
pub struct Message {
    pub code: Option<Code>,
    pub message: String,
    pub level: Level,
    pub spans: Vec<Span>,
    pub children: Vec<Message>,
}

impl Message {
    /// Every span is well-formed, recursively through the children.
    pub open spec fn wf(self) -> bool
        decreases self,
    {
        &&& forall|i: int| 0 <= i < self.spans@.len() ==> (#[trigger] self.spans@[i]).wf()
        &&& forall|i: int| 0 <= i < self.children@.len() ==> (#[trigger] self.children@[i]).wf()
    }
}

/// The colour role of a severity: notes have their own role, apart from
/// warnings, errors and everything else.
pub open spec fn spec_level_color(level: Level, th: Theme) -> Color {
    match level {
        Level::Warning => th.warning,
        Level::Error => th.error,
        Level::Note => th.note,
        _ => th.unknown,
    }
}

/// The header line: a coloured severity tag (the rule code itself for an
/// error that has one; no tag at all for the unnamed severities), then the
/// message text, bold, in the message colour.
pub open spec fn spec_header(m: Message, include_notes: IncludeNotes, th: Theme) -> Seq<char> {
    let color = spec_level_color(m.level, th);
    (match m.level {
        Level::Error => {
            if m.code is Some {
                spec_painted((m.code->0).code@, color) + seq![' ']
            } else {
                spec_painted("error"@, color) + seq![' ']
            }
        },
        Level::Warning => spec_painted("warning"@, color) + seq![' '],
        Level::Note => {
            if include_notes is Yes {
                spec_painted("note"@, color) + seq![' ']
            } else {
                Seq::empty()
            }
        },
        _ => Seq::empty(),
    }) + spec_painted_bold(m.message@, th.message) + seq!['\n']
}

/// What follows each span of a warning that cites a named rule: the rule
/// name in parentheses, in the lint-name colour.
pub open spec fn spec_lint_suffix(m: Message, th: Theme) -> Seq<char> {
    if m.level is Warning && m.code is Some {
        seq!['('] + spec_painted((m.code->0).code@, th.lint_name) + seq![')']
    } else {
        Seq::empty()
    }
}

/// The rendered spans from `from` on, each followed by the lint suffix and
/// a newline.
pub open spec fn spec_spans_render(
    spans: Seq<Span>,
    from: int,
    style: RenderStyle,
    cont: Option<Seq<char>>,
    th: Theme,
    suffix: Seq<char>,
) -> Seq<char>
    decreases spans.len() - from,
{
    if from < 0 || from >= spans.len() {
        Seq::empty()
    } else {
        spec_span_render(spans[from], style, cont, th) + suffix + seq!['\n'] + spec_spans_render(
            spans,
            from + 1,
            style,
            cont,
            th,
            suffix,
        )
    }
}

/// What rendering one message yields: nothing at all for a note while notes
/// are excluded (the whole subtree is dropped); otherwise the header, the
/// spans, and the rendered children in order.
pub open spec fn spec_message_render(
    m: Message,
    style: RenderStyle,
    inc: IncludeNotes,
    cont: Option<Seq<char>>,
    th: Theme,
) -> Seq<char>
    decreases m, 1int, 0int,
{
    if m.level is Note && inc is No {
        Seq::empty()
    } else {
        spec_header(m, inc, th) + spec_spans_render(
            m.spans@,
            0,
            style,
            cont,
            th,
            spec_lint_suffix(m, th),
        ) + spec_children_render(m.children@, 0, style, inc, cont, th)
    }
}

/// The rendered children from `from` on, concatenated in order.
pub open spec fn spec_children_render(
    cs: Seq<Message>,
    from: int,
    style: RenderStyle,
    inc: IncludeNotes,
    cont: Option<Seq<char>>,
    th: Theme,
) -> Seq<char>
    decreases cs, 0int, cs.len() - from,
{
    if from < 0 || from >= cs.len() {
        Seq::empty()
    } else {
        spec_message_render(cs[from], style, inc, cont, th) + spec_children_render(
            cs,
            from + 1,
            style,
            inc,
            cont,
            th,
        )
    }
}

/// The continuation marker of the options, as a character sequence.
pub open spec fn spec_continuation(o: RenderOptions) -> Option<Seq<char>> {
    match o.continuation {
        Some(c) => Some(c@),
        None => None,
    }
}

impl Message {
    /// The header line, as `spec_header` spells it out.
    fn header(&self, include_notes: IncludeNotes, theme: &Theme) -> (r: String)
        ensures
            r@ == spec_header(*self, include_notes, *theme),
    {
        proof {
            reveal_strlit(" ");
            reveal_strlit("\n");
            assert(" "@ =~= seq![' ']);
            assert("\n"@ =~= seq!['\n']);
        }
        let color = match self.level {
            Level::Warning => theme.warning,
            Level::Error => theme.error,
            Level::Note => theme.note,
            _ => theme.unknown,
        };
        let mut out = String::new();
        match self.level {
            Level::Error => {
                match &self.code {
                    Some(code) => {
                        let painted = paint(code.code.as_str(), color);
                        out.append(painted.as_str());
                    },
                    None => {
                        let painted = paint("error", color);
                        out.append(painted.as_str());
                    },
                }
                out.append(" ");
            },
            Level::Warning => {
                let painted = paint("warning", color);
                out.append(painted.as_str());
                out.append(" ");
            },
            Level::Note => {
                if matches!(include_notes, IncludeNotes::Yes) {
                    let painted = paint("note", color);
                    out.append(painted.as_str());
                    out.append(" ");
                }
            },
            _ => {},
        }
        let bolded = paint_bold(self.message.as_str(), theme.message);
        out.append(bolded.as_str());
        out.append("\n");
        proof {
            assert(out@ =~= spec_header(*self, include_notes, *theme));
        }
        out
    }

    /// Renders this message and, in order, its children. A note is dropped
    /// whole, children included, while notes are excluded.
    pub fn render(&self, render_options: &RenderOptions, theme: &Theme) -> (r: String)
        requires
            self.wf(),
        ensures
            r@ == spec_message_render(
                *self,
                render_options.render,
                render_options.include_notes,
                spec_continuation(*render_options),
                *theme,
            ),
        decreases *self,
    {
        if matches!(self.level, Level::Note) && matches!(
            render_options.include_notes,
            IncludeNotes::No,
        ) {
            return String::new();
        }
        proof {
            reveal_strlit("(");
            reveal_strlit(")");
            reveal_strlit("\n");
            assert("("@ =~= seq!['(']);
            assert(")"@ =~= seq![')']);
            assert("\n"@ =~= seq!['\n']);
        }
        let mut out = self.header(render_options.include_notes, theme);
        let ghost header_part = out@;
        // the suffix that trails each span of a warning with a named rule
        let mut suffix = String::new();
        if matches!(self.level, Level::Warning) {
            match &self.code {
                Some(code) => {
                    suffix.append("(");
                    let painted = paint(code.code.as_str(), theme.lint_name);
                    suffix.append(painted.as_str());
                    suffix.append(")");
                },
                None => {},
            }
        }
        proof {
            assert(suffix@ =~= spec_lint_suffix(*self, *theme));
        }
        let ns = self.spans.len();
        let mut i: usize = 0;
        proof {
            assert(out@ =~= header_part + spec_spans_render(
                self.spans@,
                ns as int,
                render_options.render,
                spec_continuation(*render_options),
                *theme,
                suffix@,
            ) + Seq::<char>::empty());
        }
        while i < ns
            invariant
                ns == self.spans@.len(),
                i <= ns,
                self.wf(),
                suffix@ == spec_lint_suffix(*self, *theme),
                header_part + spec_spans_render(
                    self.spans@,
                    0,
                    render_options.render,
                    spec_continuation(*render_options),
                    *theme,
                    suffix@,
                ) =~= out@ + spec_spans_render(
                    self.spans@,
                    i as int,
                    render_options.render,
                    spec_continuation(*render_options),
                    *theme,
                    suffix@,
                ),
            decreases ns - i,
        {
            proof {
                assert(self.spans@[i as int].wf());
            }
            let rendered = self.spans[i].render(render_options, theme);
            out.append(rendered.as_str());
            out.append(suffix.as_str());
            out.append("\n");
            proof {
                reveal_strlit("\n");
                assert("\n"@ =~= seq!['\n']);
                assert(spec_spans_render(
                    self.spans@,
                    i as int,
                    render_options.render,
                    spec_continuation(*render_options),
                    *theme,
                    suffix@,
                ) == spec_span_render(
                    self.spans@[i as int],
                    render_options.render,
                    spec_continuation(*render_options),
                    *theme,
                ) + suffix@ + seq!['\n'] + spec_spans_render(
                    self.spans@,
                    i + 1,
                    render_options.render,
                    spec_continuation(*render_options),
                    *theme,
                    suffix@,
                ));
                assert(header_part + spec_spans_render(
                    self.spans@,
                    0,
                    render_options.render,
                    spec_continuation(*render_options),
                    *theme,
                    suffix@,
                ) =~= out@ + spec_spans_render(
                    self.spans@,
                    i + 1,
                    render_options.render,
                    spec_continuation(*render_options),
                    *theme,
                    suffix@,
                ));
            }
            i += 1;
        }
        let ghost spans_done = out@;
        let nc = self.children.len();
        let mut j: usize = 0;
        while j < nc
            invariant
                nc == self.children@.len(),
                j <= nc,
                self.wf(),
                spans_done + spec_children_render(
                    self.children@,
                    0,
                    render_options.render,
                    render_options.include_notes,
                    spec_continuation(*render_options),
                    *theme,
                ) =~= out@ + spec_children_render(
                    self.children@,
                    j as int,
                    render_options.render,
                    render_options.include_notes,
                    spec_continuation(*render_options),
                    *theme,
                ),
            decreases nc - j,
        {
            proof {
                assert(self.children@[j as int].wf());
            }
            let rendered = self.children[j].render(render_options, theme);
            out.append(rendered.as_str());
            j += 1;
        }
        proof {
            assert(out@ =~= spec_message_render(
                *self,
                render_options.render,
                render_options.include_notes,
                spec_continuation(*render_options),
                *theme,
            ));
        }
        out
    }
}

} // verus!
