//! The pieces of one extracted diagnostic and how each formats itself. The
//! styling goes through the process-wide colour switch, so each format
//! contract pins the output's structure and carried text down; the styled
//! run always contains the text it styles.

use vstd::prelude::*;
use vstd::string::StringExecFns;

use crate::ansi::spec_contains_seq;
use crate::ansi::yansi_cyan_dim;
use crate::ansi::yansi_green;
use crate::ansi::yansi_red;
use crate::ansi::yansi_white_bold;
use crate::ansi::yansi_white_dim;
use crate::ansi::yansi_yellow;
use crate::format::Format;
use crate::strops::push_char;

verus! {

/// The message text of an extracted diagnostic.
#[derive(Debug, Clone)]
pub struct Message(pub String);

impl Format for Message {
    /// The message, styled bold white, on a line of its own.
    open spec fn format_ensures(&self, out: Seq<char>) -> bool {
        exists|p: Seq<char>|
            #[trigger] spec_contains_seq(p, self.0@) && out == p + seq!['\n']
    }

    fn format(&self) -> (r: String)
        ensures
            self.format_ensures(r@),
    {
        let mut out = yansi_white_bold(self.0.as_str());
        let ghost p = out@;
        push_char(&mut out, '\n');
        proof {
            assert(spec_contains_seq(p, self.0@));
            assert(out@ == p + seq!['\n']);
        }
        out
    }
}

/// The source location of an extracted diagnostic.
#[derive(Debug, Clone)]
pub struct Path(pub String);

impl Format for Path {
    /// An indented, dimmed continuation glyph, then the location, dimmed
    /// cyan, on a line of its own.
    open spec fn format_ensures(&self, out: Seq<char>) -> bool {
        exists|a: Seq<char>, b: Seq<char>|
            #![trigger spec_contains_seq(a, "\u{2ba1}"@), spec_contains_seq(b, self.0@)]
            spec_contains_seq(a, "\u{2ba1}"@) && spec_contains_seq(b, self.0@) && out == seq![' ']
                + a + seq![' '] + b + seq!['\n']
    }

    fn format(&self) -> (r: String)
        ensures
            self.format_ensures(r@),
    {
        let glyph = yansi_white_dim("\u{2ba1}");
        let loc = yansi_cyan_dim(self.0.as_str());
        let mut out = String::new();
        push_char(&mut out, ' ');
        out.append(glyph.as_str());
        push_char(&mut out, ' ');
        out.append(loc.as_str());
        push_char(&mut out, '\n');
        proof {
            assert(out@ == seq![' '] + glyph@ + seq![' '] + loc@ + seq!['\n']);
        }
        out
    }
}

/// A note or help attachment of an extracted diagnostic.
#[derive(Debug, Clone)]
pub enum Note {
    Note(String),
    Help(String),
}

/// The mathematical form of a note attachment.
pub enum NoteModel {
    Note(Seq<char>),
    Help(Seq<char>),
}

impl View for Note {
    type V = NoteModel;

    open spec fn view(&self) -> NoteModel {
        match self {
            Note::Note(s) => NoteModel::Note(s@),
            Note::Help(s) => NoteModel::Help(s@),
        }
    }
}

impl Note {
    /// The carried text.
    pub open spec fn spec_text(self) -> Seq<char> {
        match self {
            Note::Note(s) => s@,
            Note::Help(s) => s@,
        }
    }
}

impl Format for Note {
    /// The attachment's text — dimmed for a note, green for a help — on a
    /// line of its own.
    open spec fn format_ensures(&self, out: Seq<char>) -> bool {
        exists|p: Seq<char>|
            #[trigger] spec_contains_seq(p, self.spec_text()) && out == p + seq!['\n']
    }

    fn format(&self) -> (r: String)
        ensures
            self.format_ensures(r@),
    {
        let mut out = match self {
            Note::Note(msg) => yansi_white_dim(msg.as_str()),
            Note::Help(msg) => yansi_green(msg.as_str()),
        };
        let ghost p = out@;
        push_char(&mut out, '\n');
        proof {
            assert(spec_contains_seq(p, self.spec_text()));
            assert(out@ == p + seq!['\n']);
        }
        out
    }
}

/// The severity of an extracted diagnostic: an error, optionally citing its
/// error code, or a warning.
#[derive(Debug, Clone)]
pub enum LintKind {
    Error(Option<String>),
    Warning,
}

/// The mathematical form of an extracted severity.
pub enum LintKindModel {
    Error(Option<Seq<char>>),
    Warning,
}

impl View for LintKind {
    type V = LintKindModel;

    open spec fn view(&self) -> LintKindModel {
        match self {
            LintKind::Error(Some(code)) => LintKindModel::Error(Some(code@)),
            LintKind::Error(None) => LintKindModel::Error(None),
            LintKind::Warning => LintKindModel::Warning,
        }
    }
}

impl LintKind {
    /// The text of the severity tag: the error code when one was cited, the
    /// plain severity word otherwise.
    pub open spec fn spec_tag_text(self) -> Seq<char> {
        match self {
            LintKind::Error(Some(code)) => code@,
            LintKind::Error(None) => "error"@,
            LintKind::Warning => "warning"@,
        }
    }
}

impl Format for LintKind {
    /// The tag — red for an error, yellow for a warning — and one blank.
    open spec fn format_ensures(&self, out: Seq<char>) -> bool {
        exists|p: Seq<char>|
            #[trigger] spec_contains_seq(p, self.spec_tag_text()) && out == p + seq![' ']
    }

    fn format(&self) -> (r: String)
        ensures
            self.format_ensures(r@),
    {
        let mut out = match self {
            LintKind::Error(Some(code)) => yansi_red(code.as_str()),
            LintKind::Error(None) => yansi_red("error"),
            LintKind::Warning => yansi_yellow("warning"),
        };
        let ghost p = out@;
        push_char(&mut out, ' ');
        proof {
            assert(spec_contains_seq(p, self.spec_tag_text()));
            assert(out@ == p + seq![' ']);
        }
        out
    }
}

/// The source line an extracted diagnostic points into.
#[derive(Debug, Clone)]
pub struct Context(pub String);

impl Format for Context {
    /// The pointed-at source line behind an arrow, unstyled.
    open spec fn format_ensures(&self, out: Seq<char>) -> bool {
        out == "--> "@ + self.0@ + seq!['\n']
    }

    fn format(&self) -> (r: String)
        ensures
            self.format_ensures(r@),
    {
        let mut out = "--> ".to_owned();
        out.append(self.0.as_str());
        push_char(&mut out, '\n');
        out
    }
}

} // verus!
