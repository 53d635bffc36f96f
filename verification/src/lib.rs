//! Rendering engine and interactive-session logic for a stream of structured
//! build diagnostics: a typed model of one diagnostic event, a parser that
//! turns a byte stream of JSON values into those events, suppression rules,
//! a colour theme, and the formatting rules that turn an event into
//! colourised terminal text with UTF-8-safe snippet highlighting.

use vstd::prelude::*;

mod ansi;
mod args;
pub mod command;
pub mod config;
mod extract;
mod format;
mod json;
mod laws;
mod options;
mod parse;
pub mod render;
mod session;
mod strops;
mod theme;

verus! {

pub use args::Args;
pub use args::Mode;
pub use args::Tool;
pub use command::Extra;
pub use command::Options;
pub use command::Features;
pub use command::Target;
pub use command::Toolchain;
pub use config::Config;
pub use config::Lints;
pub use laws::lemma_collect_is_ordered_filter;
pub use laws::lemma_filter_add_idempotent;
pub use laws::lemma_full_extends_short;
pub use laws::lemma_full_lines_superset;
pub use laws::lemma_note_included;
pub use laws::lemma_note_suppressed;
pub use laws::lemma_render_deterministic;
pub use laws::lemma_snippet_round_trip;
pub use options::Filter;
pub use options::FilterModel;
pub use render::Render;
pub use options::IncludeNotes;
pub use options::RenderOptions;
pub use options::RenderStyle;
pub use parse::collect_reasons;
pub use parse::decode_line;
pub use parse::gather_reasons;
pub use parse::ceil_char_boundary;
pub use parse::floor_char_boundary;
pub use parse::is_utf8_char_boundary;
pub use extract::Line;
pub use extract::Short;
pub use extract::Context;
pub use extract::Extract;
pub use extract::LintKind;
pub use extract::LintKindModel;
pub use extract::NoteModel;
pub use extract::Note;
pub use extract::Path;
pub use format::Format;
pub use parse::parse_short_line;
pub use parse::ShortLine;
pub use parse::ShortParser;
pub use parse::LongParser;
pub use parse::LongLine;
pub use parse::LineClass;
pub use parse::Code;
pub use parse::Level;
pub use parse::Message;
pub use parse::Reason;
pub use parse::Span;
pub use parse::Text;
pub use session::build_link;
pub use session::label_for;
pub use session::legend;
pub use session::lookup_label;
pub use session::render_batch;
pub use session::render_report;
pub use session::session_step;
pub use session::Action;
pub use session::InputEvent;
pub use session::KeyCode;
pub use session::KeyEvent;
pub use session::MouseKind;
pub use session::SessionEvent;
pub use session::SessionState;
pub use strops::u64_to_string;
pub use theme::Color;
pub use theme::Report;
pub use theme::Theme;

} // verus!
