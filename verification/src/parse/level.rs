//! The severity of a diagnostic, as the analysis stream spells it.

use vstd::prelude::*;

use crate::strops::str_eq;

verus! {

/// Severity of one message. It decides the colour role and whether the item
/// can be suppressed as a note.
#[derive(Copy, Clone, Debug, PartialEq, Eq, Structural)]
pub enum Level {
    Warning,
    Error,
    FailureNote,
    Help,
    Note,
    Unknown,
}

impl Level {
    /// The level a stream spelling names: the known kebab-case names, and
    /// `Unknown` for anything else.
    pub open spec fn spec_from_chars(s: Seq<char>) -> Level {
        if s == "warning"@ {
            Level::Warning
        } else if s == "error"@ {
            Level::Error
        } else if s == "failure-note"@ {
            Level::FailureNote
        } else if s == "help"@ {
            Level::Help
        } else if s == "note"@ {
            Level::Note
        } else {
            Level::Unknown
        }
    }

    /// Reads a level from its stream spelling.
    pub fn from_str(s: &str) -> (r: Level)
        ensures
            r == Level::spec_from_chars(s@),
    {
        if str_eq(s, "warning") {
            Level::Warning
        } else if str_eq(s, "error") {
            Level::Error
        } else if str_eq(s, "failure-note") {
            Level::FailureNote
        } else if str_eq(s, "help") {
            Level::Help
        } else if str_eq(s, "note") {
            Level::Note
        } else {
            Level::Unknown
        }
    }
}

} // verus!
