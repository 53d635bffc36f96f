//! The two run-time selectable output shapes, as a pair of plain tags.

use vstd::prelude::*;

verus! {

/// Short prints locations alone; Full adds source snippets.
#[derive(Copy, Clone, Debug, PartialEq, Eq, Structural)]
pub enum Render {
    Short,
    Full,
}

impl Default for Render {
    fn default() -> (r: Self)
        ensures
            r == Render::Short,
    {
        Render::Short
    }
}

/// Whether notes are shown.
#[derive(Copy, Clone, Debug, PartialEq, Eq, Structural)]
pub enum IncludeNotes {
    Yes,
    No,
}

impl Default for IncludeNotes {
    fn default() -> (r: Self)
        ensures
            r == IncludeNotes::No,
    {
        IncludeNotes::No
    }
}

} // verus!
