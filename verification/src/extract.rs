//! Extraction of diagnostics from the plain, human-readable text that the
//! analysis prints without the JSON flag: a line parser recognises the
//! single-line form and rewrites it as styled text.

use vstd::prelude::*;

mod parts;
mod short;

verus! {

pub use parts::Context;
pub use parts::LintKind;
pub use parts::LintKindModel;
pub use parts::Message;
pub use parts::Note;
pub use parts::NoteModel;
pub use parts::Path;
pub use short::Line;
pub use short::Short;

/// A stateful extractor: fed the input line by line, it writes out whatever
/// diagnostics it recognises.
pub trait Extract: Sized {
    /// How one step relates the extractor's state before and after to the
    /// line it read and the text it wrote.
    spec fn extract_ensures(pre: Self, post: Self, input: Seq<char>, out: Seq<char>) -> bool;

    /// Feeds one line and takes the text it produced.
    fn extract(&mut self, input: &str) -> (r: String)
        ensures
            Self::extract_ensures(*old(self), *final(self), input@, r@),
    ;
}

} // verus!
