//! One physical source line covered by a span, with the byte range that the
//! diagnostic highlights in it.

use vstd::prelude::*;

verus! {

/// The raw source line, including its leading indentation, and the
/// highlighted range as 1-indexed byte offsets into that original line.
/// The offsets may land inside a multi-byte character once the indentation
/// is stripped; rendering clamps them outward rather than splitting one.
#[derive(Debug, Clone)]
pub struct Text {
    pub highlight_start: usize,
    pub highlight_end: usize,
    pub text: String,
}

impl Text {
    /// The highlighted range is a range.
    pub open spec fn wf(self) -> bool {
        self.highlight_start <= self.highlight_end
    }
}

} // verus!
