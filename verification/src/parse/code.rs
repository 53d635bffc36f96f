//! The named rule a diagnostic cites, when it cites one.

use vstd::prelude::*;

verus! {

/// A single string identifier for a named rule, present mainly on warnings.
#[derive(Debug, Clone)]
pub struct Code {
    pub code: String,
}

} // verus!
