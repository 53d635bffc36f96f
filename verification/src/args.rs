//! The command-line surface, as plain data. Reading it from the actual
//! command line is argument-parser work that lives outside this library.

use vstd::prelude::*;

use crate::options::Filter;

verus! {

/// Which analysis the subprocess runs.
#[derive(Copy, Clone, Debug, PartialEq, Eq, Structural)]
pub enum Tool {
    Clippy,
    Check,
}

impl Default for Tool {
    fn default() -> (r: Self)
        ensures
            r == Tool::Clippy,
    {
        Tool::Clippy
    }
}

/// One-shot report, or the interactive watch session.
#[derive(Copy, Clone, Debug, PartialEq, Eq, Structural)]
pub enum Mode {
    Interactive,
    Report,
}

impl Default for Mode {
    fn default() -> (r: Self)
        ensures
            r == Mode::Report,
    {
        Mode::Report
    }
}

/// Everything the command line chooses.
#[derive(Debug)]
pub struct Args {
    pub nightly: bool,
    pub explain: bool,
    pub include_notes: bool,
    pub tests: bool,
    pub examples: bool,
    pub path: Option<String>,
    pub annoying: bool,
    pub more_annoying: bool,
    pub filter: Vec<Filter>,
    pub warning: Vec<String>,
    pub allow: Vec<String>,
    pub deny: Vec<String>,
    pub target: Vec<String>,
    pub all_targets: bool,
    pub feature: Vec<String>,
    pub all_features: bool,
    pub delimiter: Option<String>,
    pub new_line: bool,
    pub ignore_config: bool,
    pub print_config_path: bool,
    pub print_default_config: bool,
    pub dry_run: bool,
    pub tool: Tool,
    pub mode: Mode,
}

} // verus!
