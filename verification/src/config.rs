//! The persistent configuration, as plain data. Finding, reading and
//! writing the file it lives in is I/O work that lives outside this
//! library.

use vstd::prelude::*;

use crate::args::Tool;
use crate::theme::spec_default_theme;
use crate::theme::Theme;

verus! {

/// The lints the configuration always passes to the analysis.
#[derive(Debug, Clone)]
pub struct Lints {
    pub allow: Vec<String>,
    pub deny: Vec<String>,
    pub warn: Vec<String>,
}

impl Default for Lints {
    fn default() -> (r: Self)
        ensures
            r.allow@.len() == 0,
            r.deny@.len() == 0,
            r.warn@.len() == 0,
    {
        Lints { allow: Vec::new(), deny: Vec::new(), warn: Vec::new() }
    }
}

/// The persisted appearance and behaviour toggles.
#[derive(Debug, Clone)]
pub struct Options {
    pub nightly: bool,
    pub explain: bool,
    pub include_notes: bool,
    pub delimiter: String,
    pub new_line: bool,
}

impl Default for Options {
    fn default() -> (r: Self)
        ensures
            r.nightly == false,
            r.explain == false,
            r.include_notes == false,
            r.delimiter@ == Seq::<char>::empty(),
            r.new_line == false,
    {
        Options {
            nightly: false,
            explain: false,
            include_notes: false,
            delimiter: String::new(),
            new_line: false,
        }
    }
}

/// The default continuation marker put in front of location references.
pub fn default_continuation() -> (r: &'static str)
    ensures
        r@ == "\u{2ba1}"@,
{
    "\u{2ba1}"
}

/// The whole persistent configuration.
#[derive(Debug)]
pub struct Config {
    pub tool: Tool,
    pub lints: Lints,
    pub options: Options,
    pub theme: Theme,
    pub continuation: Option<String>,
}

impl Default for Config {
    fn default() -> (r: Self)
        ensures
            r.tool == Tool::Clippy,
            r.lints.allow@.len() == 0,
            r.lints.deny@.len() == 0,
            r.lints.warn@.len() == 0,
            r.options.nightly == false,
            r.options.explain == false,
            r.options.include_notes == false,
            r.options.delimiter@ == Seq::<char>::empty(),
            r.options.new_line == false,
            r.theme == spec_default_theme(),
            r.continuation is Some && r.continuation->0@ == "\u{2ba1}"@,
    {
        Config {
            tool: Tool::Clippy,
            lints: Lints::default(),
            options: Options::default(),
            theme: Theme::default(),
            continuation: Some(default_continuation().to_owned()),
        }
    }
}

} // verus!
