//! Colourised text. Rendering wraps each piece of output in ANSI escape
//! sequences through two terminal-styling crates. The 24-bit foreground
//! styling of `owo_colors` writes a fixed escape around the text, so those
//! wrappers carry an exact contract; the styling of `yansi` consults a
//! process-wide switch, so its wrappers promise only what holds whichever
//! way the switch is set: the styled text contains the text it styles.

use owo_colors::OwoColorize as _;
use vstd::prelude::*;

use crate::strops::spec_decimal;
use crate::theme::Color;

verus! {

/// The escape that sets a 24-bit foreground colour:
/// `ESC [ 38 ; 2 ; r ; g ; b m` with decimal channel values.
pub open spec fn spec_fg_prefix(c: Color) -> Seq<char> {
    seq!['\u{1b}', '[', '3', '8', ';', '2', ';'] + spec_decimal(c.0 as nat) + seq![';']
        + spec_decimal(c.1 as nat) + seq![';'] + spec_decimal(c.2 as nat) + seq!['m']
}

/// The escape that restores the default foreground colour: `ESC [ 39 m`.
pub open spec fn spec_fg_suffix() -> Seq<char> {
    seq!['\u{1b}', '[', '3', '9', 'm']
}

/// Text wrapped in a 24-bit foreground colour.
pub open spec fn spec_painted(s: Seq<char>, c: Color) -> Seq<char> {
    spec_fg_prefix(c) + s + spec_fg_suffix()
}

/// Text wrapped in the bold attribute: `ESC [ 1 m` before, the full reset
/// `ESC [ 0 m` after.
pub open spec fn spec_bold(s: Seq<char>) -> Seq<char> {
    seq!['\u{1b}', '[', '1', 'm'] + s + seq!['\u{1b}', '[', '0', 'm']
}

/// Text coloured and then made bold.
pub open spec fn spec_painted_bold(s: Seq<char>, c: Color) -> Seq<char> {
    spec_bold(spec_painted(s, c))
}

/// Relies on owo_colors: displaying a value wrapped by `color` with an RGB
/// colour writes `ESC[38;2;r;g;bm`, the value, then `ESC[39m`.
#[verifier::external_body]
pub(crate) fn paint(s: &str, c: Color) -> (r: String)
    ensures
        r@ == spec_painted(s@, c),
{
    format!("{}", s.color(owo_colors::DynColors::Rgb(c.0, c.1, c.2)))
}

/// Relies on owo_colors: `bold` wraps its value's display in `ESC[1m` and
/// `ESC[0m`, and `color` with an RGB colour wraps it as in `paint`.
#[verifier::external_body]
pub(crate) fn paint_bold(s: &str, c: Color) -> (r: String)
    ensures
        r@ == spec_painted_bold(s@, c),
{
    format!("{}", s.color(owo_colors::DynColors::Rgb(c.0, c.1, c.2)).bold())
}

/// The haystack holds the needle as a contiguous run.
pub open spec fn spec_contains_seq(hay: Seq<char>, needle: Seq<char>) -> bool {
    exists|k: int|
        0 <= k && k + needle.len() <= hay.len() && #[trigger] hay.subrange(k, k + needle.len())
            == needle
}

/// Relies on yansi: displaying a painted value writes the value itself,
/// surrounded by a style prefix and suffix when styling is enabled
/// process-wide and bare otherwise.
#[verifier::external_body]
pub(crate) fn yansi_red(s: &str) -> (r: String)
    ensures
        spec_contains_seq(r@, s@),
{
    format!("{}", yansi::Paint::red(&s))
}

/// Relies on yansi, as `yansi_red` does.
#[verifier::external_body]
pub(crate) fn yansi_yellow(s: &str) -> (r: String)
    ensures
        spec_contains_seq(r@, s@),
{
    format!("{}", yansi::Paint::yellow(&s))
}

/// Relies on yansi, as `yansi_red` does.
#[verifier::external_body]
pub(crate) fn yansi_green(s: &str) -> (r: String)
    ensures
        spec_contains_seq(r@, s@),
{
    format!("{}", yansi::Paint::green(&s))
}

/// Relies on yansi, as `yansi_red` does; white foreground with the bold
/// attribute.
#[verifier::external_body]
pub(crate) fn yansi_white_bold(s: &str) -> (r: String)
    ensures
        spec_contains_seq(r@, s@),
{
    format!("{}", yansi::Paint::white(&s).bold())
}

/// Relies on yansi, as `yansi_red` does; white foreground dimmed.
#[verifier::external_body]
pub(crate) fn yansi_white_dim(s: &str) -> (r: String)
    ensures
        spec_contains_seq(r@, s@),
{
    format!("{}", yansi::Paint::white(&s).dim())
}

/// Relies on yansi, as `yansi_red` does; cyan foreground dimmed.
#[verifier::external_body]
pub(crate) fn yansi_cyan_dim(s: &str) -> (r: String)
    ensures
        spec_contains_seq(r@, s@),
{
    format!("{}", yansi::Paint::cyan(&s).dim())
}

} // verus!
