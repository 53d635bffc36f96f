//! What the analysis subprocess is asked to do: the extra lint flags, the
//! targets and features to check, and the toolchain. Building and spawning
//! the actual process is I/O work that lives outside this library.

use vstd::prelude::*;

use crate::args::Tool;

verus! {

/// Additional lints, handed to the analysis as repeated flags.
#[derive(Debug, Clone)]
pub struct Extra {
    pub allow: Vec<String>,
    pub warning: Vec<String>,
    pub deny: Vec<String>,
}

impl Default for Extra {
    fn default() -> (r: Self)
        ensures
            r.allow@.len() == 0,
            r.warning@.len() == 0,
            r.deny@.len() == 0,
    {
        Extra { allow: Vec::new(), warning: Vec::new(), deny: Vec::new() }
    }
}

/// The flag pairs of an `Extra`: `-A` with each allowed lint, then `-W`
/// with each warned one, then `-D` with each denied one.
pub open spec fn spec_extra_flags(e: Extra) -> Seq<(Seq<char>, Seq<char>)> {
    e.allow@.map_values(|s: String| ("-A"@, s@)) + e.warning@.map_values(|s: String| ("-W"@, s@))
        + e.deny@.map_values(|s: String| ("-D"@, s@))
}

impl Extra {
    /// The lints as flag/value pairs, in the fixed flag order.
    pub fn as_flags(&self) -> (r: Vec<(String, String)>)
        ensures
            r@.map_values(|p: (String, String)| (p.0@, p.1@)) == spec_extra_flags(*self),
    {
        let mut out: Vec<(String, String)> = Vec::new();
        append_flagged(&mut out, "-A", &self.allow);
        append_flagged(&mut out, "-W", &self.warning);
        append_flagged(&mut out, "-D", &self.deny);
        proof {
            assert(out@.map_values(|p: (String, String)| (p.0@, p.1@)) =~= spec_extra_flags(
                *self,
            ));
        }
        out
    }

    /// Whether no extra lints were asked for.
    pub fn is_empty(&self) -> (r: bool)
        ensures
            r == (self.allow@.len() == 0 && self.warning@.len() == 0 && self.deny@.len() == 0),
    {
        self.allow.len() == 0 && self.warning.len() == 0 && self.deny.len() == 0
    }
}

fn append_flagged(out: &mut Vec<(String, String)>, flag: &str, values: &Vec<String>)
    ensures
        final(out)@.map_values(|p: (String, String)| (p.0@, p.1@)) == old(out)@.map_values(
            |p: (String, String)| (p.0@, p.1@),
        ) + values@.map_values(|s: String| (flag@, s@)),
{
    let n = values.len();
    let mut i: usize = 0;
    while i < n
        invariant
            n == values@.len(),
            i <= n,
            out@.map_values(|p: (String, String)| (p.0@, p.1@)) =~= old(out)@.map_values(
                |p: (String, String)| (p.0@, p.1@),
            ) + values@.subrange(0, i as int).map_values(|s: String| (flag@, s@)),
        decreases n - i,
    {
        let ghost pre = out@;
        out.push((flag.to_owned(), values[i].clone()));
        proof {
            assert(out@.map_values(|p: (String, String)| (p.0@, p.1@)) =~= pre.map_values(
                |p: (String, String)| (p.0@, p.1@),
            ) + seq![(flag@, values@[i as int]@)]);
            assert(values@.subrange(0, i + 1).map_values(|s: String| (flag@, s@))
                =~= values@.subrange(0, i as int).map_values(|s: String| (flag@, s@)) + seq![
                (flag@, values@[i as int]@),
            ]);
        }
        i += 1;
    }
    proof {
        assert(values@.subrange(0, n as int) =~= values@);
    }
}

/// Which build targets the analysis covers.
#[derive(Debug, Clone)]
pub enum Target {
    All,
    Test,
    Example,
    Default,
    Specific(Vec<String>),
}

/// Which features are enabled for the analysis.
#[derive(Debug, Clone)]
pub enum Features {
    All,
    Specific(Vec<String>),
    Default,
}

/// Everything the subprocess invocation depends on.
#[derive(Debug)]
pub struct Options {
    pub extra: Extra,
    pub path: Option<String>,
    pub toolchain: Toolchain,
    pub target: Target,
    pub features: Features,
    pub dry_run: bool,
    pub tool: Tool,
}

/// The toolchain the analysis runs under.
#[derive(Copy, Clone, Debug, PartialEq, Eq, Structural)]
pub enum Toolchain {
    Stable,
    Nightly,
}

impl Default for Toolchain {
    fn default() -> (r: Self)
        ensures
            r == Toolchain::Stable,
    {
        Toolchain::Stable
    }
}

impl Toolchain {
    /// The toolchain-selection argument, when one is needed.
    pub fn as_str(self) -> (r: Option<&'static str>)
        ensures
            match self {
                Toolchain::Nightly => r is Some && r->0@ == "+nightly"@,
                Toolchain::Stable => r is None,
            },
    {
        if matches!(self, Toolchain::Nightly) {
            return Some("+nightly");
        }
        None
    }
}

} // verus!
