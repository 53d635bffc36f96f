//! The stateless extractor for the single-line diagnostic form.

use vstd::prelude::*;
use vstd::utf8::encode_utf8;

use crate::format::Format;
use crate::parse::spec_short_find;

use super::Extract;
use super::LintKind;
use super::Message;
use super::Path;

verus! {

/// One recognised single-line diagnostic.
#[derive(Debug, Clone)]
pub struct Line {
    pub path: Path,
    pub kind: LintKind,
    pub message: Message,
}

impl Format for Line {
    /// The tag, the message line, and the location line, in that order.
    open spec fn format_ensures(&self, out: Seq<char>) -> bool {
        exists|a: Seq<char>, b: Seq<char>, c: Seq<char>|
            #![trigger self.kind.format_ensures(a), self.message.format_ensures(b), self.path.format_ensures(c)]
            self.kind.format_ensures(a) && self.message.format_ensures(b)
                && self.path.format_ensures(c) && out == a + b + c
    }

    fn format(&self) -> (r: String)
        ensures
            self.format_ensures(r@),
    {
        let mut out = self.kind.format();
        let ghost a = out@;
        let m = self.message.format();
        out.append(m.as_str());
        let p = self.path.format();
        out.append(p.as_str());
        proof {
            assert(out@ == a + m@ + p@);
        }
        out
    }
}

/// The stateless single-line extractor.
pub struct Short {}

impl Short {
    /// A fresh extractor.
    pub fn new() -> (r: Self) {
        Short {  }
    }
}

impl Extract for Short {
    /// A line in the single-line form comes back formatted; any other line
    /// produces nothing; the extractor keeps no state.
    open spec fn extract_ensures(pre: Self, post: Self, input: Seq<char>, out: Seq<char>) -> bool {
        match spec_short_find(encode_utf8(input), 0) {
            Some(m) => exists|line: Line|
                #![trigger line.format_ensures(out)]
                line.path.0@ == vstd::utf8::decode_utf8(
                    encode_utf8(input).subrange(0, m.0),
                ) && line.kind@ == m.1 && line.message.0@ == vstd::utf8::decode_utf8(
                    encode_utf8(input).subrange(m.2, encode_utf8(input).len() as int),
                ) && line.format_ensures(out),
            None => out == Seq::<char>::empty(),
        }
    }

    fn extract(&mut self, input: &str) -> (r: String)
        ensures
            Self::extract_ensures(*old(self), *final(self), input@, r@),
    {
        match crate::parse::parse_short_line(input) {
            Some(line) => {
                let converted = Line { path: line.path, kind: line.kind, message: line.message };
                let out = converted.format();
                proof {
                    assert(converted.format_ensures(out@));
                }
                out
            },
            None => String::new(),
        }
    }
}

} // verus!
