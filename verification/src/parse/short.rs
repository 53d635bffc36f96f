//! The single-line diagnostic form and its parser: a line that reads
//! `path:line:col: kind: message`, where the kind is `warning` or `error`,
//! the latter optionally citing an error code in brackets. The parser scans
//! for the earliest location reference from which the rest of the line
//! parses, so the path may itself contain colons and numbers.

use vstd::prelude::*;
use vstd::string::StringSliceAdditionalSpecFns;
use vstd::utf8::decode_utf8;
use vstd::utf8::encode_utf8;
use vstd::utf8::is_char_boundary;
use vstd::utf8::is_continuation_byte;
use vstd::utf8::valid_utf8;

use crate::extract::LintKind;
use crate::extract::LintKindModel;
use crate::extract::Message;
use crate::extract::Path;
use crate::format::Format;
use crate::strops::is_ascii_ws;
use crate::strops::lemma_boundary_after_byte1;
use crate::strops::spec_is_ascii_ws;

verus! {

/// True of the decimal digit bytes.
pub open spec fn spec_is_digit(b: u8) -> bool {
    48 <= b <= 57
}

/// The end of the digit run that starts at `i`: the first position at or
/// after `i` holding no digit.
pub open spec fn spec_digit_run_end(s: Seq<u8>, i: int) -> int
    decreases s.len() - i,
{
    if i < 0 || i >= s.len() || !spec_is_digit(s[i]) {
        i
    } else {
        spec_digit_run_end(s, i + 1)
    }
}

pub(crate) fn digit_run_end(b: &[u8], i: usize) -> (r: usize)
    requires
        i <= b@.len(),
    ensures
        r == spec_digit_run_end(b@, i as int),
        i <= r <= b@.len(),
{
    let n = b.len();
    let mut j: usize = i;
    loop
        invariant
            n == b@.len(),
            i <= j <= n,
            spec_digit_run_end(b@, i as int) == spec_digit_run_end(b@, j as int),
        ensures
            spec_digit_run_end(b@, i as int) == spec_digit_run_end(b@, j as int),
            j == n || !spec_is_digit(b@[j as int]),
        decreases n - j,
    {
        if j >= n {
            break ;
        }
        let d = b[j];
        if !(48 <= d && d <= 57) {
            break ;
        }
        j += 1;
    }
    j
}

/// `p` occurs in `s` starting exactly at `k`.
pub open spec fn spec_starts_at(s: Seq<u8>, k: int, p: Seq<u8>) -> bool {
    0 <= k && k + p.len() <= s.len() && s.subrange(k, k + p.len()) == p
}

pub(crate) fn bytes_match_at(s: &[u8], k: usize, p: &[u8]) -> (r: bool)
    ensures
        r == spec_starts_at(s@, k as int, p@),
{
    if k > s.len() || p.len() > s.len() - k {
        return false;
    }
    let n = p.len();
    let sn = s.len();
    let mut i: usize = 0;
    while i < n
        invariant
            n == p@.len(),
            sn == s@.len(),
            k + n <= s@.len(),
            i <= n,
            forall|j: int| 0 <= j < i ==> s@[k + j] == p@[j],
        decreases n - i,
    {
        if s[k + i] != p[i] {
            proof {
                assert(s@.subrange(k as int, k + n)[i as int] != p@[i as int]);
            }
            return false;
        }
        i += 1;
    }
    proof {
        assert(s@.subrange(k as int, k + n) =~= p@);
    }
    true
}

/// An error tag without a cited code: an optional closing bracket, then the
/// colon that ends the tag.
pub open spec fn spec_error_kind_nocode(s: Seq<u8>, e1: int) -> Option<(Option<Seq<char>>, int)> {
    let e3 = if e1 < s.len() && s[e1] == 93 {
        e1 + 1
    } else {
        e1
    };
    if 0 <= e3 && e3 < s.len() && s[e3] == 58 {
        Some((None, e3))
    } else {
        None
    }
}

/// What follows the word `error` in an error tag: loosely bracketed, an
/// optional code of `E` and digits, then the colon that ends the tag. The
/// result carries the cited code and the colon's position.
pub open spec fn spec_error_kind(s: Seq<u8>, e: int) -> Option<(Option<Seq<char>>, int)> {
    let e1 = if 0 <= e && e < s.len() && s[e] == 91 {
        e + 1
    } else {
        e
    };
    if 0 <= e1 && e1 < s.len() && s[e1] == 69 && spec_digit_run_end(s, e1 + 1) > e1 + 1 {
        let e2 = spec_digit_run_end(s, e1 + 1);
        let e3 = if e2 < s.len() && s[e2] == 93 {
            e2 + 1
        } else {
            e2
        };
        if e3 < s.len() && s[e3] == 58 {
            Some((Some(decode_utf8(s.subrange(e1, e2))), e3))
        } else {
            spec_error_kind_nocode(s, e1)
        }
    } else {
        spec_error_kind_nocode(s, e1)
    }
}

/// One candidate parse, with the location reference's first colon at `i`:
/// the reference's two numbers, the colon and blank, the tag, its colon and
/// blank, and the message to the end of the line. The result is the end of
/// the path (through the second number), the tag, and where the message
/// starts.
pub open spec fn spec_short_at(s: Seq<u8>, i: int) -> Option<(int, LintKindModel, int)> {
    if i < 0 || i >= s.len() || s[i] != 58 {
        None
    } else {
        let d1 = spec_digit_run_end(s, i + 1);
        if d1 == i + 1 || d1 >= s.len() || s[d1] != 58 {
            None
        } else {
            let d2 = spec_digit_run_end(s, d1 + 1);
            if d2 == d1 + 1 || d2 >= s.len() || s[d2] != 58 {
                None
            } else if d2 + 1 >= s.len() || !spec_is_ascii_ws(s[d2 + 1]) {
                None
            } else {
                let k = d2 + 2;
                if spec_starts_at(s, k, encode_utf8("error"@)) {
                    match spec_error_kind(s, k + 5) {
                        Some(ke) => {
                            if ke.1 + 1 < s.len() && spec_is_ascii_ws(s[ke.1 + 1]) {
                                Some((d2, LintKindModel::Error(ke.0), ke.1 + 2))
                            } else {
                                None
                            }
                        },
                        None => spec_short_warning(s, k, d2),
                    }
                } else {
                    spec_short_warning(s, k, d2)
                }
            }
        }
    }
}

/// The warning alternative of a candidate parse.
pub open spec fn spec_short_warning(s: Seq<u8>, k: int, d2: int) -> Option<(
    int,
    LintKindModel,
    int,
)> {
    if spec_starts_at(s, k, encode_utf8("warning"@)) {
        let e = k + 7;
        if e < s.len() && s[e] == 58 && e + 1 < s.len() && spec_is_ascii_ws(s[e + 1]) {
            Some((d2, LintKindModel::Warning, e + 2))
        } else {
            None
        }
    } else {
        None
    }
}

/// The leftmost candidate that parses.
pub open spec fn spec_short_find(s: Seq<u8>, i: int) -> Option<(int, LintKindModel, int)>
    decreases s.len() - i,
{
    if i < 0 || i >= s.len() {
        None
    } else {
        match spec_short_at(s, i) {
            Some(m) => Some(m),
            None => spec_short_find(s, i + 1),
        }
    }
}

/// One recognised single-line diagnostic.
#[derive(Debug, Clone)]
pub struct ShortLine {
    pub path: Path,
    pub kind: LintKind,
    pub message: Message,
}

impl Format for ShortLine {
    /// The tag, the message line, and the location line, in that order.
    open spec fn format_ensures(&self, out: Seq<char>) -> bool {
        exists|a: Seq<char>, b: Seq<char>, c: Seq<char>|
            #![trigger self.kind.format_ensures(a), self.message.format_ensures(b), self.path.format_ensures(c)]
            self.kind.format_ensures(a) && self.message.format_ensures(b)
                && self.path.format_ensures(c) && out == a + b + c
    }

    fn format(&self) -> (r: String)
        ensures
            self.format_ensures(r@),
    {
        let mut out = self.kind.format();
        let ghost a = out@;
        let m = self.message.format();
        out.append(m.as_str());
        let p = self.path.format();
        out.append(p.as_str());
        proof {
            assert(out@ == a + m@ + p@);
        }
        out
    }
}

/// How a parsed line's pieces relate to the line's bytes and the parse
/// model: the path runs from the start through the location reference, and
/// the message runs from after the tag to the end.
pub open spec fn spec_short_line_matches(
    line: ShortLine,
    s: Seq<u8>,
    m: (int, LintKindModel, int),
) -> bool {
    &&& line.path.0@ == decode_utf8(s.subrange(0, m.0))
    &&& line.kind@ == m.1
    &&& line.message.0@ == decode_utf8(s.subrange(m.2, s.len() as int))
}

/// Parses the error tag's tail. On success the code string and the position
/// of the tag's closing colon come back.
pub(crate) fn error_kind_at(input: &str, b: &[u8], e: usize) -> (r: Option<(Option<String>, usize)>)
    requires
        b@ == input.spec_bytes(),
        e <= b@.len(),
    ensures
        match spec_error_kind(b@, e as int) {
            Some(m) => {
                &&& r is Some
                &&& (r->0).1 == m.1
                &&& (match ((r->0).0, m.0) {
                    (Some(cs), Some(cm)) => cs@ == cm,
                    (None, None) => true,
                    _ => false,
                })
                &&& m.1 < b@.len()
            },
            None => r is None,
        },
{
    broadcast use vstd::utf8::encode_utf8_valid_utf8;
    broadcast use vstd::utf8::encode_utf8_decode_utf8;

    let n = b.len();
    let e1 = if e < n && b[e] == 91 {
        e + 1
    } else {
        e
    };
    if e1 < n && b[e1] == 69 {
        let e2 = digit_run_end(b, e1 + 1);
        if e2 > e1 + 1 {
            let e3 = if e2 < n && b[e2] == 93 {
                e2 + 1
            } else {
                e2
            };
            if e3 < n && b[e3] == 58 {
                // cut the code out of the line
                proof {
                    vstd::utf8::is_char_boundary_iff_not_is_continuation_byte(b@, e1 as int);
                    assert(is_char_boundary(b@, e1 as int));
                }
                let (_, rest) = input.split_at(e1);
                proof {
                    vstd::utf8::valid_utf8_split(b@, e1 as int);
                    assert(rest.spec_bytes() =~= b@.subrange(e1 as int, n as int));
                    assert(rest.spec_bytes()[e2 - e1] == b@[e2 as int]);
                    assert(!is_continuation_byte(b@[e2 as int]));
                    vstd::utf8::is_char_boundary_iff_not_is_continuation_byte(
                        rest.spec_bytes(),
                        e2 - e1,
                    );
                }
                let (code, _) = rest.split_at(e2 - e1);
                proof {
                    assert(code.spec_bytes() =~= b@.subrange(e1 as int, e2 as int));
                }
                return Some((Some(code.to_owned()), e3));
            }
        }
    }
    // no cited code
    let e3 = if e1 < n && b[e1] == 93 {
        e1 + 1
    } else {
        e1
    };
    if e3 < n && b[e3] == 58 {
        Some((None, e3))
    } else {
        None
    }
}

/// One candidate parse at position `i`, cutting the path and message out of
/// the line on success.
fn short_at(input: &str, b: &[u8], i: usize) -> (r: Option<ShortLine>)
    requires
        b@ == input.spec_bytes(),
        i < b@.len(),
    ensures
        match spec_short_at(b@, i as int) {
            Some(m) => r is Some && spec_short_line_matches(r->0, b@, m),
            None => r is None,
        },
{
    broadcast use vstd::utf8::encode_utf8_valid_utf8;
    broadcast use vstd::utf8::encode_utf8_decode_utf8;

    let n = b.len();
    if b[i] != 58 {
        return None;
    }
    let d1 = digit_run_end(b, i + 1);
    if d1 == i + 1 || d1 >= n || b[d1] != 58 {
        return None;
    }
    let d2 = digit_run_end(b, d1 + 1);
    if d2 == d1 + 1 || d2 >= n || b[d2] != 58 {
        return None;
    }
    if d2 + 1 >= n || !is_ascii_ws(b[d2 + 1]) {
        return None;
    }
    let k = d2 + 2;
    proof {
        reveal_strlit("error");
        reveal_strlit("warning");
        assert(vstd::string::is_ascii("error"));
        assert(vstd::string::is_ascii("warning"));
        vstd::string::is_ascii_spec_bytes("error");
        vstd::string::is_ascii_spec_bytes("warning");
        assert(encode_utf8("error"@).len() == 5);
        assert(encode_utf8("warning"@).len() == 7);
    }
    let kind_end: Option<(LintKind, usize)> = if bytes_match_at(b, k, "error".as_bytes()) {
        match error_kind_at(input, b, k + 5) {
            Some((code, e)) => {
                if e + 1 < n && is_ascii_ws(b[e + 1]) {
                    Some((LintKind::Error(code), e + 2))
                } else {
                    None
                }
            },
            None => {
                proof {
                    assert(!spec_starts_at(b@, k as int, encode_utf8("warning"@))) by {
                        reveal_strlit("error");
                        reveal_strlit("warning");
                        vstd::string::is_ascii_spec_bytes("error");
                        vstd::string::is_ascii_spec_bytes("warning");
                        assert(encode_utf8("error"@)[0] == 101);
                        assert(encode_utf8("warning"@)[0] == 119);
                        if spec_starts_at(b@, k as int, encode_utf8("warning"@)) {
                            assert(b@[k as int] == 119);
                        }
                        assert(b@.subrange(k as int, k + 5)[0] == b@[k as int]);
                    }
                }
                None
            },
        }
    } else if bytes_match_at(b, k, "warning".as_bytes()) {
        let e = k + 7;
        if e < n && b[e] == 58 && e + 1 < n && is_ascii_ws(b[e + 1]) {
            Some((LintKind::Warning, e + 2))
        } else {
            None
        }
    } else {
        None
    };
    match kind_end {
        Some((kind, msg_start)) => {
            proof {
                assert(!is_continuation_byte(b@[d2 as int]));
                vstd::utf8::is_char_boundary_iff_not_is_continuation_byte(b@, d2 as int);
                assert(spec_is_ascii_ws(b@[msg_start - 1]));
                assert(!is_continuation_byte(b@[msg_start - 1]));
                vstd::utf8::is_char_boundary_iff_not_is_continuation_byte(b@, msg_start - 1);
                assert(vstd::utf8::is_leading_byte_width_1(b@[msg_start - 1]));
                lemma_boundary_after_byte1(b@, msg_start - 1);
            }
            let (path, _) = input.split_at(d2);
            let (_, message) = input.split_at(msg_start);
            proof {
                assert(path.spec_bytes() =~= b@.subrange(0, d2 as int));
                assert(message.spec_bytes() =~= b@.subrange(msg_start as int, n as int));
            }
            Some(
                ShortLine {
                    path: Path(path.to_owned()),
                    kind,
                    message: Message(message.to_owned()),
                },
            )
        },
        None => None,
    }
}

/// Parses one line in the single-line diagnostic form, scanning for the
/// earliest location reference from which the rest of the line parses.
pub fn parse_short_line(input: &str) -> (r: Option<ShortLine>)
    ensures
        match spec_short_find(input.spec_bytes(), 0) {
            Some(m) => r is Some && spec_short_line_matches(r->0, input.spec_bytes(), m),
            None => r is None,
        },
{
    let b = input.as_bytes();
    let n = b.len();
    let mut i: usize = 0;
    while i < n
        invariant
            b@ == input.spec_bytes(),
            n == b@.len(),
            i <= n,
            spec_short_find(b@, 0) == spec_short_find(b@, i as int),
        decreases n - i,
    {
        match short_at(input, b, i) {
            Some(line) => {
                return Some(line);
            },
            None => {},
        }
        i += 1;
    }
    None
}

/// The stateless single-line parser.
pub struct ShortParser {}

impl ShortParser {
    /// A fresh parser.
    pub fn new() -> (r: Self) {
        ShortParser {  }
    }
}

impl crate::extract::Extract for ShortParser {
    /// A line in the single-line form comes back formatted; any other line
    /// produces nothing; the parser keeps no state.
    open spec fn extract_ensures(pre: Self, post: Self, input: Seq<char>, out: Seq<char>) -> bool {
        match spec_short_find(encode_utf8(input), 0) {
            Some(m) => exists|line: ShortLine|
                #![trigger line.format_ensures(out)]
                spec_short_line_matches(line, encode_utf8(input), m) && line.format_ensures(out),
            None => out == Seq::<char>::empty(),
        }
    }

    /// Feeds one line and takes the text it produced.
    fn extract(&mut self, input: &str) -> (r: String)
        ensures
            Self::extract_ensures(*old(self), *final(self), input@, r@),
    {
        match parse_short_line(input) {
            Some(line) => {
                let out = line.format();
                proof {
                    assert(line.format_ensures(out@));
                }
                out
            },
            None => String::new(),
        }
    }
}

} // verus!
