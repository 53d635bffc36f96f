//! The multi-line diagnostic form and its stateful parser. The analysis
//! prints one diagnostic over several lines — a severity header, an arrow
//! line with the location, a numbered source line, and note or help lines —
//! separated by blank lines. The parser classifies each line, accumulates
//! the pieces, and writes one formatted diagnostic out when a blank line
//! closes a complete group.

use vstd::prelude::*;
use vstd::string::StringSliceAdditionalSpecFns;
use vstd::utf8::decode_utf8;
use vstd::utf8::encode_utf8;
use vstd::utf8::is_char_boundary;
use vstd::utf8::is_continuation_byte;

use crate::extract::Context;
use crate::extract::LintKind;
use crate::extract::LintKindModel;
use crate::extract::Message;
use crate::extract::Note;
use crate::extract::NoteModel;
use crate::extract::Path;
use crate::format::Format;
use crate::strops::is_ascii_ws;
use crate::strops::lemma_boundary_after_byte1;
use crate::strops::spec_is_ascii_ws;

use super::short::bytes_match_at;
use super::short::error_kind_at;
use super::short::spec_error_kind;
use super::short::spec_starts_at;

verus! {

/// The end of the ASCII-whitespace run that starts at `i`.
pub open spec fn spec_ws_run_end(s: Seq<u8>, i: int) -> int
    decreases s.len() - i,
{
    if i < 0 || i >= s.len() || !spec_is_ascii_ws(s[i]) {
        i
    } else {
        spec_ws_run_end(s, i + 1)
    }
}

fn ws_run_end(b: &[u8], i: usize) -> (r: usize)
    requires
        i <= b@.len(),
    ensures
        r == spec_ws_run_end(b@, i as int),
        i <= r <= b@.len(),
{
    let n = b.len();
    let mut j: usize = i;
    loop
        invariant
            n == b@.len(),
            i <= j <= n,
            spec_ws_run_end(b@, i as int) == spec_ws_run_end(b@, j as int),
        ensures
            spec_ws_run_end(b@, i as int) == spec_ws_run_end(b@, j as int),
            j == n || !spec_is_ascii_ws(b@[j as int]),
        decreases n - j,
    {
        if j >= n {
            break ;
        }
        if !is_ascii_ws(b[j]) {
            break ;
        }
        j += 1;
    }
    j
}

pub proof fn lemma_ws_run_props(s: Seq<u8>, i: int)
    requires
        0 <= i <= s.len(),
    ensures
        i <= spec_ws_run_end(s, i) <= s.len(),
        forall|j: int| i <= j < spec_ws_run_end(s, i) ==> spec_is_ascii_ws(#[trigger] s[j]),
    decreases s.len() - i,
{
    if i < s.len() && spec_is_ascii_ws(s[i]) {
        lemma_ws_run_props(s, i + 1);
    }
}

/// What one line of the multi-line form is.
pub enum LineClass {
    Diag(LintKindModel, Seq<char>),
    PathLine(Seq<char>),
    ContextLine(Seq<char>),
    NoteLine(NoteModel),
    NoMatch,
}

/// The severity-header alternative: the line opens with the tag, then its
/// colon and one blank, then the message to the end.
pub open spec fn spec_long_diag(s: Seq<u8>) -> Option<(LintKindModel, Seq<char>)> {
    if spec_starts_at(s, 0, encode_utf8("error"@)) {
        match spec_error_kind(s, 5) {
            Some(ke) => {
                if ke.1 + 1 < s.len() && spec_is_ascii_ws(s[ke.1 + 1]) {
                    Some((LintKindModel::Error(ke.0), decode_utf8(s.subrange(ke.1 + 2, s.len() as int))))
                } else {
                    None
                }
            },
            None => spec_long_diag_warning(s),
        }
    } else {
        spec_long_diag_warning(s)
    }
}

pub open spec fn spec_long_diag_warning(s: Seq<u8>) -> Option<(LintKindModel, Seq<char>)> {
    if spec_starts_at(s, 0, encode_utf8("warning"@)) && 7 < s.len() && s[7] == 58 && 8 < s.len()
        && spec_is_ascii_ws(s[8]) {
        Some((LintKindModel::Warning, decode_utf8(s.subrange(9, s.len() as int))))
    } else {
        None
    }
}

/// The arrow alternative: an optional leading colon, whitespace, the arrow,
/// one blank, then the location to the end.
pub open spec fn spec_long_path(s: Seq<u8>) -> Option<Seq<char>> {
    let q: int = if s.len() > 0 && s[0] == 58 {
        1
    } else {
        0
    };
    let w = spec_ws_run_end(s, q);
    if spec_starts_at(s, w, encode_utf8("-->"@)) && w + 3 < s.len() && spec_is_ascii_ws(s[w + 3]) {
        Some(decode_utf8(s.subrange(w + 4, s.len() as int)))
    } else {
        None
    }
}

/// The numbered-source-line alternative: an optional leading colon, a line
/// number, one blank, the bar, whitespace, then the source text to the end.
pub open spec fn spec_long_context(s: Seq<u8>) -> Option<Seq<char>> {
    let q: int = if s.len() > 0 && s[0] == 58 {
        1
    } else {
        0
    };
    let d = super::short::spec_digit_run_end(s, q);
    if d > q && d < s.len() && spec_is_ascii_ws(s[d]) && d + 1 < s.len() && s[d + 1] == 124 {
        let w2 = spec_ws_run_end(s, d + 2);
        Some(decode_utf8(s.subrange(w2, s.len() as int)))
    } else {
        None
    }
}

/// The note alternative: an optional leading colon, an optional equals sign
/// amid whitespace, `note` or `help`, its colon and one blank, then the
/// attachment's text to the end.
pub open spec fn spec_long_note(s: Seq<u8>) -> Option<NoteModel> {
    let q: int = if s.len() > 0 && s[0] == 58 {
        1
    } else {
        0
    };
    let w = spec_ws_run_end(s, q);
    let q2: int = if w < s.len() && s[w] == 61 && w + 1 < s.len() && spec_is_ascii_ws(s[w + 1]) {
        w + 2
    } else {
        q
    };
    if spec_starts_at(s, q2, encode_utf8("note"@)) && q2 + 4 < s.len() && s[q2 + 4] == 58 && q2 + 5
        < s.len() && spec_is_ascii_ws(s[q2 + 5]) {
        Some(NoteModel::Note(decode_utf8(s.subrange(q2 + 6, s.len() as int))))
    } else if spec_starts_at(s, q2, encode_utf8("help"@)) && q2 + 4 < s.len() && s[q2 + 4] == 58
        && q2 + 5 < s.len() && spec_is_ascii_ws(s[q2 + 5]) {
        Some(NoteModel::Help(decode_utf8(s.subrange(q2 + 6, s.len() as int))))
    } else {
        None
    }
}

/// What one line is, trying the alternatives in their fixed order.
pub open spec fn spec_classify(s: Seq<u8>) -> LineClass {
    match spec_long_diag(s) {
        Some(km) => LineClass::Diag(km.0, km.1),
        None => match spec_long_path(s) {
            Some(p) => LineClass::PathLine(p),
            None => match spec_long_context(s) {
                Some(c) => LineClass::ContextLine(c),
                None => match spec_long_note(s) {
                    Some(nm) => LineClass::NoteLine(nm),
                    None => LineClass::NoMatch,
                },
            },
        },
    }
}

/// One assembled multi-line diagnostic.
pub struct LongLine {
    pub path: Path,
    pub kind: LintKind,
    pub message: Message,
    pub context: Context,
    #[allow(dead_code)]
    pub notes: Vec<Note>,
}

impl Format for LongLine {
    /// The tag, the message line, the source line, and the location line, in
    /// that order; the note attachments are kept but not printed.
    open spec fn format_ensures(&self, out: Seq<char>) -> bool {
        exists|a: Seq<char>, b: Seq<char>, c: Seq<char>, d: Seq<char>|
            #![trigger self.kind.format_ensures(a), self.message.format_ensures(b), self.context.format_ensures(c), self.path.format_ensures(d)]
            self.kind.format_ensures(a) && self.message.format_ensures(b)
                && self.context.format_ensures(c) && self.path.format_ensures(d) && out == a + b + c
                + d
    }

    fn format(&self) -> (r: String)
        ensures
            self.format_ensures(r@),
    {
        let mut out = self.kind.format();
        let ghost a = out@;
        let m = self.message.format();
        out.append(m.as_str());
        let c = self.context.format();
        out.append(c.as_str());
        let p = self.path.format();
        out.append(p.as_str());
        proof {
            assert(out@ == a + m@ + c@ + p@);
        }
        out
    }
}

/// The stateful multi-line parser.
pub struct LongParser {
    pub path: Option<String>,
    pub kind: Option<LintKind>,
    pub message: Option<String>,
    pub context: Option<String>,
    pub notes: Vec<Note>,
}

impl LongParser {
    /// Nothing accumulated yet.
    pub open spec fn spec_empty(self) -> bool {
        self.path is None && self.kind is None && self.message is None && self.context is None
            && self.notes@.len() == 0
    }

    /// Every piece of one diagnostic is at hand.
    pub open spec fn spec_complete(self) -> bool {
        self.path is Some && self.kind is Some && self.message is Some && self.context is Some
    }

    /// The assembled diagnostic's formatted text, as a predicate over the
    /// output.
    pub open spec fn spec_flush_ensures(self, out: Seq<char>) -> bool {
        if self.spec_complete() {
            exists|a: Seq<char>, b: Seq<char>, c: Seq<char>, d: Seq<char>|
                #![trigger (self.kind->0).format_ensures(a), Message(self.message->0).format_ensures(b), Context(self.context->0).format_ensures(c), Path(self.path->0).format_ensures(d)]
                (self.kind->0).format_ensures(a) && Message(self.message->0).format_ensures(b)
                    && Context(self.context->0).format_ensures(c) && Path(
                    self.path->0,
                ).format_ensures(d) && out == a + b + c + d
        } else {
            out == Seq::<char>::empty()
        }
    }

    /// How the accumulated state changes when one non-blank line is read.
    pub open spec fn spec_step(pre: Self, post: Self, s: Seq<u8>) -> bool {
        match spec_classify(s) {
            LineClass::Diag(km, msg) => post.kind is Some && post.kind->0@ == km
                && post.message is Some && post.message->0@ == msg && post.path == pre.path
                && post.context == pre.context && post.notes == pre.notes,
            LineClass::PathLine(p) => post.path is Some && post.path->0@ == p && post.kind
                == pre.kind && post.message == pre.message && post.context == pre.context
                && post.notes == pre.notes,
            LineClass::ContextLine(c) => post.context is Some && post.context->0@ == c && post.path
                == pre.path && post.kind == pre.kind && post.message == pre.message && post.notes
                == pre.notes,
            LineClass::NoteLine(nm) => post.notes@.len() == pre.notes@.len() + 1
                && post.notes@.last()@ == nm && post.notes@.subrange(0, pre.notes@.len() as int)
                == pre.notes@ && post.path == pre.path && post.kind == pre.kind && post.message
                == pre.message && post.context == pre.context,
            LineClass::NoMatch => post == pre,
        }
    }

    /// A fresh parser with nothing accumulated.
    pub fn new() -> (r: Self)
        ensures
            r.spec_empty(),
    {
        LongParser { path: None, kind: None, message: None, context: None, notes: Vec::new() }
    }

    /// Classifies one non-blank line and updates the accumulated state.
    fn step(&mut self, input: &str)
        ensures
            Self::spec_step(*old(self), *final(self), input.spec_bytes()),
    {
        broadcast use vstd::utf8::encode_utf8_valid_utf8;
        broadcast use vstd::utf8::encode_utf8_decode_utf8;

        let b = input.as_bytes();
        let n = b.len();
        proof {
            reveal_strlit("error");
            reveal_strlit("warning");
            reveal_strlit("-->");
            reveal_strlit("note");
            reveal_strlit("help");
            assert(vstd::string::is_ascii("error"));
            assert(vstd::string::is_ascii("warning"));
            assert(vstd::string::is_ascii("-->"));
            assert(vstd::string::is_ascii("note"));
            assert(vstd::string::is_ascii("help"));
            vstd::string::is_ascii_spec_bytes("error");
            vstd::string::is_ascii_spec_bytes("warning");
            vstd::string::is_ascii_spec_bytes("-->");
            vstd::string::is_ascii_spec_bytes("note");
            vstd::string::is_ascii_spec_bytes("help");
            assert(encode_utf8("error"@).len() == 5);
            assert(encode_utf8("warning"@).len() == 7);
            assert(encode_utf8("-->"@).len() == 3);
            assert(encode_utf8("note"@).len() == 4);
            assert(encode_utf8("help"@).len() == 4);
            assert(encode_utf8("warning"@)[0] == 119);
            assert(encode_utf8("error"@)[0] == 101);
        }
        // the severity header
        let diag: Option<(LintKind, usize)> = if bytes_match_at(b, 0, "error".as_bytes()) {
            match error_kind_at(input, b, 5) {
                Some((code, e)) => {
                    if e + 1 < n && is_ascii_ws(b[e + 1]) {
                        Some((LintKind::Error(code), e + 2))
                    } else {
                        None
                    }
                },
                None => {
                    proof {
                        if spec_starts_at(b@, 0, encode_utf8("warning"@)) {
                            assert(b@.subrange(0, 7int)[0] == b@[0]);
                            assert(b@.subrange(0, 5int)[0] == b@[0]);
                        }
                    }
                    None
                },
            }
        } else if bytes_match_at(b, 0, "warning".as_bytes()) {
            if 7 < n && b[7] == 58 && 8 < n && is_ascii_ws(b[8]) {
                Some((LintKind::Warning, 9))
            } else {
                None
            }
        } else {
            None
        };
        match diag {
            Some((kind, msg_start)) => {
                proof {
                    assert(spec_is_ascii_ws(b@[msg_start - 1]));
                    vstd::utf8::is_char_boundary_iff_not_is_continuation_byte(b@, msg_start - 1);
                    lemma_boundary_after_byte1(b@, msg_start - 1);
                }
                let (_, message) = input.split_at(msg_start);
                proof {
                    assert(message.spec_bytes() =~= b@.subrange(msg_start as int, n as int));
                }
                self.kind = Some(kind);
                self.message = Some(message.to_owned());
                return ;
            },
            None => {},
        }
        let q: usize = if n > 0 && b[0] == 58 {
            1
        } else {
            0
        };
        // the arrow line
        let w = ws_run_end(b, q);
        if bytes_match_at(b, w, "-->".as_bytes()) && w + 3 < n && is_ascii_ws(b[w + 3]) {
            proof {
                vstd::utf8::is_char_boundary_iff_not_is_continuation_byte(b@, w + 3);
                lemma_boundary_after_byte1(b@, w + 3);
            }
            let (_, path) = input.split_at(w + 4);
            proof {
                assert(path.spec_bytes() =~= b@.subrange(w + 4, n as int));
            }
            self.path = Some(path.to_owned());
            return ;
        }
        // the numbered source line
        let d = super::short::digit_run_end(b, q);
        if d > q && d < n && is_ascii_ws(b[d]) && d + 1 < n && b[d + 1] == 124 {
            let w2 = ws_run_end(b, d + 2);
            proof {
                lemma_ws_run_props(b@, d + 2);
                if w2 > d + 2 {
                    assert(spec_is_ascii_ws(b@[w2 - 1]));
                } else {
                    assert(b@[w2 - 1] == 124);
                }
                assert(!is_continuation_byte(b@[w2 - 1]));
                assert(vstd::utf8::is_leading_byte_width_1(b@[w2 - 1]));
                vstd::utf8::is_char_boundary_iff_not_is_continuation_byte(b@, w2 - 1);
                lemma_boundary_after_byte1(b@, w2 - 1);
            }
            let (_, context) = input.split_at(w2);
            proof {
                assert(context.spec_bytes() =~= b@.subrange(w2 as int, n as int));
            }
            self.context = Some(context.to_owned());
            return ;
        }
        // the note or help line
        let q2: usize = if w < n && b[w] == 61 && w + 1 < n && is_ascii_ws(b[w + 1]) {
            w + 2
        } else {
            q
        };
        let is_note = bytes_match_at(b, q2, "note".as_bytes());
        let is_help = if is_note {
            false
        } else {
            bytes_match_at(b, q2, "help".as_bytes())
        };
        if (is_note || is_help) && q2 + 4 < n && b[q2 + 4] == 58 && q2 + 5 < n && is_ascii_ws(
            b[q2 + 5],
        ) {
            proof {
                if is_note {
                    assert(encode_utf8("note"@)[0] == 110);
                    assert(b@.subrange(q2 as int, q2 + 4)[0] == b@[q2 as int]);
                    if spec_starts_at(b@, q2 as int, encode_utf8("help"@)) {
                        assert(encode_utf8("help"@)[0] == 104);
                    }
                }
                vstd::utf8::is_char_boundary_iff_not_is_continuation_byte(b@, q2 + 5);
                lemma_boundary_after_byte1(b@, q2 + 5);
            }
            let (_, text) = input.split_at(q2 + 6);
            proof {
                assert(text.spec_bytes() =~= b@.subrange(q2 + 6, n as int));
            }
            let ghost pre_notes = self.notes@;
            if is_note {
                self.notes.push(Note::Note(text.to_owned()));
            } else {
                self.notes.push(Note::Help(text.to_owned()));
            }
            proof {
                assert(self.notes@.subrange(0, pre_notes.len() as int) =~= pre_notes);
            }
            return ;
        }
        proof {
            assert(spec_classify(input.spec_bytes()) is NoMatch);
        }
    }

    /// Feeds one line, as the `Extract` impl below spells it out.
    fn feed(&mut self, input: &str) -> (r: String)
        ensures
            input@.len() == 0 ==> final(self).spec_empty() && old(self).spec_flush_ensures(r@),
            input@.len() != 0 ==> Self::spec_step(*old(self), *final(self), input.spec_bytes())
                && r@ == Seq::<char>::empty(),
    {
        if input.is_empty() {
            let mut taken = LongParser::new();
            core::mem::swap(&mut taken, self);
            if taken.path.is_some() && taken.kind.is_some() && taken.message.is_some()
                && taken.context.is_some() {
                let line = LongLine {
                    path: Path(option_unwrap_string(taken.path)),
                    kind: option_unwrap_kind(taken.kind),
                    message: Message(option_unwrap_string(taken.message)),
                    context: Context(option_unwrap_string(taken.context)),
                    notes: taken.notes,
                };
                let out = line.format();
                proof {
                    assert(line.format_ensures(out@));
                }
                out
            } else {
                String::new()
            }
        } else {
            self.step(input);
            String::new()
        }
    }
}

impl crate::extract::Extract for LongParser {
    /// A non-blank line is classified and accumulated and produces nothing;
    /// an empty line closes the group, resets the state, and produces the
    /// formatted diagnostic when every piece was at hand.
    open spec fn extract_ensures(pre: Self, post: Self, input: Seq<char>, out: Seq<char>) -> bool {
        if input.len() == 0 {
            post.spec_empty() && pre.spec_flush_ensures(out)
        } else {
            Self::spec_step(pre, post, encode_utf8(input)) && out == Seq::<char>::empty()
        }
    }

    /// Feeds one line and takes the text it produced.
    fn extract(&mut self, input: &str) -> (r: String)
        ensures
            Self::extract_ensures(*old(self), *final(self), input@, r@),
    {
        self.feed(input)
    }
}

fn option_unwrap_string(o: Option<String>) -> (r: String)
    requires
        o is Some,
    ensures
        r == o->0,
{
    match o {
        Some(s) => s,
        None => String::new(),
    }
}

fn option_unwrap_kind(o: Option<LintKind>) -> (r: LintKind)
    requires
        o is Some,
    ensures
        r == o->0,
{
    match o {
        Some(k) => k,
        None => LintKind::Warning,
    }
}

} // verus!
