//! A source location plus the raw text lines it covers, and the snippet
//! rendering that highlights a byte range of those lines without ever
//! splitting a multi-byte UTF-8 character: highlight bounds are clamped
//! outward to the nearest character boundaries before the line is cut.

use vstd::prelude::*;
use vstd::string::StringExecFns;
use vstd::string::StringSliceAdditionalSpecFns;
use vstd::utf8::decode_utf8;
use vstd::utf8::encode_utf8;
use vstd::utf8::is_char_boundary;
use vstd::utf8::is_continuation_byte;
use vstd::utf8::valid_utf8;

use crate::ansi::paint;
use crate::ansi::spec_painted;
use crate::options::RenderOptions;
use crate::options::RenderStyle;
use crate::strops::count_leading_ws;
use crate::strops::is_blank;
use crate::strops::spec_decimal;
use crate::strops::spec_is_blank;
use crate::strops::spec_leading_ws;
use crate::strops::u64_to_string;
use crate::theme::Theme;

use super::Text;

verus! {

/// A source-code location and the source lines it covers.
#[derive(Debug, Clone)]
pub struct Span {
    pub column_start: usize,
    pub line_start: usize,
    pub file_name: String,
    pub text: Vec<Text>,
}

impl Span {
    /// Every covered line has a well-formed highlight range.
    pub open spec fn wf(self) -> bool {
        forall|i: int| 0 <= i < self.text@.len() ==> (#[trigger] self.text@[i]).wf()
    }
}

/// True of a byte that does not continue a multi-byte UTF-8 character: the
/// first byte of a character's encoding, at which a string may be cut.
pub fn is_utf8_char_boundary(byte: u8) -> (r: bool)
    ensures
        r == !is_continuation_byte(byte),
{
    byte < 128 || byte >= 192
}

/// The nearest position at or below `i` at which the byte sequence may be
/// cut without splitting a character: positions past the end clamp to the
/// end, and continuation bytes are skipped downward.
pub open spec fn spec_floor_boundary(bytes: Seq<u8>, i: int) -> int
    decreases i + 1,
{
    if i < 0 {
        0
    } else if i >= bytes.len() {
        bytes.len() as int
    } else if !is_continuation_byte(bytes[i]) {
        i
    } else {
        spec_floor_boundary(bytes, i - 1)
    }
}

/// The nearest position at or above `i` at which the byte sequence may be
/// cut: positions past the end clamp to the end, and continuation bytes are
/// skipped upward.
pub open spec fn spec_ceil_boundary(bytes: Seq<u8>, i: int) -> int
    recommends
        0 <= i,
    decreases bytes.len() - i,
{
    if i >= bytes.len() {
        bytes.len() as int
    } else if i < 0 || !is_continuation_byte(bytes[i]) {
        i
    } else {
        spec_ceil_boundary(bytes, i + 1)
    }
}

/// The floor clamp lands on a character boundary, at or below the requested
/// position.
pub proof fn lemma_floor_boundary_props(bytes: Seq<u8>, i: int)
    requires
        valid_utf8(bytes),
    ensures
        0 <= spec_floor_boundary(bytes, i) <= bytes.len(),
        is_char_boundary(bytes, spec_floor_boundary(bytes, i)),
        0 <= i < bytes.len() ==> spec_floor_boundary(bytes, i) <= i,
    decreases i + 1,
{
    if i < 0 {
    } else if i >= bytes.len() {
        vstd::utf8::is_char_boundary_start_end_of_seq(bytes);
    } else if !is_continuation_byte(bytes[i]) {
        vstd::utf8::is_char_boundary_iff_not_is_continuation_byte(bytes, i);
    } else {
        lemma_floor_boundary_props(bytes, i - 1);
    }
}

/// The ceiling clamp lands on a character boundary, at or above the
/// requested position (clamped to the end).
pub proof fn lemma_ceil_boundary_props(bytes: Seq<u8>, i: int)
    requires
        valid_utf8(bytes),
        0 <= i,
    ensures
        0 <= spec_ceil_boundary(bytes, i) <= bytes.len(),
        is_char_boundary(bytes, spec_ceil_boundary(bytes, i)),
        i <= bytes.len() ==> i <= spec_ceil_boundary(bytes, i),
    decreases bytes.len() - i,
{
    if i >= bytes.len() {
        vstd::utf8::is_char_boundary_start_end_of_seq(bytes);
    } else if !is_continuation_byte(bytes[i]) {
        vstd::utf8::is_char_boundary_iff_not_is_continuation_byte(bytes, i);
    } else {
        lemma_ceil_boundary_props(bytes, i + 1);
    }
}

/// Clamping a range outward keeps it a range: the floored start never
/// passes the ceiled end.
pub proof fn lemma_floor_le_ceil(bytes: Seq<u8>, s0: int, e0: int)
    requires
        valid_utf8(bytes),
        0 <= s0 <= e0,
    ensures
        spec_floor_boundary(bytes, s0) <= spec_ceil_boundary(bytes, e0),
{
    lemma_floor_boundary_props(bytes, s0);
    lemma_ceil_boundary_props(bytes, e0);
    if s0 >= bytes.len() {
        assert(spec_floor_boundary(bytes, s0) == bytes.len() as int);
        assert(e0 >= bytes.len());
    } else {
        assert(spec_floor_boundary(bytes, s0) <= s0);
        if e0 <= bytes.len() {
            assert(spec_ceil_boundary(bytes, e0) >= e0);
        } else {
            assert(spec_ceil_boundary(bytes, e0) == bytes.len() as int);
        }
    }
}

/// A character boundary of the whole sequence, at or after a boundary where
/// a suffix starts, is a character boundary of that suffix.
pub proof fn lemma_char_boundary_in_suffix(bytes: Seq<u8>, i: int, k: int)
    requires
        valid_utf8(bytes),
        0 <= i <= k <= bytes.len(),
        is_char_boundary(bytes, i),
        is_char_boundary(bytes, k),
    ensures
        is_char_boundary(bytes.subrange(i, bytes.len() as int), k - i),
    decreases i,
{
    if i == 0 {
        assert(bytes.subrange(0, bytes.len() as int) =~= bytes);
    } else {
        let ell = vstd::utf8::length_of_first_scalar(bytes);
        let tail = vstd::utf8::pop_first_scalar(bytes);
        assert(is_char_boundary(tail, i - ell));
        assert(i - ell >= 0) by {
            if i - ell < 0 {
                reveal_with_fuel(vstd::utf8::is_char_boundary, 2);
            }
        }
        assert(is_char_boundary(tail, k - ell));
        assert(1 <= ell);
        lemma_char_boundary_in_suffix(tail, i - ell, k - ell);
        assert(tail.subrange(i - ell, tail.len() as int) =~= bytes.subrange(
            i,
            bytes.len() as int,
        ));
    }
}

/// Exact floor clamp on a string's bytes.
pub fn floor_char_boundary(s: &str, index: usize) -> (r: usize)
    ensures
        r == spec_floor_boundary(s.spec_bytes(), index as int),
{
    let b = s.as_bytes();
    let n = b.len();
    if index >= n {
        return n;
    }
    let mut i: usize = index;
    loop
        invariant
            b@ == s.spec_bytes(),
            n == b@.len(),
            i <= index < n,
            spec_floor_boundary(b@, index as int) == spec_floor_boundary(b@, i as int),
        ensures
            spec_floor_boundary(b@, index as int) == spec_floor_boundary(b@, i as int),
            i == 0 || !is_continuation_byte(b@[i as int]),
        decreases i,
    {
        if i == 0 {
            break ;
        }
        if is_utf8_char_boundary(b[i]) {
            break ;
        }
        i -= 1;
    }
    proof {
        if i == 0 && is_continuation_byte(b@[0]) {
            reveal_with_fuel(spec_floor_boundary, 2);
            assert(spec_floor_boundary(b@, 0) == spec_floor_boundary(b@, -1));
        }
        assert(spec_floor_boundary(b@, i as int) == i);
    }
    i
}

/// Exact ceiling clamp on a string's bytes.
pub fn ceil_char_boundary(s: &str, index: usize) -> (r: usize)
    ensures
        r == spec_ceil_boundary(s.spec_bytes(), index as int),
{
    let b = s.as_bytes();
    let n = b.len();
    if index >= n {
        return n;
    }
    let mut i: usize = index;
    loop
        invariant
            b@ == s.spec_bytes(),
            n == b@.len(),
            index <= i <= n,
            spec_ceil_boundary(b@, index as int) == spec_ceil_boundary(b@, i as int),
        ensures
            spec_ceil_boundary(b@, index as int) == spec_ceil_boundary(b@, i as int),
            i == n || !is_continuation_byte(b@[i as int]),
        decreases n - i,
    {
        if i >= n {
            break ;
        }
        if is_utf8_char_boundary(b[i]) {
            break ;
        }
        i += 1;
    }
    i
}

/// The 1-indexed highlight offset carried to the stripped line: the
/// left pad and the index correction both come off, stopping at zero.
pub open spec fn spec_shift_offset(off: int, pad: int) -> int {
    if off >= pad + 1 {
        off - pad - 1
    } else {
        0
    }
}

fn shift_offset(off: usize, pad: usize) -> (r: usize)
    ensures
        r == spec_shift_offset(off as int, pad as int),
{
    if off > pad {
        off - pad - 1
    } else {
        0
    }
}

/// One rendered snippet line for one covered source line: the line with the
/// uniform left pad stripped (clamped down to a character boundary), cut at
/// the clamped highlight bounds into three segments, the outer two in the
/// code colour and the middle one in the highlight colour.
pub open spec fn spec_text_snippet(t: Text, pad: int, th: Theme) -> Seq<char> {
    let bytes = encode_utf8(t.text@);
    let p = spec_floor_boundary(bytes, pad);
    let tr = bytes.subrange(p, bytes.len() as int);
    let s0 = spec_shift_offset(t.highlight_start as int, pad);
    let e0 = spec_shift_offset(t.highlight_end as int, pad);
    let fl = spec_floor_boundary(tr, s0);
    let ce = spec_ceil_boundary(tr, e0);
    seq![' ', ' '] + spec_painted(decode_utf8(tr.subrange(0, fl)), th.code) + spec_painted(
        decode_utf8(tr.subrange(fl, ce)),
        th.highlight,
    ) + spec_painted(decode_utf8(tr.subrange(ce, tr.len() as int)), th.code) + seq!['\n']
}

/// The index of the first covered line that has visible content.
pub open spec fn spec_first_nonblank(texts: Seq<Text>, from: int) -> Option<int>
    decreases texts.len() - from,
{
    if from < 0 || from >= texts.len() {
        None
    } else if !spec_is_blank(encode_utf8(texts[from].text@)) {
        Some(from)
    } else {
        spec_first_nonblank(texts, from + 1)
    }
}

/// The uniform left pad of a span: the leading-whitespace byte count of its
/// first non-blank line, and zero when every line is blank.
pub open spec fn spec_left_pad(texts: Seq<Text>) -> int {
    match spec_first_nonblank(texts, 0) {
        Some(i) => spec_leading_ws(encode_utf8(texts[i].text@)),
        None => 0,
    }
}

/// The snippet lines of the covered source lines from `from` on: blank
/// lines are skipped entirely, the others are highlighted under the uniform
/// left pad.
pub open spec fn spec_snippets(texts: Seq<Text>, from: int, pad: int, th: Theme) -> Seq<char>
    decreases texts.len() - from,
{
    if from < 0 || from >= texts.len() {
        Seq::empty()
    } else {
        (if spec_is_blank(encode_utf8(texts[from].text@)) {
            Seq::empty()
        } else {
            spec_text_snippet(texts[from], pad, th)
        }) + spec_snippets(texts, from + 1, pad, th)
    }
}

/// The location reference `file:line:col`.
pub open spec fn spec_link_text(s: Span) -> Seq<char> {
    s.file_name@ + seq![':'] + spec_decimal(s.line_start as nat) + seq![':'] + spec_decimal(
        s.column_start as nat,
    )
}

/// The location line body: the reference wrapped in a terminal hyperlink
/// escape whose target and visible text are both `file:line:col`, closed by
/// a newline.
pub open spec fn spec_location_text(s: Span) -> Seq<char> {
    seq!['\u{1b}', ']', '8', ';', ';'] + spec_link_text(s) + seq!['\u{1b}', '\\'] + spec_link_text(
        s,
    ) + seq!['\u{1b}', ']', '8', ';', ';', '\u{1b}', '\\', '\n']
}

/// What rendering one span yields: under the Full style the snippet lines
/// come first; then the location line in the location colour, led by the
/// continuation marker in its colour when one is configured, each part
/// spaced by single blanks.
pub open spec fn spec_span_render(
    s: Span,
    style: RenderStyle,
    continuation: Option<Seq<char>>,
    th: Theme,
) -> Seq<char> {
    (if style is Full {
        spec_snippets(s.text@, 0, spec_left_pad(s.text@), th)
    } else {
        Seq::empty()
    }) + (match continuation {
        Some(c) => seq![' '] + spec_painted(c, th.continuation) + seq![' '] + spec_painted(
            spec_location_text(s),
            th.location,
        ) + seq![' '],
        None => seq![' '] + spec_painted(spec_location_text(s), th.location) + seq![' '],
    })
}

/// Cuts one source line for display: strips the pad and slices the
/// highlight, every cut on a character boundary.
fn snippet_line(t: &Text, pad: usize, th: &Theme) -> (r: String)
    requires
        t.wf(),
    ensures
        r@ == spec_text_snippet(*t, pad as int, *th),
{
    broadcast use vstd::utf8::encode_utf8_valid_utf8;
    broadcast use vstd::utf8::encode_utf8_decode_utf8;

    let text = t.text.as_str();
    let strip = floor_char_boundary(text, pad);
    proof {
        lemma_floor_boundary_props(text.spec_bytes(), pad as int);
    }
    let (_, trimmed) = text.split_at(strip);
    proof {
        vstd::utf8::valid_utf8_split(text.spec_bytes(), strip as int);
        assert(trimmed.spec_bytes() =~= text.spec_bytes().subrange(
            strip as int,
            text.spec_bytes().len() as int,
        ));
    }
    let s0 = shift_offset(t.highlight_start, pad);
    let e0 = shift_offset(t.highlight_end, pad);
    let fl = floor_char_boundary(trimmed, s0);
    let ce = ceil_char_boundary(trimmed, e0);
    proof {
        lemma_floor_boundary_props(trimmed.spec_bytes(), s0 as int);
        lemma_ceil_boundary_props(trimmed.spec_bytes(), e0 as int);
        lemma_floor_le_ceil(trimmed.spec_bytes(), s0 as int, e0 as int);
    }
    let (head, rest) = trimmed.split_at(fl);
    proof {
        vstd::utf8::valid_utf8_split(trimmed.spec_bytes(), fl as int);
        assert(rest.spec_bytes() =~= trimmed.spec_bytes().subrange(
            fl as int,
            trimmed.spec_bytes().len() as int,
        ));
        lemma_char_boundary_in_suffix(trimmed.spec_bytes(), fl as int, ce as int);
    }
    let (mid, tail) = rest.split_at(ce - fl);
    proof {
        assert(mid.spec_bytes() =~= trimmed.spec_bytes().subrange(fl as int, ce as int));
        assert(tail.spec_bytes() =~= trimmed.spec_bytes().subrange(
            ce as int,
            trimmed.spec_bytes().len() as int,
        ));
        reveal_strlit("  ");
        reveal_strlit("\n");
        assert("  "@ =~= seq![' ', ' ']);
        assert("\n"@ =~= seq!['\n']);
    }
    let mut line = "  ".to_owned();
    let painted_head = paint(head, th.code);
    let painted_mid = paint(mid, th.highlight);
    let painted_tail = paint(tail, th.code);
    line.append(painted_head.as_str());
    line.append(painted_mid.as_str());
    line.append(painted_tail.as_str());
    line.append("\n");
    proof {
        assert(line@ =~= spec_text_snippet(*t, pad as int, *th));
    }
    line
}

pub proof fn lemma_first_nonblank_props(texts: Seq<Text>, from: int)
    requires
        0 <= from <= texts.len(),
    ensures
        match spec_first_nonblank(texts, from) {
            Some(i) => from <= i < texts.len() && !spec_is_blank(encode_utf8(texts[i].text@))
                && forall|j: int|
                from <= j < i ==> spec_is_blank(encode_utf8(#[trigger] texts[j].text@)),
            None => forall|j: int|
                from <= j < texts.len() ==> spec_is_blank(encode_utf8(#[trigger] texts[j].text@)),
        },
    decreases texts.len() - from,
{
    if from < texts.len() && spec_is_blank(encode_utf8(texts[from].text@)) {
        lemma_first_nonblank_props(texts, from + 1);
    }
}

impl Span {
    /// Renders this span: its highlighted snippet lines under the Full
    /// style, then its location line, decorated with the configured
    /// continuation marker.
    pub fn render(&self, render_options: &RenderOptions, theme: &Theme) -> (r: String)
        requires
            self.wf(),
        ensures
            r@ == spec_span_render(
                *self,
                render_options.render,
                match render_options.continuation {
                    Some(c) => Some(c@),
                    None => None,
                },
                *theme,
            ),
    {
        let mut out = String::new();
        if matches!(render_options.render, RenderStyle::Full) {
            // the uniform pad, from the first line with visible content
            let mut pad: usize = 0;
            let n = self.text.len();
            let mut k: usize = 0;
            loop
                invariant_except_break
                    pad == 0,
                invariant
                    n == self.text@.len(),
                    k <= n,
                    forall|j: int|
                        0 <= j < k ==> spec_is_blank(
                            encode_utf8(#[trigger] self.text@[j].text@),
                        ),
                ensures
                    pad == spec_left_pad(self.text@),
                decreases n - k,
            {
                if k >= n {
                    proof {
                        lemma_first_nonblank_props(self.text@, 0);
                    }
                    break ;
                }
                if !is_blank(self.text[k].text.as_str()) {
                    pad = count_leading_ws(self.text[k].text.as_str());
                    proof {
                        lemma_first_nonblank_props(self.text@, 0);
                        let fi = spec_first_nonblank(self.text@, 0);
                        if fi is Some {
                            if fi->0 < k {
                                assert(spec_is_blank(encode_utf8(self.text@[fi->0].text@)));
                            }
                            if fi->0 > k {
                                assert(spec_is_blank(encode_utf8(self.text@[k as int].text@)));
                            }
                            assert(fi->0 == k);
                        } else {
                            assert(spec_is_blank(encode_utf8(self.text@[k as int].text@)));
                        }
                    }
                    break ;
                }
                k += 1;
            }
            // the snippet lines
            let mut i: usize = 0;
            proof {
                assert(out@ + spec_snippets(self.text@, 0, pad as int, *theme) =~= spec_snippets(
                    self.text@,
                    0,
                    pad as int,
                    *theme,
                ));
            }
            while i < n
                invariant
                    n == self.text@.len(),
                    i <= n,
                    self.wf(),
                    pad == spec_left_pad(self.text@),
                    spec_snippets(self.text@, 0, pad as int, *theme) =~= out@ + spec_snippets(
                        self.text@,
                        i as int,
                        pad as int,
                        *theme,
                    ),
                decreases n - i,
            {
                let ghost prev = out@;
                if !is_blank(self.text[i].text.as_str()) {
                    let line = snippet_line(&self.text[i], pad, theme);
                    out.append(line.as_str());
                }
                proof {
                    assert(spec_snippets(self.text@, 0, pad as int, *theme) =~= out@
                        + spec_snippets(self.text@, i + 1, pad as int, *theme));
                }
                i += 1;
            }
        }
        // the location line
        let link = self.link();
        let mut location = "\u{1b}]8;;".to_owned();
        location.append(link.as_str());
        location.append("\u{1b}\\");
        location.append(link.as_str());
        location.append("\u{1b}]8;;\u{1b}\\\n");
        proof {
            reveal_strlit("\u{1b}]8;;");
            reveal_strlit("\u{1b}\\");
            reveal_strlit("\u{1b}]8;;\u{1b}\\\n");
            reveal_strlit(" ");
            assert(location@ =~= spec_location_text(*self));
            assert(" "@ =~= seq![' ']);
        }
        match &render_options.continuation {
            Some(cont) => {
                out.append(" ");
                let painted_cont = paint(cont.as_str(), theme.continuation);
                out.append(painted_cont.as_str());
                out.append(" ");
                let painted_loc = paint(location.as_str(), theme.location);
                out.append(painted_loc.as_str());
                out.append(" ");
            },
            None => {
                out.append(" ");
                let painted_loc = paint(location.as_str(), theme.location);
                out.append(painted_loc.as_str());
                out.append(" ");
            },
        }
        proof {
            assert(out@ =~= spec_span_render(
                *self,
                render_options.render,
                match render_options.continuation {
                    Some(c) => Some(c@),
                    None => None,
                },
                *theme,
            ));
        }
        out
    }

    /// The plain `file:line:col` reference of this span.
    pub fn link(&self) -> (r: String)
        ensures
            r@ == spec_link_text(*self),
    {
        proof {
            reveal_strlit(":");
        }
        let mut link = self.file_name.clone();
        link.append(":");
        let line_str = u64_to_string(self.line_start as u64);
        link.append(line_str.as_str());
        link.append(":");
        let col_str = u64_to_string(self.column_start as u64);
        link.append(col_str.as_str());
        proof {
            assert(":"@ =~= seq![':']);
            assert(link@ =~= spec_link_text(*self));
        }
        link
    }
}

} // verus!
