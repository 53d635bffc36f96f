//! The library's stated laws: what holds of parsing, filtering and
//! rendering on every input, proved once and for all from the public
//! contracts' model functions.

use vstd::prelude::*;
use vstd::utf8::decode_utf8;
use vstd::utf8::encode_utf8;
use vstd::utf8::is_char_boundary;
use vstd::utf8::valid_utf8;

use crate::ansi::spec_contains_seq;
use crate::options::spec_filters_with;
use crate::options::FilterModel;
use crate::options::IncludeNotes;
use crate::options::RenderOptions;
use crate::options::RenderStyle;
use crate::parse::lemma_ceil_boundary_props;
use crate::parse::lemma_floor_boundary_props;
use crate::parse::lemma_floor_le_ceil;
use crate::parse::spec_ceil_boundary;
use crate::parse::spec_collect;
use crate::parse::spec_header;
use crate::parse::spec_floor_boundary;
use crate::parse::spec_left_pad;
use crate::parse::spec_message_render;
use crate::parse::spec_shift_offset;
use crate::parse::spec_snippets;
use crate::parse::spec_span_render;
use crate::parse::Message;
use crate::parse::Reason;
use crate::parse::Span;
use crate::parse::Text;
use crate::theme::Theme;

verus! {

/// The stream parser keeps exactly the decoded entries that carry content,
/// in their original order: collecting a decoded sequence is the same as
/// filtering it down to its non-empty decoded entries and unwrapping them.
pub proof fn lemma_collect_is_ordered_filter(ds: Seq<Option<Reason>>)
    ensures
        spec_collect(ds) == ds.filter(
            |d: Option<Reason>| d is Some && !d->0.spec_is_empty(),
        ).map_values(|d: Option<Reason>| d->0),
    decreases ds.len(),
{
    reveal_with_fuel(Seq::filter, 2);
    let f = |d: Option<Reason>| d is Some && !d->0.spec_is_empty();
    let g = |d: Option<Reason>| d->0;
    if ds.len() == 0 {
        assert(spec_collect(ds) =~= ds.filter(f).map_values(g));
    } else {
        let head = seq![ds[0]];
        let rest = ds.drop_first();
        lemma_collect_is_ordered_filter(rest);
        Seq::filter_distributes_over_add(head, rest, f);
        assert(head + rest =~= ds);
        assert(head.drop_last() =~= Seq::<Option<Reason>>::empty());
        assert(head.filter(f) == if f(ds[0]) {
            seq![ds[0]]
        } else {
            Seq::<Option<Reason>>::empty()
        });
        assert(spec_collect(ds) =~= (head.filter(f) + rest.filter(f)).map_values(g));
    }
}

/// Rendering is deterministic: two renders of one message under identical
/// options and theme are byte-identical, because each equals the one model
/// value that the renderer's contract pins down.
pub proof fn lemma_render_deterministic(
    r1: Seq<char>,
    r2: Seq<char>,
    m: Message,
    o: RenderOptions,
    th: Theme,
)
    requires
        r1 == spec_message_render(
            m,
            o.render,
            o.include_notes,
            crate::parse::spec_continuation(o),
            th,
        ),
        r2 == spec_message_render(
            m,
            o.render,
            o.include_notes,
            crate::parse::spec_continuation(o),
            th,
        ),
    ensures
        r1 == r2,
{
}

/// A message at level Note renders to nothing — children included — while
/// notes are excluded.
pub proof fn lemma_note_suppressed(
    m: Message,
    style: RenderStyle,
    cont: Option<Seq<char>>,
    th: Theme,
)
    requires
        m.level is Note,
    ensures
        spec_message_render(m, style, IncludeNotes::No, cont, th) == Seq::<char>::empty(),
{
}

/// A message at level Note renders to non-empty output that carries the
/// literal message text while notes are included.
pub proof fn lemma_note_included(
    m: Message,
    style: RenderStyle,
    cont: Option<Seq<char>>,
    th: Theme,
)
    requires
        m.level is Note,
    ensures
        spec_message_render(m, style, IncludeNotes::Yes, cont, th).len() > 0,
        spec_contains_seq(spec_message_render(m, style, IncludeNotes::Yes, cont, th), m.message@),
{
    let out = spec_message_render(m, style, IncludeNotes::Yes, cont, th);
    let color = crate::parse::spec_level_color(m.level, th);
    let tag = crate::ansi::spec_painted("note"@, color) + seq![' '];
    let k: int = tag.len() as int + 4 + crate::ansi::spec_fg_prefix(th.message).len() as int;
    assert(out.subrange(k, k + m.message@.len() as int) =~= m.message@);
}

/// The highlight cuts of one source line land on character boundaries and
/// lose nothing: re-decoding the three segments in order yields exactly the
/// stripped line that was cut.
pub proof fn lemma_snippet_round_trip(t: Text, pad: int)
    requires
        t.wf(),
    ensures
        ({
            let bytes = encode_utf8(t.text@);
            let p = spec_floor_boundary(bytes, pad);
            let tr = bytes.subrange(p, bytes.len() as int);
            let s0 = spec_shift_offset(t.highlight_start as int, pad);
            let e0 = spec_shift_offset(t.highlight_end as int, pad);
            let fl = spec_floor_boundary(tr, s0);
            let ce = spec_ceil_boundary(tr, e0);
            &&& is_char_boundary(tr, fl)
            &&& is_char_boundary(tr, ce)
            &&& decode_utf8(tr.subrange(0, fl)) + decode_utf8(tr.subrange(fl, ce)) + decode_utf8(
                tr.subrange(ce, tr.len() as int),
            ) == decode_utf8(tr)
        }),
{
    broadcast use vstd::utf8::encode_utf8_valid_utf8;

    let bytes = encode_utf8(t.text@);
    let p = spec_floor_boundary(bytes, pad);
    let tr = bytes.subrange(p, bytes.len() as int);
    lemma_floor_boundary_props(bytes, pad);
    vstd::utf8::valid_utf8_split(bytes, p);
    assert(valid_utf8(tr));
    let s0 = spec_shift_offset(t.highlight_start as int, pad);
    let e0 = spec_shift_offset(t.highlight_end as int, pad);
    let fl = spec_floor_boundary(tr, s0);
    let ce = spec_ceil_boundary(tr, e0);
    lemma_floor_boundary_props(tr, s0);
    lemma_ceil_boundary_props(tr, e0);
    vstd::utf8::decode_utf8_split(tr, ce);
    vstd::utf8::valid_utf8_split(tr, ce);
    let front = tr.subrange(0, ce);
    assert(s0 <= e0);
    lemma_floor_le_ceil(tr, s0, e0);
    assert(is_char_boundary(front, fl)) by {
        crate::strops::lemma_char_boundary_prefix(tr, fl, ce);
    }
    vstd::utf8::decode_utf8_split(front, fl);
    assert(front.subrange(0, fl) =~= tr.subrange(0, fl));
    assert(front.subrange(fl, front.len() as int) =~= tr.subrange(fl, ce));
}

/// Under the Full style a span renders as its snippet block followed by
/// exactly its Short rendering, and the snippet block is empty or closed by
/// a newline: everything the Short style prints stands, as whole lines, in
/// the Full output.
pub proof fn lemma_full_extends_short(s: Span, cont: Option<Seq<char>>, th: Theme)
    ensures
        ({
            let snippets = spec_snippets(s.text@, 0, spec_left_pad(s.text@), th);
            &&& spec_span_render(s, RenderStyle::Full, cont, th) == snippets + spec_span_render(
                s,
                RenderStyle::Short,
                cont,
                th,
            )
            &&& (snippets.len() > 0 ==> snippets.last() == '\n')
        }),
{
    let snippets = spec_snippets(s.text@, 0, spec_left_pad(s.text@), th);
    assert(spec_span_render(s, RenderStyle::Full, cont, th) =~= snippets + spec_span_render(
        s,
        RenderStyle::Short,
        cont,
        th,
    ));
    lemma_snippets_newline_terminated(s.text@, 0, spec_left_pad(s.text@), th);
}

/// A non-empty snippet block ends with a newline.
proof fn lemma_snippets_newline_terminated(texts: Seq<Text>, from: int, pad: int, th: Theme)
    ensures
        ({
            let out = spec_snippets(texts, from, pad, th);
            out.len() > 0 ==> out.last() == '\n'
        }),
    decreases texts.len() - from,
{
    if from < 0 || from >= texts.len() {
    } else {
        lemma_snippets_newline_terminated(texts, from + 1, pad, th);
    }
}

/// Extending a rule set by a rule it already holds changes nothing, so
/// adding the same rule twice yields the rule set that adding it once does.
pub proof fn lemma_filter_add_idempotent(fs: Seq<FilterModel>, f: FilterModel)
    ensures
        spec_filters_with(spec_filters_with(fs, f), f) == spec_filters_with(fs, f),
{
    if !fs.contains(f) {
        assert(fs.push(f)[fs.len() as int] == f);
        assert(fs.push(f).contains(f));
    }
}

/// The position of the first line feed.
pub open spec fn spec_find_nl(s: Seq<char>) -> Option<int>
    decreases s.len(),
{
    if s.len() == 0 {
        None
    } else if s[0] == '\n' {
        Some(0)
    } else {
        match spec_find_nl(s.drop_first()) {
            Some(i) => Some(i + 1),
            None => None,
        }
    }
}

pub proof fn lemma_find_nl_props(s: Seq<char>)
    ensures
        match spec_find_nl(s) {
            Some(i) => 0 <= i < s.len() && s[i] == '\n' && forall|j: int|
                0 <= j < i ==> s[j] != '\n',
            None => forall|j: int| 0 <= j < s.len() ==> s[j] != '\n',
        },
    decreases s.len(),
{
    if s.len() == 0 {
    } else if s[0] == '\n' {
    } else {
        lemma_find_nl_props(s.drop_first());
        assert forall|j: int| 1 <= j < s.len() implies s[j] == s.drop_first()[j - 1] by {}
    }
}

/// The lines of a text: the segments between line feeds, in order, each
/// without its terminator; one more segment than there are line feeds.
pub open spec fn spec_lines(s: Seq<char>) -> Seq<Seq<char>>
    decreases s.len(),
    via spec_lines_decreases
{
    match spec_find_nl(s) {
        None => seq![s],
        Some(i) => seq![s.subrange(0, i)] + spec_lines(s.subrange(i + 1, s.len() as int)),
    }
}

#[via_fn]
proof fn spec_lines_decreases(s: Seq<char>) {
    lemma_find_nl_props(s);
}

/// Empty, or closed by a line feed.
pub open spec fn spec_nl_terminated(s: Seq<char>) -> bool {
    s.len() > 0 ==> s.last() == '\n'
}

/// The lines of a concatenation whose first part is closed by a line feed:
/// the first part's lines but its trailing empty one, then the second
/// part's lines.
pub proof fn lemma_lines_concat(a: Seq<char>, b: Seq<char>)
    requires
        a.len() > 0,
        a.last() == '\n',
    ensures
        spec_lines(a + b) =~= spec_lines(a).drop_last() + spec_lines(b),
    decreases a.len(),
{
    lemma_find_nl_props(a);
    lemma_find_nl_props(a + b);
    let i = spec_find_nl(a)->0;
    assert(a[a.len() - 1] == '\n');
    assert((a + b)[i] == '\n');
    assert forall|j: int| 0 <= j < i implies (a + b)[j] != '\n' by {
        assert((a + b)[j] == a[j]);
    }
    assert(spec_find_nl(a + b) == Some(i)) by {
        let k = spec_find_nl(a + b)->0;
        if k < i {
            assert((a + b)[k] == a[k]);
        }
    }
    let a2 = a.subrange(i + 1, a.len() as int);
    assert((a + b).subrange(0, i) =~= a.subrange(0, i));
    assert((a + b).subrange(i + 1, (a + b).len() as int) =~= a2 + b);
    if a2.len() == 0 {
        assert(i == a.len() - 1);
        assert(a2 + b =~= b);
        assert(spec_find_nl(a2) is None);
        assert(spec_lines(a2) =~= seq![a2]);
        assert(spec_lines(a) =~= seq![a.subrange(0, i)] + seq![a2]);
        assert(spec_lines(a).drop_last() =~= seq![a.subrange(0, i)]);
        assert(spec_lines(a + b) =~= seq![a.subrange(0, i)] + spec_lines(b));
    } else {
        assert(a2.last() == '\n');
        lemma_lines_concat(a2, b);
        assert(spec_lines(a).drop_last() =~= seq![a.subrange(0, i)] + spec_lines(a2).drop_last());
        assert(spec_lines(a + b) =~= seq![a.subrange(0, i)] + (spec_lines(a2).drop_last()
            + spec_lines(b)));
    }
}

/// Every line of the second part of a concatenation is a line of the whole,
/// when the first part is empty or closed by a line feed.
pub proof fn lemma_lines_right(a: Seq<char>, b: Seq<char>, x: Seq<char>)
    requires
        spec_nl_terminated(a),
        spec_lines(b).contains(x),
    ensures
        spec_lines(a + b).contains(x),
{
    if a.len() == 0 {
        assert(a + b =~= b);
    } else {
        lemma_lines_concat(a, b);
        let i = choose|i: int| 0 <= i < spec_lines(b).len() && spec_lines(b)[i] == x;
        let base = spec_lines(a).drop_last().len();
        assert(spec_lines(a + b)[base + i] == x);
    }
}

/// A composition step: when each part's lines are among its counterpart's
/// and all four parts are empty or closed by a line feed, the lines of one
/// concatenation are among the other's.
pub proof fn lemma_lines_compose(
    a_small: Seq<char>,
    r_small: Seq<char>,
    a_big: Seq<char>,
    r_big: Seq<char>,
    x: Seq<char>,
)
    requires
        spec_nl_terminated(a_small),
        spec_nl_terminated(a_big),
        spec_nl_terminated(r_big),
        forall|y: Seq<char>|
            spec_lines(a_small).contains(y) ==> #[trigger] spec_lines(a_big).contains(y),
        forall|y: Seq<char>|
            spec_lines(r_small).contains(y) ==> #[trigger] spec_lines(r_big).contains(y),
        spec_lines(a_small + r_small).contains(x),
    ensures
        spec_lines(a_big + r_big).contains(x),
{
    if a_small.len() == 0 {
        assert(a_small + r_small =~= r_small);
        assert(spec_lines(r_small).contains(x));
        assert(spec_lines(r_big).contains(x));
        lemma_lines_right(a_big, r_big, x);
    } else {
        lemma_lines_concat(a_small, r_small);
        let i = choose|i: int|
            0 <= i < spec_lines(a_small + r_small).len() && spec_lines(a_small + r_small)[i] == x;
        let cut = spec_lines(a_small).drop_last().len();
        if i < cut {
            // a line of the small head
            assert(spec_lines(a_small).drop_last()[i] == x);
            assert(spec_lines(a_small)[i] == x);
            assert(spec_lines(a_small).contains(x));
            assert(spec_lines(a_big).contains(x));
            let k = choose|k: int|
                0 <= k < spec_lines(a_big).len() && spec_lines(a_big)[k] == x;
            if a_big.len() == 0 {
                assert(spec_find_nl(a_big) is None);
                assert(spec_lines(a_big) =~= seq![a_big]);
                assert(x =~= Seq::<char>::empty());
                // the whole is closed by a line feed, so its last line is
                // empty too
                lemma_last_line_empty(a_big + r_big);
            } else {
                lemma_lines_concat(a_big, r_big);
                if k < spec_lines(a_big).drop_last().len() {
                    assert(spec_lines(a_big + r_big)[k] == x);
                } else {
                    // only the trailing empty line of the big head matched
                    lemma_last_line_empty(a_big);
                    assert(x =~= Seq::<char>::empty());
                    lemma_last_line_empty(a_big + r_big);
                }
            }
        } else {
            // a line of the small tail
            assert(spec_lines(r_small)[i - cut] == x);
            assert(spec_lines(r_small).contains(x));
            assert(spec_lines(r_big).contains(x));
            lemma_lines_right(a_big, r_big, x);
        }
    }
}

/// A text that is empty or closed by a line feed has the empty line as its
/// last line.
pub proof fn lemma_last_line_empty(s: Seq<char>)
    requires
        spec_nl_terminated(s),
    ensures
        spec_lines(s).contains(Seq::<char>::empty()),
        spec_lines(s).last() =~= Seq::<char>::empty(),
    decreases s.len(),
{
    lemma_find_nl_props(s);
    if s.len() == 0 {
        assert(spec_lines(s) =~= seq![s]);
        assert(spec_lines(s)[0] =~= Seq::<char>::empty());
    } else {
        let i = spec_find_nl(s)->0;
        let s2 = s.subrange(i + 1, s.len() as int);
        if s2.len() > 0 {
            assert(s2.last() == s.last());
        }
        lemma_last_line_empty(s2);
        let k = choose|k: int| 0 <= k < spec_lines(s2).len() && spec_lines(s2)[k] =~= Seq::<
            char,
        >::empty();
        assert(spec_lines(s)[1 + k] =~= Seq::<char>::empty());
        assert(spec_lines(s).last() == spec_lines(s2).last());
    }
}

/// Concatenation keeps newline termination.
pub proof fn lemma_nl_concat(a: Seq<char>, b: Seq<char>)
    requires
        spec_nl_terminated(a),
        spec_nl_terminated(b),
    ensures
        spec_nl_terminated(a + b),
{
    if b.len() == 0 {
        if a.len() > 0 {
            assert((a + b).last() == a.last());
        }
    } else {
        assert((a + b).last() == b.last());
    }
}

/// A rendered message is empty or closed by a line feed.
pub proof fn lemma_message_render_nl(
    m: Message,
    style: RenderStyle,
    inc: IncludeNotes,
    cont: Option<Seq<char>>,
    th: Theme,
)
    ensures
        spec_nl_terminated(spec_message_render(m, style, inc, cont, th)),
    decreases m, 1int, 0int,
{
    if m.level is Note && inc is No {
    } else {
        let h = spec_header(m, inc, th);
        let sp = crate::parse::spec_spans_render(
            m.spans@,
            0,
            style,
            cont,
            th,
            crate::parse::spec_lint_suffix(m, th),
        );
        let ch = spec_children_render_of(m, style, inc, cont, th);
        assert(h.last() == '\n');
        lemma_spans_render_nl(m.spans@, 0, style, cont, th, crate::parse::spec_lint_suffix(m, th));
        lemma_children_render_nl(m.children@, 0, style, inc, cont, th);
        lemma_nl_concat(h, sp);
        lemma_nl_concat(h + sp, ch);
    }
}

/// The rendered children of a message, as the renderer concatenates them.
pub open spec fn spec_children_render_of(
    m: Message,
    style: RenderStyle,
    inc: IncludeNotes,
    cont: Option<Seq<char>>,
    th: Theme,
) -> Seq<char> {
    crate::parse::spec_children_render(m.children@, 0, style, inc, cont, th)
}

/// A rendered span block is empty or closed by a line feed.
pub proof fn lemma_spans_render_nl(
    spans: Seq<Span>,
    from: int,
    style: RenderStyle,
    cont: Option<Seq<char>>,
    th: Theme,
    suffix: Seq<char>,
)
    ensures
        spec_nl_terminated(crate::parse::spec_spans_render(spans, from, style, cont, th, suffix)),
    decreases spans.len() - from,
{
    if from < 0 || from >= spans.len() {
    } else {
        let chunk = spec_span_render(spans[from], style, cont, th) + suffix + seq!['\n'];
        let rest = crate::parse::spec_spans_render(spans, from + 1, style, cont, th, suffix);
        lemma_spans_render_nl(spans, from + 1, style, cont, th, suffix);
        assert(chunk.last() == '\n');
        lemma_nl_concat(chunk, rest);
        assert(crate::parse::spec_spans_render(spans, from, style, cont, th, suffix) =~= chunk
            + rest);
    }
}

/// A block of rendered children is empty or closed by a line feed.
pub proof fn lemma_children_render_nl(
    cs: Seq<Message>,
    from: int,
    style: RenderStyle,
    inc: IncludeNotes,
    cont: Option<Seq<char>>,
    th: Theme,
)
    ensures
        spec_nl_terminated(crate::parse::spec_children_render(cs, from, style, inc, cont, th)),
    decreases cs, 0int, cs.len() - from,
{
    if from < 0 || from >= cs.len() {
    } else {
        lemma_message_render_nl(cs[from], style, inc, cont, th);
        lemma_children_render_nl(cs, from + 1, style, inc, cont, th);
        lemma_nl_concat(
            spec_message_render(cs[from], style, inc, cont, th),
            crate::parse::spec_children_render(cs, from + 1, style, inc, cont, th),
        );
    }
}

/// Every line of a message's Short rendering is a line of its Full
/// rendering.
pub proof fn lemma_message_lines_cover(
    m: Message,
    inc: IncludeNotes,
    cont: Option<Seq<char>>,
    th: Theme,
    x: Seq<char>,
)
    requires
        spec_lines(spec_message_render(m, RenderStyle::Short, inc, cont, th)).contains(x),
    ensures
        spec_lines(spec_message_render(m, RenderStyle::Full, inc, cont, th)).contains(x),
    decreases m, 1int, 0int,
{
    if m.level is Note && inc is No {
    } else {
        let h = spec_header(m, inc, th);
        let suffix = crate::parse::spec_lint_suffix(m, th);
        let sp_s = crate::parse::spec_spans_render(m.spans@, 0, RenderStyle::Short, cont, th, suffix);
        let sp_f = crate::parse::spec_spans_render(m.spans@, 0, RenderStyle::Full, cont, th, suffix);
        let ch_s = crate::parse::spec_children_render(m.children@, 0, RenderStyle::Short, inc, cont, th);
        let ch_f = crate::parse::spec_children_render(m.children@, 0, RenderStyle::Full, inc, cont, th);
        assert(spec_message_render(m, RenderStyle::Short, inc, cont, th) =~= h + (sp_s + ch_s));
        assert(spec_message_render(m, RenderStyle::Full, inc, cont, th) =~= h + (sp_f + ch_f));
        assert(h.last() == '\n');
        lemma_spans_render_nl(m.spans@, 0, RenderStyle::Short, cont, th, suffix);
        lemma_spans_render_nl(m.spans@, 0, RenderStyle::Full, cont, th, suffix);
        lemma_children_render_nl(m.children@, 0, RenderStyle::Full, inc, cont, th);
        lemma_nl_concat(sp_f, ch_f);
        assert forall|y: Seq<char>|
            spec_lines(sp_s + ch_s).contains(y) implies #[trigger] spec_lines(
            sp_f + ch_f,
        ).contains(y) by {
            assert forall|z: Seq<char>|
                spec_lines(sp_s).contains(z) implies #[trigger] spec_lines(sp_f).contains(z) by {
                lemma_spans_lines_cover(m.spans@, 0, cont, th, suffix, z);
            }
            assert forall|z: Seq<char>|
                spec_lines(ch_s).contains(z) implies #[trigger] spec_lines(ch_f).contains(z) by {
                lemma_children_lines_cover(m.children@, 0, inc, cont, th, z);
            }
            lemma_lines_compose(sp_s, ch_s, sp_f, ch_f, y);
        }
        lemma_lines_compose(h, sp_s + ch_s, h, sp_f + ch_f, x);
    }
}

/// Every line of a span block's Short rendering is a line of its Full
/// rendering.
pub proof fn lemma_spans_lines_cover(
    spans: Seq<Span>,
    from: int,
    cont: Option<Seq<char>>,
    th: Theme,
    suffix: Seq<char>,
    x: Seq<char>,
)
    requires
        spec_lines(
            crate::parse::spec_spans_render(spans, from, RenderStyle::Short, cont, th, suffix),
        ).contains(x),
    ensures
        spec_lines(
            crate::parse::spec_spans_render(spans, from, RenderStyle::Full, cont, th, suffix),
        ).contains(x),
    decreases spans.len() - from,
{
    if from < 0 || from >= spans.len() {
    } else {
        let chunk_s = spec_span_render(spans[from], RenderStyle::Short, cont, th) + suffix
            + seq!['\n'];
        let chunk_f = spec_span_render(spans[from], RenderStyle::Full, cont, th) + suffix
            + seq!['\n'];
        let rest_s = crate::parse::spec_spans_render(
            spans,
            from + 1,
            RenderStyle::Short,
            cont,
            th,
            suffix,
        );
        let rest_f = crate::parse::spec_spans_render(
            spans,
            from + 1,
            RenderStyle::Full,
            cont,
            th,
            suffix,
        );
        let snippets = spec_snippets(spans[from].text@, 0, spec_left_pad(spans[from].text@), th);
        lemma_full_extends_short(spans[from], cont, th);
        assert(chunk_f =~= snippets + chunk_s);
        assert(chunk_s.last() == '\n');
        assert(chunk_f.last() == '\n');
        lemma_spans_render_nl(spans, from + 1, RenderStyle::Full, cont, th, suffix);
        assert forall|z: Seq<char>|
            spec_lines(chunk_s).contains(z) implies #[trigger] spec_lines(chunk_f).contains(
            z,
        ) by {
            lemma_lines_right(snippets, chunk_s, z);
        }
        assert forall|z: Seq<char>|
            spec_lines(rest_s).contains(z) implies #[trigger] spec_lines(rest_f).contains(z) by {
            lemma_spans_lines_cover(spans, from + 1, cont, th, suffix, z);
        }
        assert(crate::parse::spec_spans_render(spans, from, RenderStyle::Short, cont, th, suffix)
            =~= chunk_s + rest_s);
        assert(crate::parse::spec_spans_render(spans, from, RenderStyle::Full, cont, th, suffix)
            =~= chunk_f + rest_f);
        lemma_lines_compose(chunk_s, rest_s, chunk_f, rest_f, x);
    }
}

/// Every line of a children block's Short rendering is a line of its Full
/// rendering.
pub proof fn lemma_children_lines_cover(
    cs: Seq<Message>,
    from: int,
    inc: IncludeNotes,
    cont: Option<Seq<char>>,
    th: Theme,
    x: Seq<char>,
)
    requires
        spec_lines(
            crate::parse::spec_children_render(cs, from, RenderStyle::Short, inc, cont, th),
        ).contains(x),
    ensures
        spec_lines(
            crate::parse::spec_children_render(cs, from, RenderStyle::Full, inc, cont, th),
        ).contains(x),
    decreases cs, 0int, cs.len() - from,
{
    if from < 0 || from >= cs.len() {
    } else {
        let head_s = spec_message_render(cs[from], RenderStyle::Short, inc, cont, th);
        let head_f = spec_message_render(cs[from], RenderStyle::Full, inc, cont, th);
        let rest_s = crate::parse::spec_children_render(
            cs,
            from + 1,
            RenderStyle::Short,
            inc,
            cont,
            th,
        );
        let rest_f = crate::parse::spec_children_render(
            cs,
            from + 1,
            RenderStyle::Full,
            inc,
            cont,
            th,
        );
        lemma_message_render_nl(cs[from], RenderStyle::Short, inc, cont, th);
        lemma_message_render_nl(cs[from], RenderStyle::Full, inc, cont, th);
        lemma_children_render_nl(cs, from + 1, RenderStyle::Full, inc, cont, th);
        assert forall|z: Seq<char>|
            spec_lines(head_s).contains(z) implies #[trigger] spec_lines(head_f).contains(z) by {
            lemma_message_lines_cover(cs[from], inc, cont, th, z);
        }
        assert forall|z: Seq<char>|
            spec_lines(rest_s).contains(z) implies #[trigger] spec_lines(rest_f).contains(z) by {
            lemma_children_lines_cover(cs, from + 1, inc, cont, th, z);
        }
        lemma_lines_compose(head_s, rest_s, head_f, rest_f, x);
    }
}

/// The Full style prints a superset of the Short style's lines: for one
/// message under one set of options, every line of the Short rendering
/// stands, as a whole line, in the Full rendering.
pub proof fn lemma_full_lines_superset(
    m: Message,
    inc: IncludeNotes,
    cont: Option<Seq<char>>,
    th: Theme,
)
    ensures
        forall|x: Seq<char>|
            #[trigger] spec_lines(
                spec_message_render(m, RenderStyle::Short, inc, cont, th),
            ).contains(x) ==> spec_lines(
                spec_message_render(m, RenderStyle::Full, inc, cont, th),
            ).contains(x),
{
    assert forall|x: Seq<char>|
        #[trigger] spec_lines(spec_message_render(m, RenderStyle::Short, inc, cont, th)).contains(
        x,
    ) implies spec_lines(spec_message_render(m, RenderStyle::Full, inc, cont, th)).contains(
        x,
    ) by {
        lemma_message_lines_cover(m, inc, cont, th, x);
    }
}

} // verus!
