//! The diagnostic model and the stream parser: one analysis event per JSON
//! value in the stream, with its severity, named rule, source spans and
//! nested child messages. The parser reads the stream line by line; a line
//! that is not a JSON document fitting the schema is dropped silently, and
//! so is a structurally valid but content-free event.

use vstd::prelude::*;

mod code;
mod decode;
mod level;
mod long;
mod message;
mod reason;
mod short;
mod span;
mod text;

use crate::strops::split_lines;

verus! {

pub use message::spec_children_render;
pub use message::spec_continuation;
pub use message::spec_header;
pub use message::spec_level_color;
pub use message::spec_lint_suffix;
pub use message::spec_message_render;
pub use message::spec_spans_render;
pub use span::ceil_char_boundary;
pub use span::floor_char_boundary;
pub use span::is_utf8_char_boundary;
pub use span::lemma_ceil_boundary_props;
pub use span::lemma_floor_boundary_props;
pub use span::lemma_floor_le_ceil;
pub use span::spec_ceil_boundary;
pub use span::spec_first_nonblank;
pub use span::spec_floor_boundary;
pub use span::spec_left_pad;
pub use span::spec_link_text;
pub use span::spec_location_text;
pub use span::spec_snippets;
pub use span::spec_span_render;
pub use span::spec_text_snippet;
pub use span::spec_shift_offset;
pub use code::Code;
pub use decode::decode_line;
pub use level::Level;
pub use message::Message;
pub use long::LineClass;
pub use long::LongLine;
pub use long::LongParser;
pub use long::spec_classify;
pub use reason::Reason;
pub use short::parse_short_line;
pub use short::spec_short_at;
pub use short::spec_short_find;
pub use short::spec_short_line_matches;
pub use short::spec_error_kind;
pub use short::spec_digit_run_end;
pub use short::ShortLine;
pub use short::ShortParser;
pub use span::Span;
pub use text::Text;

/// The events that survive: each decoded, non-empty entry, in input order.
pub open spec fn spec_collect(ds: Seq<Option<Reason>>) -> Seq<Reason>
    decreases ds.len(),
{
    if ds.len() == 0 {
        Seq::empty()
    } else {
        (match ds[0] {
            Some(r) => {
                if r.spec_is_empty() {
                    Seq::<Reason>::empty()
                } else {
                    seq![r]
                }
            },
            None => Seq::empty(),
        }) + spec_collect(ds.drop_first())
    }
}

/// Every event the collection keeps is well-formed when the decoded ones
/// all are, and none of them is empty.
pub proof fn lemma_spec_collect_props(ds: Seq<Option<Reason>>)
    requires
        forall|i: int| 0 <= i < ds.len() && ds[i] is Some ==> (#[trigger] ds[i])->0.wf(),
    ensures
        forall|j: int|
            0 <= j < spec_collect(ds).len() ==> (#[trigger] spec_collect(ds)[j]).wf()
                && !spec_collect(ds)[j].spec_is_empty(),
    decreases ds.len(),
{
    if ds.len() > 0 {
        assert(ds[0] is Some ==> ds[0]->0.wf());
        assert(forall|i: int|
            0 <= i < ds.drop_first().len() && ds.drop_first()[i] is Some
                ==> (#[trigger] ds.drop_first()[i])->0.wf());
        lemma_spec_collect_props(ds.drop_first());
        let rest = spec_collect(ds.drop_first());
        assert forall|j: int| 0 <= j < spec_collect(ds).len() implies (#[trigger] spec_collect(
            ds,
        )[j]).wf() && !spec_collect(ds)[j].spec_is_empty() by {
            if ds[0] is Some && !ds[0]->0.spec_is_empty() {
                if j == 0 {
                    assert(spec_collect(ds)[0] == ds[0]->0);
                } else {
                    assert(spec_collect(ds)[j] == rest[j - 1]);
                }
            } else {
                assert(spec_collect(ds)[j] == rest[j]);
            }
        }
    }
}

/// Keeps, in order, exactly the decoded entries that carry content.
pub fn collect_reasons(decoded: Vec<Option<Reason>>) -> (r: Vec<Reason>)
    ensures
        r@ == spec_collect(decoded@),
{
    let mut ds = decoded;
    let ghost all = ds@;
    let mut out: Vec<Reason> = Vec::new();
    proof {
        assert(out@ + spec_collect(ds@) =~= spec_collect(all));
    }
    while ds.len() > 0
        invariant
            spec_collect(all) =~= out@ + spec_collect(ds@),
        decreases ds.len(),
    {
        let ghost pre = ds@;
        let d = ds.remove(0);
        proof {
            assert(ds@ =~= pre.drop_first());
        }
        match d {
            Some(r) => {
                if r.is_not_empty() {
                    out.push(r);
                }
            },
            None => {},
        }
        proof {
            assert(spec_collect(all) =~= out@ + spec_collect(ds@));
        }
    }
    proof {
        assert(spec_collect(ds@) =~= Seq::<Reason>::empty());
        assert(out@ =~= spec_collect(all));
    }
    out
}

/// Turns the raw output of the analysis subprocess into the ordered list of
/// diagnostics it carries: each line is decoded on its own, lines that are
/// not valid JSON of the expected shape are dropped silently, and so are
/// content-free events; input order is kept.
pub fn gather_reasons(input: &str) -> (r: Vec<Reason>)
    ensures
        forall|i: int| 0 <= i < r@.len() ==> (#[trigger] r@[i]).wf() && !r@[i].spec_is_empty(),
{
    let lines = split_lines(input);
    let n = lines.len();
    let mut decoded: Vec<Option<Reason>> = Vec::new();
    let mut i: usize = 0;
    while i < n
        invariant
            n == lines@.len(),
            i <= n,
            forall|j: int|
                0 <= j < decoded@.len() && decoded@[j] is Some ==> (#[trigger] decoded@[j])->0.wf(),
        decreases n - i,
    {
        let d = decode_line(lines[i].as_str());
        decoded.push(d);
        i += 1;
    }
    proof {
        lemma_spec_collect_props(decoded@);
    }
    collect_reasons(decoded)
}

} // verus!
