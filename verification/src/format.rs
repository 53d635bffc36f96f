//! Formatting to text. Each formattable piece states, as a predicate over
//! the produced characters, what its output looks like; the styling around
//! the text depends on a process-wide colour switch, so the predicates pin
//! the structure and the carried text down rather than every styling byte.

use vstd::prelude::*;
use vstd::string::StringExecFns;

verus! {

/// A piece that formats itself to text.
pub trait Format {
    /// What the formatted output looks like.
    spec fn format_ensures(&self, out: Seq<char>) -> bool;

    /// Formats the piece.
    fn format(&self) -> (r: String)
        ensures
            self.format_ensures(r@),
    ;
}

/// The formatted outputs of the pieces, in order and nothing else.
pub open spec fn spec_concat_format<F: Format>(items: Seq<F>, out: Seq<char>) -> bool
    decreases items.len(),
{
    if items.len() == 0 {
        out == Seq::<char>::empty()
    } else {
        exists|k: int|
            0 <= k <= out.len() && (#[trigger] items[0].format_ensures(out.subrange(0, k)))
                && spec_concat_format(items.drop_first(), out.subrange(k, out.len() as int))
    }
}

/// A formatted list extends by one formatted piece at its end.
pub proof fn lemma_concat_format_push<F: Format>(
    items: Seq<F>,
    x: F,
    o1: Seq<char>,
    o2: Seq<char>,
)
    requires
        spec_concat_format(items, o1),
        x.format_ensures(o2),
    ensures
        spec_concat_format(items.push(x), o1 + o2),
    decreases items.len(),
{
    let whole = o1 + o2;
    if items.len() == 0 {
        assert(o1 == Seq::<char>::empty());
        assert(whole.subrange(0, o2.len() as int) =~= o2);
        assert(whole.subrange(o2.len() as int, whole.len() as int) =~= Seq::<char>::empty());
        assert(items.push(x)[0] == x);
        assert(items.push(x).drop_first() =~= Seq::<F>::empty());
        assert(items.push(x)[0].format_ensures(whole.subrange(0, o2.len() as int)));
        assert(spec_concat_format(
            items.push(x).drop_first(),
            whole.subrange(o2.len() as int, whole.len() as int),
        ));
    } else {
        let k = choose|k: int|
            0 <= k <= o1.len() && (#[trigger] items[0].format_ensures(o1.subrange(0, k)))
                && spec_concat_format(items.drop_first(), o1.subrange(k, o1.len() as int));
        lemma_concat_format_push(items.drop_first(), x, o1.subrange(k, o1.len() as int), o2);
        assert(items.push(x)[0] == items[0]);
        assert(whole.subrange(0, k) =~= o1.subrange(0, k));
        assert(whole.subrange(k, whole.len() as int) =~= o1.subrange(k, o1.len() as int) + o2);
        assert(items.push(x).drop_first() =~= items.drop_first().push(x));
        assert(items.push(x)[0].format_ensures(whole.subrange(0, k)));
        assert(spec_concat_format(
            items.push(x).drop_first(),
            whole.subrange(k, whole.len() as int),
        ));
    }
}

impl<F: Format> Format for Vec<F> {
    open spec fn format_ensures(&self, out: Seq<char>) -> bool {
        spec_concat_format(self@, out)
    }

    /// Formats every element in order.
    fn format(&self) -> (r: String)
        ensures
            self.format_ensures(r@),
    {
        let mut out = String::new();
        let n = self.len();
        let mut i: usize = 0;
        proof {
            assert(self@.subrange(0, 0) =~= Seq::<F>::empty());
        }
        while i < n
            invariant
                n == self@.len(),
                i <= n,
                spec_concat_format(self@.subrange(0, i as int), out@),
            decreases n - i,
        {
            let piece = self[i].format();
            let ghost pre = out@;
            out.append(piece.as_str());
            proof {
                lemma_concat_format_push(self@.subrange(0, i as int), self@[i as int], pre, piece@);
                assert(self@.subrange(0, i as int).push(self@[i as int]) =~= self@.subrange(
                    0,
                    i + 1,
                ));
            }
            i += 1;
        }
        proof {
            assert(self@.subrange(0, n as int) =~= self@);
        }
        out
    }
}

} // verus!
