//! The reference consumers that validate the cursor contract: collecting
//! every match with its linear offset, and partitioning a haystack into the
//! gaps between matches. Both are generic over the haystack kind and the
//! pattern, and both are specified against [`match_offsets`], the model of
//! which positions match.

use crate::laws::lemma_match_offsets_concat;
use crate::laws::lemma_match_offsets_none;
use crate::laws::lemma_match_offsets_one;
use crate::gap_hi;
use crate::gap_lo;
use crate::match_offsets;
use crate::Pattern;
use crate::SearchPtrs;
use crate::Searcher;
use vstd::prelude::*;

verus! {

/// Every match of `pattern` in `haystack`, in strictly increasing order, as
/// a pair of the match's linear offset from the haystack's start and the
/// matched one-element sub-range, materialized as a view of the haystack
/// type. Entry `k` answers for the `k`-th matching position of the model and
/// stands at exactly that position of the underlying data, so for a mutable
/// haystack the returned views hold mutation rights over pairwise disjoint
/// one-element ranges (see [`crate::laws::lemma_ranges_disjoint`]).
pub fn match_indices<H: SearchPtrs, P: Pattern<H>>(haystack: H, pattern: P) -> (r: Vec<(usize, H)>)
    requires
        haystack.h_wf(),
    ensures
        ({
            let d = H::hb_data(haystack.hb_of());
            let lo = H::hb_lo(haystack.hb_of());
            let hi = H::hb_hi(haystack.hb_of());
            let offs = match_offsets((|x: H::Elem| pattern.elem_matches(x)), d, lo, hi);
            &&& r@.len() == offs.len()
            &&& forall|k: int| 0 <= k < offs.len() ==> (#[trigger] r@[k]).0 + lo == offs[k]
            &&& forall|k: int|
                0 <= k < offs.len() ==> (#[trigger] r@[k]).1.elems() == d.subrange(
                    offs[k],
                    offs[k] + 1,
                )
            &&& forall|k: int|
                0 <= k < offs.len() ==> (#[trigger] r@[k]).1.elems() == haystack.elems().subrange(
                    r@[k].0 as int,
                    r@[k].0 + 1,
                )
            &&& forall|k: int|
                0 <= k < offs.len() ==> H::is_view_of(
                    (#[trigger] r@[k]).1,
                    haystack.hb_of(),
                    offs[k],
                    offs[k] + 1,
                )
            &&& forall|k: int| 0 <= k < offs.len() ==> (#[trigger] r@[k]).1.h_wf()
        }),
{
    let ghost h0 = haystack;
    let ghost pred = |x: H::Elem| pattern.elem_matches(x);
    proof {
        H::lemma_hb_of(h0);
        H::lemma_hb_wf(h0.hb_of());
    }
    let ghost d = H::hb_data(h0.hb_of());
    let ghost lo = H::hb_lo(h0.hb_of());
    let ghost hi = H::hb_hi(h0.hb_of());
    let mut searcher = pattern.into_searcher(haystack);
    let mut ret: Vec<(usize, H)> = Vec::new();
    proof {
        searcher.lemma_wf();
        assert(match_offsets(pred, d, lo, searcher.pos()) =~= Seq::<int>::empty());
    }
    loop
        invariant
            h0 == haystack,
            H::hb_wf(h0.hb_of()),
            d == H::hb_data(h0.hb_of()),
            lo == H::hb_lo(h0.hb_of()),
            hi == H::hb_hi(h0.hb_of()),
            pred == (|x: H::Elem| pattern.elem_matches(x)),
            h0.elems() == d.subrange(lo, hi),
            searcher.wf(),
            searcher.hb() == h0.hb_of(),
            searcher.back() == hi,
            lo <= searcher.pos() <= hi,
            0 <= lo <= hi <= d.len(),
            forall|i: int| lo <= i < hi ==> (searcher.match_at(i) <==> pred(#[trigger] d[i])),
            ({
                let offs = match_offsets(pred, d, lo, searcher.pos());
                &&& ret@.len() == offs.len()
                &&& forall|k: int| 0 <= k < offs.len() ==> (#[trigger] ret@[k]).0 + lo == offs[k]
                &&& forall|k: int|
                    0 <= k < offs.len() ==> (#[trigger] ret@[k]).1.elems() == d.subrange(
                        offs[k],
                        offs[k] + 1,
                    )
                &&& forall|k: int|
                    0 <= k < offs.len() ==> H::is_view_of(
                        (#[trigger] ret@[k]).1,
                        h0.hb_of(),
                        offs[k],
                        offs[k] + 1,
                    )
                &&& forall|k: int| 0 <= k < offs.len() ==> (#[trigger] ret@[k]).1.h_wf()
            }),
        decreases hi - searcher.pos(),
    {
        let ghost p0 = searcher.pos();
        let m = searcher.next_match();
        match m {
            Some((b, e)) => {
                let hb = searcher.haystack();
                let off = H::offset_from_start(hb, b);
                let piece = H::range_to_self(hb, b, e);
                proof {
                    lemma_match_offsets_none(pred, d, p0, b as int);
                    lemma_match_offsets_one(pred, d, b as int);
                    lemma_match_offsets_concat(pred, d, lo, p0, b as int);
                    lemma_match_offsets_concat(pred, d, lo, b as int, e as int);
                    assert(match_offsets(pred, d, lo, e as int) == match_offsets(pred, d, lo, p0)
                        + seq![b as int]);
                }
                ret.push((off, piece));
            },
            None => {
                proof {
                    lemma_match_offsets_none(pred, d, p0, hi);
                    lemma_match_offsets_concat(pred, d, lo, p0, hi);
                    assert(match_offsets(pred, d, lo, hi) == match_offsets(pred, d, lo, p0)
                        + Seq::<int>::empty());
                    assert(match_offsets(pred, d, lo, hi) =~= match_offsets(pred, d, lo, p0));
                    crate::laws::lemma_match_offsets_ordered(pred, d, lo, hi);
                    let offs = match_offsets(pred, d, lo, hi);
                    assert forall|k: int| 0 <= k < offs.len() implies (#[trigger] ret@[k]).1.elems()
                        == h0.elems().subrange(ret@[k].0 as int, ret@[k].0 + 1) by {
                        assert(lo <= offs[k] < hi);
                        assert(h0.elems().subrange(ret@[k].0 as int, ret@[k].0 + 1) =~= d.subrange(
                            offs[k],
                            offs[k] + 1,
                        ));
                    }
                }
                return ret;
            },
        }
    }
}

/// The gaps between consecutive matches of `pattern` in `haystack`, plus the
/// leading and the trailing gap, each materialized as a view of the haystack
/// type — empty views included, when two matches are adjacent or a match
/// touches a boundary. With no match at all, the whole haystack is the one
/// view returned; in general there is exactly one view more than there are
/// matches. Each gap view stands at exactly its gap's place in the
/// underlying data, disjoint from every other gap and from every match
/// range (see [`crate::laws::lemma_ranges_disjoint`]).
pub fn split<H: SearchPtrs, P: Pattern<H>>(haystack: H, pattern: P) -> (r: Vec<H>)
    requires
        haystack.h_wf(),
    ensures
        ({
            let d = H::hb_data(haystack.hb_of());
            let lo = H::hb_lo(haystack.hb_of());
            let hi = H::hb_hi(haystack.hb_of());
            let offs = match_offsets((|x: H::Elem| pattern.elem_matches(x)), d, lo, hi);
            &&& r@.len() == offs.len() + 1
            &&& forall|k: int|
                0 <= k < r@.len() ==> (#[trigger] r@[k]).elems() == d.subrange(
                    gap_lo(offs, lo, k),
                    gap_hi(offs, hi, k),
                )
            &&& forall|k: int|
                0 <= k < r@.len() ==> H::is_view_of(
                    #[trigger] r@[k],
                    haystack.hb_of(),
                    gap_lo(offs, lo, k),
                    gap_hi(offs, hi, k),
                )
            &&& forall|k: int| 0 <= k < r@.len() ==> (#[trigger] r@[k]).h_wf()
        }),
{
    let ghost h0 = haystack;
    let ghost pred = |x: H::Elem| pattern.elem_matches(x);
    proof {
        H::lemma_hb_of(h0);
        H::lemma_hb_wf(h0.hb_of());
    }
    let ghost d = H::hb_data(h0.hb_of());
    let ghost lo = H::hb_lo(h0.hb_of());
    let ghost hi = H::hb_hi(h0.hb_of());
    let ghost offs_full = match_offsets(pred, d, lo, hi);
    let mut searcher = pattern.into_searcher(haystack);
    let hb = searcher.haystack();
    let mut last_end: usize = H::cursor_at_front(hb);
    let mut ret: Vec<H> = Vec::new();
    proof {
        searcher.lemma_wf();
        assert(match_offsets(pred, d, lo, searcher.pos()) =~= Seq::<int>::empty());
        assert(match_offsets(pred, d, lo, searcher.pos()) =~= offs_full.take(0));
    }
    loop
        invariant
            h0 == haystack,
            H::hb_wf(h0.hb_of()),
            hb == h0.hb_of(),
            d == H::hb_data(h0.hb_of()),
            lo == H::hb_lo(h0.hb_of()),
            hi == H::hb_hi(h0.hb_of()),
            pred == (|x: H::Elem| pattern.elem_matches(x)),
            offs_full == match_offsets(pred, d, lo, hi),
            searcher.wf(),
            searcher.hb() == h0.hb_of(),
            searcher.back() == hi,
            lo <= searcher.pos() <= hi,
            0 <= lo <= hi <= d.len(),
            forall|i: int| lo <= i < hi ==> (searcher.match_at(i) <==> pred(#[trigger] d[i])),
            ret@.len() <= offs_full.len(),
            match_offsets(pred, d, lo, searcher.pos()) == offs_full.take(ret@.len() as int),
            lo <= last_end as int <= searcher.pos(),
            last_end as int == gap_lo(offs_full, lo, ret@.len() as int),
            forall|k: int|
                0 <= k < ret@.len() ==> (#[trigger] ret@[k]).elems() == d.subrange(
                    gap_lo(offs_full, lo, k),
                    gap_hi(offs_full, hi, k),
                ),
            forall|k: int|
                0 <= k < ret@.len() ==> H::is_view_of(
                    #[trigger] ret@[k],
                    h0.hb_of(),
                    gap_lo(offs_full, lo, k),
                    gap_hi(offs_full, hi, k),
                ),
            forall|k: int| 0 <= k < ret@.len() ==> (#[trigger] ret@[k]).h_wf(),
        decreases hi - searcher.pos(),
    {
        let ghost p0 = searcher.pos();
        let ghost n = ret@.len() as int;
        match searcher.next_match() {
            Some((b, e)) => {
                proof {
                    lemma_match_offsets_none(pred, d, p0, b as int);
                    lemma_match_offsets_one(pred, d, b as int);
                    lemma_match_offsets_concat(pred, d, lo, p0, b as int);
                    lemma_match_offsets_concat(pred, d, lo, b as int, e as int);
                    lemma_match_offsets_concat(pred, d, lo, e as int, hi);
                    assert(match_offsets(pred, d, lo, e as int) == offs_full.take(n) + seq![
                        b as int,
                    ]);
                    assert(offs_full == match_offsets(pred, d, lo, e as int) + match_offsets(
                        pred,
                        d,
                        e as int,
                        hi,
                    ));
                    assert(offs_full.take(n + 1) =~= offs_full.take(n) + seq![b as int]);
                    assert(offs_full[n] == b as int);
                }
                let piece = H::range_to_self(hb, last_end, b);
                ret.push(piece);
                last_end = e;
            },
            None => {
                proof {
                    lemma_match_offsets_none(pred, d, p0, hi);
                    lemma_match_offsets_concat(pred, d, lo, p0, hi);
                    assert(offs_full =~= match_offsets(pred, d, lo, p0));
                    assert(offs_full.take(n) =~= offs_full);
                    assert(n == offs_full.len());
                }
                let back = H::cursor_at_back(hb);
                let piece = H::range_to_self(hb, last_end, back);
                ret.push(piece);
                return ret;
            },
        }
    }
}

} // verus!
