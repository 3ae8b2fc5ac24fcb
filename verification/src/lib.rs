//! A generic substring-search framework: one matching algorithm can scan
//! different kinds of linear haystacks (an immutable text view, a byte-buffer
//! span carrying mutation rights) while consumers extract matched and
//! unmatched sub-ranges as views of the haystack type itself.
//!
//! Cursors are plain indices into the haystack's underlying element sequence.
//! A pair of cursors `(begin, end)` with `begin <= end` names the half-open
//! range `[begin, end)`. The [`SearchPtrs`] contract turns two cursors back
//! into a haystack value; [`Pattern`] binds a matching criterion to a haystack
//! and yields a [`Searcher`] that enumerates match and reject ranges.

pub mod api_consumer;
pub mod laws;
pub mod slice;
pub mod string;

use vstd::prelude::*;

verus! {

/// The positions, in increasing order, of the elements of `data` inside the
/// window `[from, to)` that satisfy `pred`. This is the reference model for
/// everything a searcher yields: each match of a single-element pattern is
/// the one-element range at such a position.
pub open spec fn match_offsets<E>(pred: spec_fn(E) -> bool, data: Seq<E>, from: int, to: int) -> Seq<
    int,
>
    decreases to - from,
    when to <= data.len()
{
    if from < 0 || from >= to {
        Seq::empty()
    } else if pred(data[from]) {
        seq![from] + match_offsets(pred, data, from + 1, to)
    } else {
        match_offsets(pred, data, from + 1, to)
    }
}

/// Left cursor of the `k`-th gap between matches: the haystack's start for
/// the leading gap, otherwise one past the preceding match.
pub open spec fn gap_lo(offs: Seq<int>, lo: int, k: int) -> int {
    if k == 0 {
        lo
    } else {
        offs[k - 1] + 1
    }
}

/// Right cursor of the `k`-th gap between matches: the start of the `k`-th
/// match, or the haystack's end for the trailing gap.
pub open spec fn gap_hi(offs: Seq<int>, hi: int, k: int) -> int {
    if k < offs.len() {
        offs[k]
    } else {
        hi
    }
}

/// The operations a haystack type must support to be searchable: yielding its
/// bounds as a pair of cursors, recovering the linear offset of a cursor, and
/// materializing a sub-range as a value of the haystack type itself, without
/// copying elements.
///
/// A bounds value (`Self::Haystack`) stands for one borrow of one haystack;
/// cursors are only meaningful against the bounds they were derived from, and
/// every operation below demands that by precondition. Contract violations
/// are precondition breaches, not recoverable errors.
pub trait SearchPtrs: Sized {
    /// The bounds of one haystack borrow, captured once per search session.
    type Haystack: Copy;

    /// The kind of element the haystack is a sequence of.
    type Elem;

    /// The element sequence a haystack value stands for.
    spec fn elems(self) -> Seq<Self::Elem>;

    /// Validity of a haystack value (its internal range invariants).
    spec fn h_wf(self) -> bool;

    /// The bounds value that a search session over `self` captures.
    spec fn hb_of(self) -> Self::Haystack;

    /// The underlying element sequence a bounds value addresses. Cursors are
    /// absolute indices into this sequence.
    spec fn hb_data(hb: Self::Haystack) -> Seq<Self::Elem>;

    /// The cursor at the very front of the bounds.
    spec fn hb_lo(hb: Self::Haystack) -> int;

    /// The cursor one past the very back of the bounds.
    spec fn hb_hi(hb: Self::Haystack) -> int;

    /// Validity of a bounds value.
    spec fn hb_wf(hb: Self::Haystack) -> bool;

    /// Whether `v` is the view standing for exactly the sub-range
    /// `[start, end)` of the bounds `hb`. For a haystack kind whose views
    /// carry mutation rights this pins the place, not just the contents: the
    /// view addresses the bounds' own underlying data at `[start, end)`. For
    /// an immutable text view the place is immaterial — such a view is its
    /// contents — so there it demands exactly the sub-range's elements.
    spec fn is_view_of(v: Self, hb: Self::Haystack, start: int, end: int) -> bool;

    /// A valid bounds value frames a range of its underlying data.
    proof fn lemma_hb_wf(hb: Self::Haystack)
        requires
            Self::hb_wf(hb),
        ensures
            0 <= Self::hb_lo(hb) <= Self::hb_hi(hb) <= Self::hb_data(hb).len(),
    ;

    /// The bounds captured from a valid haystack are valid and frame exactly
    /// the haystack's own elements.
    proof fn lemma_hb_of(h: Self)
        requires
            h.h_wf(),
        ensures
            Self::hb_wf(h.hb_of()),
            Self::hb_data(h.hb_of()).subrange(
                Self::hb_lo(h.hb_of()),
                Self::hb_hi(h.hb_of()),
            ) == h.elems(),
    ;

    /// The pair of cursors marking the start and the end of this haystack
    /// borrow: captured at most once per search session and cached by the
    /// caller. Re-deriving it from the same unmutated haystack yields the
    /// identical bounds value.
    fn bounds(self) -> (hb: Self::Haystack)
        requires
            self.h_wf(),
        ensures
            hb == self.hb_of(),
    ;

    /// The zero-based linear distance from the haystack's start to `begin`.
    fn offset_from_start(hb: Self::Haystack, begin: usize) -> (off: usize)
        requires
            Self::hb_wf(hb),
            Self::hb_lo(hb) <= begin <= Self::hb_hi(hb),
        ensures
            off == begin - Self::hb_lo(hb),
    ;

    /// Materialize the half-open range `[start, end)` as a value of the
    /// haystack type, zero-copy: the view stands for exactly that sub-range
    /// of the bounds' own data, so views of disjoint ranges carry disjoint
    /// mutation rights.
    fn range_to_self(hb: Self::Haystack, start: usize, end: usize) -> (v: Self)
        requires
            Self::hb_wf(hb),
            Self::hb_lo(hb) <= start <= end <= Self::hb_hi(hb),
        ensures
            v.h_wf(),
            v.elems() == Self::hb_data(hb).subrange(start as int, end as int),
            Self::is_view_of(v, hb, start as int, end as int),
    ;

    /// The cursor at the haystack's very first position.
    fn cursor_at_front(hb: Self::Haystack) -> (c: usize)
        requires
            Self::hb_wf(hb),
        ensures
            c == Self::hb_lo(hb),
    ;

    /// The cursor one past the haystack's very last position.
    fn cursor_at_back(hb: Self::Haystack) -> (c: usize)
        requires
            Self::hb_wf(hb),
        ensures
            c == Self::hb_hi(hb),
    ;
}

/// A stateful object bound to one haystack, producing the successive match
/// ranges (and, symmetrically, the reject ranges: the single-element gaps
/// between matches) strictly left to right. The forward scan position never
/// rewinds; once a query returns `None` it keeps returning `None`.
pub trait Searcher<H: SearchPtrs> {
    /// The bounds captured at construction, stable for the searcher's life.
    spec fn hb(&self) -> H::Haystack;

    /// The forward scan cursor.
    spec fn pos(&self) -> int;

    /// The backward scan cursor; stays at the back bound unless the searcher
    /// is driven in reverse. The two fronts never cross.
    spec fn back(&self) -> int;

    /// The criterion at absolute position `i`: whether the one-element range
    /// `[i, i + 1)` is a match.
    spec fn match_at(&self, i: int) -> bool;

    /// Validity: bounds valid and `lo <= pos <= back <= hi`.
    spec fn wf(&self) -> bool;

    proof fn lemma_wf(&self)
        requires
            self.wf(),
        ensures
            H::hb_wf(self.hb()),
            H::hb_lo(self.hb()) <= self.pos() <= self.back() <= H::hb_hi(self.hb()),
    ;

    /// The bounds captured at construction.
    fn haystack(&self) -> (hb: H::Haystack)
        requires
            self.wf(),
        ensures
            hb == self.hb(),
    ;

    /// Advance past the next match and return its range, or `None` once the
    /// remainder holds no match (then the forward cursor has reached the
    /// backward one, so later calls return `None` as well).
    fn next_match(&mut self) -> (r: Option<(usize, usize)>)
        requires
            old(self).wf(),
        ensures
            final(self).wf(),
            final(self).hb() == old(self).hb(),
            final(self).back() == old(self).back(),
            forall|i: int| final(self).match_at(i) == old(self).match_at(i),
            old(self).pos() <= final(self).pos(),
            match r {
                None => {
                    &&& final(self).pos() == old(self).back()
                    &&& forall|i: int|
                        old(self).pos() <= i < old(self).back() ==> !old(self).match_at(i)
                },
                Some((b, e)) => {
                    &&& e == b + 1
                    &&& old(self).pos() <= b < old(self).back()
                    &&& old(self).match_at(b as int)
                    &&& forall|i: int| old(self).pos() <= i < b ==> !old(self).match_at(i)
                    &&& final(self).pos() == e
                },
            },
    ;

    /// Advance past the next non-matching element and return its one-element
    /// range, or `None` once only matches remain.
    fn next_reject(&mut self) -> (r: Option<(usize, usize)>)
        requires
            old(self).wf(),
        ensures
            final(self).wf(),
            final(self).hb() == old(self).hb(),
            final(self).back() == old(self).back(),
            forall|i: int| final(self).match_at(i) == old(self).match_at(i),
            old(self).pos() <= final(self).pos(),
            match r {
                None => {
                    &&& final(self).pos() == old(self).back()
                    &&& forall|i: int|
                        old(self).pos() <= i < old(self).back() ==> old(self).match_at(i)
                },
                Some((b, e)) => {
                    &&& e == b + 1
                    &&& old(self).pos() <= b < old(self).back()
                    &&& !old(self).match_at(b as int)
                    &&& forall|i: int| old(self).pos() <= i < b ==> old(self).match_at(i)
                    &&& final(self).pos() == e
                },
            },
    ;
}

/// A searcher that can also scan from the haystack's end backward, with the
/// same one-shot, terminal semantics mirrored at the back.
pub trait ReverseSearcher<H: SearchPtrs>: Searcher<H> {
    /// Return the last match before the backward cursor, scanning right to
    /// left, or `None` once no match remains before it.
    fn next_match_back(&mut self) -> (r: Option<(usize, usize)>)
        requires
            old(self).wf(),
        ensures
            final(self).wf(),
            final(self).hb() == old(self).hb(),
            final(self).pos() == old(self).pos(),
            forall|i: int| final(self).match_at(i) == old(self).match_at(i),
            final(self).back() <= old(self).back(),
            match r {
                None => {
                    &&& final(self).back() == old(self).pos()
                    &&& forall|i: int|
                        old(self).pos() <= i < old(self).back() ==> !old(self).match_at(i)
                },
                Some((b, e)) => {
                    &&& e == b + 1
                    &&& old(self).pos() <= b < old(self).back()
                    &&& old(self).match_at(b as int)
                    &&& forall|i: int| e <= i < old(self).back() ==> !old(self).match_at(i)
                    &&& final(self).back() == b
                },
            },
    ;

    /// Return the last non-matching element before the backward cursor, or
    /// `None` once only matches remain before it.
    fn next_reject_back(&mut self) -> (r: Option<(usize, usize)>)
        requires
            old(self).wf(),
        ensures
            final(self).wf(),
            final(self).hb() == old(self).hb(),
            final(self).pos() == old(self).pos(),
            forall|i: int| final(self).match_at(i) == old(self).match_at(i),
            final(self).back() <= old(self).back(),
            match r {
                None => {
                    &&& final(self).back() == old(self).pos()
                    &&& forall|i: int|
                        old(self).pos() <= i < old(self).back() ==> old(self).match_at(i)
                },
                Some((b, e)) => {
                    &&& e == b + 1
                    &&& old(self).pos() <= b < old(self).back()
                    &&& !old(self).match_at(b as int)
                    &&& forall|i: int| e <= i < old(self).back() ==> old(self).match_at(i)
                    &&& final(self).back() == b
                },
            },
    ;
}

/// Marker capability: forward and backward calls may be freely interleaved;
/// the two scan fronts never cross and never re-yield a range. The contracts
/// of [`Searcher`] and [`ReverseSearcher`] already track the two fronts
/// jointly, so an implementation claims this exactly when they hold under
/// interleaving — always true for fixed-width single-element matching.
pub trait DoubleEndedSearcher<H: SearchPtrs>: ReverseSearcher<H> {

}

/// A matching criterion, consumed once to produce a [`Searcher`] bound to a
/// given haystack. For the single-element patterns this framework ships, the
/// criterion is pointwise: `elem_matches` says which elements match.
pub trait Pattern<H: SearchPtrs>: Sized {
    type Searcher: Searcher<H>;

    /// The criterion: whether one element satisfies this pattern.
    spec fn elem_matches(self, x: H::Elem) -> bool;

    /// Consume the pattern and bind a searcher to `haystack`; this is the one
    /// place a search session captures the haystack's bounds.
    fn into_searcher(self, haystack: H) -> (s: Self::Searcher)
        requires
            haystack.h_wf(),
        ensures
            s.wf(),
            s.hb() == haystack.hb_of(),
            s.pos() == H::hb_lo(haystack.hb_of()),
            s.back() == H::hb_hi(haystack.hb_of()),
            forall|i: int|
                H::hb_lo(haystack.hb_of()) <= i < H::hb_hi(haystack.hb_of()) ==> (s.match_at(i)
                    <==> self.elem_matches(H::hb_data(haystack.hb_of())[i])),
    ;

    /// Whether the very first element of the haystack matches, answered
    /// without binding a searcher. Always false for an empty haystack.
    fn is_prefix_of(self, haystack: H) -> (r: bool)
        requires
            haystack.h_wf(),
        ensures
            r <==> (haystack.elems().len() > 0 && self.elem_matches(haystack.elems()[0])),
    ;

    /// Whether the very last element of the haystack matches, answered
    /// without binding a searcher. Only offered where the searcher type is
    /// statically reverse-capable. Always false for an empty haystack.
    fn is_suffix_of(self, haystack: H) -> (r: bool) where Self::Searcher: ReverseSearcher<H>
        requires
            haystack.h_wf(),
        ensures
            r <==> (haystack.elems().len() > 0 && self.elem_matches(
                haystack.elems().last(),
            )),
    ;

    /// Whether the haystack holds at least one match: bind a searcher and ask
    /// for the first match. Overrides must preserve this semantics.
    fn is_contained_in(self, haystack: H) -> (r: bool)
        requires
            haystack.h_wf(),
        ensures
            r <==> exists|i: int|
                0 <= i < haystack.elems().len() && self.elem_matches(#[trigger] haystack.elems()[i]),
    {
        proof {
            H::lemma_hb_of(haystack);
            H::lemma_hb_wf(haystack.hb_of());
        }
        let mut searcher = self.into_searcher(haystack);
        let r = searcher.next_match();
        proof {
            let hb = haystack.hb_of();
            let data = H::hb_data(hb);
            let lo = H::hb_lo(hb);
            let hi = H::hb_hi(hb);
            if let Some((b, e)) = r {
                assert(haystack.elems()[b - lo] == data.subrange(lo, hi)[b - lo]);
            } else {
                assert forall|i: int|
                    0 <= i < haystack.elems().len() implies !self.elem_matches(
                    #[trigger] haystack.elems()[i],
                ) by {
                    assert(!searcher.match_at(lo + i));
                    assert(haystack.elems()[i] == data.subrange(lo, hi)[i]);
                }
            }
        }
        r.is_some()
    }
}

} // verus!
