//! Laws of the match-offset model: the facts every consumer of a searcher may
//! rely on, stated over [`match_offsets`] and the gap bounds and proved once.

use crate::gap_hi;
use crate::gap_lo;
use crate::match_offsets;
use vstd::prelude::*;

verus! {

/// The offsets of a window split at `mid` are the offsets of the two halves,
/// in order.
pub(crate) proof fn lemma_match_offsets_concat<E>(
    pred: spec_fn(E) -> bool,
    data: Seq<E>,
    from: int,
    mid: int,
    to: int,
)
    requires
        0 <= from <= mid <= to <= data.len(),
    ensures
        match_offsets(pred, data, from, to) == match_offsets(pred, data, from, mid)
            + match_offsets(pred, data, mid, to),
    decreases mid - from,
{
    if from == mid {
        assert(match_offsets(pred, data, from, mid) =~= Seq::<int>::empty());
        assert(match_offsets(pred, data, from, to) =~= Seq::<int>::empty() + match_offsets(
            pred,
            data,
            mid,
            to,
        ));
    } else {
        lemma_match_offsets_concat(pred, data, from + 1, mid, to);
        if pred(data[from]) {
            assert(seq![from] + (match_offsets(pred, data, from + 1, mid) + match_offsets(
                pred,
                data,
                mid,
                to,
            )) =~= (seq![from] + match_offsets(pred, data, from + 1, mid)) + match_offsets(
                pred,
                data,
                mid,
                to,
            ));
        }
    }
}

/// A window without a matching element contributes no offsets.
pub(crate) proof fn lemma_match_offsets_none<E>(
    pred: spec_fn(E) -> bool,
    data: Seq<E>,
    from: int,
    to: int,
)
    requires
        0 <= from <= to <= data.len(),
        forall|i: int| from <= i < to ==> !pred(#[trigger] data[i]),
    ensures
        match_offsets(pred, data, from, to) == Seq::<int>::empty(),
    decreases to - from,
{
    if from < to {
        lemma_match_offsets_none(pred, data, from + 1, to);
    }
    assert(match_offsets(pred, data, from, to) =~= Seq::<int>::empty());
}

/// A one-element window around a matching element contributes exactly that
/// offset.
pub(crate) proof fn lemma_match_offsets_one<E>(pred: spec_fn(E) -> bool, data: Seq<E>, at: int)
    requires
        0 <= at < data.len(),
        pred(data[at]),
    ensures
        match_offsets(pred, data, at, at + 1) == seq![at],
{
    assert(match_offsets(pred, data, at + 1, at + 1) =~= Seq::<int>::empty());
    assert(match_offsets(pred, data, at, at + 1) =~= seq![at]);
}

/// The offsets of a window are strictly increasing, each names a matching
/// element of the window, and every matching element of the window is named:
/// match ranges are discovered strictly left to right, none re-emitted, none
/// skipped.
pub proof fn lemma_match_offsets_ordered<E>(
    pred: spec_fn(E) -> bool,
    data: Seq<E>,
    from: int,
    to: int,
)
    requires
        0 <= from <= to <= data.len(),
    ensures
        ({
            let offs = match_offsets(pred, data, from, to);
            &&& forall|k: int| 0 <= k < offs.len() ==> from <= #[trigger] offs[k] < to
            &&& forall|k: int| 0 <= k < offs.len() ==> pred(data[#[trigger] offs[k]])
            &&& forall|k1: int, k2: int|
                0 <= k1 < k2 < offs.len() ==> #[trigger] offs[k1] < #[trigger] offs[k2]
            &&& forall|i: int| from <= i < to && pred(#[trigger] data[i]) ==> offs.contains(i)
        }),
    decreases to - from,
{
    let offs = match_offsets(pred, data, from, to);
    if from < to {
        lemma_match_offsets_ordered(pred, data, from + 1, to);
        let offs1 = match_offsets(pred, data, from + 1, to);
        if pred(data[from]) {
            assert(offs == seq![from] + offs1);
            assert(offs[0] == from);
            assert forall|i: int| from <= i < to && pred(#[trigger] data[i]) implies offs.contains(
                i,
            ) by {
                if i == from {
                    assert(offs[0] == i);
                } else {
                    assert(offs1.contains(i));
                    let k = choose|k: int| 0 <= k < offs1.len() && offs1[k] == i;
                    assert(offs[k + 1] == i);
                }
            }
        } else {
            assert(offs == offs1);
            assert forall|i: int| from <= i < to && pred(#[trigger] data[i]) implies offs.contains(
                i,
            ) by {
                assert(offs1.contains(i));
            }
        }
    }
}

/// The views of a haystack window in the order a gap-based consumer sees
/// them: the `k`-th gap view, then the `k`-th one-element match view, ending
/// with the trailing gap. Entry `2k` is the `k`-th view of `split`, entry
/// `2k + 1` the view of the `k`-th entry of `match_indices`.
pub open spec fn interleaved<E>(
    pred: spec_fn(E) -> bool,
    data: Seq<E>,
    from: int,
    to: int,
) -> Seq<Seq<E>> {
    let offs = match_offsets(pred, data, from, to);
    Seq::new(
        2 * offs.len() + 1,
        |j: int|
            if j % 2 == 0 {
                data.subrange(gap_lo(offs, from, j / 2), gap_hi(offs, to, j / 2))
            } else {
                data.subrange(offs[(j - 1) / 2], offs[(j - 1) / 2] + 1)
            },
    )
}

/// Round trip: concatenating, in order, the gap views interleaved with the
/// matched one-element views reassembles the haystack window exactly.
pub proof fn lemma_round_trip<E>(pred: spec_fn(E) -> bool, data: Seq<E>, from: int, to: int)
    requires
        0 <= from <= to <= data.len(),
    ensures
        interleaved(pred, data, from, to).flatten() == data.subrange(from, to),
    decreases to - from,
{
    let offs = match_offsets(pred, data, from, to);
    let s = interleaved(pred, data, from, to);
    if from == to {
        assert(offs =~= Seq::<int>::empty());
        assert(s =~= seq![data.subrange(from, to)]);
        s.lemma_flatten_one_element();
    } else {
        lemma_round_trip(pred, data, from + 1, to);
        lemma_match_offsets_ordered(pred, data, from + 1, to);
        let offs1 = match_offsets(pred, data, from + 1, to);
        let s1 = interleaved(pred, data, from + 1, to);
        assert(s1.flatten() == data.subrange(from + 1, to));
        if pred(data[from]) {
            assert(offs == seq![from] + offs1);
            assert(s.len() == s1.len() + 2);
            assert(s[0] =~= Seq::<E>::empty());
            assert(s[1] == data.subrange(from, from + 1));
            assert forall|j: int| 0 <= j < s1.len() implies s[j + 2] == s1[j] by {
                if j % 2 == 0 {
                    let k = j / 2;
                    assert(gap_lo(offs, from, k + 1) == gap_lo(offs1, from + 1, k));
                    assert(gap_hi(offs, to, k + 1) == gap_hi(offs1, to, k));
                } else {
                    let k = (j - 1) / 2;
                    assert((j + 2 - 1) / 2 == k + 1);
                    assert(offs[k + 1] == offs1[k]);
                }
            }
            let t = s.drop_first();
            assert(s.flatten() == s.first() + t.flatten());
            assert(t.flatten() == t.first() + t.drop_first().flatten());
            assert(t.drop_first() =~= s1);
            assert(t.first() == s[1]);
            assert(s.flatten() =~= data.subrange(from, from + 1) + data.subrange(from + 1, to));
            assert(s.flatten() =~= data.subrange(from, to));
        } else {
            assert(offs == offs1);
            assert(s.len() == s1.len());
            assert forall|j: int| 1 <= j < s.len() implies s[j] == s1[j] by {
            }
            assert(gap_hi(offs, to, 0) >= from + 1);
            assert(s[0] =~= seq![data[from]] + s1[0]);
            assert(s.flatten() == s.first() + s.drop_first().flatten());
            assert(s1.flatten() == s1.first() + s1.drop_first().flatten());
            assert(s.drop_first() =~= s1.drop_first());
            assert(s.flatten() =~= seq![data[from]] + (s1.first() + s1.drop_first().flatten()));
            assert(s.flatten() =~= seq![data[from]] + data.subrange(from + 1, to));
            assert(s.flatten() =~= data.subrange(from, to));
        }
    }
}

/// The ranges one scan yields tile the window: every gap is a well-formed
/// range inside it, the one-element match ranges are pairwise disjoint, the
/// gap ranges are pairwise disjoint, and no gap range overlaps a match
/// range. So every view a consumer materializes — each match view at
/// `[offs[k], offs[k] + 1)`, each gap view at its gap bounds — carries
/// mutation rights over a sub-range all its own.
pub proof fn lemma_ranges_disjoint<E>(pred: spec_fn(E) -> bool, data: Seq<E>, from: int, to: int)
    requires
        0 <= from <= to <= data.len(),
    ensures
        ({
            let offs = match_offsets(pred, data, from, to);
            &&& forall|k: int|
                0 <= k < offs.len() + 1 ==> from <= #[trigger] gap_lo(offs, from, k)
                    <= #[trigger] gap_hi(offs, to, k) <= to
            &&& forall|k1: int, k2: int|
                0 <= k1 < k2 < offs.len() ==> #[trigger] offs[k1] + 1 <= #[trigger] offs[k2]
            &&& forall|k1: int, k2: int|
                0 <= k1 < k2 < offs.len() + 1 ==> #[trigger] gap_hi(offs, to, k1)
                    <= #[trigger] gap_lo(offs, from, k2)
            &&& forall|k: int, j: int|
                0 <= j < k < offs.len() + 1 ==> #[trigger] offs[j] + 1 <= #[trigger] gap_lo(
                    offs,
                    from,
                    k,
                )
            &&& forall|k: int, j: int|
                0 <= k <= j < offs.len() ==> #[trigger] gap_hi(offs, to, k) <= #[trigger] offs[j]
        }),
{
    lemma_match_offsets_ordered(pred, data, from, to);
    let offs = match_offsets(pred, data, from, to);
    let n = offs.len() as int;
    assert forall|k: int|
        0 <= k < n + 1 implies from <= #[trigger] gap_lo(offs, from, k) <= #[trigger] gap_hi(
        offs,
        to,
        k,
    ) <= to by {
        if k == 0 {
            if n > 0 {
                assert(from <= offs[0] < to);
            }
        } else {
            assert(from <= offs[k - 1] < to);
            if k < n {
                assert(offs[k - 1] < offs[k]);
                assert(from <= offs[k] < to);
            }
        }
    }
    assert forall|k1: int, k2: int|
        0 <= k1 < k2 < n + 1 implies gap_hi(offs, to, k1) <= gap_lo(offs, from, k2) by {
        if k1 < k2 - 1 {
            assert(offs[k1] < offs[k2 - 1]);
        }
    }
    assert forall|k: int, j: int|
        0 <= j < k < n + 1 implies offs[j] + 1 <= gap_lo(offs, from, k) by {
        if j < k - 1 {
            assert(offs[j] < offs[k - 1]);
        }
    }
    assert forall|k: int, j: int|
        0 <= k <= j < n implies gap_hi(offs, to, k) <= offs[j] by {
        if k < j {
            assert(offs[k] < offs[j]);
        }
    }
}

/// An empty haystack window yields no matches and no rejects, and its single
/// gap is the empty range at the window itself.
pub proof fn lemma_empty_haystack<E>(pred: spec_fn(E) -> bool, data: Seq<E>, at: int)
    requires
        0 <= at <= data.len(),
    ensures
        match_offsets(pred, data, at, at) == Seq::<int>::empty(),
        gap_lo(match_offsets(pred, data, at, at), at, 0) == at,
        gap_hi(match_offsets(pred, data, at, at), at, 0) == at,
{
    assert(match_offsets(pred, data, at, at) =~= Seq::<int>::empty());
}

} // verus!
