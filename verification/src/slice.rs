//! The mutable byte-buffer haystack, rendered safely: a [`Span`] is a range
//! handle over one underlying buffer — a read borrow of the buffer plus the
//! absolute bounds of the sub-range it stands for. Materializing a sub-range
//! narrows the bounds without copying bytes. A span materialized during a
//! scan of a mutably owned buffer carries the right to overwrite exactly its
//! own range once the scan is over; [`overwrite_range`] is that right made
//! executable, and the searcher guarantees the ranges it yields are disjoint.

use crate::DoubleEndedSearcher;
use crate::Pattern;
use crate::ReverseSearcher;
use crate::SearchPtrs;
use crate::Searcher;
use vstd::prelude::*;
use vstd::slice::slice_index_get;

verus! {

/// A contiguous sub-range of one byte buffer: the buffer borrow together
/// with the absolute half-open range `[lo, hi)` it addresses.
#[derive(Clone, Copy)]
pub struct Span<'a> {
    data: &'a [u8],
    lo: usize,
    hi: usize,
}

impl<'a> Span<'a> {
    /// The whole underlying buffer this span's cursors index into.
    pub closed spec fn buf(self) -> Seq<u8> {
        self.data@
    }

    /// The absolute start of the span's range.
    pub closed spec fn span_lo(self) -> int {
        self.lo as int
    }

    /// The absolute end of the span's range.
    pub closed spec fn span_hi(self) -> int {
        self.hi as int
    }

    /// Validity: the range lies within the underlying buffer.
    pub closed spec fn span_wf(self) -> bool {
        self.lo <= self.hi <= self.data@.len()
    }

    /// The span covering all of `data`.
    pub fn new(data: &'a [u8]) -> (s: Span<'a>)
        ensures
            s.span_wf(),
            s.buf() == data@,
            s.span_lo() == 0,
            s.span_hi() == data@.len(),
    {
        Span { data, lo: 0, hi: data.len() }
    }

    /// The absolute start of the span's range.
    pub fn begin(&self) -> (b: usize)
        ensures
            b == self.span_lo(),
    {
        self.lo
    }

    /// The absolute end of the span's range.
    pub fn end(&self) -> (e: usize)
        ensures
            e == self.span_hi(),
    {
        self.hi
    }

    /// How many bytes the span covers.
    pub fn len(&self) -> (n: usize)
        requires
            self.span_wf(),
        ensures
            n == self.elems().len(),
    {
        self.hi - self.lo
    }

    /// The byte at position `i` of the span.
    pub fn get(&self, i: usize) -> (b: u8)
        requires
            self.span_wf(),
            i < self.elems().len(),
        ensures
            b == self.elems()[i as int],
    {
        *slice_index_get(self.data, self.lo + i)
    }
}

impl<'a> SearchPtrs for Span<'a> {
    type Haystack = Span<'a>;

    type Elem = u8;

    open spec fn elems(self) -> Seq<u8> {
        self.buf().subrange(self.span_lo(), self.span_hi())
    }

    open spec fn h_wf(self) -> bool {
        self.span_wf()
    }

    open spec fn hb_of(self) -> Span<'a> {
        self
    }

    open spec fn hb_data(hb: Span<'a>) -> Seq<u8> {
        hb.buf()
    }

    open spec fn hb_lo(hb: Span<'a>) -> int {
        hb.span_lo()
    }

    open spec fn hb_hi(hb: Span<'a>) -> int {
        hb.span_hi()
    }

    open spec fn hb_wf(hb: Span<'a>) -> bool {
        hb.span_wf()
    }

    open spec fn is_view_of(v: Span<'a>, hb: Span<'a>, start: int, end: int) -> bool {
        v.buf() == hb.buf() && v.span_lo() == start && v.span_hi() == end
    }

    proof fn lemma_hb_wf(hb: Span<'a>) {
    }

    proof fn lemma_hb_of(h: Span<'a>) {
    }

    fn bounds(self) -> (hb: Span<'a>) {
        self
    }

    fn offset_from_start(hb: Span<'a>, begin: usize) -> (off: usize) {
        begin - hb.lo
    }

    fn range_to_self(hb: Span<'a>, start: usize, end: usize) -> (v: Span<'a>) {
        Span { data: hb.data, lo: start, hi: end }
    }

    fn cursor_at_front(hb: Span<'a>) -> (c: usize) {
        hb.lo
    }

    fn cursor_at_back(hb: Span<'a>) -> (c: usize) {
        hb.hi
    }
}

/// A single-element pattern over byte buffers: the criterion is equality
/// with the target byte.
pub struct Ascii(pub u8);

/// The forward and backward scanner for [`Ascii`] over one buffer span:
/// a shrinking half-open window `[start, end)` of absolute positions.
pub struct AsciiSearcher<'a> {
    haystack: Span<'a>,
    start: usize,
    end: usize,
    ascii: u8,
}

impl<'a> Searcher<Span<'a>> for AsciiSearcher<'a> {
    closed spec fn hb(&self) -> Span<'a> {
        self.haystack
    }

    closed spec fn pos(&self) -> int {
        self.start as int
    }

    closed spec fn back(&self) -> int {
        self.end as int
    }

    closed spec fn match_at(&self, i: int) -> bool {
        self.haystack.span_lo() <= i < self.haystack.span_hi() && self.haystack.buf()[i]
            == self.ascii
    }

    closed spec fn wf(&self) -> bool {
        self.haystack.span_wf() && self.haystack.span_lo() <= self.start as int <= self.end as int
            <= self.haystack.span_hi()
    }

    proof fn lemma_wf(&self) {
    }

    fn haystack(&self) -> (hb: Span<'a>) {
        self.haystack
    }

    fn next_match(&mut self) -> (r: Option<(usize, usize)>) {
        while self.start < self.end
            invariant
                self.haystack == old(self).haystack,
                self.ascii == old(self).ascii,
                self.end == old(self).end,
                old(self).start <= self.start <= self.end,
                old(self).wf(),
                self.end as int <= self.haystack.span_hi(),
                forall|i: int|
                    old(self).start <= i < self.start ==> self.haystack.buf()[i] != self.ascii,
            decreases self.end - self.start,
        {
            let b = *slice_index_get(self.haystack.data, self.start);
            self.start = self.start + 1;
            if b == self.ascii {
                return Some((self.start - 1, self.start));
            }
        }
        None
    }

    fn next_reject(&mut self) -> (r: Option<(usize, usize)>) {
        while self.start < self.end
            invariant
                self.haystack == old(self).haystack,
                self.ascii == old(self).ascii,
                self.end == old(self).end,
                old(self).start <= self.start <= self.end,
                old(self).wf(),
                self.end as int <= self.haystack.span_hi(),
                forall|i: int|
                    old(self).start <= i < self.start ==> self.haystack.buf()[i] == self.ascii,
            decreases self.end - self.start,
        {
            let b = *slice_index_get(self.haystack.data, self.start);
            self.start = self.start + 1;
            if b != self.ascii {
                return Some((self.start - 1, self.start));
            }
        }
        None
    }
}

impl<'a> ReverseSearcher<Span<'a>> for AsciiSearcher<'a> {
    fn next_match_back(&mut self) -> (r: Option<(usize, usize)>) {
        while self.start < self.end
            invariant
                self.haystack == old(self).haystack,
                self.ascii == old(self).ascii,
                self.start == old(self).start,
                self.start <= self.end <= old(self).end,
                old(self).wf(),
                forall|i: int|
                    self.end <= i < old(self).end ==> self.haystack.buf()[i] != self.ascii,
            decreases self.end,
        {
            let b = *slice_index_get(self.haystack.data, self.end - 1);
            self.end = self.end - 1;
            if b == self.ascii {
                return Some((self.end, self.end + 1));
            }
        }
        None
    }

    fn next_reject_back(&mut self) -> (r: Option<(usize, usize)>) {
        while self.start < self.end
            invariant
                self.haystack == old(self).haystack,
                self.ascii == old(self).ascii,
                self.start == old(self).start,
                self.start <= self.end <= old(self).end,
                old(self).wf(),
                forall|i: int|
                    self.end <= i < old(self).end ==> self.haystack.buf()[i] == self.ascii,
            decreases self.end,
        {
            let b = *slice_index_get(self.haystack.data, self.end - 1);
            self.end = self.end - 1;
            if b != self.ascii {
                return Some((self.end, self.end + 1));
            }
        }
        None
    }
}

impl<'a> DoubleEndedSearcher<Span<'a>> for AsciiSearcher<'a> {

}

impl<'a> Pattern<Span<'a>> for Ascii {
    type Searcher = AsciiSearcher<'a>;

    open spec fn elem_matches(self, x: u8) -> bool {
        x == self.0
    }

    fn into_searcher(self, haystack: Span<'a>) -> (s: AsciiSearcher<'a>) {
        let start = haystack.begin();
        let end = haystack.end();
        let s = AsciiSearcher { haystack, start, end, ascii: self.0 };
        proof {
            assert(s.wf());
            assert(s.hb() == haystack);
        }
        s
    }

    fn is_prefix_of(self, haystack: Span<'a>) -> (r: bool) {
        if haystack.lo < haystack.hi {
            *slice_index_get(haystack.data, haystack.lo) == self.0
        } else {
            false
        }
    }

    fn is_suffix_of(self, haystack: Span<'a>) -> (r: bool) {
        if haystack.lo < haystack.hi {
            *slice_index_get(haystack.data, haystack.hi - 1) == self.0
        } else {
            false
        }
    }
}

/// Exercise the mutation right a span over `buf` stands for: overwrite the
/// half-open range `[lo, hi)` of `buf` with `b`, leaving every other byte
/// unchanged. Distinct spans yielded by one scan cover disjoint ranges, so
/// their overwrites compose independently.
pub fn overwrite_range(buf: &mut Vec<u8>, lo: usize, hi: usize, b: u8)
    requires
        lo <= hi <= old(buf)@.len(),
    ensures
        final(buf)@.len() == old(buf)@.len(),
        forall|i: int|
            0 <= i < old(buf)@.len() ==> final(buf)@[i] == (if lo <= i < hi {
                b
            } else {
                old(buf)@[i]
            }),
{
    let mut j = lo;
    while j < hi
        invariant
            lo <= j <= hi <= buf@.len(),
            buf@.len() == old(buf)@.len(),
            forall|i: int|
                0 <= i < old(buf)@.len() ==> buf@[i] == (if lo <= i < j {
                    b
                } else {
                    old(buf)@[i]
                }),
        decreases hi - j,
    {
        buf.set(j, b);
        j = j + 1;
    }
}

} // verus!
