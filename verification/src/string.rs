//! The immutable text haystack: a `&str` is searchable, and materialized
//! sub-ranges are `&str` views into the same borrow, cut at character
//! positions. Cursors count characters from the front of the text.

use crate::DoubleEndedSearcher;
use crate::Pattern;
use crate::ReverseSearcher;
use crate::SearchPtrs;
use crate::Searcher;
use vstd::prelude::*;
use vstd::string::StrSliceExecFns;

verus! {

impl<'a> SearchPtrs for &'a str {
    type Haystack = &'a str;

    type Elem = char;

    open spec fn elems(self) -> Seq<char> {
        self@
    }

    open spec fn h_wf(self) -> bool {
        true
    }

    open spec fn hb_of(self) -> &'a str {
        self
    }

    open spec fn hb_data(hb: &'a str) -> Seq<char> {
        hb@
    }

    open spec fn hb_lo(hb: &'a str) -> int {
        0
    }

    open spec fn hb_hi(hb: &'a str) -> int {
        hb@.len() as int
    }

    open spec fn hb_wf(hb: &'a str) -> bool {
        true
    }

    open spec fn is_view_of(v: &'a str, hb: &'a str, start: int, end: int) -> bool {
        v@ == hb@.subrange(start, end)
    }

    proof fn lemma_hb_wf(hb: &'a str) {
    }

    proof fn lemma_hb_of(h: &'a str) {
        assert(h@.subrange(0, h@.len() as int) =~= h@);
    }

    fn bounds(self) -> (hb: &'a str) {
        self
    }

    fn offset_from_start(hb: &'a str, begin: usize) -> (off: usize) {
        begin
    }

    fn range_to_self(hb: &'a str, start: usize, end: usize) -> (v: &'a str) {
        hb.substring_char(start, end)
    }

    fn cursor_at_front(hb: &'a str) -> (c: usize) {
        0
    }

    fn cursor_at_back(hb: &'a str) -> (c: usize) {
        hb.unicode_len()
    }
}

/// A single-element pattern over text: the criterion is equality of a
/// character with the target ASCII byte.
pub struct Ascii(pub u8);

/// The forward and backward scanner for [`Ascii`] over one `&str` borrow:
/// a shrinking half-open window `[start, end)` of character positions.
pub struct AsciiSearcher<'a> {
    haystack: &'a str,
    start: usize,
    end: usize,
    ascii: u8,
}

impl<'a> Searcher<&'a str> for AsciiSearcher<'a> {
    closed spec fn hb(&self) -> &'a str {
        self.haystack
    }

    closed spec fn pos(&self) -> int {
        self.start as int
    }

    closed spec fn back(&self) -> int {
        self.end as int
    }

    closed spec fn match_at(&self, i: int) -> bool {
        0 <= i < self.haystack@.len() && self.haystack@[i] as u32 == self.ascii as u32
    }

    closed spec fn wf(&self) -> bool {
        self.start <= self.end <= self.haystack@.len()
    }

    proof fn lemma_wf(&self) {
    }

    fn haystack(&self) -> (hb: &'a str) {
        self.haystack
    }

    fn next_match(&mut self) -> (r: Option<(usize, usize)>) {
        while self.start < self.end
            invariant
                self.haystack == old(self).haystack,
                self.ascii == old(self).ascii,
                self.end == old(self).end,
                old(self).start <= self.start <= self.end,
                self.end <= self.haystack@.len(),
                forall|i: int|
                    old(self).start <= i < self.start ==> !(self.haystack@[i] as u32
                        == self.ascii as u32),
            decreases self.end - self.start,
        {
            let c = self.haystack.get_char(self.start);
            self.start = self.start + 1;
            if c as u32 == self.ascii as u32 {
                return Some((self.start - 1, self.start));
            }
        }
        None
    }

    fn next_reject(&mut self) -> (r: Option<(usize, usize)>) {
        while self.start < self.end
            invariant
                self.haystack == old(self).haystack,
                self.ascii == old(self).ascii,
                self.end == old(self).end,
                old(self).start <= self.start <= self.end,
                self.end <= self.haystack@.len(),
                forall|i: int|
                    old(self).start <= i < self.start ==> (self.haystack@[i] as u32
                        == self.ascii as u32),
            decreases self.end - self.start,
        {
            let c = self.haystack.get_char(self.start);
            self.start = self.start + 1;
            if c as u32 != self.ascii as u32 {
                return Some((self.start - 1, self.start));
            }
        }
        None
    }
}

impl<'a> ReverseSearcher<&'a str> for AsciiSearcher<'a> {
    fn next_match_back(&mut self) -> (r: Option<(usize, usize)>) {
        while self.start < self.end
            invariant
                self.haystack == old(self).haystack,
                self.ascii == old(self).ascii,
                self.start == old(self).start,
                self.start <= self.end <= old(self).end,
                old(self).end <= self.haystack@.len(),
                forall|i: int|
                    self.end <= i < old(self).end ==> !(self.haystack@[i] as u32
                        == self.ascii as u32),
            decreases self.end,
        {
            let c = self.haystack.get_char(self.end - 1);
            self.end = self.end - 1;
            if c as u32 == self.ascii as u32 {
                return Some((self.end, self.end + 1));
            }
        }
        None
    }

    fn next_reject_back(&mut self) -> (r: Option<(usize, usize)>) {
        while self.start < self.end
            invariant
                self.haystack == old(self).haystack,
                self.ascii == old(self).ascii,
                self.start == old(self).start,
                self.start <= self.end <= old(self).end,
                old(self).end <= self.haystack@.len(),
                forall|i: int|
                    self.end <= i < old(self).end ==> (self.haystack@[i] as u32
                        == self.ascii as u32),
            decreases self.end,
        {
            let c = self.haystack.get_char(self.end - 1);
            self.end = self.end - 1;
            if c as u32 != self.ascii as u32 {
                return Some((self.end, self.end + 1));
            }
        }
        None
    }
}

impl<'a> DoubleEndedSearcher<&'a str> for AsciiSearcher<'a> {

}

impl<'a> Pattern<&'a str> for Ascii {
    type Searcher = AsciiSearcher<'a>;

    open spec fn elem_matches(self, x: char) -> bool {
        x as u32 == self.0 as u32
    }

    fn into_searcher(self, haystack: &'a str) -> (s: AsciiSearcher<'a>) {
        let n = haystack.unicode_len();
        let s = AsciiSearcher { haystack, start: 0, end: n, ascii: self.0 };
        proof {
            assert(s.wf());
            assert(s.hb() == haystack);
        }
        s
    }

    fn is_prefix_of(self, haystack: &'a str) -> (r: bool) {
        let n = haystack.unicode_len();
        if n == 0 {
            false
        } else {
            let c = haystack.get_char(0);
            c as u32 == self.0 as u32
        }
    }

    fn is_suffix_of(self, haystack: &'a str) -> (r: bool) {
        let n = haystack.unicode_len();
        if n == 0 {
            false
        } else {
            let c = haystack.get_char(n - 1);
            c as u32 == self.0 as u32
        }
    }
}

} // verus!
