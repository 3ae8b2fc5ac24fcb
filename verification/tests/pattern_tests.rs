use pattern_search::api_consumer::match_indices;
use pattern_search::api_consumer::split;
use pattern_search::slice;
use pattern_search::string;
use pattern_search::Pattern;
use pattern_search::ReverseSearcher;
use pattern_search::SearchPtrs;
use pattern_search::Searcher;

#[test]
fn prefix_and_suffix_without_a_searcher() {
    assert!(string::Ascii(b'h').is_prefix_of("hangman"));
    assert!(!string::Ascii(b'h').is_suffix_of("hangman"));
    assert!(string::Ascii(b'n').is_suffix_of("hangman"));
    assert!(!string::Ascii(b'n').is_prefix_of("hangman"));

    let buf: Vec<u8> = b"hangman".to_vec();
    assert!(slice::Ascii(b'h').is_prefix_of(slice::Span::new(&buf)));
    assert!(!slice::Ascii(b'h').is_suffix_of(slice::Span::new(&buf)));
}

#[test]
fn empty_haystack_matches_nothing() {
    assert_eq!(match_indices("", string::Ascii(b'a')).len(), 0);
    assert_eq!(split("", string::Ascii(b'a')), vec![""]);
    assert!(!string::Ascii(b'a').is_prefix_of(""));
    assert!(!string::Ascii(b'a').is_suffix_of(""));
    assert!(!string::Ascii(b'a').is_contained_in(""));

    let mut s = string::Ascii(b'a').into_searcher("");
    assert_eq!(s.next_match(), None);
    let mut s = string::Ascii(b'a').into_searcher("");
    assert_eq!(s.next_reject(), None);

    let buf: Vec<u8> = Vec::new();
    assert_eq!(
        match_indices(slice::Span::new(&buf), slice::Ascii(b'a')).len(),
        0
    );
    let gaps = split(slice::Span::new(&buf), slice::Ascii(b'a'));
    assert_eq!(gaps.len(), 1);
    assert_eq!(gaps[0].len(), 0);
    assert!(!slice::Ascii(b'a').is_prefix_of(slice::Span::new(&buf)));
    assert!(!slice::Ascii(b'a').is_suffix_of(slice::Span::new(&buf)));
}

#[test]
fn is_contained_in_finds_a_match() {
    assert!(string::Ascii(b'a').is_contained_in("banana"));
    assert!(!string::Ascii(b'z').is_contained_in("banana"));
    let buf: Vec<u8> = b"banana".to_vec();
    assert!(slice::Ascii(b'b').is_contained_in(slice::Span::new(&buf)));
    assert!(!slice::Ascii(b'z').is_contained_in(slice::Span::new(&buf)));
}

#[test]
fn forward_scan_yields_matches_left_to_right() {
    let mut s = string::Ascii(b'a').into_searcher("banana");
    assert_eq!(s.next_match(), Some((1, 2)));
    assert_eq!(s.next_match(), Some((3, 4)));
    assert_eq!(s.next_match(), Some((5, 6)));
    assert_eq!(s.next_match(), None);
    assert_eq!(s.next_match(), None);
}

#[test]
fn forward_scan_yields_rejects_left_to_right() {
    let mut s = string::Ascii(b'a').into_searcher("banana");
    assert_eq!(s.next_reject(), Some((0, 1)));
    assert_eq!(s.next_reject(), Some((2, 3)));
    assert_eq!(s.next_reject(), Some((4, 5)));
    assert_eq!(s.next_reject(), None);
}

#[test]
fn backward_scan_yields_matches_right_to_left() {
    let mut s = string::Ascii(b'a').into_searcher("banana");
    assert_eq!(s.next_match_back(), Some((5, 6)));
    assert_eq!(s.next_match_back(), Some((3, 4)));
    assert_eq!(s.next_match_back(), Some((1, 2)));
    assert_eq!(s.next_match_back(), None);

    let buf: Vec<u8> = b"banana".to_vec();
    let mut s = slice::Ascii(b'n').into_searcher(slice::Span::new(&buf));
    assert_eq!(s.next_reject_back(), Some((5, 6)));
    assert_eq!(s.next_match_back(), Some((4, 5)));
    assert_eq!(s.next_match_back(), Some((2, 3)));
    assert_eq!(s.next_match_back(), None);
}

#[test]
fn interleaved_scans_never_cross_or_re_match() {
    let mut s = string::Ascii(b'a').into_searcher("banana");
    assert_eq!(s.next_match_back(), Some((5, 6)));
    assert_eq!(s.next_match(), Some((1, 2)));
    assert_eq!(s.next_match_back(), Some((3, 4)));
    assert_eq!(s.next_match(), None);
    assert_eq!(s.next_match_back(), None);
}

#[test]
fn bounds_and_offsets_rederive_identically() {
    let h = "hangman";
    assert_eq!(
        <&str as SearchPtrs>::bounds(h),
        <&str as SearchPtrs>::bounds(h)
    );
    assert_eq!(
        <&str as SearchPtrs>::cursor_at_front(h),
        <&str as SearchPtrs>::cursor_at_front(h)
    );
    assert_eq!(
        <&str as SearchPtrs>::cursor_at_back(h),
        <&str as SearchPtrs>::cursor_at_back(h)
    );
    assert_eq!(
        <&str as SearchPtrs>::offset_from_start(h, 3),
        <&str as SearchPtrs>::offset_from_start(h, 3)
    );

    let buf: Vec<u8> = b"hangman".to_vec();
    let sp = slice::Span::new(&buf);
    assert_eq!(
        <slice::Span as SearchPtrs>::cursor_at_front(sp),
        <slice::Span as SearchPtrs>::cursor_at_front(sp)
    );
    assert_eq!(
        <slice::Span as SearchPtrs>::cursor_at_back(sp),
        <slice::Span as SearchPtrs>::cursor_at_back(sp)
    );
    assert_eq!(<slice::Span as SearchPtrs>::offset_from_start(sp, 3), 3);

    assert_eq!(
        match_indices(h, string::Ascii(b'a')),
        match_indices(h, string::Ascii(b'a'))
    );
}

#[test]
fn span_views_read_back_their_range() {
    let buf: Vec<u8> = b"hangman".to_vec();
    let whole = slice::Span::new(&buf);
    assert_eq!(whole.begin(), 0);
    assert_eq!(whole.end(), 7);
    assert_eq!(whole.len(), 7);
    assert_eq!(whole.get(0), b'h');
    assert_eq!(whole.get(6), b'n');
}

#[test]
fn overwrite_range_touches_only_its_range() {
    let mut buf: Vec<u8> = b"hangman".to_vec();
    slice::overwrite_range(&mut buf, 1, 3, b'.');
    assert_eq!(buf, b"h..gman");
    slice::overwrite_range(&mut buf, 0, 0, b'!');
    assert_eq!(buf, b"h..gman");
}
