use pattern_search::api_consumer::match_indices;
use pattern_search::api_consumer::split;
use pattern_search::slice;
use pattern_search::string;

#[test]
fn v4_test_match_indices() {
    assert_eq!(
        match_indices("banana", string::Ascii(b'a')),
        vec![(1, "a"), (3, "a"), (5, "a")]
    );

    let mut buf: Vec<u8> = b"banana".to_vec();

    {
        let ranges: Vec<(usize, usize)> = {
            let found = match_indices(slice::Span::new(&buf), slice::Ascii(b'a'));

            assert_eq!(
                found.iter().map(|x| x.0).collect::<Vec<_>>(),
                vec![1, 3, 5]
            );

            found.iter().map(|m| (m.1.begin(), m.1.end())).collect()
        };

        for (b, e) in ranges {
            slice::overwrite_range(&mut buf, b, e, b'i');
        }
    }

    assert_eq!(buf, b"binini");
}

#[test]
fn v5_test_match_indices() {
    assert_eq!(
        match_indices("banana", string::Ascii(b'a')),
        vec![(1, "a"), (3, "a"), (5, "a")]
    );

    let mut buf: Vec<u8> = b"banana".to_vec();

    {
        let ranges: Vec<(usize, usize)> = {
            let found = match_indices(slice::Span::new(&buf), slice::Ascii(b'a'));

            assert_eq!(
                found.iter().map(|x| x.0).collect::<Vec<_>>(),
                vec![1, 3, 5]
            );

            found.iter().map(|m| (m.1.begin(), m.1.end())).collect()
        };

        for (b, e) in ranges {
            slice::overwrite_range(&mut buf, b, e, b'i');
        }
    }

    assert_eq!(buf, b"binini");
}

#[test]
fn test_split() {
    assert_eq!(split("hangman", string::Ascii(b'a')), vec!["h", "ngm", "n"]);

    let mut buf: Vec<u8> = b"hangman".to_vec();

    {
        let ranges: Vec<(usize, usize)> = {
            let gaps = split(slice::Span::new(&buf), slice::Ascii(b'a'));

            gaps.iter().map(|m| (m.begin(), m.end())).collect()
        };

        for (b, e) in ranges {
            slice::overwrite_range(&mut buf, b, e, b'-');
        }
    }

    assert_eq!(buf, b"-a---a-");
}

#[test]
fn split_interleaved_with_matches_rebuilds_the_haystack() {
    let h = "hangman";
    let found = match_indices(h, string::Ascii(b'a'));
    let gaps = split(h, string::Ascii(b'a'));
    assert_eq!(gaps.len(), found.len() + 1);
    let mut rebuilt = String::new();
    for k in 0..found.len() {
        rebuilt.push_str(gaps[k]);
        rebuilt.push_str(found[k].1);
    }
    rebuilt.push_str(gaps[gaps.len() - 1]);
    assert_eq!(rebuilt, h);
}

#[test]
fn split_without_matches_is_the_whole_haystack() {
    assert_eq!(split("xyz", string::Ascii(b'a')), vec!["xyz"]);
    let buf: Vec<u8> = b"xyz".to_vec();
    let gaps = split(slice::Span::new(&buf), slice::Ascii(b'a'));
    assert_eq!(gaps.len(), 1);
    assert_eq!((gaps[0].begin(), gaps[0].end()), (0, 3));
}

#[test]
fn split_keeps_empty_gaps_at_adjacent_and_boundary_matches() {
    assert_eq!(split("aab", string::Ascii(b'a')), vec!["", "", "b"]);
    assert_eq!(split("abca", string::Ascii(b'a')), vec!["", "bc", ""]);
}

#[test]
fn match_indices_views_are_one_element_spans() {
    let found = match_indices("banana", string::Ascii(b'n'));
    assert_eq!(found, vec![(2, "n"), (4, "n")]);
    let buf: Vec<u8> = b"banana".to_vec();
    let found = match_indices(slice::Span::new(&buf), slice::Ascii(b'n'));
    assert_eq!(found.len(), 2);
    for (off, view) in &found {
        assert_eq!(view.len(), 1);
        assert_eq!(view.get(0), b'n');
        assert_eq!(view.begin(), *off);
    }
}

#[test]
fn split_views_sit_at_their_gaps() {
    let buf: Vec<u8> = b"hangman".to_vec();
    let gaps = split(slice::Span::new(&buf), slice::Ascii(b'a'));
    let places: Vec<(usize, usize)> = gaps.iter().map(|g| (g.begin(), g.end())).collect();
    assert_eq!(places, vec![(0, 1), (2, 5), (6, 7)]);
}
