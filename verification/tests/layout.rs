use fuzzy_view::layout::{
    display_width, glyph_width, left_fixed, reshape_checked, reshape_string, right_fixed,
    tail_fits,
};

fn chars(s: &str) -> Vec<char> {
    s.chars().collect()
}

#[test]
fn test_display_width() {
    assert_eq!(display_width(&"abcdefg".to_string().chars().collect::<Vec<char>>()), 7);
    assert_eq!(display_width(&"This is 中国".to_string().chars().collect::<Vec<char>>()), 12);
}

#[test]
fn test_left_fixed() {
    assert_eq!(left_fixed(&"a中cdef".to_string().chars().collect::<Vec<char>>(), 5), 3);
    assert_eq!(left_fixed(&"a中".to_string().chars().collect::<Vec<char>>(), 5), 1);
    assert_eq!(left_fixed(&"a中".to_string().chars().collect::<Vec<char>>(), 0), 0);
}

#[test]
fn test_right_fixed() {
    assert_eq!(right_fixed(&"a中cdef".to_string().chars().collect::<Vec<char>>(), 5), 2);
    assert_eq!(right_fixed(&"a中".to_string().chars().collect::<Vec<char>>(), 5), 0);
    assert_eq!(right_fixed(&"a中".to_string().chars().collect::<Vec<char>>(), 0), 1);
}

#[test]
fn test_reshape_string() {
    assert_eq!(
        reshape_string(&"0123456789".to_string().chars().collect::<Vec<char>>(), 6, 1, 7),
        ("..67..".to_string().chars().collect::<Vec<char>>(), 4)
    );

    assert_eq!(
        reshape_string(&"0123456789".to_string().chars().collect::<Vec<char>>(), 12, 1, 7),
        ("123456789".to_string().chars().collect::<Vec<char>>(), 1)
    );

    assert_eq!(
        reshape_string(&"0123456789".to_string().chars().collect::<Vec<char>>(), 6, 0, 6),
        ("..56..".to_string().chars().collect::<Vec<char>>(), 3)
    );

    assert_eq!(
        reshape_string(&"0123456789".to_string().chars().collect::<Vec<char>>(), 8, 0, 4),
        ("012345..".to_string().chars().collect::<Vec<char>>(), 0)
    );

    assert_eq!(
        reshape_string(&"0123456789".to_string().chars().collect::<Vec<char>>(), 10, 0, 4),
        ("0123456789".to_string().chars().collect::<Vec<char>>(), 0)
    );
}

#[test]
fn glyph_width_follows_the_encoded_length() {
    assert_eq!(glyph_width('a'), 1);
    assert_eq!(glyph_width('\u{7f}'), 1);
    assert_eq!(glyph_width('\u{80}'), 2);
    assert_eq!(glyph_width('é'), 2);
    assert_eq!(glyph_width('中'), 2);
    assert_eq!(glyph_width('\u{1F600}'), 2);
    for c in ['a', 'é', '中', '\u{1F600}', '\t'] {
        assert_eq!(glyph_width(c) == 1, c.len_utf8() == 1);
    }
}

#[test]
fn display_width_is_the_sum_of_the_glyph_widths() {
    for s in ["", "a", "abcdefg", "This is 中国", "é中a\t", "中中中"] {
        let v = chars(s);
        let sum: usize = v.iter().map(|c| glyph_width(*c)).sum();
        assert_eq!(display_width(&v), sum);
    }
    assert_eq!(display_width(&chars("")), 0);
    assert_eq!(display_width(&chars("é")), 2);
}

#[test]
fn tail_fits_compares_the_width_of_the_suffix() {
    let v = chars("a中cdef");
    assert!(tail_fits(&v, 0, 7));
    assert!(!tail_fits(&v, 0, 6));
    assert!(tail_fits(&v, 2, 4));
    assert!(!tail_fits(&v, 1, 5));
    assert!(tail_fits(&v, 6, 0));
}

#[test]
fn fixed_ends_on_whole_and_empty_budgets() {
    let v = chars("abc");
    assert_eq!(left_fixed(&v, 3), 2);
    assert_eq!(left_fixed(&v, 100), 2);
    assert_eq!(left_fixed(&v, 1), 0);
    assert_eq!(left_fixed(&v, 0), 0);
    assert_eq!(left_fixed(&chars(""), 0), 0);
    assert_eq!(right_fixed(&v, 3), 0);
    assert_eq!(right_fixed(&v, 100), 0);
    assert_eq!(right_fixed(&v, 1), 2);
    assert_eq!(right_fixed(&v, 0), 2);
    assert_eq!(right_fixed(&chars(""), 4), 0);
    // a wide last glyph that does not fit leaves nothing
    assert_eq!(right_fixed(&chars("a中"), 1), 2);
    assert_eq!(left_fixed(&chars("a中"), 2), 0);
}

#[test]
fn fixed_windows_fit_and_cannot_grow() {
    for s in ["a中cdef", "0123456789", "中中中中", "a", "ab中"] {
        let v = chars(s);
        for budget in 2..9usize {
            let l = left_fixed(&v, budget);
            assert!(display_width(&v[..=l]) <= budget);
            assert!(l + 1 == v.len() || display_width(&v[..=l + 1]) > budget);
            let r = right_fixed(&v, budget);
            assert!(display_width(&v[r..]) <= budget);
            assert!(r == 0 || display_width(&v[r - 1..]) > budget);
            let mut back = v.clone();
            back.reverse();
            assert_eq!(v.len() - r, left_fixed(&back, budget) + 1);
        }
    }
}

#[test]
fn reshape_keeps_the_trailing_marker_at_the_end_of_the_text() {
    // the window reaches the last glyph and the marker is still appended
    assert_eq!(reshape_string(&chars("0123456789"), 6, 0, 9), (chars("..89.."), 6));
    assert_eq!(reshape_string(&chars("abc"), 2, 0, 2), (chars("..c.."), 0));
}

#[test]
fn reshape_with_wide_glyphs() {
    assert_eq!(reshape_string(&chars("ab中中"), 5, 0, 2), (chars("...."), 1));
    assert_eq!(reshape_string(&chars("中文中文中文"), 8, 0, 0), (chars("中文中.."), 0));
    assert_eq!(reshape_string(&chars("中文中文中文"), 8, 0, 5), (chars("..中文.."), 2));
}

#[test]
fn reshape_of_an_empty_tail() {
    assert_eq!(reshape_string(&chars(""), 0, 0, 0), (chars(""), 0));
    assert_eq!(reshape_string(&chars("abc"), 0, 3, 7), (chars(""), 3));
}

#[test]
fn reshape_checked_tells_where_no_window_is_defined() {
    assert_eq!(reshape_checked(&chars("abc"), 5, 4, 0), None);
    assert_eq!(reshape_checked(&chars("0123456789"), 6, 0, 10), None);
    assert_eq!(reshape_checked(&chars("中中"), 3, 0, 0), None);
    assert_eq!(reshape_checked(&chars("中abc"), 4, 0, 1), None);
    assert_eq!(
        reshape_checked(&chars("0123456789"), 6, 1, 7),
        Some((chars("..67.."), 4))
    );
    assert_eq!(reshape_checked(&chars("abcdef"), 1, 0, 0), Some((chars("a.."), 0)));
}

#[test]
fn push_range_and_marker_append() {
    let text = chars("0123456789");
    let mut out = chars("ab");
    fuzzy_view::layout::push_range(&mut out, &text, 3, 6);
    assert_eq!(out, chars("ab345"));
    fuzzy_view::layout::push_range(&mut out, &text, 6, 6);
    assert_eq!(out, chars("ab345"));
    fuzzy_view::layout::push_marker(&mut out);
    assert_eq!(out, chars("ab345.."));
}

#[test]
fn a_cut_window_fits_its_columns() {
    for s in ["0123456789", "中文中文中文", "a中b中c中d中", "abcdefghijklmnop"] {
        let v = chars(s);
        for width in 5..12usize {
            for start in 0..3usize {
                for must in 0..v.len() {
                    if let Some((shown, anchor)) = reshape_checked(&v, width, start, must) {
                        assert!(display_width(&shown) <= width);
                        if !tail_fits(&v, start, width) {
                            assert_eq!(&shown[shown.len() - 2..], &['.', '.']);
                            assert!(anchor + shown.len() - 2 > must);
                        } else {
                            assert_eq!(shown, v[start..].to_vec());
                            assert_eq!(anchor, start);
                        }
                    }
                }
            }
        }
    }
}

#[test]
fn display_width_lies_between_the_length_and_twice_the_length() {
    for s in ["", "abc", "a中b", "中中", "é"] {
        let v = chars(s);
        let w = display_width(&v);
        assert!(v.len() <= w && w <= 2 * v.len());
        assert_eq!(w == v.len(), v.iter().all(|c| c.len_utf8() == 1));
        for t in ["", "x", "中x"] {
            let mut both = v.clone();
            both.extend(chars(t));
            assert_eq!(display_width(&both), w + display_width(&chars(t)));
        }
    }
}
