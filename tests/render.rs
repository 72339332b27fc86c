use subzero::compose::{add_char, can_overwrite, place_glyph, render, squash_merge};
use subzero::font::Font;

fn glyph(font: &Font, letter: char) -> Vec<Vec<u8>> {
    let index = (letter as u8 - b'A') as usize;
    (0..5).map(|r| font.glyph_row(index, r).clone()).collect()
}

fn spaces(n: usize) -> Vec<u8> {
    vec![b' '; n]
}

#[test]
fn glyph_table_rows_of_a() {
    let font = Font::sub_zero();
    let a = glyph(&font, 'A');
    assert_eq!(a[0], b" ______  ".to_vec());
    assert_eq!(a[1], br"/\  __ \ ".to_vec());
    assert_eq!(a[2], br"\ \  __ \".to_vec());
    assert_eq!(a[3], br"\ \_\ \_\".to_vec());
    assert_eq!(a[4], br" \/_/\/_/".to_vec());
}

#[test]
fn single_letter_is_its_glyph() {
    let font = Font::sub_zero();
    let out = render(&font, "A", 5, 2, 0);
    assert_eq!(out, glyph(&font, 'A'));
}

#[test]
fn every_letter_alone_is_its_glyph() {
    let font = Font::sub_zero();
    for letter in 'A'..='Z' {
        let text = letter.to_string();
        assert_eq!(render(&font, &text, 5, 2, 0), glyph(&font, letter));
        assert_eq!(render(&font, &text.to_lowercase(), 5, 2, 0), glyph(&font, letter));
        assert_eq!(render(&font, &text, 1, 4, 3), glyph(&font, letter));
    }
}

#[test]
fn two_letters_set_between_apart() {
    let font = Font::sub_zero();
    let out = render(&font, "AB", 5, 2, 0);
    let (a, b) = (glyph(&font, 'A'), glyph(&font, 'B'));
    assert_eq!(out.len(), 5);
    for r in 0..5 {
        let mut expected = a[r].clone();
        expected.extend(spaces(2));
        expected.extend(&b[r]);
        assert_eq!(out[r], expected);
    }
}

#[test]
fn between_width_is_exact() {
    let font = Font::sub_zero();
    let out = render(&font, "ab", 5, 7, 0);
    let (a, b) = (glyph(&font, 'A'), glyph(&font, 'B'));
    for r in 0..5 {
        assert_eq!(out[r].len(), a[r].len() + 7 + b[r].len());
        assert_eq!(out[r][a[r].len()..a[r].len() + 7], spaces(7)[..]);
    }
}

#[test]
fn word_gap_resets_line_start() {
    let font = Font::sub_zero();
    let out = render(&font, "A B", 5, 2, 0);
    let (a, b) = (glyph(&font, 'A'), glyph(&font, 'B'));
    for r in 0..5 {
        let mut expected = a[r].clone();
        expected.extend(spaces(5));
        expected.extend(&b[r]);
        assert_eq!(out[r], expected);
    }
}

#[test]
fn any_other_character_is_a_word_gap() {
    let font = Font::sub_zero();
    let out = render(&font, "A!é3", 3, 2, 2);
    let a = glyph(&font, 'A');
    for r in 0..5 {
        let mut expected = a[r].clone();
        expected.extend(spaces(9));
        assert_eq!(out[r], expected);
    }
}

#[test]
fn delete_character_is_dropped() {
    let font = Font::sub_zero();
    assert_eq!(render(&font, "A\u{7f}B", 5, 2, 0), render(&font, "AB", 5, 2, 0));
    assert_eq!(render(&font, "A\u{7f}B", 5, 2, 2), render(&font, "AB", 5, 2, 2));
}

#[test]
fn control_characters_are_dropped() {
    let font = Font::sub_zero();
    assert_eq!(render(&font, "A\tB\u{1}", 5, 2, 0), render(&font, "AB", 5, 2, 0));
    assert_eq!(render(&font, "A\u{ff}B", 5, 2, 0), render(&font, "AB", 5, 2, 0));
    assert_eq!(render(&font, "AB\r\n", 5, 2, 0), render(&font, "AB", 5, 2, 0));
}

#[test]
fn five_rows_for_each_line() {
    let font = Font::sub_zero();
    assert_eq!(render(&font, "", 5, 2, 0).len(), 0);
    assert_eq!(render(&font, "\n", 5, 2, 0).len(), 5);
    assert_eq!(render(&font, "ab", 5, 2, 0).len(), 5);
    assert_eq!(render(&font, "ab\n", 5, 2, 0).len(), 5);
    assert_eq!(render(&font, "ab\ncd", 5, 2, 0).len(), 10);
    assert_eq!(render(&font, "a\n\nb", 5, 2, 1).len(), 15);
}

#[test]
fn empty_line_gives_empty_rows() {
    let font = Font::sub_zero();
    let out = render(&font, "a\n\nb", 5, 2, 0);
    for r in 5..10 {
        assert!(out[r].is_empty());
    }
    assert_eq!(out[0..5].to_vec(), glyph(&font, 'A'));
    assert_eq!(out[10..15].to_vec(), glyph(&font, 'B'));
}

#[test]
fn underline_is_covered_by_backslash() {
    let font = Font::sub_zero();
    let (x, a) = (glyph(&font, 'X'), glyph(&font, 'A'));
    assert_eq!(x[2].last(), Some(&b'_'));
    assert_eq!(a[2][0], b'\\');
    let out = render(&font, "XA", 5, 2, 1);
    let popped = 1;
    assert_eq!(out[2].len(), x[2].len() + a[2].len() - popped);
    assert_eq!(out[2], br"\/_/\_\/\ \  __ \".to_vec());
}

#[test]
fn squash_merges_blank_columns() {
    let font = Font::sub_zero();
    let out = render(&font, "AB", 5, 2, 1);
    let (a, b) = (glyph(&font, 'A'), glyph(&font, 'B'));
    let mut expected = a[0].clone();
    expected.extend(&b[0][1..]);
    assert_eq!(out[0], expected);
    assert_eq!(out[0].len(), 17);
}

#[test]
fn overwrite_rule() {
    assert!(can_overwrite(b' ', b'\\'));
    assert!(can_overwrite(b' ', b' '));
    assert!(can_overwrite(b'_', b'/'));
    assert!(!can_overwrite(b'_', b' '));
    assert!(!can_overwrite(b'\\', b' '));
    assert!(!can_overwrite(b'\\', b'_'));
    assert!(!can_overwrite(b'/', b'\\'));
}

#[test]
fn overwrite_rule_is_one_sided() {
    for x in 0..=255u8 {
        if x != b' ' {
            assert!(can_overwrite(b' ', x));
            assert!(!can_overwrite(x, b' '));
        }
    }
}

#[test]
fn squash_probe_stops_at_first_kept_column() {
    let mut line = b"ab_".to_vec();
    squash_merge(&mut line, b"\\xy", 2);
    assert_eq!(line, b"abxy".to_vec());
}

#[test]
fn squash_probe_tests_the_first_column() {
    let mut line = b"a  ".to_vec();
    squash_merge(&mut line, b"_/z", 2);
    assert_eq!(line, b"a_/z".to_vec());
    let mut line = b"a_ ".to_vec();
    squash_merge(&mut line, b"/ z", 2);
    assert_eq!(line, b"a/ z".to_vec());
}

#[test]
fn squash_on_short_line_is_clamped() {
    let mut line = Vec::new();
    squash_merge(&mut line, b"abc", 2);
    assert_eq!(line, b"c".to_vec());
    let mut line = b"_".to_vec();
    squash_merge(&mut line, b"\\", 3);
    assert_eq!(line, b"_".to_vec());
}

#[test]
fn place_glyph_modes() {
    let mut row = b"ab".to_vec();
    place_glyph(&mut row, b"cd", true, 3, 0);
    assert_eq!(row, b"abcd".to_vec());
    let mut row = b"ab".to_vec();
    place_glyph(&mut row, b"cd", false, 3, 0);
    assert_eq!(row, b"ab   cd".to_vec());
    let mut row = b"a ".to_vec();
    place_glyph(&mut row, b"cde", false, 3, 1);
    assert_eq!(row, b"acde".to_vec());
}

#[test]
fn add_char_steps() {
    let font = Font::sub_zero();
    let mut rows = vec![Vec::new(); 5];
    assert!(add_char(&font, &mut rows, true, '\u{7f}', 4, 2, 0));
    assert!(rows.iter().all(|r| r.is_empty()));
    assert!(!add_char(&font, &mut rows, true, 'c', 4, 2, 0));
    assert_eq!(rows, glyph(&font, 'C'));
    assert!(add_char(&font, &mut rows, false, '-', 4, 2, 0));
    for r in 0..5 {
        let mut expected = glyph(&font, 'C')[r].clone();
        expected.extend(spaces(4));
        assert_eq!(rows[r], expected);
    }
}
