use ceos::highlight::{deterministic_color, highlight_spans, Color};

#[test]
fn test_highlight_rendering_multi_byte() {
    let text = "Hello, 🌍 world!";
    let pattern = "world";
    let search_text = text.to_string();

    let byte_index = search_text.find(pattern).unwrap();
    let char_index = search_text[..byte_index].chars().count();
    let char_count = pattern.chars().count();

    // H(0) e(1) l(2) l(3) o(4) ,(5)  (6) 🌍(7)  (8) w(9)
    assert_eq!(char_index, 9);
    assert_eq!(char_count, 5);
}

#[test]
fn spans_of_a_word_after_a_wide_character() {
    let spans = highlight_spans("Hello, 🌍 world!", "world", false);
    assert_eq!(spans, vec![(9, 5)]);
}

#[test]
fn spans_do_not_overlap() {
    assert_eq!(highlight_spans("aaaa", "aa", false), vec![(0, 2), (2, 2)]);
    assert_eq!(highlight_spans("abcabc", "bc", false), vec![(1, 2), (4, 2)]);
    assert_eq!(highlight_spans("abc", "abcd", false), vec![]);
}

#[test]
fn spans_ignoring_case() {
    assert_eq!(highlight_spans("Error and ERROR", "error", true), vec![(0, 5), (10, 5)]);
    assert_eq!(highlight_spans("Error and ERROR", "error", false), vec![]);
}

#[test]
fn color_of_a_text_is_fixed() {
    assert_eq!(deterministic_color(""), Color::from_rgb(0, 0, 0));
    assert_eq!(deterministic_color("abc"), deterministic_color("abc"));
    // one byte 'a' = 97: 97 * 0x85ebca6b wrapping
    let h: u32 = 97u32.wrapping_mul(0x85ebca6b);
    assert_eq!(
        deterministic_color("a"),
        Color::from_rgb((h & 0xff) as u8, ((h >> 8) & 0xff) as u8, ((h >> 16) & 0xff) as u8)
    );
}
