use ceos::search::regex_search_matcher::{RegexRefusal, RegexSearchMatcher};
use ceos::search::SearchMatcher;
use ceos::options::{Options, OptionsDialog, SearchWidget};
use ceos::position::Position;
use ceos::search::simple_search_matcher::SimpleSearchMatcher;
use ceos::search_toolbar::{column_of_byte, byte_of_column, search_lines, SearchToolbar};
use ceos::selection::Selection;
use ceos::text_area::TextAreaProperties;

fn text_area(text: &str) -> TextAreaProperties {
    let mut t = TextAreaProperties::new();
    t.replace_selection(text);
    t.caret_position = Position { line: 0, column: 0 };
    t
}

fn toolbar(query: &str) -> SearchToolbar {
    let mut tb = SearchToolbar::default();
    tb.query = query.to_string();
    tb
}

fn sel(line: usize, s: usize, e: usize) -> Option<Selection> {
    Some(Selection { start: Position { line, column: s }, end: Position { line, column: e } })
}

#[test]
fn search_from_start_selects_first_match() {
    let mut t = text_area("hello world\nfoo world");
    let mut tb = toolbar("world");
    let r = tb.do_search_from_start(&mut t);
    assert_eq!(r, Err(()));
    assert!(!tb.last_search_failed);
    assert_eq!(t.selection, sel(0, 6, 11));
    assert_eq!(t.caret_position, Position { line: 0, column: 11 });
    assert_eq!(t.first_line, 0);
}

#[test]
fn search_next_goes_on_then_wraps() {
    let mut t = text_area("hello world\nfoo world");
    let mut tb = toolbar("world");
    let _ = tb.do_search_from_start(&mut t);
    let _ = tb.do_search(&mut t);
    assert_eq!(t.selection, sel(1, 4, 9));
    let _ = tb.do_search(&mut t);
    assert_eq!(t.selection, sel(0, 6, 11));
}

#[test]
fn search_without_match_marks_failure() {
    let mut t = text_area("hello world");
    let mut tb = toolbar("zzz");
    let r = tb.do_search_from_start(&mut t);
    assert_eq!(r, Ok(()));
    assert!(tb.last_search_failed);
    assert_eq!(t.selection, None);
    assert_eq!(t.caret_position, Position { line: 0, column: 0 });
}

#[test]
fn empty_query_is_refused() {
    let mut t = text_area("hello");
    let mut tb = toolbar("");
    assert_eq!(tb.do_search_from_start(&mut t), Err(()));
    assert!(!tb.last_search_failed);
    assert_eq!(t.selection, None);
}

#[test]
fn bad_regex_is_refused() {
    let mut t = text_area("hello");
    let mut tb = toolbar("(");
    tb.is_regex = true;
    assert_eq!(tb.do_search_from_start(&mut t), Err(()));
    assert!(!tb.last_search_failed);
    assert_eq!(t.selection, None);
}

#[test]
fn regex_search_finds_digits() {
    let mut t = text_area("abc 123 def");
    let mut tb = toolbar("[0-9]+");
    tb.is_regex = true;
    tb.case_sensitive = true;
    assert_eq!(tb.do_search_from_start(&mut t), Err(()));
    assert_eq!(t.selection, sel(0, 4, 7));
}

#[test]
fn match_before_start_is_found_by_wrapping() {
    let mut t = text_area("one\ntwo\nthree\nfour\nfive\nsix\nseven\neight\none");
    let mut tb = toolbar("one");
    tb.start_search_pos = Some(Position { line: 8, column: 1 });
    assert_eq!(tb.do_search_from_start(&mut t), Err(()));
    assert_eq!(t.selection, sel(0, 0, 3));
    tb.start_search_pos = Some(Position { line: 7, column: 0 });
    assert_eq!(tb.do_search_from_start(&mut t), Err(()));
    assert_eq!(t.selection, sel(8, 0, 3));
    assert_eq!(t.first_line, 2);
}

#[test]
fn match_columns_count_characters() {
    let mut t = text_area("é world");
    let mut tb = toolbar("world");
    let _ = tb.do_search_from_start(&mut t);
    assert_eq!(t.selection, sel(0, 2, 7));
}

#[test]
fn search_lines_reports_line_and_columns() {
    let t = text_area("ab\ncd ab");
    let m = SimpleSearchMatcher::new("ab", false, false);
    assert_eq!(search_lines(&m, &t.buffer, Position { line: 0, column: 0 }, true), Some((1, 3, 5)));
    assert_eq!(search_lines(&m, &t.buffer, Position { line: 1, column: 3 }, true), Some((0, 0, 2)));
}

#[test]
fn byte_and_column_conversions() {
    let chars: Vec<char> = "aé😀b".chars().collect();
    assert_eq!(byte_of_column(&chars, 0), 0);
    assert_eq!(byte_of_column(&chars, 2), 3);
    assert_eq!(byte_of_column(&chars, 3), 7);
    assert_eq!(column_of_byte(&chars, 3), 2);
    assert_eq!(column_of_byte(&chars, 5), 2);
    assert_eq!(column_of_byte(&chars, 100), 4);
}

#[test]
fn settings_start_empty() {
    let w = SearchWidget::new();
    assert_eq!(w.query, "");
    assert!(!w.case_sensitive && !w.whole_words && !w.is_regex && !w.should_focus);
    assert!(!Options::default().compression);
    let _d = OptionsDialog::new();
}

#[test]
fn regex_matcher_filters_whole_words() {
    use_regex_matcher();
}

fn use_regex_matcher() {
    assert!(RegexSearchMatcher::new("(", true, false).is_err());
    let m = RegexSearchMatcher::new("cat", true, true).unwrap();
    assert_eq!(m.search("concat cat", 0), None);
    let m = RegexSearchMatcher::new("cat", true, false).unwrap();
    assert_eq!(m.search("concat cat", 0), Some((3, 6)));
    assert_eq!(m.search("concat cat", 4), Some((7, 10)));
    let m = RegexSearchMatcher::new("CAT", false, false).unwrap();
    assert_eq!(m.search("a cat", 0), Some((2, 5)));
    assert!(m.defined("a cat", 5));
    assert!(!m.defined("a cat", 6));
}

#[test]
fn case_toggle_off_ignores_letter_case() {
    let mut t = text_area("hello");
    let mut tb = toolbar("Hello");
    assert_eq!(tb.do_search_from_start(&mut t), Err(()));
    assert!(!tb.last_search_failed);
    assert_eq!(t.selection, sel(0, 0, 5));
    assert_eq!(t.caret_position, Position { line: 0, column: 5 });
}

#[test]
fn case_toggle_on_compares_exactly() {
    let mut t = text_area("hello");
    let mut tb = toolbar("Hello");
    tb.case_sensitive = true;
    assert_eq!(tb.do_search_from_start(&mut t), Ok(()));
    assert!(tb.last_search_failed);
    assert_eq!(t.selection, None);
    assert_eq!(t.caret_position, Position { line: 0, column: 0 });
}

#[test]
fn case_toggle_applies_to_regex_too() {
    let mut t = text_area("say HELLO");
    let mut tb = toolbar("hel+o");
    tb.is_regex = true;
    assert_eq!(tb.do_search_from_start(&mut t), Err(()));
    assert_eq!(t.selection, sel(0, 4, 9));
    let mut t = text_area("say HELLO");
    tb.case_sensitive = true;
    assert_eq!(tb.do_search_from_start(&mut t), Ok(()));
    assert!(tb.last_search_failed);
}

#[test]
fn empty_query_is_refused_for_any_start() {
    let mut t = text_area("hello");
    let mut tb = toolbar("");
    tb.start_search_pos = Some(Position { line: 40, column: 3 });
    assert_eq!(tb.do_search_from_start(&mut t), Err(()));
    assert!(!tb.last_search_failed);
    assert_eq!(t.selection, None);
}

#[test]
fn refused_regex_reports_why() {
    match RegexSearchMatcher::new("a(b", true, false) {
        Err(RegexRefusal::Syntax(message)) => assert!(message.contains("unclosed group")),
        _ => panic!("expected a syntax refusal"),
    }
    match RegexSearchMatcher::new("a{10000}{10000}", true, false) {
        Err(RegexRefusal::TooBig(limit)) => assert!(limit > 0),
        _ => panic!("expected the size limit"),
    }
}
