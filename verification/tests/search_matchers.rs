use ceos::search::SearchMatcher;
use ceos::search::simple_search_case_sensitive::SimpleSearchCaseSensitiveMatcher;
use ceos::search::simple_search_matcher_case_insensitive::SimpleSearchCaseInsensitiveMatcher;

#[test]
fn test_search_case_sensitive_exact_match() {
    let matcher = SimpleSearchCaseSensitiveMatcher::new("hello", false);
    let result = matcher.search("hello world", 0);
    assert_eq!(result, Some((0, 5)));
}

#[test]
fn test_search_whole_words_match_found() {
    let matcher = SimpleSearchCaseSensitiveMatcher::new("word", true);
    let result = matcher.search("hello word world", 0);
    assert_eq!(result, Some((6, 10)));
}

#[test]
fn test_search_whole_words_no_match_part_of_word() {
    let matcher = SimpleSearchCaseSensitiveMatcher::new("word", true);
    let result = matcher.search("hello wording world", 0);
    assert_eq!(result, None);
}

#[test]
fn test_search_from_column_position() {
    let matcher = SimpleSearchCaseSensitiveMatcher::new("world", false);
    let result = matcher.search("hello world world", 7);
    assert_eq!(result, Some((12, 17)));
}

#[test]
fn test_search_no_match_found() {
    let matcher = SimpleSearchCaseSensitiveMatcher::new("missing", false);
    let result = matcher.search("hello world", 0);
    assert_eq!(result, None);
}

#[test]
fn test_search_match_at_beginning() {
    let matcher = SimpleSearchCaseSensitiveMatcher::new("hello", false);
    let result = matcher.search("hello world", 0);
    assert_eq!(result, Some((0, 5)));
}

#[test]
fn test_search_match_at_end() {
    let matcher = SimpleSearchCaseSensitiveMatcher::new("world", false);
    let result = matcher.search("hello world", 0);
    assert_eq!(result, Some((6, 11)));
}

#[test]
fn test_search_multiple_occurrences_finds_first() {
    let matcher = SimpleSearchCaseSensitiveMatcher::new("the", false);
    let result = matcher.search("the quick the brown", 0);
    assert_eq!(result, Some((0, 3)));
}

#[test]
fn test_search_whole_words_at_boundaries() {
    let matcher = SimpleSearchCaseSensitiveMatcher::new("test", true);
    let result = matcher.search("test", 0);
    assert_eq!(result, Some((0, 4)));
}

#[test]
fn test_search_whole_words_with_punctuation() {
    let matcher = SimpleSearchCaseSensitiveMatcher::new("hello", true);
    let result = matcher.search("hello, world", 0);
    assert_eq!(result, Some((0, 5)));
}

#[test]
fn test_search_case_insensitive_match() {
    let matcher = SimpleSearchCaseInsensitiveMatcher::new("hello", false);
    let result = matcher.search("Hello World", 0);
    assert_eq!(result, Some((0, 5)));
}

#[test]
fn test_search_case_insensitive_whole_words() {
    let matcher = SimpleSearchCaseInsensitiveMatcher::new("word", true);
    let result = matcher.search("Hello WORD world", 0);
    assert_eq!(result, Some((6, 10)));
}

#[test]
fn query_letter_case_does_not_matter() {
    for line in ["say hello", "héllo HeLLo", "nothing here"] {
        for from in [0, 1] {
            let a = SimpleSearchCaseInsensitiveMatcher::new("hello", false).search(line, from);
            assert_eq!(a, SimpleSearchCaseInsensitiveMatcher::new("HELLO", false).search(line, from));
            assert_eq!(a, SimpleSearchCaseInsensitiveMatcher::new("HeLlO", false).search(line, from));
        }
    }
    assert_eq!(SimpleSearchCaseInsensitiveMatcher::new("HELLO", false).search("héllo HeLLo", 0), Some((7, 12)));
}
