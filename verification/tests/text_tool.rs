use ceos::text_tool::TextTool;


#[test]
fn test_find_word_start_at_beginning() {
    let tool = TextTool::new("hello world");
    assert_eq!(tool.find_word_start(0), 0);
}

#[test]
fn test_find_word_start_middle_of_word() {
    let tool = TextTool::new("hello world");
    assert_eq!(tool.find_word_start(3), 0);
    assert_eq!(tool.find_word_start(8), 6);
}

#[test]
fn test_find_word_start_at_separator() {
    let tool = TextTool::new("hello world");
    assert_eq!(tool.find_word_start(5), 0);
    assert_eq!(tool.find_word_start(6), 6);
}

#[test]
fn test_find_word_start_empty_text() {
    let tool = TextTool::new("");
    assert_eq!(tool.find_word_start(0), 0);
}

#[test]
fn test_find_word_end_at_end() {
    let tool = TextTool::new("hello world");
    assert_eq!(tool.find_word_end(11), 11);
    assert_eq!(tool.find_word_end(20), 11);
}

#[test]
fn test_find_word_end_middle_of_word() {
    let tool = TextTool::new("hello world");
    assert_eq!(tool.find_word_end(0), 5);
    assert_eq!(tool.find_word_end(2), 5);
    assert_eq!(tool.find_word_end(6), 11);
}

#[test]
fn test_find_word_end_at_separator() {
    let tool = TextTool::new("hello world");
    assert_eq!(tool.find_word_end(5), 5);
}

#[test]
fn test_find_word_end_empty_text() {
    let tool = TextTool::new("");
    assert_eq!(tool.find_word_end(0), 0);
}

#[test]
fn test_word_boundaries_with_underscores() {
    let tool = TextTool::new("hello_world");
    assert_eq!(tool.find_word_start(6), 0);
    assert_eq!(tool.find_word_end(0), 11);
}

#[test]
fn test_word_boundaries_with_multiple_separators() {
    let tool = TextTool::new("hello  world");
    assert_eq!(tool.find_word_start(8), 7);
    assert_eq!(tool.find_word_end(0), 5);
    assert_eq!(tool.find_word_end(5), 5);
    assert_eq!(tool.find_word_end(6), 6);
}

#[test]
fn test_word_boundaries_with_punctuation() {
    let tool = TextTool::new("hello, world!");
    assert_eq!(tool.find_word_start(3), 0);
    assert_eq!(tool.find_word_end(0), 5);
    assert_eq!(tool.find_word_start(9), 7);
    assert_eq!(tool.find_word_end(7), 12);
}

#[test]
fn test_is_whole_word_at_beginning() {
    let line = "hello world";
    assert!(TextTool::is_whole_word(line, 0, 5));
}

#[test]
fn test_is_whole_word_at_end() {
    let line = "hello world";
    assert!(TextTool::is_whole_word(line, 6, 11));
}

#[test]
fn test_is_whole_word_in_middle() {
    let line = "hello world today";
    assert!(TextTool::is_whole_word(line, 6, 11));
}

#[test]
fn test_is_whole_word_with_punctuation() {
    let line = "hello, world!";
    assert!(TextTool::is_whole_word(line, 0, 5));
    assert!(TextTool::is_whole_word(line, 7, 12));
}

#[test]
fn test_is_whole_word_partial_at_start() {
    let line = "hello world";
    assert!(!TextTool::is_whole_word(line, 0, 3));
}

#[test]
fn test_is_whole_word_partial_at_end() {
    let line = "hello world";
    assert!(!TextTool::is_whole_word(line, 8, 11));
}

#[test]
fn test_is_whole_word_partial_both_sides() {
    let line = "hello world";
    assert!(!TextTool::is_whole_word(line, 1, 4));
}

#[test]
fn test_is_whole_word_with_underscores() {
    let line = "hello_world test";
    assert!(TextTool::is_whole_word(line, 0, 11));
    assert!(!TextTool::is_whole_word(line, 0, 5));
    assert!(!TextTool::is_whole_word(line, 6, 11));
}

#[test]
fn test_is_whole_word_with_multiple_separators() {
    let line = "hello  world";
    assert!(TextTool::is_whole_word(line, 0, 5));
    assert!(TextTool::is_whole_word(line, 7, 12));
}

#[test]
fn test_is_whole_word_entire_line() {
    let line = "hello";
    assert!(TextTool::is_whole_word(line, 0, 5));
}
