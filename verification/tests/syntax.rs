use ceos::syntax::{tokenize, Chunk, Span, Token};

fn kinds(text: &str) -> Vec<(Option<Token>, String)> {
    tokenize(text).iter().map(|c| (c.token(), c.as_str().to_string())).collect()
}

fn t(tok: Token, s: &str) -> (Option<Token>, String) {
    (Some(tok), s.to_string())
}

fn stray(s: &str) -> (Option<Token>, String) {
    (None, s.to_string())
}

#[test]
fn json_punctuation_and_values() {
    assert_eq!(
        kinds("{\"a\": 1, \"b\": [true, null]}"),
        vec![
            t(Token::BraceOpen, "{"),
            t(Token::String, "\"a\""),
            t(Token::Colon, ":"),
            t(Token::Number, "1"),
            t(Token::Comma, ","),
            t(Token::String, "\"b\""),
            t(Token::Colon, ":"),
            t(Token::BracketOpen, "["),
            t(Token::Bool, "true"),
            t(Token::Comma, ","),
            t(Token::Null, "null"),
            t(Token::BracketClose, "]"),
            t(Token::BraceClose, "}"),
        ]
    );
}

#[test]
fn log_levels_ignore_case() {
    assert_eq!(
        kinds("INFO warn Warning error FATAL"),
        vec![
            t(Token::Info, "INFO"),
            t(Token::Warning, "warn"),
            t(Token::Warning, "Warning"),
            t(Token::Error, "error"),
            t(Token::Fatal, "FATAL"),
        ]
    );
}

#[test]
fn numbers_take_the_longest_match() {
    assert_eq!(kinds("1.5e-3"), vec![t(Token::Number, "1.5e-3")]);
    assert_eq!(kinds("-0"), vec![t(Token::Number, "-0")]);
    assert_eq!(kinds("01"), vec![t(Token::Number, "0"), t(Token::Number, "1")]);
    assert_eq!(kinds("2e"), vec![t(Token::Number, "2"), stray("e")]);
    assert_eq!(kinds("3."), vec![t(Token::Number, "3"), stray(".")]);
    assert_eq!(kinds("-"), vec![stray("-")]);
}

#[test]
fn strings_and_escapes() {
    assert_eq!(kinds("\"a\\\"b\""), vec![t(Token::String, "\"a\\\"b\"")]);
    assert_eq!(kinds("\"é\""), vec![t(Token::String, "\"é\"")]);
    assert_eq!(kinds("\"x"), vec![stray("\""), stray("x")]);
    assert_eq!(kinds("\"\\q\""), vec![stray("\""), stray("\\"), stray("q"), stray("\"")]);
}

#[test]
fn keywords_are_case_sensitive_for_json() {
    assert_eq!(kinds("TRUE"), vec![stray("T"), stray("R"), stray("U"), stray("E")]);
    assert_eq!(kinds("nullx"), vec![t(Token::Null, "null"), stray("x")]);
}

#[test]
fn spaces_are_skipped_and_spans_are_bytes() {
    let chunks = tokenize("  é 42\t");
    assert_eq!(chunks.len(), 2);
    assert_eq!(chunks[0].token(), None);
    assert_eq!(chunks[0].span(), Span { start: 2, end: 4 });
    assert_eq!(chunks[1].token(), Some(Token::Number));
    assert_eq!(chunks[1].span(), Span { start: 5, end: 7 });
    assert_eq!(chunks[1].start(), 5);
    assert!(tokenize("").is_empty());
    assert!(tokenize(" \r\n\t").is_empty());
}

#[test]
fn chunks_follow_each_other() {
    let chunks = tokenize("[1, \"two\", false] error!");
    for w in chunks.windows(2) {
        assert!(w[0].span().end <= w[1].span().start);
        assert!(w[0].span().start < w[0].span().end);
    }
}

#[test]
fn merged_chunk_covers_both() {
    let text = "error: disk full";
    let chunks = tokenize(text);
    let mut first = Chunk::new(chunks[0].token(), chunks[0].span(), text);
    first.merge(&chunks[1]);
    assert_eq!(first.as_str(), "error:");
    assert_eq!(first.token(), Some(Token::Error));
    assert_eq!(first.span(), Span { start: 0, end: 6 });
}
