use ceos::range::Range;
use ceos::buffer::Buffer;
use ceos::action::Action;
use ceos::keyboard_handler::KeyboardHandler;
use ceos::keys::Key;
use ceos::options::Options;
use ceos::shortcut::{SimpleModifiers, SimpleShortcut};
use ceos::syntax::{ColorRole, Token};
use ceos::text_tool::TextTool;

#[test]
fn default_roundtrip() {
    let o = Options::default();
    let mut table = toml::Table::new();
    table.insert("compression".to_string(), toml::Value::Boolean(o.compression));
    let s = toml::to_string(&table).unwrap();
    let back: toml::Table = toml::from_str(&s).unwrap();
    assert_eq!(o.compression, back["compression"].as_bool().unwrap());
}

#[test]
fn rebinding_a_shortcut_replaces_its_action() {
    let mut h = KeyboardHandler::new();
    let ctrl_s = SimpleShortcut::new(SimpleModifiers::ctrl(), Key::S);
    assert_eq!(h.get_action(&ctrl_s), Some(Action::Save));
    h.insert(ctrl_s, Action::Search);
    assert_eq!(h.get_action(&ctrl_s), Some(Action::Search));
    let left = SimpleShortcut::new(SimpleModifiers::none(), Key::ArrowLeft);
    assert_eq!(h.get_action(&left), Some(Action::GoToPrevCharacter { select: false }));
    let empty = KeyboardHandler::empty();
    assert_eq!(empty.get_action(&ctrl_s), None);
}

#[test]
fn action_names_read_back() {
    for a in Action::all() {
        assert_eq!(Action::from_name(a.name()), Some(a));
    }
    assert_eq!(Action::all().len(), 25);
    assert_eq!(Action::from_name("GoToLineEndSelect"), Some(Action::GoToLineEnd { select: true }));
    assert_eq!(Action::from_name("Nope"), None);
}

#[test]
fn word_around_a_position_holds_it() {
    let t = TextTool::new("foo bar_baz qux");
    for pos in 0..15 {
        let s = t.find_word_start(pos);
        let e = t.find_word_end(pos);
        assert!(s <= pos && pos <= e, "{pos}: {s}..{e}");
    }
    assert_eq!(t.find_word_start(6), 4);
    assert_eq!(t.find_word_end(6), 11);
}

#[test]
fn tokens_get_theme_roles() {
    assert_eq!(Token::Bool.color_role(), ColorRole::Literal);
    assert_eq!(Token::Null.color_role(), ColorRole::Literal);
    assert_eq!(Token::Comma.color_role(), ColorRole::Operator);
    assert_eq!(Token::BracketOpen.color_role(), ColorRole::Operator);
    assert_eq!(Token::Number.color_role(), ColorRole::Number);
    assert_eq!(Token::String.color_role(), ColorRole::String);
    assert_eq!(Token::Info.color_role(), ColorRole::Info);
    assert_eq!(Token::Warning.color_role(), ColorRole::Warning);
    assert_eq!(Token::Fatal.color_role(), ColorRole::Error);
    assert_eq!(Token::Error.color_role(), ColorRole::Error);
}

#[test]
fn saved_text_loads_back() {
    for text in ["", "a", "one\ntwo", "end\n", "\n\n", "é\n😀 x"] {
        let b = Buffer::from_text(text);
        assert_eq!(b.to_text(), text);
        assert!(!b.is_dirty());
    }
    let b = Buffer::from_text("ab\n\ncd");
    assert_eq!(b.line_count(), 3);
    assert_eq!(b.line_text(0), "ab");
    assert_eq!(b.line_text(1), "");
    assert_eq!(b.line_text(2), "cd");
    let again = Buffer::from_text(&b.to_text());
    assert_eq!(again.line_count(), 3);
}

#[test]
fn positions_print_as_text() {
    use_position_text();
}

fn use_position_text() {
    let p = ceos::position::Position::new(12, 0);
    assert_eq!(p.to_string(), "line: 12, column: 0");
    let q = ceos::position::Position::new(0, 1234567);
    assert_eq!(q.to_string(), "line: 0, column: 1234567");
    let mut s = String::new();
    ceos::number::push_decimal(&mut s, usize::MAX);
    assert_eq!(s, usize::MAX.to_string());
}

#[test]
fn range_texts_read_back() {
    assert_eq!(Range::try_from("3..22"), Ok(Range { start: 3, end: Some(22) }));
    assert_eq!(Range::try_from("22..3"), Err(()));
    assert_eq!(Range::try_from("..7"), Ok(Range { start: 0, end: Some(7) }));
    assert_eq!(Range::try_from("4.."), Ok(Range { start: 4, end: None }));
    assert_eq!(Range::try_from("1..2..3"), Err(()));
}
