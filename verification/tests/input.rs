use ceos::action::ActionRequest;
use ceos::input::{drag_column_range, InputEvent, InputResponse};
use ceos::keyboard_handler::KeyboardHandler;
use ceos::keys::Key;
use ceos::misc::{gzip_isize, is_gzip_header};
use ceos::position::Position;
use ceos::render::{gutter_chars, start_byte_of_column};
use ceos::selection::Selection;
use ceos::shortcut::{SimpleModifiers, SimpleShortcut};
use ceos::text_area::TextAreaProperties;

fn area(text: &str) -> TextAreaProperties {
    let mut t = TextAreaProperties::new();
    t.replace_selection(text);
    t
}

fn pos(line: usize, column: usize) -> Position {
    Position { line, column }
}

fn line(t: &TextAreaProperties, l: usize) -> String {
    t.buffer.line_text(l)
}

#[test]
fn bound_keys_run_their_action() {
    let handler = KeyboardHandler::new();
    let mut t = area("abc");
    let r = t.handle_event(&handler, InputEvent::Key(SimpleShortcut::new(SimpleModifiers::none(), Key::ArrowLeft)));
    assert_eq!(r, InputResponse::Request(ActionRequest::Done));
    assert_eq!(t.caret_position, pos(0, 2));
    let r = t.handle_event(&handler, InputEvent::Key(SimpleShortcut::new(SimpleModifiers::none(), Key::Backspace)));
    assert_eq!(r, InputResponse::Request(ActionRequest::Done));
    assert_eq!(line(&t, 0), "ac");
    let r = t.handle_event(&handler, InputEvent::Key(SimpleShortcut::new(SimpleModifiers::ctrl(), Key::S)));
    assert_eq!(r, InputResponse::Request(ActionRequest::Done));
    assert_eq!(line(&t, 0), "ac");
}

#[test]
fn unbound_keys_do_nothing() {
    let handler = KeyboardHandler::new();
    let mut t = area("abc");
    let r = t.handle_event(&handler, InputEvent::Key(SimpleShortcut::new(SimpleModifiers::alt(), Key::Q)));
    assert_eq!(r, InputResponse::Done);
    assert_eq!(line(&t, 0), "abc");
    assert_eq!(t.caret_position, pos(0, 3));
}

#[test]
fn copy_and_cut_hand_over_the_selection() {
    let handler = KeyboardHandler::new();
    let mut t = area("hello\nworld");
    t.selection = Some(Selection { start: pos(0, 3), end: pos(1, 2) });
    assert_eq!(t.handle_event(&handler, InputEvent::Copy), InputResponse::CopyText("lo\nwo".to_string()));
    assert_eq!(line(&t, 0), "hello");
    assert_eq!(t.handle_event(&handler, InputEvent::Cut), InputResponse::CopyText("lo\nwo".to_string()));
    assert_eq!(line(&t, 0), "helrld");
    assert_eq!(t.caret_position, pos(0, 3));
    assert_eq!(t.selection, None);
    assert_eq!(t.handle_event(&handler, InputEvent::Copy), InputResponse::Done);
    assert_eq!(t.handle_event(&handler, InputEvent::Cut), InputResponse::Done);
}

#[test]
fn pasted_and_typed_text_replace_the_selection() {
    let handler = KeyboardHandler::new();
    let mut t = area("hello");
    t.selection = Some(Selection { start: pos(0, 1), end: pos(0, 4) });
    assert_eq!(t.handle_event(&handler, InputEvent::Paste("EY\r\nY".to_string())), InputResponse::Done);
    assert_eq!(line(&t, 0), "hEY");
    assert_eq!(line(&t, 1), "Yo");
    assert_eq!(t.caret_position, pos(1, 1));
    t.handle_event(&handler, InputEvent::Text("!".to_string()));
    assert_eq!(line(&t, 1), "Y!o");
}

#[test]
fn clicks_are_kept_inside_the_text() {
    let mut t = area("ab\ncdef");
    t.update_caret_position(pos(7, 9));
    assert_eq!(t.caret_position, pos(1, 4));
    t.update_caret_position(pos(0, 9));
    assert_eq!(t.caret_position, pos(0, 2));
    t.update_caret_position(pos(1, 1));
    assert_eq!(t.caret_position, pos(1, 1));
    assert!(t.caret_valid());
    assert!(t.selection_valid());
}

#[test]
fn double_click_selects_the_word() {
    let mut t = area("let foo_bar = 1;");
    t.caret_position = pos(0, 6);
    t.select_word_at_caret();
    assert_eq!(t.selection, Some(Selection { start: pos(0, 4), end: pos(0, 11) }));
    t.caret_position = pos(0, 0);
    t.select_word_at_caret();
    assert_eq!(t.selection, Some(Selection { start: pos(0, 0), end: pos(0, 3) }));
    t.caret_position = pos(0, 16);
    t.select_word_at_caret();
    assert_eq!(t.selection, Some(Selection { start: pos(0, 0), end: pos(0, 16) }));
}

#[test]
fn dragging_orders_the_selection() {
    let mut t = area("abc\ndef");
    t.select_between(pos(1, 2), pos(0, 1));
    assert_eq!(t.selection, Some(Selection { start: pos(0, 1), end: pos(1, 2) }));
    t.select_between(pos(0, 1), pos(1, 2));
    assert_eq!(t.selection, Some(Selection { start: pos(0, 1), end: pos(1, 2) }));
    t.select_between(pos(0, 1), pos(0, 1));
    assert_eq!(t.selection, Some(Selection { start: pos(0, 1), end: pos(0, 1) }));
    assert_eq!(drag_column_range(5, 2), (2, 5));
    assert_eq!(drag_column_range(2, 5), (2, 5));
}

#[test]
fn invalid_selection_is_detected() {
    let mut t = area("abc");
    t.selection = Some(Selection { start: pos(0, 2), end: pos(0, 9) });
    assert!(!t.selection_valid());
    t.caret_position = pos(3, 0);
    assert!(!t.caret_valid());
}

#[test]
fn selection_columns_per_line() {
    let s = Selection { start: pos(1, 2), end: pos(3, 4) };
    assert_eq!(s.columns_on_line(0, 10), (None, Some(10)));
    assert_eq!(s.columns_on_line(1, 10), (Some(2), Some(10)));
    assert_eq!(s.columns_on_line(2, 7), (Some(0), Some(7)));
    assert_eq!(s.columns_on_line(3, 7), (Some(0), Some(4)));
    assert_eq!(s.columns_on_line(4, 7), (Some(0), None));
}

#[test]
fn gutter_width_counts_digits() {
    assert_eq!(gutter_chars(0), 3);
    assert_eq!(gutter_chars(1), 3);
    assert_eq!(gutter_chars(9), 3);
    assert_eq!(gutter_chars(10), 4);
    assert_eq!(gutter_chars(999), 5);
    assert_eq!(gutter_chars(1000), 6);
}

#[test]
fn visible_text_starts_at_a_character() {
    let chars: Vec<char> = "aé😀b".chars().collect();
    assert_eq!(start_byte_of_column(&chars, 0), 0);
    assert_eq!(start_byte_of_column(&chars, 2), 3);
    assert_eq!(start_byte_of_column(&chars, 3), 7);
    assert_eq!(start_byte_of_column(&chars, 4), 0);
}

#[test]
fn gzip_header_and_size() {
    assert!(is_gzip_header(&[0x1F, 0x8B, 0x08]));
    assert!(!is_gzip_header(&[0x1F]));
    assert!(!is_gzip_header(&[0x1F, 0x8C]));
    assert_eq!(gzip_isize(&[0x01, 0x02, 0x00, 0x00]), 513);
    assert_eq!(gzip_isize(&[0xFF, 0xFF, 0xFF, 0xFF]), u32::MAX);
}

#[test]
fn column_drag_types_a_range_command() {
    use_range_command();
}

fn use_range_command() {
    let c = ceos::input::column_range_command(12, 3);
    assert_eq!(c, "3..12");
    let r = ceos::range::Range::try_from(c.as_str()).unwrap();
    assert_eq!((r.start, r.end), (3, Some(12)));
    assert_eq!(ceos::input::column_range_command(4, 4), "4..4");
    assert_eq!(ceos::input::column_range_command(0, 7), "0..7");
}

#[test]
fn pasting_the_cut_text_gives_the_text_back() {
    let handler = KeyboardHandler::new();
    let mut t = area("hello\nworld\nagain");
    t.selection = Some(Selection { start: pos(0, 3), end: pos(2, 1) });
    let cut = match t.handle_event(&handler, InputEvent::Cut) {
        InputResponse::CopyText(s) => s,
        other => panic!("{other:?}"),
    };
    assert_eq!(t.buffer.to_text(), "helgain");
    t.handle_event(&handler, InputEvent::Paste(cut));
    assert_eq!(t.buffer.to_text(), "hello\nworld\nagain");
    assert_eq!(t.caret_position, pos(2, 1));
}
