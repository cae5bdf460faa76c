use ceos::keys::Key;
use ceos::shortcut::{parse_shortcut, string_to_key, SimpleModifiers, SimpleShortcut};

#[test]
fn test_parse_simple() {
    let s = parse_shortcut("S").unwrap();
    assert_eq!(s, SimpleShortcut::new(SimpleModifiers::none(), Key::S));
}

#[test]
fn test_parse_ctrl_s() {
    let s = parse_shortcut("Ctrl+S").unwrap();
    assert_eq!(s, SimpleShortcut::new(SimpleModifiers::ctrl(), Key::S));
}

#[test]
fn test_parse_complex() {
    let s = parse_shortcut("Ctrl+Shift+F7").unwrap();
    assert_eq!(
        s,
        SimpleShortcut::new(SimpleModifiers::ctrl().plus(SimpleModifiers::shift()), Key::F7)
    );
}

#[test]
fn test_parse_lowercase() {
    let s = parse_shortcut("ctrl+shift+f7").unwrap();
    assert_eq!(
        s,
        SimpleShortcut::new(SimpleModifiers::ctrl().plus(SimpleModifiers::shift()), Key::F7)
    );
}

#[test]
fn test_parse_spaces() {
    let s = parse_shortcut("Ctrl + Shift + F7").unwrap();
    assert_eq!(
        s,
        SimpleShortcut::new(SimpleModifiers::ctrl().plus(SimpleModifiers::shift()), Key::F7)
    );
}

#[test]
fn test_parse_cmd() {
    let s = parse_shortcut("Cmd+Z").unwrap();
    assert_eq!(s, SimpleShortcut::new(SimpleModifiers::command(), Key::Z));
}

#[test]
fn parse_shortcut_symbol_and_aliases() {
    let s = parse_shortcut("⌘-Alt-PageDown").unwrap();
    assert_eq!(
        s,
        SimpleShortcut::new(SimpleModifiers::command().plus(SimpleModifiers::alt()), Key::PageDown)
    );
    let s = parse_shortcut("control+win+esc").unwrap();
    assert_eq!(
        s,
        SimpleShortcut::new(SimpleModifiers::ctrl().plus(SimpleModifiers::command()), Key::Escape)
    );
}

#[test]
fn parse_shortcut_errors() {
    assert_eq!(parse_shortcut("Ctrl+"), Err("No key specified in shortcut".to_string()));
    assert_eq!(parse_shortcut("Ctrl+A+B"), Err("Multiple keys specified: A and B".to_string()));
    assert_eq!(parse_shortcut("Ctrl+Foo"), Err("Unknown key or modifier: Foo".to_string()));
    assert_eq!(parse_shortcut("Ctrl.S"), Err("Invalid token at '.'".to_string()));
    assert_eq!(parse_shortcut("CtrlS"), Err("Unknown key or modifier: CtrlS".to_string()));
}

#[test]
fn string_to_key_names() {
    assert_eq!(string_to_key("F12"), Some(Key::F12));
    assert_eq!(string_to_key("del"), Some(Key::Delete));
    assert_eq!(string_to_key("Return"), Some(Key::Enter));
    assert_eq!(string_to_key("7"), Some(Key::Num7));
    assert_eq!(string_to_key("f21"), None);
}
