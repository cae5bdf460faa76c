use ceos::event::{split_words, Event};
use ceos::highlight::{deterministic_color, palette_color, Color, Highlight, HighlightManager};
use ceos::model::Highlight as Pattern;
use ceos::progress::{Progress, ProgressManager, ProgressOperation};

#[test]
fn progress_entries_are_kept_per_kind() {
    let mut pm = ProgressManager::new();
    assert!(pm.is_empty());
    pm.add(ProgressOperation::BufferLoading(Some("a.txt".to_string())), 100);
    pm.add(ProgressOperation::Searching, 10);
    assert_eq!(pm.len(), 2);
    pm.update(&ProgressOperation::BufferLoading(None), 40);
    pm.increment(&ProgressOperation::Searching, 3);
    pm.increment(&ProgressOperation::Searching, 4);
    let entries = pm.iter();
    assert_eq!(entries[0].1.label, "Loading \"a.txt\"");
    assert_eq!(entries[0].1.current, 40);
    assert_eq!(entries[0].1.max, 100);
    assert_eq!(entries[1].1.label, "Searching ...");
    assert_eq!(entries[1].1.current, 7);
    pm.remove(&ProgressOperation::BufferLoading(Some("b.txt".to_string())));
    assert_eq!(pm.len(), 1);
    pm.remove(&ProgressOperation::Filtering);
    assert_eq!(pm.len(), 1);
    pm.remove(&ProgressOperation::Searching);
    assert!(pm.is_empty());
}

#[test]
fn adding_an_operation_again_restarts_it() {
    let mut pm = ProgressManager::new();
    pm.add(ProgressOperation::BufferSaving(None), 5);
    pm.update(&ProgressOperation::BufferSaving(None), 5);
    pm.add(ProgressOperation::BufferSaving(Some("x".to_string())), 9);
    assert_eq!(pm.len(), 1);
    let e = &pm.iter()[0].1;
    assert_eq!(e.label, "Saving \"x\"");
    assert_eq!(e.current, 0);
    assert_eq!(e.max, 9);
}

#[test]
fn updating_a_missing_operation_does_nothing() {
    let mut pm = ProgressManager::new();
    pm.update(&ProgressOperation::Filtering, 3);
    pm.increment(&ProgressOperation::Filtering, 3);
    assert!(pm.is_empty());
}

#[test]
fn operation_labels_and_kinds() {
    assert_eq!(ProgressOperation::Filtering.label(), "Filtering ...");
    assert_eq!(ProgressOperation::BufferLoading(None).label(), "Loading ...");
    assert_eq!(ProgressOperation::BufferSaving(None).label(), "Saving ...");
    assert!(ProgressOperation::BufferLoading(Some("a".to_string())) == ProgressOperation::BufferLoading(None));
    assert!(ProgressOperation::Filtering != ProgressOperation::Searching);
    assert_eq!(ProgressOperation::BufferSaving(None).kind(), 1);
    let p = Progress::new("x".to_string(), 7);
    assert_eq!((p.current, p.max), (0, 7));
}

#[test]
fn highlights_with_the_same_text_are_not_added_twice() {
    let mut hm = HighlightManager::new();
    hm.add(Highlight::new("error".to_string(), false, Color::from_rgb(1, 2, 3)));
    hm.add(Highlight::new("error".to_string(), true, Color::from_rgb(4, 5, 6)));
    hm.add(Highlight::new("warn".to_string(), false, Color::from_rgb(4, 5, 6)));
    assert_eq!(hm.len(), 2);
    assert_eq!(hm.iter()[0].color, Color::from_rgb(1, 2, 3));
    assert!(hm.has_highlight_with_text("warn"));
    assert!(!hm.has_highlight_with_text("info"));
    hm.remove(5);
    assert_eq!(hm.len(), 2);
    hm.remove(0);
    assert_eq!(hm.len(), 1);
    assert_eq!(hm.iter()[0].text, "warn");
}

#[test]
fn created_highlights_take_palette_colors_in_turn() {
    let mut hm = HighlightManager::new();
    let a = hm.create_highlight("a".to_string());
    let b = hm.create_highlight("b".to_string());
    assert_eq!(a.color, Color::from_rgb(0x99, 0xff, 0xcc));
    assert_eq!(b.color, Color::from_rgb(0x66, 0x66, 0xff));
    assert!(!a.case_insensitive);
    assert_eq!(hm.len(), 0);
    assert_eq!(palette_color(10), Color::from_rgb(0x00, 0x99, 0x66));
}

#[test]
fn commands_become_events() {
    assert!(matches!(Event::try_from("?"), Ok(Event::ShowHelp)));
    assert!(matches!(Event::try_from("close"), Ok(Event::BufferClosed)));
    match Event::try_from("highlight  ERROR  i") {
        Ok(Event::AddHighlight(h)) => {
            assert_eq!(h.text, "ERROR");
            assert!(h.case_insensitive);
            assert_eq!(h.color, deterministic_color("ERROR"));
        }
        _ => panic!("expected a highlight"),
    }
    match Event::try_from("highlight warn x") {
        Ok(Event::AddHighlight(h)) => {
            assert_eq!(h.text, "warn");
            assert!(!h.case_insensitive);
        }
        _ => panic!("expected a highlight"),
    }
    assert!(Event::try_from("highlight   ").is_err());
    assert!(Event::try_from("closed").is_err());
    assert!(Event::try_from("").is_err());
    assert!(Event::try_from("?x").is_err());
}

#[test]
fn words_split_on_white_space() {
    assert_eq!(split_words("  a bc\td\u{3000}e "), vec!["a", "bc", "d", "e"]);
    assert!(split_words(" \n ").is_empty());
}

#[test]
fn pattern_model_keeps_its_text() {
    let p = Pattern::from("abc");
    assert_eq!(p.pattern(), "abc");
    assert_eq!(p.as_ref(), "abc");
}
