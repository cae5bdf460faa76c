use ceos::buffer::Buffer;
use ceos::editor::{Editor, EditorRequest};
use ceos::event::Event;
use ceos::highlight::{Color, Highlight};
use ceos::position::Position;
use ceos::progress::ProgressOperation;
use ceos::selection::Selection;
use ceos::paths::same_path;

#[test]
fn command_line_events() {
    let mut e = Editor::new();
    assert_eq!(e.process_event(Event::SetCommand("highlight x".to_string())), EditorRequest::Nothing);
    assert_eq!(e.command, "highlight x");
    e.process_event(Event::ClearCommand);
    assert_eq!(e.command, "");
    e.process_event(Event::ShowHelp);
    assert!(e.show_help && !e.show_search);
    e.process_event(Event::ShowSearch);
    assert!(e.show_search && e.search_toolbar.should_focus);
    e.process_event(Event::ShowHighlight);
    assert!(e.show_highlights);
}

#[test]
fn opening_a_file_is_left_to_the_application() {
    let mut e = Editor::new();
    assert_eq!(
        e.process_event(Event::OpenFile("log.txt".to_string())),
        EditorRequest::OpenFile("log.txt".to_string())
    );
}

#[test]
fn loading_shows_progress_then_the_text() {
    let mut e = Editor::new();
    e.process_event(Event::BufferLoadingStarted("a.log".to_string(), 100));
    assert_eq!(e.progress.len(), 1);
    assert_eq!(e.progress.iter()[0].1.label, "Loading \"a.log\"");
    e.process_event(Event::BufferLoading("a.log".to_string(), 60, 100));
    assert_eq!(e.progress.iter()[0].1.current, 60);
    e.text_area.caret_position = Position { line: 0, column: 0 };
    e.process_event(Event::BufferLoaded(Buffer::from_text("one\ntwo")));
    assert!(e.progress.is_empty());
    assert_eq!(e.text_area.buffer.line_count(), 2);
    assert_eq!(e.text_area.buffer.line_text(1), "two");
    e.process_event(Event::BufferClosed);
    assert_eq!(e.text_area.buffer.line_count(), 1);
    assert_eq!(e.text_area.buffer.line_text(0), "");
}

#[test]
fn saving_the_current_file_clears_the_changed_mark() {
    let mut e = Editor::new();
    e.path = Some("a.log".to_string());
    e.text_area.replace_selection("x");
    assert!(e.text_area.buffer.is_dirty());
    e.process_event(Event::BufferSavingStarted("a.log".to_string(), 1));
    e.process_event(Event::BufferSaved("b.log".to_string()));
    assert!(e.text_area.buffer.is_dirty());
    assert!(e.progress.is_empty());
    e.process_event(Event::BufferSaved("a.log".to_string()));
    assert!(!e.text_area.buffer.is_dirty());
    e.process_event(Event::BufferSavingStarted("a.log".to_string(), 1));
    e.process_event(Event::BufferSaveFailed("a.log".to_string()));
    assert!(e.progress.is_empty());
}

#[test]
fn operations_and_highlights() {
    let mut e = Editor::new();
    e.process_event(Event::OperationStarted(ProgressOperation::Filtering, 10));
    e.process_event(Event::OperationIncrement(ProgressOperation::Filtering, 4));
    e.process_event(Event::OperationIncrement(ProgressOperation::Filtering, 4));
    assert_eq!(e.progress.iter()[0].1.current, 8);
    e.process_event(Event::OperationProgress(ProgressOperation::Filtering, 2));
    assert_eq!(e.progress.iter()[0].1.current, 2);
    e.process_event(Event::OperationFinished(ProgressOperation::Filtering));
    assert!(e.progress.is_empty());
    e.process_event(Event::AddHighlight(Highlight::new("err".to_string(), true, Color::from_rgb(1, 2, 3))));
    e.process_event(Event::AddHighlight(Highlight::new("err".to_string(), false, Color::from_rgb(1, 2, 3))));
    assert_eq!(e.highlights.len(), 1);
    e.process_event(Event::RemoveHighlight(0));
    assert_eq!(e.highlights.len(), 0);
}

#[test]
fn a_new_text_keeps_the_caret_inside_it() {
    let mut e = Editor::new();
    e.process_event(Event::BufferLoaded(Buffer::from_text("hello\nworld")));
    e.text_area.caret_position = Position { line: 1, column: 4 };
    e.text_area.selection = Some(Selection { start: Position { line: 0, column: 1 }, end: Position { line: 0, column: 3 } });
    e.process_event(Event::BufferLoaded(Buffer::from_text("hey\nwo")));
    assert_eq!(e.text_area.caret_position, Position { line: 1, column: 2 });
    assert_eq!(e.text_area.selection, Some(Selection { start: Position { line: 0, column: 1 }, end: Position { line: 0, column: 3 } }));
    e.process_event(Event::BufferClosed);
    assert_eq!(e.text_area.caret_position, Position { line: 0, column: 0 });
    assert_eq!(e.text_area.selection, None);
}

#[test]
fn saved_paths_compare_by_components() {
    let mut e = Editor::new();
    e.path = Some("dir//f.txt".to_string());
    e.text_area.replace_selection("x");
    e.process_event(Event::BufferSaved("dir/g.txt".to_string()));
    assert!(e.text_area.buffer.is_dirty());
    e.process_event(Event::BufferSaved("./dir/./f.txt".to_string()));
    assert!(e.text_area.buffer.is_dirty());
    e.process_event(Event::BufferSaved("dir/f.txt/".to_string()));
    assert!(!e.text_area.buffer.is_dirty());
}

#[test]
fn path_components_rules() {
    assert!(same_path("dir//f", "dir/f"));
    assert!(same_path("a/./b", "a/b"));
    assert!(same_path("/x/", "/x"));
    assert!(!same_path("./a", "a"));
    assert!(!same_path("/a", "a"));
    assert!(!same_path("a/../b", "b"));
    assert!(same_path("", ""));
}
