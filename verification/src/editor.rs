use vstd::prelude::*;
use crate::buffer::Buffer;
use crate::event::Event;
use crate::highlight::{HighlightManager, has_text, highlight_view};
use crate::position::Position;
use crate::progress::{
    ProgressManager, ProgressOperation, added, kinds_distinct, lemma_entries_distinct, law_finished_operation_is_gone, entry_index, op_kind, removed, updated,
};
use crate::search_toolbar::SearchToolbar;
use crate::selection::InteractionMode;
use crate::text_area::{TextAreaProperties, kept_selection};
use crate::input::clamped;
use crate::paths::{same_path, same_path_spec};

verus! {

/// Work an event leaves to the application.
#[derive(Debug, PartialEq, Eq)]
pub enum EditorRequest {
    /// Nothing more.
    Nothing,
    /// This file is to be read; its text comes back as a `BufferLoaded` event.
    OpenFile(String),
}

/// Everything the editor window keeps, but for what only the screen needs.
#[derive(Debug)]
pub struct Editor {
    pub text_area: TextAreaProperties,
    pub progress: ProgressManager,
    pub highlights: HighlightManager,
    pub search_toolbar: SearchToolbar,
    /// The text of the command line.
    pub command: String,
    /// The file the text comes from, if any.
    pub path: Option<String>,
    pub show_help: bool,
    pub show_search: bool,
    pub show_highlights: bool,
}

/// Nothing but what is named changed: the parts of an editor other than its
/// text area, progress, highlights, command line and flags are the same (the
/// search bar's query, toggles, failure mark and start position among them).
pub open spec fn same_but(
    b: Editor,
    a: Editor,
    text_area: bool,
    progress: bool,
    highlights: bool,
    command: bool,
    flags: bool,
) -> bool {
    &&& (!text_area ==> a.text_area == b.text_area)
    &&& (!progress ==> a.progress.entries() == b.progress.entries())
    &&& (!highlights ==> a.highlights.entries() == b.highlights.entries()
        && a.highlights.next_color() == b.highlights.next_color())
    &&& (!command ==> a.command@ == b.command@)
    &&& (!flags ==> a.show_help == b.show_help && a.show_search == b.show_search
        && a.show_highlights == b.show_highlights && a.search_toolbar.should_focus == b.search_toolbar.should_focus)
    &&& a.path == b.path
    &&& a.search_toolbar.query@ == b.search_toolbar.query@
    &&& a.search_toolbar.case_sensitive == b.search_toolbar.case_sensitive
    &&& a.search_toolbar.whole_words == b.search_toolbar.whole_words
    &&& a.search_toolbar.is_regex == b.search_toolbar.is_regex
    &&& a.search_toolbar.last_search_failed == b.search_toolbar.last_search_failed
    &&& a.search_toolbar.start_search_pos == b.search_toolbar.start_search_pos
}

/// The text area holds a new text: the caret stays, moved inside it, and the
/// selection stays while it still lies in it.
pub open spec fn text_replaced(b: TextAreaProperties, a: TextAreaProperties, lines: Seq<Seq<char>>) -> bool {
    &&& a.buffer@ == lines
    &&& a.caret_position == clamped(lines, b.caret_position)
    &&& a.selection == kept_selection(lines, b.selection)
    &&& a.interaction_mode == b.interaction_mode
    &&& a.first_line == b.first_line
}

/// The event may be handled: an increment does not overflow the operation's count.
pub open spec fn event_allowed(e: Editor, event: Event) -> bool {
    match event {
        Event::OperationIncrement(op, amount) => entry_index(e.progress.entries(), op_kind(op)) matches Some(k)
            ==> e.progress.entries()[k].2 + amount <= u64::MAX,
        _ => true,
    }
}

/// The kind of operation an event reports as finished, if any.
pub open spec fn finished_kind(event: Event) -> Option<int> {
    match event {
        Event::BufferSaved(_) => Some(op_kind(ProgressOperation::BufferSaving(None))),
        Event::BufferSaveFailed(_) => Some(op_kind(ProgressOperation::BufferSaving(None))),
        Event::BufferLoaded(_) => Some(op_kind(ProgressOperation::BufferLoading(None))),
        Event::OperationFinished(op) => Some(op_kind(op)),
        _ => None,
    }
}

/// What handling an event does to the editor, and what it asks of the application.
pub open spec fn handled(b: Editor, event: Event, a: Editor, r: EditorRequest) -> bool {
    let loading = op_kind(ProgressOperation::BufferLoading(None));
    let saving = op_kind(ProgressOperation::BufferSaving(None));
    &&& (r == match event {
        Event::OpenFile(path) => EditorRequest::OpenFile(path),
        _ => EditorRequest::Nothing,
    })
    &&& match event {
        Event::ClearCommand => a.command@ == Seq::<char>::empty() && same_but(b, a, false, false, false, true, false),
        Event::SetCommand(c) => a.command@ == c@ && same_but(b, a, false, false, false, true, false),
        Event::ShowHelp => a.show_help && same_but(b, a, false, false, false, false, true)
            && a.show_search == b.show_search && a.show_highlights == b.show_highlights
            && a.search_toolbar.should_focus == b.search_toolbar.should_focus,
        Event::ShowSearch => a.show_search && a.search_toolbar.should_focus && same_but(b, a, false, false, false, false, true)
            && a.show_help == b.show_help && a.show_highlights == b.show_highlights,
        Event::ShowHighlight => a.show_highlights && same_but(b, a, false, false, false, false, true)
            && a.show_help == b.show_help && a.show_search == b.show_search
            && a.search_toolbar.should_focus == b.search_toolbar.should_focus,
        Event::BufferLoadingStarted(path, size) => a.progress.entries()
            == added(b.progress.entries(), ProgressOperation::BufferLoading(Some(path)), size)
            && same_but(b, a, false, true, false, false, false),
        Event::BufferLoading(_, current, _) => a.progress.entries() == updated(b.progress.entries(), loading, current)
            && same_but(b, a, false, true, false, false, false),
        Event::BufferSavingStarted(path, size) => a.progress.entries()
            == added(b.progress.entries(), ProgressOperation::BufferSaving(Some(path)), size)
            && same_but(b, a, false, true, false, false, false),
        Event::BufferSaving(_, current, _) => a.progress.entries() == updated(b.progress.entries(), saving, current)
            && same_but(b, a, false, true, false, false, false),
        Event::BufferSaved(path) => {
            &&& a.progress.entries() == removed(b.progress.entries(), saving)
            &&& a.text_area.buffer@ == b.text_area.buffer@
            &&& a.text_area.buffer.modified() == (b.text_area.buffer.modified() && !(b.path matches Some(p) && same_path_spec(p@, path@)))
            &&& a.text_area.caret_position == b.text_area.caret_position
            &&& a.text_area.selection == b.text_area.selection
            &&& a.text_area.interaction_mode == b.text_area.interaction_mode
            &&& a.text_area.first_line == b.text_area.first_line
            &&& same_but(b, a, true, true, false, false, false)
        },
        Event::BufferSaveFailed(_) => a.progress.entries() == removed(b.progress.entries(), saving)
            && same_but(b, a, false, true, false, false, false),
        Event::BufferLoaded(buffer) => {
            &&& a.progress.entries() == removed(b.progress.entries(), loading)
            &&& text_replaced(b.text_area, a.text_area, buffer@)
            &&& same_but(b, a, true, true, false, false, false)
        },
        Event::BufferClosed => text_replaced(b.text_area, a.text_area, seq![Seq::<char>::empty()])
            && same_but(b, a, true, false, false, false, false),
        Event::OperationStarted(op, length) => a.progress.entries() == added(b.progress.entries(), op, length as u64)
            && same_but(b, a, false, true, false, false, false),
        Event::OperationProgress(op, value) => a.progress.entries() == updated(b.progress.entries(), op_kind(op), value as u64)
            && same_but(b, a, false, true, false, false, false),
        Event::OperationIncrement(op, amount) => {
            &&& a.progress.entries() == match entry_index(b.progress.entries(), op_kind(op)) {
                Some(k) => updated(b.progress.entries(), op_kind(op), (b.progress.entries()[k].2 + amount) as u64),
                None => b.progress.entries(),
            }
            &&& same_but(b, a, false, true, false, false, false)
        },
        Event::OperationFinished(op) => a.progress.entries() == removed(b.progress.entries(), op_kind(op))
            && same_but(b, a, false, true, false, false, false),
        Event::AddHighlight(h) => {
            &&& a.highlights.entries() == if has_text(b.highlights.entries(), h.text@) {
                b.highlights.entries()
            } else {
                b.highlights.entries().push(highlight_view(h))
            }
            &&& a.highlights.next_color() == b.highlights.next_color()
            &&& same_but(b, a, false, false, true, false, false)
        },
        Event::RemoveHighlight(index) => {
            &&& a.highlights.entries() == if index < b.highlights.entries().len() {
                b.highlights.entries().remove(index as int)
            } else {
                b.highlights.entries()
            }
            &&& a.highlights.next_color() == b.highlights.next_color()
            &&& same_but(b, a, false, false, true, false, false)
        },
        _ => same_but(b, a, false, false, false, false, false),
    }
}

impl Editor {
    /// An empty text and no operation running.
    pub fn new() -> (e: Self)
        ensures
            e.text_area.buffer@ == seq![Seq::<char>::empty()],
            e.text_area.caret_position == (Position { line: 0, column: 0 }),
            e.text_area.selection.is_none(),
            e.text_area.interaction_mode == InteractionMode::Selection,
            e.text_area.first_line == 0,
            e.progress.entries().len() == 0,
            e.highlights.entries().len() == 0,
            e.highlights.next_color() == 0,
            e.search_toolbar.query@ == Seq::<char>::empty(),
            !e.search_toolbar.case_sensitive && !e.search_toolbar.whole_words,
            !e.search_toolbar.is_regex && !e.search_toolbar.should_focus,
            !e.search_toolbar.last_search_failed,
            e.search_toolbar.start_search_pos is None,
            e.command@ == Seq::<char>::empty(),
            e.path is None,
            !e.show_help && !e.show_search && !e.show_highlights,
    {
        Editor {
            text_area: TextAreaProperties::new(),
            progress: ProgressManager::new(),
            highlights: HighlightManager::new(),
            search_toolbar: SearchToolbar::default(),
            command: String::new(),
            path: None,
            show_help: false,
            show_search: false,
            show_highlights: false,
        }
    }

    /// Acts on an event: keeps the command line, the panels, the progress of
    /// operations, the text and the highlights up to date; a file to open is
    /// handed back.
    pub fn process_event(&mut self, event: Event) -> (r: EditorRequest)
        requires
            event_allowed(*old(self), event),
        ensures
            handled(*old(self), event, *final(self), r),
            kinds_distinct(old(self).progress.entries()),
            kinds_distinct(final(self).progress.entries()),
            finished_kind(event) matches Some(k) ==> entry_index(final(self).progress.entries(), k) is None,
    {
        proof {
            use_type_invariant(&self.progress);
            lemma_entries_distinct(&self.progress);
        }
        let ghost before = self.progress.entries();
        let ghost ev = event;
        let r = self.process_event_inner(event);
        proof {
            if let Some(k) = finished_kind(ev) {
                law_finished_operation_is_gone(before, k);
            }
            use_type_invariant(&self.progress);
            lemma_entries_distinct(&self.progress);
        }
        r
    }

    fn process_event_inner(&mut self, event: Event) -> (r: EditorRequest)
        requires
            event_allowed(*old(self), event),
        ensures
            handled(*old(self), event, *final(self), r),
    {
        match event {
            Event::ClearCommand => {
                self.command = String::new();
            },
            Event::SetCommand(command) => {
                self.command = command;
            },
            Event::ShowHelp => {
                self.show_help = true;
            },
            Event::ShowSearch => {
                self.show_search = true;
                self.search_toolbar.should_focus = true;
            },
            Event::ShowHighlight => {
                self.show_highlights = true;
            },
            Event::OpenFile(path) => {
                return EditorRequest::OpenFile(path);
            },
            Event::BufferLoadingStarted(path, size) => {
                self.progress.add(ProgressOperation::BufferLoading(Some(path)), size);
            },
            Event::BufferLoading(_, current, _) => {
                self.progress.update(&ProgressOperation::BufferLoading(None), current);
            },
            Event::BufferSavingStarted(path, size) => {
                self.progress.add(ProgressOperation::BufferSaving(Some(path)), size);
            },
            Event::BufferSaving(_, current, _) => {
                self.progress.update(&ProgressOperation::BufferSaving(None), current);
            },
            Event::BufferSaved(path) => {
                self.progress.remove(&ProgressOperation::BufferSaving(None));
                let same = match &self.path {
                    Some(p) => same_path(p.as_str(), path.as_str()),
                    None => false,
                };
                if same {
                    self.text_area.buffer.set_dirty(false);
                }
            },
            Event::BufferSaveFailed(_) => {
                self.progress.remove(&ProgressOperation::BufferSaving(None));
            },
            Event::BufferLoaded(buffer) => {
                self.progress.remove(&ProgressOperation::BufferLoading(None));
                self.text_area.set_buffer(buffer);
            },
            Event::BufferClosed => {
                self.text_area.set_buffer(Buffer::new_empty_buffer());
            },
            Event::OperationStarted(op, length) => {
                self.progress.add(op, length as u64);
            },
            Event::OperationProgress(op, value) => {
                self.progress.update(&op, value as u64);
            },
            Event::OperationIncrement(op, amount) => {
                self.progress.increment(&op, amount as u64);
            },
            Event::OperationFinished(op) => {
                self.progress.remove(&op);
            },
            Event::AddHighlight(h) => {
                self.highlights.add(h);
            },
            Event::RemoveHighlight(index) => {
                self.highlights.remove(index);
            },
            Event::ShowReplace => {},
            Event::ShowBrowser => {},
        }
        EditorRequest::Nothing
    }
}

} // verus!
