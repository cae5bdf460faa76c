use vstd::prelude::*;
use crate::action::{Action, ActionRequest, action_effect, request_of};
use crate::buffer::{TextRange, delete_range_spec, valid_position, valid_range};
use crate::keyboard_handler::{KeyboardHandler, binding_of};
use crate::position::{Position, pos_le, pos_lt};
use crate::selection::Selection;
use crate::shortcut::SimpleShortcut;
use crate::text_area::{MAX_COPY_SIZE, TextAreaProperties, selected_chars, typed, unchanged};
use crate::text_tool::{first_separator_from, lemma_first_separator_from, separator};
use crate::utf8_text::byte_len;
use crate::number::{decimal_text, push_decimal};
use crate::strings::push_char;

verus! {

/// Input the text area receives while it has the focus.
#[derive(Debug)]
pub enum InputEvent {
    /// A key pressed with some modifiers.
    Key(SimpleShortcut),
    Copy,
    Cut,
    Paste(String),
    /// Typed text.
    Text(String),
}

/// What the application is left to do after an input.
#[derive(Debug, PartialEq, Eq)]
pub enum InputResponse {
    /// Nothing more.
    Done,
    /// The bound action asked for this.
    Request(ActionRequest),
    /// This text goes to the clipboard.
    CopyText(String),
}

/// The text and caret after typing in place of the selection.
pub open spec fn replaced(b: TextAreaProperties, text: Seq<char>) -> (Seq<Seq<char>>, Position) {
    match b.selection {
        Some(s) => typed(delete_range_spec(b.buffer@, s.start, s.end), s.start, text),
        None => typed(b.buffer@, b.caret_position, text),
    }
}

/// The selected text a copy hands over, when there is a selection and it is not too long.
pub open spec fn copied(b: TextAreaProperties) -> Option<Seq<char>> {
    match b.selection {
        Some(s) => if byte_len(selected_chars(b.buffer@, s.start, s.end)) <= MAX_COPY_SIZE {
            Some(selected_chars(b.buffer@, s.start, s.end))
        } else {
            None
        },
        None => None,
    }
}

/// The column just after the last separator among the first `k` characters, 0 if none.
pub open spec fn after_last_separator(s: Seq<char>, k: int) -> int
    decreases k,
{
    if k <= 0 {
        0
    } else if separator(s[k - 1]) {
        k
    } else {
        after_last_separator(s, k - 1)
    }
}

/// Where the word around column `col` starts (0 at the start or the end of the line).
pub open spec fn word_start_column(s: Seq<char>, col: int) -> int {
    if col == 0 || s.len() == 0 || col >= s.len() { 0 } else { after_last_separator(s, col) }
}

/// A position moved inside the text: the line to the last one at most, the
/// column to the end of that line at most.
pub open spec fn clamped(lines: Seq<Seq<char>>, p: Position) -> Position {
    let line = if p.line < lines.len() { p.line as int } else { lines.len() - 1 };
    let len = lines[line].len();
    Position { line: line as usize, column: if p.column <= len { p.column } else { len as usize } }
}

proof fn lemma_after_last_separator(s: Seq<char>, k: int)
    ensures
        0 <= after_last_separator(s, k) <= if k < 0 { 0 } else { k },
    decreases k,
{
    if k > 0 && !separator(s[k - 1]) {
        lemma_after_last_separator(s, k - 1);
    }
}

impl TextAreaProperties {
    /// Whether the caret stands on a place of the text.
    pub fn caret_valid(&self) -> (b: bool)
        ensures
            b == self.caret_ok(),
    {
        let count = self.buffer.line_count();
        self.caret_position.line < count
            && self.caret_position.column <= self.buffer.line_length(self.caret_position.line)
    }

    /// Whether the selection, if any, is an ordered range of the text.
    pub fn selection_valid(&self) -> (b: bool)
        ensures
            b == self.selection_ok(),
    {
        match self.selection {
            None => true,
            Some(s) => {
                let count = self.buffer.line_count();
                s.start.line < count && s.end.line < count
                    && s.start.column <= self.buffer.line_length(s.start.line)
                    && s.end.column <= self.buffer.line_length(s.end.line)
                    && (s.start.is_before(&s.end) || s.start == s.end)
            },
        }
    }

    /// Hands the selected text over and removes it. The selection goes even
    /// when it is too long to be handed over.
    pub fn cut(&mut self) -> (r: Option<String>)
        requires
            old(self).selection_ok(),
        ensures
            match r {
                Some(t) => copied(*old(self)) == Some(t@),
                None => copied(*old(self)) is None,
            },
            final(self).selection.is_none(),
            final(self).interaction_mode == old(self).interaction_mode,
            match old(self).selection {
                Some(s) => {
                    &&& final(self).buffer@ == delete_range_spec(old(self).buffer@, s.start, s.end)
                    &&& final(self).caret_position == s.start
                },
                None => {
                    &&& final(self).buffer == old(self).buffer
                    &&& final(self).caret_position == old(self).caret_position
                },
            },
            final(self).first_line == old(self).first_line,
    {
        let text = self.selected_text();
        self.delete_selection();
        text
    }

    /// Puts the caret at `pos`, moved inside the text.
    pub fn update_caret_position(&mut self, pos: Position)
        ensures
            final(self).caret_position == clamped(old(self).buffer@, pos),
            final(self).caret_ok(),
            final(self).buffer == old(self).buffer,
            final(self).selection == old(self).selection,
            final(self).interaction_mode == old(self).interaction_mode,
            final(self).first_line == old(self).first_line,
    {
        let count = self.buffer.line_count();
        let line = if pos.line < count { pos.line } else { count - 1 };
        let len = self.buffer.line_length(line);
        let column = if pos.column <= len { pos.column } else { len };
        self.caret_position = Position { line, column };
    }

    /// Selects the word around the caret: from just after the last separator
    /// before it to the first separator at or after it. At the start or the end
    /// of a line the selection starts at the line start.
    pub fn select_word_at_caret(&mut self)
        requires
            old(self).caret_ok(),
        ensures
            ({
                let p = old(self).caret_position;
                let s = old(self).buffer@[p.line as int];
                final(self).selection == Some(Selection {
                    start: Position { line: p.line, column: word_start_column(s, p.column as int) as usize },
                    end: Position { line: p.line, column: first_separator_from(s, p.column as int) as usize },
                })
            }),
            final(self).selection_ok(),
            final(self).buffer == old(self).buffer,
            final(self).caret_position == old(self).caret_position,
            final(self).interaction_mode == old(self).interaction_mode,
            final(self).first_line == old(self).first_line,
    {
        let p = self.caret_position;
        let chars = self.buffer.line_chars(p.line);
        let len = chars.len();
        let start = if p.column == 0 || len == 0 || p.column >= len {
            0
        } else {
            let mut k = p.column;
            while k > 0 && !crate::text_tool::TextTool::is_word_separator(&chars[k - 1])
                invariant
                    k <= p.column < len,
                    len == chars@.len(),
                    after_last_separator(chars@, p.column as int) == after_last_separator(chars@, k as int),
                decreases k,
            {
                k = k - 1;
            }
            k
        };
        let mut end = p.column;
        proof {
            lemma_first_separator_from(chars@, p.column as int);
            lemma_after_last_separator(chars@, p.column as int);
        }
        while end < len && !crate::text_tool::TextTool::is_word_separator(&chars[end])
            invariant
                p.column <= end <= len,
                len == chars@.len(),
                first_separator_from(chars@, p.column as int) == first_separator_from(chars@, end as int),
            decreases len - end,
        {
            end = end + 1;
        }
        let a = Position { line: p.line, column: start };
        let b = Position { line: p.line, column: end };
        self.selection = Some(Selection::new(a, b));
    }

    /// Selects the text between two places, whichever comes first.
    pub fn select_between(&mut self, anchor: Position, pointer: Position)
        ensures
            final(self).selection == Some(if pos_lt(anchor, pointer) {
                Selection { start: anchor, end: pointer }
            } else {
                Selection { start: pointer, end: anchor }
            }),
            final(self).buffer == old(self).buffer,
            final(self).caret_position == old(self).caret_position,
            final(self).interaction_mode == old(self).interaction_mode,
            final(self).first_line == old(self).first_line,
    {
        if anchor.is_before(&pointer) {
            self.selection = Some(Selection::new(anchor, pointer));
        } else {
            self.selection = Some(Selection::new(pointer, anchor));
        }
    }

    /// Carries out an input: a bound key runs its action, copy and cut hand
    /// the selected text over, pasted and typed text replace the selection.
    pub fn handle_event(&mut self, keyboard_handler: &KeyboardHandler, event: InputEvent) -> (r: InputResponse)
        requires
            old(self).caret_ok(),
            old(self).selection_ok(),
        ensures
            match event {
                InputEvent::Key(shortcut) => match binding_of(keyboard_handler.bindings(), shortcut) {
                    Some(action) => {
                        &&& r == InputResponse::Request(request_of(action))
                        &&& action_effect(action, *old(self), *final(self))
                    },
                    None => r == InputResponse::Done && unchanged(*old(self), *final(self)),
                },
                InputEvent::Copy => {
                    &&& unchanged(*old(self), *final(self))
                    &&& match r {
                        InputResponse::CopyText(t) => copied(*old(self)) == Some(t@),
                        InputResponse::Done => copied(*old(self)) is None,
                        _ => false,
                    }
                },
                InputEvent::Cut => {
                    &&& final(self).selection.is_none()
                    &&& match old(self).selection {
                        Some(s) => final(self).buffer@ == delete_range_spec(old(self).buffer@, s.start, s.end)
                            && final(self).caret_position == s.start,
                        None => unchanged(*old(self), *final(self)),
                    }
                    &&& match r {
                        InputResponse::CopyText(t) => copied(*old(self)) == Some(t@),
                        InputResponse::Done => copied(*old(self)) is None,
                        _ => false,
                    }
                },
                InputEvent::Paste(text) | InputEvent::Text(text) => {
                    &&& r == InputResponse::Done
                    &&& final(self).selection.is_none()
                    &&& (final(self).buffer@, final(self).caret_position) == replaced(*old(self), text@)
                },
            },
            final(self).caret_ok(),
            final(self).interaction_mode == old(self).interaction_mode,
            final(self).first_line == old(self).first_line,
    {
        match event {
            InputEvent::Key(shortcut) => match keyboard_handler.get_action(&shortcut) {
                Some(action) => InputResponse::Request(action.execute(self)),
                None => InputResponse::Done,
            },
            InputEvent::Copy => match self.selected_text() {
                Some(t) => InputResponse::CopyText(t),
                None => InputResponse::Done,
            },
            InputEvent::Cut => {
                proof {
                    match self.selection {
                        Some(s) => {
                            crate::text_area::lemma_delete_keeps_start(self.buffer@, s.start, s.end);
                        },
                        None => {},
                    }
                }
                match self.cut() {
                    Some(t) => InputResponse::CopyText(t),
                    None => InputResponse::Done,
                }
            },
            InputEvent::Paste(text) => {
                self.replace_selection(text.as_str());
                InputResponse::Done
            },
            InputEvent::Text(text) => {
                self.replace_selection(text.as_str());
                InputResponse::Done
            },
        }
    }
}

/// The command a drag in column mode types: the columns it spans, as `a..b`
/// with the smaller first.
pub fn column_range_command(anchor_column: usize, column: usize) -> (s: String)
    ensures
        ({
            let (a, b) = if column <= anchor_column { (column, anchor_column) } else { (anchor_column, column) };
            s@ == decimal_text(a as nat) + seq!['.', '.'] + decimal_text(b as nat)
        }),
{
    let (a, b) = drag_column_range(anchor_column, column);
    let mut s = String::new();
    push_decimal(&mut s, a);
    push_char(&mut s, '.');
    push_char(&mut s, '.');
    push_decimal(&mut s, b);
    proof {
        assert(s@ =~= decimal_text(a as nat) + seq!['.', '.'] + decimal_text(b as nat));
    }
    s
}

/// The columns a drag in column mode spans, smaller first.
pub fn drag_column_range(anchor_column: usize, column: usize) -> (r: (usize, usize))
    ensures
        r.0 == if column <= anchor_column { column } else { anchor_column },
        r.1 == if column <= anchor_column { anchor_column } else { column },
{
    if column <= anchor_column { (column, anchor_column) } else { (anchor_column, column) }
}

} // verus!
