use vstd::prelude::*;
use crate::buffer::{
    Buffer, TextRange, delete_range_spec, insert_char_spec, insert_spec, no_line_breaks, split_line_spec, valid_position,
    valid_range,
};
use crate::position::{Position, pos_le};
use crate::input::clamped;
use crate::selection::{InteractionMode, Selection};
use crate::strings::string_from_chars;
use crate::utf8_text::{byte_len, chars_of, lemma_byte_len_concat, lemma_byte_len_single, utf8_width};

verus! {

/// Characters that typing ignores: carriage return, backspace and delete.
pub open spec fn ignored_input(c: char) -> bool {
    c == '\r' || c == '\x08' || c == '\x7f'
}

/// The text and caret after typing `text` at `caret`, character by character.
pub open spec fn typed(lines: Seq<Seq<char>>, caret: Position, text: Seq<char>) -> (Seq<Seq<char>>, Position)
    decreases text.len(),
{
    if text.len() == 0 {
        (lines, caret)
    } else if ignored_input(text[0]) {
        typed(lines, caret, text.drop_first())
    } else {
        let c = text[0];
        let next_lines = insert_spec(lines, caret.line as int, caret.column as int, c);
        let next_caret = if c == '\n' {
            Position { line: (caret.line + 1) as usize, column: 0 }
        } else {
            Position { line: caret.line, column: (caret.column + 1) as usize }
        };
        typed(next_lines, next_caret, text.drop_first())
    }
}

/// The column of the last character of a line (0 for an empty line).
pub open spec fn last_column(line: Seq<char>) -> usize {
    if line.len() == 0 { 0 } else { (line.len() - 1) as usize }
}

/// The caret after moving one character back.
pub open spec fn prev_char_spec(lines: Seq<Seq<char>>, p: Position) -> Position {
    if p.column > 0 {
        Position { line: p.line, column: (p.column - 1) as usize }
    } else if p.line > 0 {
        Position { line: (p.line - 1) as usize, column: last_column(lines[p.line - 1]) }
    } else {
        p
    }
}

/// The caret after moving one character forward.
pub open spec fn next_char_spec(lines: Seq<Seq<char>>, p: Position) -> Position {
    if p.column < lines[p.line as int].len() {
        Position { line: p.line, column: (p.column + 1) as usize }
    } else if p.line < lines.len() - 1 {
        Position { line: (p.line + 1) as usize, column: 0 }
    } else {
        p
    }
}

/// The caret after moving one line up, the column kept within the line.
pub open spec fn prev_line_spec(lines: Seq<Seq<char>>, p: Position) -> Position {
    if p.line > 0 {
        let l = (p.line - 1) as usize;
        Position { line: l, column: if p.column <= lines[l as int].len() { p.column } else { lines[l as int].len() as usize } }
    } else {
        p
    }
}

/// The caret after moving one line down, the column kept within the line.
pub open spec fn next_line_spec(lines: Seq<Seq<char>>, p: Position) -> Position {
    if p.line + 1 < lines.len() {
        let l = (p.line + 1) as usize;
        Position { line: l, column: if p.column <= lines[l as int].len() { p.column } else { lines[l as int].len() as usize } }
    } else {
        p
    }
}

/// The text of a selection: its part of each line, lines joined by `\n`.
pub open spec fn selected_chars(lines: Seq<Seq<char>>, start: Position, end: Position) -> Seq<char>
    decreases end.line - start.line,
{
    if start.line >= end.line {
        lines[start.line as int].subrange(start.column as int, end.column as int)
    } else {
        lines[start.line as int].skip(start.column as int) + seq!['\n']
            + selected_chars(lines, Position { line: (start.line + 1) as usize, column: 0 }, end)
    }
}

/// Text and caret after a backspace with nothing selected.
pub open spec fn backspace_spec(lines: Seq<Seq<char>>, p: Position) -> (Seq<Seq<char>>, Position) {
    if p.column > 0 {
        let q = Position { line: p.line, column: (p.column - 1) as usize };
        (delete_range_spec(lines, q, p), q)
    } else if p.line > 0 {
        let q = Position { line: (p.line - 1) as usize, column: lines[p.line - 1].len() as usize };
        (delete_range_spec(lines, q, p), q)
    } else {
        (lines, p)
    }
}

/// Text after a forward delete with nothing selected (the caret stays).
pub open spec fn delete_forward_spec(lines: Seq<Seq<char>>, p: Position) -> Seq<Seq<char>> {
    let len = lines[p.line as int].len();
    if p.column < len {
        delete_range_spec(lines, p, Position { line: p.line, column: (p.column + 1) as usize })
    } else if p.line + 1 < lines.len() {
        delete_range_spec(lines, Position { line: p.line, column: len as usize }, Position { line: (p.line + 1) as usize, column: 0 })
    } else {
        lines
    }
}

/// Text and caret after pressing enter.
pub open spec fn enter_spec(lines: Seq<Seq<char>>, p: Position) -> (Seq<Seq<char>>, Position) {
    (split_line_spec(lines, p.line as int, p.column as int), Position { line: (p.line + 1) as usize, column: 0 })
}

/// The caret moved to `p`; text, selection, mode and first visible line are unchanged.
pub open spec fn caret_moved(b: TextAreaProperties, a: TextAreaProperties, p: Position) -> bool {
    &&& a.buffer@ == b.buffer@
    &&& a.buffer.modified() == b.buffer.modified()
    &&& a.caret_position == p
    &&& a.selection == b.selection
    &&& a.interaction_mode == b.interaction_mode
    &&& a.first_line == b.first_line
}

/// The caret jumped to `p` and the selection was dropped; text, mode and
/// first visible line are unchanged.
pub open spec fn caret_jumped(b: TextAreaProperties, a: TextAreaProperties, p: Position) -> bool {
    &&& a.buffer@ == b.buffer@
    &&& a.buffer.modified() == b.buffer.modified()
    &&& a.caret_position == p
    &&& a.selection.is_none()
    &&& a.interaction_mode == b.interaction_mode
    &&& a.first_line == b.first_line
}

/// Nothing changed.
pub open spec fn unchanged(b: TextAreaProperties, a: TextAreaProperties) -> bool {
    caret_moved(b, a, b.caret_position)
}

/// The selected text, when there is one, was removed and the caret put at its start.
pub open spec fn selection_deleted(b: TextAreaProperties, a: TextAreaProperties, s: Selection) -> bool {
    &&& a.buffer@ == delete_range_spec(b.buffer@, s.start, s.end)
    &&& a.caret_position == s.start
}

/// The state after a backspace.
pub open spec fn backspaced(b: TextAreaProperties, a: TextAreaProperties) -> bool {
    &&& a.selection.is_none()
    &&& a.interaction_mode == b.interaction_mode
    &&& a.first_line == b.first_line
    &&& match b.selection {
        Some(s) => selection_deleted(b, a, s),
        None => (a.buffer@, a.caret_position) == backspace_spec(b.buffer@, b.caret_position),
    }
}

/// The state after a forward delete.
pub open spec fn forward_deleted(b: TextAreaProperties, a: TextAreaProperties) -> bool {
    &&& a.selection.is_none()
    &&& a.interaction_mode == b.interaction_mode
    &&& a.first_line == b.first_line
    &&& match b.selection {
        Some(s) => selection_deleted(b, a, s),
        None => {
            &&& a.buffer@ == delete_forward_spec(b.buffer@, b.caret_position)
            &&& a.caret_position == b.caret_position
        },
    }
}

/// The state after pressing enter.
pub open spec fn entered(b: TextAreaProperties, a: TextAreaProperties) -> bool {
    &&& (a.buffer@, a.caret_position) == enter_spec(b.buffer@, b.caret_position)
    &&& a.selection == b.selection
    &&& a.interaction_mode == b.interaction_mode
    &&& a.first_line == b.first_line
}

/// The selection kept when the text is replaced by `lines`: kept while it
/// still lies in the text, dropped otherwise.
pub open spec fn kept_selection(lines: Seq<Seq<char>>, sel: Option<Selection>) -> Option<Selection> {
    match sel {
        Some(s) => if valid_range(lines, s.start, s.end) { sel } else { None },
        None => None,
    }
}

/// Whether `s` is an ordered range of the buffer's text.
pub fn range_fits(buffer: &Buffer, s: Selection) -> (b: bool)
    ensures
        b == valid_range(buffer@, s.start, s.end),
{
    let count = buffer.line_count();
    if s.start.line >= count || s.end.line >= count {
        return false;
    }
    if s.start.column > buffer.line_length(s.start.line) || s.end.column > buffer.line_length(s.end.line) {
        return false;
    }
    s.start.line < s.end.line || (s.start.line == s.end.line && s.start.column <= s.end.column)
}

/// The line shown at the top when `line` is asked for: one above it, the line
/// first clamped to the line count.
pub open spec fn top_line_for(line: int, count: int) -> usize {
    let clamped = if line <= count { line } else { count };
    if clamped > 0 { (clamped - 1) as usize } else { 0 }
}

/// Largest text, in bytes, that a copy hands over.
pub const MAX_COPY_SIZE: usize = 10485760;

/// The editing state of the text area: the text, the caret, the selection.
#[derive(Debug)]
pub struct TextAreaProperties {
    pub buffer: Buffer,
    pub caret_position: Position,
    pub selection: Option<Selection>,
    pub interaction_mode: InteractionMode,
    /// The line the view is asked to show at its top.
    pub first_line: usize,
}

impl TextAreaProperties {
    /// The caret stands on a place of the text.
    pub open spec fn caret_ok(&self) -> bool {
        valid_position(self.buffer@, self.caret_position)
    }

    /// The selection, if any, is an ordered range of the text.
    pub open spec fn selection_ok(&self) -> bool {
        match self.selection {
            Some(s) => valid_range(self.buffer@, s.start, s.end),
            None => true,
        }
    }

    /// An empty text, the caret at its start, nothing selected.
    pub fn new() -> (t: TextAreaProperties)
        ensures
            t.buffer@ == seq![Seq::<char>::empty()],
            t.caret_position == (Position { line: 0, column: 0 }),
            t.selection.is_none(),
            t.interaction_mode == InteractionMode::Selection,
            t.first_line == 0,
    {
        TextAreaProperties {
            buffer: Buffer::new_empty_buffer(),
            caret_position: Position { line: 0, column: 0 },
            selection: None,
            interaction_mode: InteractionMode::Selection,
            first_line: 0,
        }
    }

    /// Replaces the text; the caret stays where it was, moved inside the new
    /// text, and the selection stays when it still lies in the new text.
    pub fn set_buffer(&mut self, buffer: Buffer)
        ensures
            final(self).buffer == buffer,
            final(self).caret_position == clamped(buffer@, old(self).caret_position),
            final(self).selection == kept_selection(buffer@, old(self).selection),
            final(self).interaction_mode == old(self).interaction_mode,
            final(self).first_line == old(self).first_line,
    {
        let keep = match self.selection {
            Some(s) => range_fits(&buffer, s),
            None => false,
        };
        if !keep {
            self.selection = None;
        }
        self.buffer = buffer;
        self.update_caret_position(self.caret_position);
    }

    /// Column mode drops the selection.
    pub fn set_interaction_mode(&mut self, mode: InteractionMode)
        ensures
            final(self).interaction_mode == mode,
            final(self).selection == (if mode == InteractionMode::Column { None } else { old(self).selection }),
            final(self).buffer == old(self).buffer,
            final(self).caret_position == old(self).caret_position,
    {
        self.interaction_mode = mode;
        if mode == InteractionMode::Column {
            self.selection = None;
        }
    }

    /// Asks the view to scroll so that `line` (at most the line count) ends up
    /// just below its top.
    pub fn set_first_line(&mut self, line: usize)
        ensures
            final(self).first_line == top_line_for(line as int, old(self).buffer@.len() as int),
            final(self).buffer == old(self).buffer,
            final(self).caret_position == old(self).caret_position,
            final(self).selection == old(self).selection,
            final(self).interaction_mode == old(self).interaction_mode,
    {
        let count = self.buffer.line_count();
        let clamped = if line < count { line } else { count };
        self.first_line = if clamped > 0 { clamped - 1 } else { 0 };
    }

    /// Deletes the selected text, if any; the caret goes to where it started.
    pub fn delete_selection(&mut self)
        requires
            old(self).selection_ok(),
        ensures
            final(self).selection.is_none(),
            final(self).interaction_mode == old(self).interaction_mode,
            match old(self).selection {
                Some(s) => {
                    &&& final(self).buffer@ == delete_range_spec(old(self).buffer@, s.start, s.end)
                    &&& final(self).caret_position == s.start
                },
                None => {
                    &&& final(self).buffer == old(self).buffer
                    &&& final(self).caret_position == old(self).caret_position
                },
            },
            old(self).selection.is_some() ==> final(self).caret_ok(),
            old(self).selection.is_none() && old(self).caret_ok() ==> final(self).caret_ok(),
            final(self).first_line == old(self).first_line,
    {
        if let Some(selection) = self.selection.take() {
            self.buffer.delete_range(TextRange { start: selection.start, end: selection.end });
            self.caret_position = selection.start;
            proof {
                lemma_delete_keeps_start(old(self).buffer@, selection.start, selection.end);
            }
        }
    }

    /// Types `text` in place of the selection; carriage returns, backspace and
    /// delete characters are skipped, a line break splits the line.
    pub fn replace_selection(&mut self, text: &str)
        requires
            old(self).selection_ok(),
            old(self).selection.is_none() ==> old(self).caret_ok(),
        ensures
            final(self).selection.is_none(),
            final(self).caret_ok(),
            final(self).interaction_mode == old(self).interaction_mode,
            ({
                let (lines0, caret0) = match old(self).selection {
                    Some(s) => (delete_range_spec(old(self).buffer@, s.start, s.end), s.start),
                    None => (old(self).buffer@, old(self).caret_position),
                };
                (final(self).buffer@, final(self).caret_position) == typed(lines0, caret0, text@)
            }),
            final(self).first_line == old(self).first_line,
    {
        self.delete_selection();
        let chars = chars_of(text);
        let ghost lines0 = self.buffer@;
        let ghost caret0 = self.caret_position;
        let mut i: usize = 0;
        assert(chars@.skip(0) =~= chars@);
        while i < chars.len()
            invariant
                i <= chars@.len(),
                chars@ == text@,
                self.selection.is_none(),
                self.interaction_mode == old(self).interaction_mode,
                self.first_line == old(self).first_line,
                self.caret_ok(),
                typed(self.buffer@, self.caret_position, chars@.skip(i as int))
                    == typed(lines0, caret0, chars@),
            decreases chars@.len() - i,
        {
            let ch = chars[i];
            assert(chars@.skip(i as int).drop_first() =~= chars@.skip(i + 1));
            if ch == '\r' || ch == '\x08' || ch == '\x7f' {
                i = i + 1;
                continue;
            }
            let line = self.caret_position.line;
            let column = self.caret_position.column;
            self.buffer.insert_char(line, column, ch);
            let _count = self.buffer.line_count();
            if ch == '\n' {
                self.caret_position.line = line + 1;
                self.caret_position.column = 0;
            } else {
                let _len = self.buffer.line_length(line);
                self.caret_position.column = column + 1;
            }
            i = i + 1;
        }
        assert(chars@.skip(chars@.len() as int) =~= Seq::<char>::empty());
    }

    /// Moves the caret one character back, to the end of the previous line at a line start.
    pub fn go_to_prev_char(&mut self)
        requires
            old(self).caret_ok(),
        ensures
            final(self).caret_position == prev_char_spec(old(self).buffer@, old(self).caret_position),
            final(self).caret_ok(),
            final(self).buffer == old(self).buffer,
            final(self).selection == old(self).selection,
            final(self).interaction_mode == old(self).interaction_mode,
            final(self).first_line == old(self).first_line,
    {
        if self.caret_position.column > 0 {
            self.caret_position.column = self.caret_position.column - 1;
        } else if self.caret_position.line > 0 {
            self.caret_position.line = self.caret_position.line - 1;
            let len = self.buffer.line_length(self.caret_position.line);
            self.caret_position.column = if len > 0 { len - 1 } else { 0 };
        }
    }

    /// Moves the caret one character forward, to the next line at a line end.
    pub fn go_to_next_char(&mut self)
        requires
            old(self).caret_ok(),
        ensures
            final(self).caret_position == next_char_spec(old(self).buffer@, old(self).caret_position),
            final(self).caret_ok(),
            final(self).buffer == old(self).buffer,
            final(self).selection == old(self).selection,
            final(self).interaction_mode == old(self).interaction_mode,
            final(self).first_line == old(self).first_line,
    {
        let len = self.buffer.line_length(self.caret_position.line);
        let count = self.buffer.line_count();
        if self.caret_position.column < len {
            self.caret_position.column = self.caret_position.column + 1;
        } else if self.caret_position.line < count - 1 {
            self.caret_position.line = self.caret_position.line + 1;
            self.caret_position.column = 0;
        }
    }

    /// Moves the caret one line up, keeping the column within the line.
    pub fn go_to_prev_line(&mut self)
        requires
            old(self).caret_ok(),
        ensures
            final(self).caret_position == prev_line_spec(old(self).buffer@, old(self).caret_position),
            final(self).caret_ok(),
            final(self).buffer == old(self).buffer,
            final(self).selection == old(self).selection,
            final(self).interaction_mode == old(self).interaction_mode,
            final(self).first_line == old(self).first_line,
    {
        if self.caret_position.line > 0 {
            let line = self.caret_position.line - 1;
            let len = self.buffer.line_length(line);
            self.caret_position.line = line;
            if self.caret_position.column > len {
                self.caret_position.column = len;
            }
        }
    }

    /// Moves the caret one line down, keeping the column within the line.
    pub fn go_to_next_line(&mut self)
        requires
            old(self).caret_ok(),
        ensures
            final(self).caret_position == next_line_spec(old(self).buffer@, old(self).caret_position),
            final(self).caret_ok(),
            final(self).buffer == old(self).buffer,
            final(self).selection == old(self).selection,
            final(self).interaction_mode == old(self).interaction_mode,
            final(self).first_line == old(self).first_line,
    {
        let count = self.buffer.line_count();
        if self.caret_position.line + 1 < count {
            let line = self.caret_position.line + 1;
            let len = self.buffer.line_length(line);
            self.caret_position.line = line;
            if self.caret_position.column > len {
                self.caret_position.column = len;
            }
        }
    }

    /// Drops the selection and puts the caret at the start of the text.
    pub fn go_to_start_of_buffer(&mut self)
        ensures
            final(self).selection.is_none(),
            final(self).caret_position == (Position { line: 0, column: 0 }),
            final(self).caret_ok(),
            final(self).buffer == old(self).buffer,
            final(self).interaction_mode == old(self).interaction_mode,
            final(self).first_line == old(self).first_line,
    {
        let _ = self.buffer.line_count();
        self.selection = None;
        self.caret_position = Position { line: 0, column: 0 };
    }

    /// Drops the selection and puts the caret at the start of its line.
    pub fn go_to_start_of_line(&mut self)
        requires
            old(self).caret_ok(),
        ensures
            final(self).selection.is_none(),
            final(self).caret_position == (Position { line: old(self).caret_position.line, column: 0 }),
            final(self).caret_ok(),
            final(self).buffer == old(self).buffer,
            final(self).interaction_mode == old(self).interaction_mode,
            final(self).first_line == old(self).first_line,
    {
        self.selection = None;
        self.caret_position.column = 0;
    }

    /// Drops the selection and puts the caret on the last character of its line.
    pub fn go_to_end_of_line(&mut self)
        requires
            old(self).caret_ok(),
        ensures
            final(self).selection.is_none(),
            final(self).caret_position == (Position {
                line: old(self).caret_position.line,
                column: last_column(old(self).buffer@[old(self).caret_position.line as int]),
            }),
            final(self).caret_ok(),
            final(self).buffer == old(self).buffer,
            final(self).interaction_mode == old(self).interaction_mode,
            final(self).first_line == old(self).first_line,
    {
        self.selection = None;
        let len = self.buffer.line_length(self.caret_position.line);
        self.caret_position.column = if len > 0 { len - 1 } else { 0 };
    }

    /// Drops the selection and puts the caret on the last character of the text.
    pub fn go_to_end_of_buffer(&mut self)
        ensures
            final(self).selection.is_none(),
            final(self).caret_position == (Position {
                line: (old(self).buffer@.len() - 1) as usize,
                column: last_column(old(self).buffer@[old(self).buffer@.len() - 1]),
            }),
            final(self).caret_ok(),
            final(self).buffer == old(self).buffer,
            final(self).interaction_mode == old(self).interaction_mode,
            final(self).first_line == old(self).first_line,
    {
        self.selection = None;
        let count = self.buffer.line_count();
        let len = self.buffer.line_length(count - 1);
        self.caret_position.line = count - 1;
        self.caret_position.column = if len > 0 { len - 1 } else { 0 };
    }

    /// Breaks the line at the caret; the caret goes to the start of the new line.
    pub fn input_enter(&mut self)
        requires
            old(self).caret_ok(),
        ensures
            (final(self).buffer@, final(self).caret_position) == enter_spec(old(self).buffer@, old(self).caret_position),
            final(self).caret_ok(),
            final(self).selection == old(self).selection,
            final(self).interaction_mode == old(self).interaction_mode,
            final(self).first_line == old(self).first_line,
    {
        let line = self.caret_position.line;
        let column = self.caret_position.column;
        self.buffer.insert_newline(line, column);
        let _ = self.buffer.line_count();
        self.caret_position.line = line + 1;
        self.caret_position.column = 0;
    }

    /// The selected text, lines joined by `\n`; `None` without a selection or
    /// when the text is longer than `MAX_COPY_SIZE` bytes.
    pub fn selected_text(&self) -> (r: Option<String>)
        requires
            self.selection_ok(),
        ensures
            match self.selection {
                None => r.is_none(),
                Some(s) => {
                    let text = selected_chars(self.buffer@, s.start, s.end);
                    &&& (r.is_some() <==> byte_len(text) <= MAX_COPY_SIZE)
                    &&& (r matches Some(t) ==> t@ == text)
                },
            },
    {
        let selection = match self.selection {
            Some(s) => s,
            None => return None,
        };
        let ghost lines = self.buffer@;
        let ghost full = selected_chars(lines, selection.start, selection.end);
        let _count = self.buffer.line_count();
        let mut acc: Vec<char> = Vec::new();
        let mut bytes: usize = 0;
        let mut line_idx = selection.start.line;
        let mut from = selection.start.column;
        while line_idx <= selection.end.line
            invariant
                lines == self.buffer@,
                lines.len() <= usize::MAX,
                self.selection == Some(selection),
                full == selected_chars(lines, selection.start, selection.end),
                valid_range(lines, selection.start, selection.end),
                selection.start.line <= line_idx,
                line_idx <= selection.end.line + 1,
                line_idx <= selection.end.line ==> from <= lines[line_idx as int].len(),
                line_idx == selection.end.line ==> from <= selection.end.column,
                line_idx <= selection.end.line ==> acc@ + selected_chars(lines, Position { line: line_idx, column: from }, selection.end) == full,
                line_idx > selection.end.line ==> acc@ == full,
                bytes == byte_len(acc@),
                bytes <= MAX_COPY_SIZE,
            decreases selection.end.line + 1 - line_idx,
        {
            let line = self.buffer.line_chars(line_idx);
            let to = if line_idx == selection.end.line { selection.end.column } else { line.len() };
            let ghost acc0 = acc@;
            let ghost next = Position { line: (line_idx + 1) as usize, column: 0 };
            let ghost tail = if line_idx < selection.end.line {
                seq!['\n'] + selected_chars(lines, next, selection.end)
            } else {
                Seq::<char>::empty()
            };
            assert(full =~= acc0 + line@.subrange(from as int, to as int) + tail) by {
                let here = Position { line: line_idx, column: from };
                if line_idx < selection.end.line {
                    assert(line@.skip(from as int) =~= line@.subrange(from as int, to as int));
                    assert(selected_chars(lines, here, selection.end) == line@.skip(from as int) + seq!['\n'] + selected_chars(lines, next, selection.end));
                } else {
                    assert(selected_chars(lines, here, selection.end) == line@.subrange(from as int, to as int));
                }
            }
            let mut k = from;
            while k < to
                invariant
                    from <= k <= to,
                    to <= line@.len(),
                    acc@ == acc0 + line@.subrange(from as int, k as int),
                    self.selection == Some(selection),
                    lines == self.buffer@,
                    full == selected_chars(lines, selection.start, selection.end),
                    full == acc0 + line@.subrange(from as int, to as int) + tail,
                    bytes == byte_len(acc@),
                    bytes <= MAX_COPY_SIZE,
                decreases to - k,
            {
                let w = utf8_width(line[k]);
                proof {
                    lemma_byte_len_concat(acc@, seq![line@[k as int]]);
                    lemma_byte_len_single(line@[k as int]);
                }
                if bytes + w > MAX_COPY_SIZE {
                    proof {
                        let rest = line@.subrange(k + 1, to as int) + tail;
                        assert(full =~= (acc@ + seq![line@[k as int]]) + rest);
                        lemma_byte_len_concat(acc@ + seq![line@[k as int]], rest);
                    }
                    return None;
                }
                let ghost acc1 = acc@;
                acc.push(line[k]);
                bytes = bytes + w;
                assert(acc@ =~= acc1 + seq![line@[k as int]]);
                assert(acc@ =~= acc0 + line@.subrange(from as int, k + 1));
                k = k + 1;
            }
            assert(line@.subrange(from as int, to as int) == line@.subrange(from as int, k as int));
            assert(full =~= acc@ + tail);
            if line_idx < selection.end.line {
                proof {
                    lemma_byte_len_concat(acc@, seq!['\n']);
                    lemma_byte_len_single('\n');
                }
                if bytes + 1 > MAX_COPY_SIZE {
                    proof {
                        let rest = selected_chars(lines, next, selection.end);
                        assert(full =~= (acc@ + seq!['\n']) + rest);
                        lemma_byte_len_concat(acc@ + seq!['\n'], rest);
                    }
                    return None;
                }
                let ghost acc1 = acc@;
                acc.push('\n');
                bytes = bytes + 1;
                assert(acc@ =~= acc1 + seq!['\n']);
                assert(acc@ + selected_chars(lines, next, selection.end) =~= full);
            }
            line_idx = line_idx + 1;
            from = 0;
        }
        Some(string_from_chars(&acc))
    }

    /// Deletes the selection, or else the character before the caret (joining
    /// with the previous line at a line start).
    pub fn input_backspace(&mut self)
        requires
            old(self).selection_ok(),
            old(self).caret_ok(),
        ensures
            final(self).selection.is_none(),
            final(self).caret_ok(),
            final(self).interaction_mode == old(self).interaction_mode,
            match old(self).selection {
                Some(s) => {
                    &&& final(self).buffer@ == delete_range_spec(old(self).buffer@, s.start, s.end)
                    &&& final(self).caret_position == s.start
                },
                None => (final(self).buffer@, final(self).caret_position) == backspace_spec(
                    old(self).buffer@,
                    old(self).caret_position,
                ),
            },
            final(self).first_line == old(self).first_line,
    {
        if self.selection.is_some() {
            self.delete_selection();
            return;
        }
        let line = self.caret_position.line;
        let column = self.caret_position.column;
        if column > 0 {
            let range = TextRange::new(line, column - 1, line, column);
            self.buffer.delete_range(range);
            self.caret_position.column = column - 1;
            assert(self.buffer@[line as int] =~= old(self).buffer@[line as int].take(column - 1) + old(self).buffer@[line as int].skip(column as int));
        } else if line > 0 {
            let prev_line = line - 1;
            let prev_len = self.buffer.line_length(prev_line);
            let range = TextRange::new(prev_line, prev_len, line, 0);
            self.buffer.delete_range(range);
            self.caret_position.line = prev_line;
            self.caret_position.column = prev_len;
            assert(self.buffer@[prev_line as int] =~= old(self).buffer@[prev_line as int].take(prev_len as int) + old(self).buffer@[line as int].skip(0));
        }
    }

    /// Deletes the selection, or else the character after the caret (joining
    /// with the next line at a line end).
    pub fn input_delete(&mut self)
        requires
            old(self).selection_ok(),
            old(self).caret_ok(),
        ensures
            final(self).selection.is_none(),
            final(self).caret_ok(),
            final(self).interaction_mode == old(self).interaction_mode,
            match old(self).selection {
                Some(s) => {
                    &&& final(self).buffer@ == delete_range_spec(old(self).buffer@, s.start, s.end)
                    &&& final(self).caret_position == s.start
                },
                None => {
                    &&& final(self).buffer@ == delete_forward_spec(old(self).buffer@, old(self).caret_position)
                    &&& final(self).caret_position == old(self).caret_position
                },
            },
            final(self).first_line == old(self).first_line,
    {
        if self.selection.is_some() {
            self.delete_selection();
            return;
        }
        let line = self.caret_position.line;
        let column = self.caret_position.column;
        let line_len = self.buffer.line_length(line);
        let line_count = self.buffer.line_count();
        if column < line_len {
            let range = TextRange::new(line, column, line, column + 1);
            self.buffer.delete_range(range);
            assert(self.buffer@[line as int] =~= old(self).buffer@[line as int].take(column as int) + old(self).buffer@[line as int].skip(column + 1));
        } else if line + 1 < line_count {
            let range = TextRange::new(line, line_len, line + 1, 0);
            self.buffer.delete_range(range);
            assert(self.buffer@[line as int] =~= old(self).buffer@[line as int].take(line_len as int) + old(self).buffer@[line + 1].skip(0));
        }
    }
}

/// Pressing enter and then backspace gives back the same text and caret.
pub proof fn law_enter_then_backspace(lines: Seq<Seq<char>>, p: Position)
    requires
        valid_position(lines, p),
        lines.len() < usize::MAX,
    ensures
        backspace_spec(enter_spec(lines, p).0, enter_spec(lines, p).1) == (lines, p),
{
    let (l1, p1) = enter_spec(lines, p);
    let l = p.line as int;
    let c = p.column as int;
    assert(l1[l] =~= lines[l].take(c));
    assert(l1[l + 1] =~= lines[l].skip(c));
    let q = Position { line: p.line, column: lines[l].take(c).len() as usize };
    assert(q == p);
    let r = delete_range_spec(l1, q, p1);
    assert(l1.take(l) =~= lines.take(l));
    assert(l1.skip(l + 2) =~= lines.skip(l + 1));
    assert(lines[l].take(c) + lines[l].skip(c) =~= lines[l]);
    assert(l1[l].take(c) + l1[l + 1].skip(0) =~= lines[l]);
    assert(r =~= lines);
}

/// Typing one ordinary character and then pressing backspace gives back the
/// same text and caret.
pub proof fn law_type_then_backspace(lines: Seq<Seq<char>>, p: Position, ch: char)
    requires
        valid_position(lines, p),
        ch != '\n',
        !ignored_input(ch),
        lines[p.line as int].len() < usize::MAX,
    ensures
        backspace_spec(typed(lines, p, seq![ch]).0, typed(lines, p, seq![ch]).1) == (lines, p),
{
    let l = p.line as int;
    let c = p.column as int;
    let t = seq![ch];
    assert(t.drop_first() =~= Seq::<char>::empty());
    let l1 = insert_spec(lines, l, c, ch);
    let p1 = Position { line: p.line, column: (p.column + 1) as usize };
    assert(typed(lines, p, t) == typed(l1, p1, t.drop_first()));
    assert(typed(l1, p1, t.drop_first()) == (l1, p1));
    let r = delete_range_spec(l1, p, p1);
    assert(l1[l] =~= lines[l].take(c) + seq![ch] + lines[l].skip(c));
    assert(l1[l].take(c) + l1[l].skip(c + 1) =~= lines[l]);
    assert(r =~= lines);
}

/// Typing `a` then `b` is typing `a + b`.
proof fn lemma_typed_concat(lines: Seq<Seq<char>>, p: Position, a: Seq<char>, b: Seq<char>)
    ensures
        typed(lines, p, a + b) == typed(typed(lines, p, a).0, typed(lines, p, a).1, b),
    decreases a.len(),
{
    if a.len() == 0 {
        assert(a + b =~= b);
    } else {
        assert((a + b)[0] == a[0]);
        assert((a + b).drop_first() =~= a.drop_first() + b);
        if ignored_input(a[0]) {
            lemma_typed_concat(lines, p, a.drop_first(), b);
        } else {
            let c = a[0];
            let next_lines = insert_spec(lines, p.line as int, p.column as int, c);
            let next_caret = if c == '\n' {
                Position { line: (p.line + 1) as usize, column: 0 }
            } else {
                Position { line: p.line, column: (p.column + 1) as usize }
            };
            lemma_typed_concat(next_lines, next_caret, a.drop_first(), b);
        }
    }
}

/// Typing text without line breaks nor skipped characters inserts it in the line.
proof fn lemma_typed_in_line(lines: Seq<Seq<char>>, l: int, c: int, t: Seq<char>)
    requires
        0 <= l < lines.len(),
        0 <= c <= lines[l].len(),
        l <= usize::MAX,
        c + t.len() <= usize::MAX,
        forall|i: int| 0 <= i < t.len() ==> t[i] != '\n' && !ignored_input(#[trigger] t[i]),
    ensures
        typed(lines, Position { line: l as usize, column: c as usize }, t)
            == (lines.update(l, lines[l].take(c) + t + lines[l].skip(c)), Position { line: l as usize, column: (c + t.len()) as usize }),
    decreases t.len(),
{
    let p = Position { line: l as usize, column: c as usize };
    if t.len() == 0 {
        assert(lines[l].take(c) + t + lines[l].skip(c) =~= lines[l]);
        assert(lines.update(l, lines[l]) =~= lines);
    } else {
        let ch = t[0];
        assert(t[0] != '\n' && !ignored_input(t[0]));
        let l1 = insert_spec(lines, l, c, ch);
        assert(l1 == insert_char_spec(lines, l, c, ch));
        let rest = t.drop_first();
        assert forall|i: int| 0 <= i < rest.len() implies rest[i] != '\n' && !ignored_input(#[trigger] rest[i]) by {
            assert(rest[i] == t[i + 1]);
        }
        lemma_typed_in_line(l1, l, c + 1, rest);
        assert(l1[l].take(c + 1) + rest + l1[l].skip(c + 1) =~= lines[l].take(c) + t + lines[l].skip(c));
        assert(l1.update(l, l1[l].take(c + 1) + rest + l1[l].skip(c + 1))
            =~= lines.update(l, lines[l].take(c) + t + lines[l].skip(c)));
    }
}

/// Pasting the text a cut took away gives back the text, the caret at the
/// cut's end, when the cut text holds no character that typing skips.
pub proof fn law_paste_undoes_cut(lines: Seq<Seq<char>>, start: Position, end: Position)
    requires
        valid_range(lines, start, end),
        lines.len() < usize::MAX,
        forall|k: int| 0 <= k < lines.len() ==> (#[trigger] lines[k]).len() <= usize::MAX,
        no_line_breaks(lines),
        forall|i: int| 0 <= i < selected_chars(lines, start, end).len()
            ==> !ignored_input(#[trigger] selected_chars(lines, start, end)[i]),
    ensures
        typed(delete_range_spec(lines, start, end), start, selected_chars(lines, start, end)) == (lines, end),
    decreases end.line - start.line,
{
    let l = start.line as int;
    let sel = selected_chars(lines, start, end);
    let d = delete_range_spec(lines, start, end);
    if start.line >= end.line {
        assert(start.line == end.line);
        assert(d[l] == lines[l].take(start.column as int) + lines[l].skip(end.column as int));
        assert forall|i: int| 0 <= i < sel.len() implies sel[i] != '\n' && !ignored_input(#[trigger] sel[i]) by {
            assert(sel[i] == lines[l][start.column + i]);
        }
        lemma_typed_in_line(d, l, start.column as int, sel);
        assert(d[l].take(start.column as int) + sel + d[l].skip(start.column as int) =~= lines[l]);
        assert(d.update(l, lines[l]) =~= lines);
    } else {
        let w = lines[l].skip(start.column as int);
        assert(lines[l].len() <= usize::MAX);
        let next = Position { line: (start.line + 1) as usize, column: 0 };
        let rest = selected_chars(lines, next, end);
        assert(sel == w + seq!['\n'] + rest);
        assert forall|i: int| 0 <= i < w.len() implies w[i] != '\n' && !ignored_input(#[trigger] w[i]) by {
            assert(w[i] == sel[i]);
            assert(w[i] == lines[l][start.column + i]);
        }
        assert forall|i: int| 0 <= i < rest.len() implies !ignored_input(#[trigger] rest[i]) by {
            assert(rest[i] == sel[w.len() + 1 + i]);
        }
        lemma_typed_concat(d, start, w, seq!['\n'] + rest);
        assert(w + (seq!['\n'] + rest) =~= sel);
        lemma_typed_in_line(d, l, start.column as int, w);
        let d1 = d.update(l, d[l].take(start.column as int) + w + d[l].skip(start.column as int));
        let p1 = Position { line: start.line, column: (start.column + w.len()) as usize };
        assert(d[l] == lines[l].take(start.column as int) + lines[end.line as int].skip(end.column as int));
        assert(d1[l] =~= lines[l] + lines[end.line as int].skip(end.column as int));
        assert((seq!['\n'] + rest)[0] == '\n');
        assert((seq!['\n'] + rest).drop_first() =~= rest);
        let d2 = insert_spec(d1, l, p1.column as int, '\n');
        assert(p1.column == lines[l].len());
        assert(d2 =~= delete_range_spec(lines, next, end)) by {
            assert(d1[l].take(lines[l].len() as int) =~= lines[l]);
            assert(d1[l].skip(lines[l].len() as int) =~= lines[end.line as int].skip(end.column as int));
            assert(lines[next.line as int].take(0) =~= Seq::<char>::empty());
        }
        law_paste_undoes_cut(lines, next, end);
    }
}

pub proof fn lemma_delete_keeps_start(lines: Seq<Seq<char>>, start: Position, end: Position)
    requires
        valid_range(lines, start, end),
    ensures
        valid_position(delete_range_spec(lines, start, end), start),
{
    let r = delete_range_spec(lines, start, end);
    assert(r[start.line as int] == lines[start.line as int].take(start.column as int) + lines[end.line as int].skip(end.column as int));
}

} // verus!
