use vstd::prelude::*;
use crate::buffer::TextRange;
use crate::position::{Position, pos_le};

verus! {

/// A selected stretch of text, from `start` to `end`.
#[derive(Debug, PartialEq, Eq, Clone, Copy, Structural)]
pub struct Selection {
    /// The start position of the selection.
    pub start: Position,
    /// The end position of the selection.
    pub end: Position,
}

impl Selection {
    pub fn new(start: Position, end: Position) -> (s: Selection)
        requires
            pos_le(start, end),
        ensures
            s.start == start && s.end == end,
    {
        Self { start, end }
    }

    #[inline]
    pub fn is_empty(&self) -> (b: bool)
        ensures
            b == (self.start == self.end),
    {
        self.start == self.end
    }
}

impl From<TextRange> for Selection {
    fn from(text_range: TextRange) -> (s: Selection) {
        Selection { start: text_range.start, end: text_range.end }
    }
}

impl vstd::std_specs::convert::FromSpecImpl<TextRange> for Selection {
    open spec fn obeys_from_spec() -> bool {
        true
    }

    open spec fn from_spec(v: TextRange) -> Selection {
        Selection { start: v.start, end: v.end }
    }
}

impl From<&Selection> for TextRange {
    fn from(selection: &Selection) -> (r: TextRange) {
        TextRange { start: selection.start, end: selection.end }
    }
}

impl vstd::std_specs::convert::FromSpecImpl<&Selection> for TextRange {
    open spec fn obeys_from_spec() -> bool {
        true
    }

    open spec fn from_spec(v: &Selection) -> TextRange {
        TextRange { start: v.start, end: v.end }
    }
}

/// The caret, with the column it would like to keep on shorter lines.
#[derive(Debug, Clone, Copy, PartialEq, Eq, Structural)]
pub struct CaretPosition {
    /// The caret position in the buffer.
    pub position: Position,
    /// The column where the caret would like to be (but maybe the line is too short).
    pub virtual_column: usize,
}

impl CaretPosition {
    pub fn zero() -> (c: CaretPosition)
        ensures
            c.position == (Position { line: 0, column: 0 }),
            c.virtual_column == 0,
    {
        CaretPosition { position: Position { line: 0, column: 0 }, virtual_column: 0 }
    }

    pub fn reset_virtual_column(&mut self)
        ensures
            final(self).position == old(self).position,
            final(self).virtual_column == old(self).position.column,
    {
        self.virtual_column = self.position.column;
    }

    pub fn from_position(position: Position) -> (c: Self)
        ensures
            c.position == position,
            c.virtual_column == position.column,
    {
        Self { position, virtual_column: position.column }
    }
}

/// How a mouse drag acts on the text.
#[derive(Debug, Clone, Copy, PartialEq, Eq, Structural)]
pub enum InteractionMode {
    /// Dragging selects text.
    Selection,
    /// Dragging picks a range of columns.
    Column,
}

} // verus!
