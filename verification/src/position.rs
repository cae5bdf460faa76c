use vstd::prelude::*;
use crate::number::{decimal_text, push_decimal};
use crate::strings::append_text;
use core::cmp::Ordering;

verus! {

/// A place in a text: a line and a column, both counted from 0.
#[derive(Debug, Clone, Copy, PartialEq, Eq, Structural)]
pub struct Position {
    pub line: usize,
    pub column: usize,
}

/// `a` comes strictly before `b`: earlier line, or same line and earlier column.
pub open spec fn pos_lt(a: Position, b: Position) -> bool {
    a.line < b.line || (a.line == b.line && a.column < b.column)
}

/// `a` comes before `b` or is `b`.
pub open spec fn pos_le(a: Position, b: Position) -> bool {
    pos_lt(a, b) || a == b
}

/// The three-way comparison of two positions.
pub open spec fn pos_cmp(a: Position, b: Position) -> Ordering {
    if pos_lt(a, b) {
        Ordering::Less
    } else if a == b {
        Ordering::Equal
    } else {
        Ordering::Greater
    }
}

impl Position {
    /// The start of a text.
    pub fn zero() -> (p: Position)
        ensures
            p.line == 0 && p.column == 0,
    {
        Position { line: 0, column: 0 }
    }

    pub fn new(line: usize, column: usize) -> (p: Position)
        ensures
            p.line == line && p.column == column,
    {
        Self { line, column }
    }

    /// One column to the left.
    pub fn move_left(&self) -> (p: Position)
        requires
            self.column > 0,
        ensures
            p.line == self.line && p.column == self.column - 1,
    {
        Self { line: self.line, column: self.column - 1 }
    }

    /// One column to the right.
    pub fn move_right(&self) -> (p: Position)
        requires
            self.column < usize::MAX,
        ensures
            p.line == self.line && p.column == self.column + 1,
    {
        Self { line: self.line, column: self.column + 1 }
    }

    /// `amount` columns to the right.
    pub fn move_right_by(&self, amount: usize) -> (p: Position)
        requires
            self.column + amount <= usize::MAX,
        ensures
            p.line == self.line && p.column == self.column + amount,
    {
        Self { line: self.line, column: self.column + amount }
    }

    /// The position as text: `line: <line>, column: <column>`.
    pub fn to_string(&self) -> (s: String)
        ensures
            s@ == seq!['l', 'i', 'n', 'e', ':', ' '] + decimal_text(self.line as nat)
                + seq![',', ' ', 'c', 'o', 'l', 'u', 'm', 'n', ':', ' '] + decimal_text(self.column as nat),
    {
        let mut s = String::from_str("line: ");
        proof {
            reveal_strlit("line: ");
        }
        push_decimal(&mut s, self.line);
        let mid = ", column: ";
        proof {
            reveal_strlit(", column: ");
        }
        append_text(&mut s, mid);
        push_decimal(&mut s, self.column);
        s
    }

    /// Whether `self` comes strictly before `other`.
    pub fn is_before(&self, other: &Position) -> (b: bool)
        ensures
            b == pos_lt(*self, *other),
    {
        self.line < other.line || (self.line == other.line && self.column < other.column)
    }
}

impl Default for Position {
    fn default() -> (p: Position)
        ensures
            p.line == 0 && p.column == 0,
    {
        Position { line: 0, column: 0 }
    }
}

impl PartialOrd for Position {
    fn partial_cmp(&self, other: &Self) -> (r: Option<Ordering>)
        ensures
            r == Some(pos_cmp(*self, *other)),
    {
        if self.line < other.line {
            Some(Ordering::Less)
        } else if self.line == other.line {
            if self.column < other.column {
                Some(Ordering::Less)
            } else if self.column == other.column {
                Some(Ordering::Equal)
            } else {
                Some(Ordering::Greater)
            }
        } else {
            Some(Ordering::Greater)
        }
    }
}

impl vstd::std_specs::cmp::PartialOrdSpecImpl for Position {
    open spec fn obeys_partial_cmp_spec() -> bool {
        true
    }

    open spec fn partial_cmp_spec(&self, other: &Position) -> Option<Ordering> {
        Some(pos_cmp(*self, *other))
    }
}

/// The order on positions is a strict total order: exactly one of `a < b`,
/// `a == b`, `b < a` holds.
pub proof fn law_position_order_trichotomy(a: Position, b: Position)
    ensures
        (pos_lt(a, b) as int) + ((a == b) as int) + (pos_lt(b, a) as int) == 1,
{
}

/// The order on positions is transitive.
pub proof fn law_position_order_transitive(a: Position, b: Position, c: Position)
    requires
        pos_lt(a, b),
        pos_lt(b, c),
    ensures
        pos_lt(a, c),
{
}

/// Comparing in the other direction gives the opposite answer.
pub proof fn law_position_cmp_antisymmetric(a: Position, b: Position)
    ensures
        pos_cmp(a, b) == Ordering::Less <==> pos_cmp(b, a) == Ordering::Greater,
        pos_cmp(a, b) == Ordering::Equal <==> a == b,
{
}

} // verus!
