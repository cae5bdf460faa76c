use vstd::prelude::*;
use crate::selection::Selection;
use crate::utf8_text::{byte_len, byte_offset, lemma_byte_offset_step, lemma_byte_offset_mono, lemma_byte_offset_full, utf8_width};

verus! {

/// The number of decimal digits of `n` minus one (the integer base-10 logarithm), 0 for 0.
pub open spec fn log10(n: nat) -> nat
    decreases n,
{
    if n < 10 { 0 } else { 1 + log10(n / 10) }
}

/// The width of the line-number gutter, in characters: the digits of the line
/// count and two more (three for no line).
pub open spec fn gutter_chars_spec(line_count: nat) -> nat {
    if line_count == 0 { 3 } else { 3 + log10(line_count) }
}

/// The width of the line-number gutter, in characters.
pub fn gutter_chars(line_count: usize) -> (n: usize)
    ensures
        n == gutter_chars_spec(line_count as nat),
{
    if line_count == 0 {
        return 3;
    }
    proof {
        lemma_log10_bound(line_count as nat);
    }
    let mut m = line_count;
    let mut digits: usize = 0;
    while m >= 10
        invariant
            1 <= m <= line_count,
            digits + log10(m as nat) == log10(line_count as nat),
            log10(line_count as nat) <= line_count / 10,
        decreases m,
    {
        m = m / 10;
        digits = digits + 1;
    }
    3 + digits
}

proof fn lemma_log10_bound(n: nat)
    ensures
        log10(n) <= n / 10,
    decreases n,
{
    if n >= 10 {
        lemma_log10_bound(n / 10);
        let x = n / 10;
        assert(x >= 1);
        assert(x / 10 + 1 <= x) by (nonlinear_arith)
            requires x >= 1;
    }
}

impl Selection {
    /// The columns of line `line` the selection covers, each end `None` where
    /// the selection does not reach the line: the start is the line start when
    /// the selection began on an earlier line, the end the line end (`line_len`)
    /// when it goes on past the line.
    pub fn columns_on_line(&self, line: usize, line_len: usize) -> (r: (Option<usize>, Option<usize>))
        ensures
            r.0 == if self.start.line < line { Some(0usize) } else if self.start.line == line { Some(self.start.column) } else { None },
            r.1 == if self.end.line == line { Some(self.end.column) } else if self.end.line > line { Some(line_len) } else { None },
    {
        let start = if self.start.line < line {
            Some(0)
        } else if self.start.line == line {
            Some(self.start.column)
        } else {
            None
        };
        let end = if self.end.line == line {
            Some(self.end.column)
        } else if self.end.line > line {
            Some(line_len)
        } else {
            None
        };
        (start, end)
    }
}

/// The byte offset where a line's visible text starts when the view is
/// scrolled by `column` characters; 0 when the line is shorter.
pub fn start_byte_of_column(chars: &Vec<char>, column: usize) -> (b: usize)
    requires
        byte_len(chars@) <= usize::MAX,
    ensures
        b == if 0 < column < chars@.len() { byte_offset(chars@, column as int) } else { 0 },
{
    if column == 0 || column >= chars.len() {
        return 0;
    }
    let mut k: usize = 0;
    let mut b: usize = 0;
    proof {
        assert(chars@.take(0) =~= Seq::<char>::empty());
        lemma_byte_offset_mono(chars@, column as int, chars@.len() as int);
        lemma_byte_offset_full(chars@);
    }
    while k < column
        invariant
            k <= column < chars@.len(),
            b == byte_offset(chars@, k as int),
            byte_offset(chars@, column as int) <= usize::MAX,
        decreases column - k,
    {
        proof {
            lemma_byte_offset_step(chars@, k as int);
            lemma_byte_offset_mono(chars@, k + 1, column as int);
        }
        b = b + utf8_width(chars[k]);
        k = k + 1;
    }
    b
}

} // verus!
