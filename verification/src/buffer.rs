use vstd::prelude::*;
use crate::position::{Position, pos_le};
use crate::strings::string_from_chars;

verus! {

/// A stretch of text from `start` (included) to `end` (excluded).
#[derive(Debug, Clone, Copy, PartialEq, Eq, Structural)]
pub struct TextRange {
    pub start: Position,
    pub end: Position,
}

impl TextRange {
    pub fn new(start_line: usize, start_column: usize, end_line: usize, end_column: usize) -> (r: TextRange)
        ensures
            r.start == (Position { line: start_line, column: start_column }),
            r.end == (Position { line: end_line, column: end_column }),
    {
        TextRange {
            start: Position { line: start_line, column: start_column },
            end: Position { line: end_line, column: end_column },
        }
    }
}

/// The text after inserting `c` (not a line break) at `column` of line `line`.
pub open spec fn insert_char_spec(lines: Seq<Seq<char>>, line: int, column: int, c: char) -> Seq<Seq<char>> {
    lines.update(line, lines[line].take(column) + seq![c] + lines[line].skip(column))
}

/// The text after breaking line `line` at `column`.
pub open spec fn split_line_spec(lines: Seq<Seq<char>>, line: int, column: int) -> Seq<Seq<char>> {
    lines.take(line) + seq![lines[line].take(column), lines[line].skip(column)] + lines.skip(line + 1)
}

/// The text after typing `c` at a place: a line break splits the line.
pub open spec fn insert_spec(lines: Seq<Seq<char>>, line: int, column: int, c: char) -> Seq<Seq<char>> {
    if c == '\n' {
        split_line_spec(lines, line, column)
    } else {
        insert_char_spec(lines, line, column, c)
    }
}

/// The text after removing everything from `start` up to `end`.
pub open spec fn delete_range_spec(lines: Seq<Seq<char>>, start: Position, end: Position) -> Seq<Seq<char>> {
    lines.take(start.line as int)
        + seq![lines[start.line as int].take(start.column as int) + lines[end.line as int].skip(end.column as int)]
        + lines.skip(end.line + 1)
}

/// `p` designates a place of the text: an existing line, a column up to its end.
pub open spec fn valid_position(lines: Seq<Seq<char>>, p: Position) -> bool {
    p.line < lines.len() && p.column <= lines[p.line as int].len()
}

/// `start..end` is an ordered pair of places of the text.
pub open spec fn valid_range(lines: Seq<Seq<char>>, start: Position, end: Position) -> bool {
    valid_position(lines, start) && valid_position(lines, end) && pos_le(start, end)
}

/// No line holds a line break.
pub open spec fn no_line_breaks(lines: Seq<Seq<char>>) -> bool {
    forall|k: int, i: int| 0 <= k < lines.len() && 0 <= i < lines[k].len() ==> #[trigger] lines[k][i] != '\n'
}

proof fn lemma_insert_keeps(lines: Seq<Seq<char>>, line: int, column: int, c: char)
    requires
        no_line_breaks(lines),
        0 <= line < lines.len(),
        0 <= column <= lines[line].len(),
        c != '\n',
    ensures
        no_line_breaks(insert_char_spec(lines, line, column, c)),
{
    let r = insert_char_spec(lines, line, column, c);
    assert forall|k: int, i: int| 0 <= k < r.len() && 0 <= i < r[k].len() implies #[trigger] r[k][i] != '\n' by {
        if k == line {
            let t = lines[line];
            if i < column {
                assert(r[k][i] == t[i]);
            } else if i > column {
                assert(r[k][i] == t[i - 1]);
            }
        } else {
            assert(r[k] == lines[k]);
        }
    }
}

proof fn lemma_split_keeps(lines: Seq<Seq<char>>, line: int, column: int)
    requires
        no_line_breaks(lines),
        0 <= line < lines.len(),
        0 <= column <= lines[line].len(),
    ensures
        no_line_breaks(split_line_spec(lines, line, column)),
{
    let r = split_line_spec(lines, line, column);
    let t = lines[line];
    assert forall|k: int, i: int| 0 <= k < r.len() && 0 <= i < r[k].len() implies #[trigger] r[k][i] != '\n' by {
        if k < line {
            assert(r[k] == lines[k]);
        } else if k == line {
            assert(r[k][i] == t[i]);
        } else if k == line + 1 {
            assert(r[k][i] == t[column + i]);
        } else {
            assert(r[k] == lines[k - 1]);
        }
    }
}

proof fn lemma_delete_keeps(lines: Seq<Seq<char>>, start: Position, end: Position)
    requires
        no_line_breaks(lines),
        valid_range(lines, start, end),
    ensures
        no_line_breaks(delete_range_spec(lines, start, end)),
{
    let r = delete_range_spec(lines, start, end);
    let a = lines[start.line as int].take(start.column as int);
    let b = lines[end.line as int].skip(end.column as int);
    assert forall|k: int, i: int| 0 <= k < r.len() && 0 <= i < r[k].len() implies #[trigger] r[k][i] != '\n' by {
        if k < start.line {
            assert(r[k] == lines[k]);
        } else if k == start.line {
            assert(r[k] == a + b);
            if i < a.len() {
                assert(r[k][i] == lines[start.line as int][i]);
            } else {
                assert(r[k][i] == lines[end.line as int][end.column + i - a.len()]);
            }
        } else {
            assert(r[k] == lines[k - start.line + end.line]);
        }
    }
}

proof fn lemma_lines_of_keeps(s: Seq<char>)
    ensures
        no_line_breaks(lines_of(s)),
    decreases s.len(),
{
    if s.len() > 0 {
        lemma_lines_of_keeps(s.drop_last());
        lemma_lines_of_len(s.drop_last());
        let prev = lines_of(s.drop_last());
        if s.last() != '\n' {
            let r = lines_of(s);
            assert forall|k: int, i: int| 0 <= k < r.len() && 0 <= i < r[k].len() implies #[trigger] r[k][i] != '\n' by {
                if k == prev.len() - 1 {
                    if i < prev.last().len() {
                        assert(r[k][i] == prev[k][i]);
                    }
                } else {
                    assert(r[k] == prev[k]);
                }
            }
        } else {
            let r = lines_of(s);
            assert forall|k: int, i: int| 0 <= k < r.len() && 0 <= i < r[k].len() implies #[trigger] r[k][i] != '\n' by {
                assert(r[k] == prev[k]);
            }
        }
    }
}

/// The lines of a text: it is cut at each line break, which is dropped.
pub open spec fn lines_of(s: Seq<char>) -> Seq<Seq<char>>
    decreases s.len(),
{
    if s.len() == 0 {
        seq![Seq::empty()]
    } else {
        let prev = lines_of(s.drop_last());
        if s.last() == '\n' {
            prev.push(Seq::empty())
        } else {
            prev.update(prev.len() - 1, prev.last().push(s.last()))
        }
    }
}

/// The text of some lines, joined by line breaks.
pub open spec fn text_of(lines: Seq<Seq<char>>) -> Seq<char>
    decreases lines.len(),
{
    if lines.len() <= 1 {
        if lines.len() == 1 { lines[0] } else { Seq::empty() }
    } else {
        text_of(lines.drop_last()) + seq!['\n'] + lines.last()
    }
}

proof fn lemma_lines_of_len(s: Seq<char>)
    ensures
        lines_of(s).len() >= 1,
    decreases s.len(),
{
    if s.len() > 0 {
        lemma_lines_of_len(s.drop_last());
    }
}

/// Joining the lines of a text gives the text back.
pub proof fn law_lines_then_text(s: Seq<char>)
    ensures
        text_of(lines_of(s)) == s,
    decreases s.len(),
{
    if s.len() > 0 {
        let t = s.drop_last();
        law_lines_then_text(t);
        lemma_lines_of_len(t);
        let prev = lines_of(t);
        if s.last() == '\n' {
            let cur = prev.push(Seq::<char>::empty());
            assert(cur.drop_last() =~= prev);
            assert(text_of(cur) =~= t + seq!['\n']);
        } else {
            let cur = prev.update(prev.len() - 1, prev.last().push(s.last()));
            assert(cur.drop_last() =~= prev.drop_last());
            if prev.len() == 1 {
                assert(text_of(cur) =~= prev[0].push(s.last()));
            } else {
                assert(text_of(prev) == text_of(prev.drop_last()) + seq!['\n'] + prev.last());
                assert(text_of(cur) =~= text_of(prev.drop_last()) + seq!['\n'] + prev.last().push(s.last()));
            }
        }
        assert(t.push(s.last()) =~= s);
    }
}

proof fn lemma_lines_of_append(s: Seq<char>, b: Seq<char>)
    requires
        forall|i: int| 0 <= i < b.len() ==> b[i] != '\n',
    ensures
        lines_of(s + b) == lines_of(s).update(lines_of(s).len() - 1, lines_of(s).last() + b),
    decreases b.len(),
{
    lemma_lines_of_len(s);
    if b.len() == 0 {
        assert(s + b =~= s);
        assert(lines_of(s).last() + b =~= lines_of(s).last());
        assert(lines_of(s).update(lines_of(s).len() - 1, lines_of(s).last()) =~= lines_of(s));
    } else {
        let b0 = b.drop_last();
        lemma_lines_of_append(s, b0);
        assert((s + b).drop_last() =~= s + b0);
        assert((s + b).last() == b.last());
        let p = lines_of(s);
        let q = p.update(p.len() - 1, p.last() + b0);
        assert(q.last() == p.last() + b0);
        assert(q.last().push(b.last()) =~= p.last() + b);
        assert(q.update(q.len() - 1, q.last().push(b.last())) =~= p.update(p.len() - 1, p.last() + b));
    }
}

/// Cutting joined lines at their line breaks gives the lines back, when no line
/// holds a line break.
pub proof fn law_text_then_lines(lines: Seq<Seq<char>>)
    requires
        lines.len() >= 1,
        forall|k: int, i: int| 0 <= k < lines.len() && 0 <= i < lines[k].len() ==> lines[k][i] != '\n',
    ensures
        lines_of(text_of(lines)) == lines,
    decreases lines.len(),
{
    if lines.len() == 1 {
        lemma_lines_of_append(Seq::empty(), lines[0]);
        assert(Seq::<char>::empty() + lines[0] =~= lines[0]);
        assert(lines_of(Seq::<char>::empty()) =~= seq![Seq::<char>::empty()]);
        assert(Seq::<char>::empty() + lines[0] =~= lines[0]);
        assert(lines =~= seq![lines[0]]);
    } else {
        let init = lines.drop_last();
        law_text_then_lines(init);
        let t = text_of(init) + seq!['\n'];
        assert(t.drop_last() =~= text_of(init));
        assert(lines_of(t) == lines_of(text_of(init)).push(Seq::<char>::empty()));
        assert(forall|i: int| 0 <= i < lines.last().len() ==> lines.last()[i] != '\n');
        lemma_lines_of_append(t, lines.last());
        assert(Seq::<char>::empty() + lines.last() =~= lines.last());
        assert(lines_of(t).update(lines_of(t).len() - 1, lines_of(t).last() + lines.last()) =~= lines);
    }
}

/// The editable text, as a list of lines (without their line breaks).
/// There is always at least one line. Columns count characters.
#[derive(Debug)]
pub struct Buffer {
    lines: Vec<Vec<char>>,
    dirty: bool,
}

impl View for Buffer {
    type V = Seq<Seq<char>>;

    closed spec fn view(&self) -> Seq<Seq<char>> {
        self.lines@.map_values(|l: Vec<char>| l@)
    }
}

impl Buffer {
    /// The number of lines and the length of each line fit in `usize`.
    pub proof fn lemma_view_fits(&self)
        ensures
            self@.len() <= usize::MAX,
            forall|k: int| 0 <= k < self@.len() ==> #[trigger] self@[k].len() <= usize::MAX,
    {
        assert(self.lines@.len() == self.lines.len());
        assert forall|k: int| 0 <= k < self@.len() implies #[trigger] self@[k].len() <= usize::MAX by {
            assert(self@[k] == self.lines@[k]@);
            assert(self.lines@[k]@.len() == self.lines@[k].len());
        }
    }

    /// The text changed since it was loaded or saved.
    pub closed spec fn modified(&self) -> bool {
        self.dirty
    }

    pub fn is_dirty(&self) -> (b: bool)
        ensures
            b == self.modified(),
    {
        self.dirty
    }

    /// Marks the text as changed or not, leaving it as it is.
    pub fn set_dirty(&mut self, dirty: bool)
        ensures
            final(self).modified() == dirty,
            final(self)@ == old(self)@,
    {
        proof {
            use_type_invariant(&*self);
        }
        self.dirty = dirty;
    }

    #[verifier::type_invariant]
    spec fn has_a_line(&self) -> bool {
        self.lines@.len() >= 1 && no_line_breaks(self@)
    }

    /// The text cut into lines at its line breaks.
    pub fn from_text(text: &str) -> (b: Buffer)
        ensures
            b@ == lines_of(text@),
            !b.modified(),
            no_line_breaks(b@),
    {
        let chars = crate::utf8_text::chars_of(text);
        let mut lines: Vec<Vec<char>> = Vec::new();
        lines.push(Vec::new());
        let mut i: usize = 0;
        assert(chars@.take(0) =~= Seq::<char>::empty());
        assert(lines@.map_values(|l: Vec<char>| l@) =~= lines_of(chars@.take(0)));
        while i < chars.len()
            invariant
                i <= chars@.len(),
                chars@ == text@,
                lines@.len() >= 1,
                lines@.map_values(|l: Vec<char>| l@) == lines_of(chars@.take(i as int)),
            decreases chars@.len() - i,
        {
            let c = chars[i];
            let ghost prev = lines@.map_values(|l: Vec<char>| l@);
            assert(chars@.take(i + 1).drop_last() =~= chars@.take(i as int));
            assert(chars@.take(i + 1).last() == c);
            if c == '\n' {
                lines.push(Vec::new());
                assert(lines@.map_values(|l: Vec<char>| l@) =~= prev.push(Seq::<char>::empty()));
            } else {
                let last = lines.len() - 1;
                let mut line = lines.pop().unwrap();
                line.push(c);
                lines.push(line);
                assert(lines@.map_values(|l: Vec<char>| l@) =~= prev.update(last as int, prev.last().push(c)));
            }
            i = i + 1;
        }
        assert(chars@.take(chars@.len() as int) =~= chars@);
        proof {
            lemma_lines_of_keeps(text@);
        }
        Buffer { lines, dirty: false }
    }

    /// The whole text, lines joined by line breaks.
    pub fn to_text(&self) -> (s: String)
        ensures
            s@ == text_of(self@),
    {
        proof {
            use_type_invariant(self);
        }
        let mut out: Vec<char> = Vec::new();
        let mut k: usize = 0;
        while k < self.lines.len()
            invariant
                k <= self.lines@.len(),
                self.lines@.len() >= 1,
                k == 0 ==> out@ == Seq::<char>::empty(),
                k > 0 ==> out@ == text_of(self@.take(k as int)),
            decreases self.lines@.len() - k,
        {
            let ghost before = out@;
            if k > 0 {
                out.push('\n');
            }
            let line = &self.lines[k];
            let mut j: usize = 0;
            let ghost mid = out@;
            while j < line.len()
                invariant
                    j <= line@.len(),
                    out@ == mid + line@.take(j as int),
                decreases line@.len() - j,
            {
                out.push(line[j]);
                assert(line@.take(j + 1) =~= line@.take(j as int).push(line@[j as int]));
                j = j + 1;
            }
            proof {
                assert(line@.take(j as int) =~= line@);
                assert(self@[k as int] == line@);
                assert(self@.take(k + 1).drop_last() =~= self@.take(k as int));
                if k == 0 {
                    assert(out@ =~= self@.take(1)[0]);
                } else {
                    assert(out@ =~= text_of(self@.take(k as int)) + seq!['\n'] + self@.take(k + 1).last());
                }
            }
            k = k + 1;
        }
        assert(self@.take(self.lines@.len() as int) =~= self@);
        string_from_chars(&out)
    }

    /// A buffer holding one empty line.
    pub fn new_empty_buffer() -> (b: Buffer)
        ensures
            b@ == seq![Seq::<char>::empty()],
            !b.modified(),
            no_line_breaks(b@),
    {
        let mut lines: Vec<Vec<char>> = Vec::new();
        lines.push(Vec::new());
        let b = Buffer { lines, dirty: false };
        assert(b@ =~= seq![Seq::<char>::empty()]);
        b
    }

    pub fn line_count(&self) -> (n: usize)
        ensures
            n == self@.len(),
            n >= 1,
    {
        proof {
            use_type_invariant(self);
        }
        self.lines.len()
    }

    /// Number of characters of a line.
    pub fn line_length(&self, line: usize) -> (n: usize)
        requires
            line < self@.len(),
        ensures
            n == self@[line as int].len(),
    {
        self.lines[line].len()
    }

    /// The characters of a line.
    pub fn line_chars(&self, line: usize) -> (v: &Vec<char>)
        requires
            line < self@.len(),
        ensures
            v@ == self@[line as int],
    {
        &self.lines[line]
    }

    /// Moves the lines out, leaving one empty line in their place.
    fn take_lines(&mut self) -> (lines: Vec<Vec<char>>)
        ensures
            lines@.map_values(|l: Vec<char>| l@) == old(self)@,
            lines@.len() >= 1,
            final(self).dirty == old(self).dirty,
    {
        proof {
            use_type_invariant(&*self);
        }
        let mut lines: Vec<Vec<char>> = vec![Vec::new()];
        std::mem::swap(&mut lines, &mut self.lines);
        lines
    }

    /// The text of a line.
    pub fn line_text(&self, line: usize) -> (s: String)
        requires
            line < self@.len(),
        ensures
            s@ == self@[line as int],
    {
        string_from_chars(&self.lines[line])
    }

    /// Inserts `c` at a place; a line break splits the line there.
    pub fn insert_char(&mut self, line: usize, column: usize, c: char)
        requires
            valid_position(old(self)@, Position { line, column }),
        ensures
            final(self)@ == insert_spec(old(self)@, line as int, column as int, c),
            final(self).modified(),
            no_line_breaks(final(self)@),
    {
        if c == '\n' {
            self.insert_newline(line, column);
            return;
        }
        proof {
            use_type_invariant(&*self);
        }
        let ghost old_lines = self@;
        let mut lines = self.take_lines();
        let mut text = lines.remove(line);
        assert(text@ == old_lines[line as int]);
        text.insert(column, c);
        assert(text@ =~= old_lines[line as int].take(column as int) + seq![c] + old_lines[line as int].skip(column as int));
        lines.insert(line, text);
        proof {
            assert(lines@.map_values(|l: Vec<char>| l@) =~= insert_spec(old_lines, line as int, column as int, c));
            lemma_insert_keeps(old_lines, line as int, column as int, c);
        }
        self.lines = lines;
        self.dirty = true;
        assert(self@ =~= insert_spec(old_lines, line as int, column as int, c));
    }

    /// Breaks a line in two at `column`.
    pub fn insert_newline(&mut self, line: usize, column: usize)
        requires
            valid_position(old(self)@, Position { line, column }),
        ensures
            final(self)@ == split_line_spec(old(self)@, line as int, column as int),
            final(self).modified(),
            no_line_breaks(final(self)@),
    {
        proof {
            use_type_invariant(&*self);
        }
        let ghost old_lines = self@;
        let mut lines = self.take_lines();
        let _n = lines.len();
        let mut text = lines.remove(line);
        assert(text@ == old_lines[line as int]);
        let tail = text.split_off(column);
        lines.insert(line, text);
        lines.insert(line + 1, tail);
        proof {
            assert(lines@.map_values(|l: Vec<char>| l@) =~= split_line_spec(old_lines, line as int, column as int));
            lemma_split_keeps(old_lines, line as int, column as int);
        }
        self.lines = lines;
        self.dirty = true;
        assert(self@ =~= split_line_spec(old_lines, line as int, column as int));
    }

    /// Removes the text of a range; the lines it touches are joined.
    pub fn delete_range(&mut self, range: TextRange)
        requires
            valid_range(old(self)@, range.start, range.end),
        ensures
            final(self)@ == delete_range_spec(old(self)@, range.start, range.end),
            final(self).modified(),
            no_line_breaks(final(self)@),
    {
        proof {
            use_type_invariant(&*self);
        }
        let ghost old_lines = self@;
        let start = range.start;
        let end = range.end;
        let mut lines = self.take_lines();
        let _n = lines.len();
        let mut after = lines.split_off(end.line + 1);
        assert(after@.map_values(|l: Vec<char>| l@) =~= old_lines.skip(end.line + 1));
        let mut end_text = lines.pop().unwrap();
        assert(end_text@ == old_lines[end.line as int]);
        let mut tail = end_text.split_off(end.column);
        let mut first = if start.line == end.line {
            end_text
        } else {
            lines.truncate(start.line + 1);
            lines.pop().unwrap()
        };
        assert(first@.take(start.column as int) == old_lines[start.line as int].take(start.column as int));
        first.truncate(start.column);
        first.append(&mut tail);
        assert(lines@.map_values(|l: Vec<char>| l@) =~= old_lines.take(start.line as int));
        lines.push(first);
        lines.append(&mut after);
        proof {
            assert(lines@.map_values(|l: Vec<char>| l@) =~= delete_range_spec(old_lines, start, end));
            lemma_delete_keeps(old_lines, start, end);
        }
        self.lines = lines;
        self.dirty = true;
        assert(self@ =~= delete_range_spec(old_lines, start, end));
    }
}

} // verus!
