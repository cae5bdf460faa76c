use vstd::prelude::*;
use crate::buffer::Buffer;
use crate::position::Position;
use crate::search::SearchMatcher;
use crate::search::regex_search_matcher::{RegexRefusal, RegexSearchMatcher, compiled_as, regex_refusal};
use crate::search::simple_search_matcher::SimpleSearchMatcher;
use crate::selection::Selection;
use crate::strings::lowered;
use crate::keys::{ascii_lower_seq, lemma_ascii_lower_byte};
use vstd::utf8::is_ascii_chars;
use vstd::string::StrSliceExecFns;
use crate::text_area::{TextAreaProperties, top_line_for};
use crate::utf8_text::{byte_len, byte_offset, char_width, lemma_byte_offset_step, text_byte_len, utf8_width};

verus! {

/// The column holding byte `b` of a line: the number of characters that end
/// at or before `b`.
pub open spec fn byte_column(line: Seq<char>, b: int) -> nat
    decreases line.len(),
{
    if line.len() == 0 || char_width(line[0]) > b {
        0
    } else {
        1 + byte_column(line.drop_first(), b - char_width(line[0]))
    }
}

/// One probe of the search: a line, and whether it belongs to the second pass
/// (the wrap-around from the top of the text).
pub open spec fn probes(line_count: int, start_line: int) -> Seq<(int, bool)> {
    Seq::new((line_count - start_line) as nat, |i: int| (start_line + i, false))
        + Seq::new((start_line + 1) as nat, |i: int| (i, true))
}

/// The column a probe searches from: after (or at) the start position on its
/// line in the first pass, the line start otherwise.
pub open spec fn probe_from(start: Position, find_next: bool, probe: (int, bool)) -> int {
    if !probe.1 && probe.0 == start.line {
        if find_next { start.column + 1 } else { start.column as int }
    } else {
        0
    }
}

/// A probe that starts at or past the end of a non-empty stretch finds nothing.
pub open spec fn probe_skipped(line: Seq<char>, from: int) -> bool {
    from >= line.len() && from > 0
}

/// A match found in the second pass counts only before the start position.
pub open spec fn probe_accepts(start: Position, find_next: bool, probe: (int, bool), col: int) -> bool {
    let to_col: int = if find_next {
        start.column as int
    } else if start.column > 0 {
        start.column - 1
    } else {
        0
    };
    !probe.1 || probe.0 < start.line || col <= to_col
}

/// `res` is an answer the matcher may give for a probe (none where the probe is
/// skipped or the matcher is not defined there).
pub open spec fn answer_ok<M: SearchMatcher>(
    m: &M,
    lines: Seq<Seq<char>>,
    start: Position,
    find_next: bool,
    probe: (int, bool),
    res: Option<(usize, usize)>,
) -> bool {
    let line = lines[probe.0];
    let from = probe_from(start, find_next, probe);
    if probe_skipped(line, from) || !m.search_defined(line, byte_offset(line, from) as int) {
        res is None
    } else {
        m.search_ok(line, byte_offset(line, from) as int, res)
    }
}

/// The match (line, start column, end column) a probe yields from an answer.
pub open spec fn probe_hit(
    lines: Seq<Seq<char>>,
    start: Position,
    find_next: bool,
    probe: (int, bool),
    res: Option<(usize, usize)>,
) -> Option<(usize, usize, usize)> {
    match res {
        None => None,
        Some((s, e)) => {
            let line = lines[probe.0];
            let sc = byte_column(line, s as int);
            if probe_accepts(start, find_next, probe, sc as int) {
                Some((probe.0 as usize, sc as usize, byte_column(line, e as int) as usize))
            } else {
                None
            }
        },
    }
}

/// The first match among the answers to the first probes.
pub open spec fn first_hit(
    lines: Seq<Seq<char>>,
    start: Position,
    find_next: bool,
    ps: Seq<(int, bool)>,
    rs: Seq<Option<(usize, usize)>>,
) -> Option<(usize, usize, usize)>
    decreases rs.len(),
{
    if rs.len() == 0 {
        None
    } else {
        match first_hit(lines, start, find_next, ps, rs.drop_last()) {
            Some(h) => Some(h),
            None => probe_hit(lines, start, find_next, ps[rs.len() - 1], rs.last()),
        }
    }
}

/// `r` is what a search of the text from `start` gives: the probes are made in
/// order until one yields a match, each answered as the matcher may answer.
pub open spec fn search_outcome<M: SearchMatcher>(
    m: &M,
    lines: Seq<Seq<char>>,
    start: Position,
    find_next: bool,
    r: Option<(usize, usize, usize)>,
) -> bool {
    let ps = probes(lines.len() as int, start.line as int);
    exists|rs: Seq<Option<(usize, usize)>>| {
        &&& rs.len() <= ps.len()
        &&& forall|k: int| 0 <= k < rs.len() ==> answer_ok(m, lines, start, find_next, #[trigger] ps[k], rs[k])
        &&& r == first_hit(lines, start, find_next, ps, rs)
        &&& (r is None ==> rs.len() == ps.len())
    }
}

proof fn lemma_outcome<M: SearchMatcher>(
    m: &M,
    lines: Seq<Seq<char>>,
    start: Position,
    find_next: bool,
    rs: Seq<Option<(usize, usize)>>,
    r: Option<(usize, usize, usize)>,
)
    requires
        rs.len() <= probes(lines.len() as int, start.line as int).len(),
        forall|k: int| 0 <= k < rs.len() ==> answer_ok(m, lines, start, find_next,
            #[trigger] probes(lines.len() as int, start.line as int)[k], rs[k]),
        r == first_hit(lines, start, find_next, probes(lines.len() as int, start.line as int), rs),
        r is None ==> rs.len() == probes(lines.len() as int, start.line as int).len(),
    ensures
        search_outcome(m, lines, start, find_next, r),
{
}

proof fn lemma_byte_column_bound(line: Seq<char>, b: int)
    ensures
        byte_column(line, b) <= line.len(),
    decreases line.len(),
{
    if line.len() > 0 && char_width(line[0]) <= b {
        lemma_byte_column_bound(line.drop_first(), b - char_width(line[0]));
    }
}

proof fn lemma_byte_column_mono(line: Seq<char>, a: int, b: int)
    requires
        a <= b,
    ensures
        byte_column(line, a) <= byte_column(line, b),
    decreases line.len(),
{
    if line.len() > 0 && char_width(line[0]) <= a {
        lemma_byte_column_mono(line.drop_first(), a - char_width(line[0]), b - char_width(line[0]));
    }
}

/// The column holding byte `b` of a line.
pub fn column_of_byte(chars: &Vec<char>, b: usize) -> (c: usize)
    ensures
        c == byte_column(chars@, b as int),
{
    let mut k: usize = 0;
    let mut rest: usize = b;
    proof {
        assert(chars@.skip(0) =~= chars@);
    }
    while k < chars.len()
        invariant
            k <= chars@.len(),
            byte_column(chars@, b as int) == k + byte_column(chars@.skip(k as int), rest as int),
        decreases chars@.len() - k,
    {
        let w = utf8_width(chars[k]);
        if w > rest {
            return k;
        }
        proof {
            assert(chars@.skip(k as int).drop_first() =~= chars@.skip(k + 1));
        }
        rest = rest - w;
        k = k + 1;
    }
    k
}

/// The byte offset of column `col` of a line.
pub fn byte_of_column(chars: &Vec<char>, col: usize) -> (b: usize)
    requires
        col <= chars@.len(),
        byte_len(chars@) <= usize::MAX,
    ensures
        b == byte_offset(chars@, col as int),
{
    let mut k: usize = 0;
    let mut b: usize = 0;
    proof {
        assert(chars@.take(0) =~= Seq::<char>::empty());
        crate::utf8_text::lemma_byte_offset_mono(chars@, col as int, chars@.len() as int);
        crate::utf8_text::lemma_byte_offset_full(chars@);
    }
    while k < col
        invariant
            k <= col <= chars@.len(),
            b == byte_offset(chars@, k as int),
            byte_offset(chars@, col as int) <= usize::MAX,
        decreases col - k,
    {
        proof {
            lemma_byte_offset_step(chars@, k as int);
            crate::utf8_text::lemma_byte_offset_mono(chars@, k + 1, col as int);
        }
        b = b + utf8_width(chars[k]);
        k = k + 1;
    }
    b
}

/// In an ASCII text the byte offset of a column is the column.
proof fn lemma_ascii_offset(s: Seq<char>, k: int)
    requires
        is_ascii_chars(s),
        0 <= k <= s.len(),
    ensures
        byte_offset(s, k) == k,
{
    let t = s.take(k);
    assert(is_ascii_chars(t));
    vstd::utf8::is_ascii_chars_encode_utf8(t);
    crate::utf8_text::lemma_byte_len_encode(t);
}

/// A plain search may be asked from the start of any column of a line where
/// letter case counts, and also where it is ignored when the line is ASCII
/// (lower-casing it then keeps every character one byte wide).
pub proof fn lemma_plain_search_defined(m: SimpleSearchMatcher, line: Seq<char>, col: int)
    requires
        0 <= col <= line.len(),
        m.case_insensitive_view() ==> is_ascii_chars(line),
    ensures
        m.search_defined(line, byte_offset(line, col) as int),
{
    if m.case_insensitive_view() {
        let t = ascii_lower_seq(line);
        assert(lowered(line) == t);
        assert forall|i: int| 0 <= i < t.len() implies '\0' <= #[trigger] t[i] <= '\u{7f}' by {
            lemma_ascii_lower_byte(line[i]);
        }
        lemma_ascii_offset(line, col);
        lemma_ascii_offset(t, col);
    }
    assert(byte_offset(m.search_text(line), col) == byte_offset(line, col));
}

/// A regular-expression search may be asked from the start of any column.
pub proof fn lemma_regex_search_defined(m: RegexSearchMatcher, line: Seq<char>, col: int)
    requires
        0 <= col <= line.len(),
    ensures
        m.search_defined(line, byte_offset(line, col) as int),
{
    crate::utf8_text::lemma_byte_offset_mono(line, col, line.len() as int);
    crate::utf8_text::lemma_byte_offset_full(line);
}

/// Asks the matcher about one probe: nothing when the probe starts at or past
/// the end of a non-empty line, or where the matcher is not defined. For the
/// search bar's matchers the latter happens only when letter case is ignored
/// and lower-casing a non-ASCII line moves the probe's byte off a character
/// start (`lemma_plain_search_defined`, `lemma_regex_search_defined`).
pub fn find_in_line<M: SearchMatcher>(m: &M, buffer: &Buffer, line: usize, from: usize) -> (r: Option<(usize, usize)>)
    requires
        line < buffer@.len(),
    ensures
        ({
            let text = buffer@[line as int];
            if probe_skipped(text, from as int) || !m.search_defined(text, byte_offset(text, from as int) as int) {
                r is None
            } else {
                m.search_ok(text, byte_offset(text, from as int) as int, r)
            }
        }),
        r matches Some((s, e)) ==> s <= e,
{
    let chars = buffer.line_chars(line);
    if from >= chars.len() && from > 0 {
        return None;
    }
    let text = buffer.line_text(line);
    let t = text.as_str();
    let _len = text_byte_len(t);
    let from_byte = byte_of_column(chars, from);
    if !m.defined(t, from_byte) {
        return None;
    }
    m.search(t, from_byte)
}

/// Searches the text from `start` to its end, then from its top back to
/// `start`, and gives the first match as (line, start column, end column).
pub fn search_lines<M: SearchMatcher>(m: &M, buffer: &Buffer, start: Position, find_next: bool) -> (r: Option<(usize, usize, usize)>)
    requires
        start.line < buffer@.len(),
    ensures
        search_outcome(m, buffer@, start, find_next, r),
        r matches Some((l, s, e)) ==> l < buffer@.len() && s <= e <= buffer@[l as int].len(),
{
    let line_count = buffer.line_count();
    let ghost lines = buffer@;
    let ghost ps = probes(line_count as int, start.line as int);
    let ghost mut rs: Seq<Option<(usize, usize)>> = Seq::empty();
    let mut line = start.line;
    while line < line_count
        invariant
            lines == buffer@,
            line_count == lines.len(),
            start.line < lines.len(),
            ps == probes(line_count as int, start.line as int),
            start.line <= line <= line_count,
            rs.len() == line - start.line,
            forall|k: int| 0 <= k < rs.len() ==> answer_ok(m, lines, start, find_next, #[trigger] ps[k], rs[k]),
            first_hit(lines, start, find_next, ps, rs) is None,
        decreases line_count - line,
    {
        let ghost k = rs.len() as int;
        assert(ps[k] == (line as int, false));
        let res = if line == start.line && find_next {
            if start.column >= buffer.line_length(line) {
                None
            } else {
                find_in_line(m, buffer, line, start.column + 1)
            }
        } else if line == start.line {
            find_in_line(m, buffer, line, start.column)
        } else {
            find_in_line(m, buffer, line, 0)
        };
        let ghost before = rs;
        proof {
            rs = rs.push(res);
            assert(rs.drop_last() =~= before);
        }
        if let Some((s, e)) = res {
            let chars = buffer.line_chars(line);
            let sc = column_of_byte(chars, s);
            let ec = column_of_byte(chars, e);
            proof {
                lemma_byte_column_mono(lines[line as int], s as int, e as int);
                lemma_byte_column_bound(lines[line as int], e as int);
                lemma_outcome(m, lines, start, find_next, rs, Some((line, sc, ec)));
            }
            return Some((line, sc, ec));
        }
        line = line + 1;
    }
    let mut line2: usize = 0;
    while line2 <= start.line
        invariant
            lines == buffer@,
            line_count == lines.len(),
            start.line < lines.len(),
            ps == probes(line_count as int, start.line as int),
            line2 <= start.line + 1,
            rs.len() == (line_count - start.line) + line2,
            forall|k: int| 0 <= k < rs.len() ==> answer_ok(m, lines, start, find_next, #[trigger] ps[k], rs[k]),
            first_hit(lines, start, find_next, ps, rs) is None,
        decreases start.line + 1 - line2,
    {
        let ghost k = rs.len() as int;
        assert(ps[k] == (line2 as int, true));
        let res = find_in_line(m, buffer, line2, 0);
        let ghost before = rs;
        proof {
            rs = rs.push(res);
            assert(rs.drop_last() =~= before);
        }
        if let Some((s, e)) = res {
            let chars = buffer.line_chars(line2);
            let sc = column_of_byte(chars, s);
            let to_col = if find_next {
                start.column
            } else if start.column > 0 {
                start.column - 1
            } else {
                0
            };
            if line2 < start.line || sc <= to_col {
                let ec = column_of_byte(chars, e);
                proof {
                    lemma_byte_column_mono(lines[line2 as int], s as int, e as int);
                    lemma_byte_column_bound(lines[line2 as int], e as int);
                    lemma_outcome(m, lines, start, find_next, rs, Some((line2, sc, ec)));
                }
                return Some((line2, sc, ec));
            }
        }
        line2 = line2 + 1;
    }
    proof {
        lemma_outcome(m, lines, start, find_next, rs, None);
    }
    None
}

/// The state of the search bar.
#[derive(Debug)]
pub struct SearchToolbar {
    pub query: String,
    pub case_sensitive: bool,
    pub whole_words: bool,
    pub is_regex: bool,
    pub should_focus: bool,
    pub last_search_failed: bool,
    pub start_search_pos: Option<Position>,
}

/// `r` is what the search bar's matcher gives for a search of `lines`: a
/// regular expression compiled from the query when asked for, otherwise the
/// plain query; letter case is ignored (the query lower-cased) unless the
/// case-sensitive toggle is on.
pub open spec fn toolbar_outcome(
    tb: SearchToolbar,
    lines: Seq<Seq<char>>,
    start: Position,
    find_next: bool,
    r: Option<(usize, usize, usize)>,
) -> bool {
    if tb.is_regex {
        exists|m: RegexSearchMatcher| #![trigger m.pattern_view()]
            m.pattern_view() == tb.query@
            && m.case_insensitive_view() == !tb.case_sensitive
            && m.whole_words_view() == tb.whole_words
            && search_outcome(&m, lines, start, find_next, r)
    } else {
        exists|m: SimpleSearchMatcher| #![trigger m.query_view()]
            m.query_view() == (if tb.case_sensitive { tb.query@ } else { lowered(tb.query@) })
            && m.case_insensitive_view() == !tb.case_sensitive
            && m.whole_words_view() == tb.whole_words
            && search_outcome(&m, lines, start, find_next, r)
    }
}

/// The caret and selection cover the match, and the view scrolls to a few lines above it.
pub open spec fn match_shown(b: TextAreaProperties, a: TextAreaProperties, line: usize, s: usize, e: usize) -> bool {
    &&& a.buffer@ == b.buffer@
    &&& a.caret_position == (Position { line, column: e })
    &&& a.selection == Some(Selection { start: Position { line, column: s }, end: Position { line, column: e } })
    &&& a.interaction_mode == b.interaction_mode
    &&& a.first_line == top_line_for(if line >= 5 { line - 5 } else { 0 }, b.buffer@.len() as int)
}

impl Default for SearchToolbar {
    fn default() -> (t: Self)
        ensures
            t.query@ == Seq::<char>::empty(),
            !t.case_sensitive && !t.whole_words && !t.is_regex,
            !t.should_focus && !t.last_search_failed,
            t.start_search_pos is None,
    {
        SearchToolbar {
            query: String::new(),
            case_sensitive: false,
            whole_words: false,
            is_regex: false,
            should_focus: false,
            last_search_failed: false,
            start_search_pos: None,
        }
    }
}

impl SearchToolbar {
    /// Searches again from where the search bar was opened (the text start if unknown).
    pub fn do_search_from_start(&mut self, textarea_properties: &mut TextAreaProperties) -> (r: Result<(), ()>)
        requires
            old(self).query@.len() > 0 ==> (old(self).start_search_pos matches Some(p) ==> p.line < old(textarea_properties).buffer@.len()),
        ensures
            final(self).query == old(self).query,
            final(self).start_search_pos == old(self).start_search_pos,
            searched(*old(self), *final(self), *old(textarea_properties), *final(textarea_properties),
                match old(self).start_search_pos { Some(p) => p, None => Position { line: 0, column: 0 } }, false, r),
    {
        let _count = textarea_properties.buffer.line_count();
        let start_pos = match self.start_search_pos {
            Some(p) => p,
            None => Position::zero(),
        };
        self.do_search_inner(textarea_properties, start_pos, false)
    }

    /// Searches the next match after the caret.
    pub fn do_search(&mut self, textarea_properties: &mut TextAreaProperties) -> (r: Result<(), ()>)
        requires
            old(self).query@.len() > 0 ==> old(textarea_properties).caret_position.line < old(textarea_properties).buffer@.len(),
        ensures
            final(self).query == old(self).query,
            final(self).start_search_pos == old(self).start_search_pos,
            searched(*old(self), *final(self), *old(textarea_properties), *final(textarea_properties),
                old(textarea_properties).caret_position, true, r),
    {
        let start_pos = textarea_properties.caret_position;
        self.do_search_inner(textarea_properties, start_pos, true)
    }

    /// Searches the query from `start_pos` (just after it when `find_next`),
    /// wrapping around to the top of the text. A match is selected and `Err`
    /// returned; `Ok` means the search ran and found nothing, and marks it failed.
    /// An empty query and a refused regular expression give `Err` and change nothing.
    pub fn do_search_inner(
        &mut self,
        textarea_properties: &mut TextAreaProperties,
        start_pos: Position,
        find_next: bool,
    ) -> (r: Result<(), ()>)
        requires
            old(self).query@.len() > 0 ==> start_pos.line < old(textarea_properties).buffer@.len(),
        ensures
            searched(*old(self), *final(self), *old(textarea_properties), *final(textarea_properties), start_pos, find_next, r),
    {
        self.last_search_failed = false;
        if self.query.as_str().unicode_len() == 0 {
            return Err(());
        }
        let line_count = textarea_properties.buffer.line_count();
        if line_count == 0 {
            return Err(());
        }
        if self.is_regex {
            let compiled = RegexSearchMatcher::new(self.query.as_str(), self.case_sensitive, self.whole_words);
            let ghost mid = *self;
            let res = self.search_with_regex(textarea_properties, compiled, start_pos, find_next);
            proof {
                let t0 = *old(textarea_properties);
                let t1 = *textarea_properties;
                if search_ran(mid, *self, t0, t1, start_pos, find_next, res) {
                    let found = choose|found: Option<(usize, usize, usize)>| {
                        &&& toolbar_outcome(mid, t0.buffer@, start_pos, find_next, found)
                        &&& match found {
                            Some((line, s, e)) => res is Err && !self.last_search_failed && match_shown(t0, t1, line, s, e)
                                && t1.caret_ok() && t1.selection_ok(),
                            None => res is Ok && self.last_search_failed && t1 == t0,
                        }
                    };
                    assert(toolbar_outcome(*old(self), t0.buffer@, start_pos, find_next, found));
                }
            }
            return res;
        }
        let m = SimpleSearchMatcher::new(self.query.as_str(), !self.case_sensitive, self.whole_words);
        let found = search_lines(&m, &textarea_properties.buffer, start_pos, find_next);
        proof {
            assert(m.query_view() == (if self.case_sensitive { self.query@ } else { lowered(self.query@) }));
            assert(toolbar_outcome(*old(self), old(textarea_properties).buffer@, start_pos, find_next, found));
        }
        self.show_found(textarea_properties, found)
    }

    /// Finishes a regular-expression search with what compiling the query
    /// gave: a refused pattern gives `Err` and changes nothing; a compiled one
    /// is searched from `start_pos`.
    pub fn search_with_regex(
        &mut self,
        textarea_properties: &mut TextAreaProperties,
        compiled: Result<RegexSearchMatcher, RegexRefusal>,
        start_pos: Position,
        find_next: bool,
    ) -> (r: Result<(), ()>)
        requires
            old(self).is_regex,
            compiled is Ok ==> start_pos.line < old(textarea_properties).buffer@.len(),
            compiled_as(compiled, old(self).query@, !old(self).case_sensitive, old(self).whole_words),
        ensures
            toggles_kept(*old(self), *final(self)),
            compiled is Err ==> search_refused(*final(self), *old(textarea_properties), *final(textarea_properties), r),
            compiled is Ok ==> search_ran(*old(self), *final(self), *old(textarea_properties),
                *final(textarea_properties), start_pos, find_next, r),
    {
        self.last_search_failed = false;
        match compiled {
            Ok(m) => {
                let found = search_lines(&m, &textarea_properties.buffer, start_pos, find_next);
                proof {
                    assert(m.pattern_view() == self.query@);
                    assert(toolbar_outcome(*old(self), old(textarea_properties).buffer@, start_pos, find_next, found));
                }
                self.show_found(textarea_properties, found)
            },
            Err(_) => Err(()),
        }
    }

    /// Selects what a search found (answering `Err`), or marks the search
    /// failed when it found nothing (answering `Ok`).
    fn show_found(&mut self, textarea_properties: &mut TextAreaProperties, found: Option<(usize, usize, usize)>) -> (r: Result<(), ()>)
        requires
            found matches Some((l, s, e)) ==> l < old(textarea_properties).buffer@.len() && s <= e <= old(textarea_properties).buffer@[l as int].len(),
        ensures
            final(self).query == old(self).query,
            final(self).start_search_pos == old(self).start_search_pos,
            final(self).case_sensitive == old(self).case_sensitive,
            final(self).whole_words == old(self).whole_words,
            final(self).is_regex == old(self).is_regex,
            final(self).should_focus == old(self).should_focus,
            match found {
                Some((line, s, e)) => r is Err && !final(self).last_search_failed
                    && match_shown(*old(textarea_properties), *final(textarea_properties), line, s, e)
                    && final(textarea_properties).caret_ok() && final(textarea_properties).selection_ok(),
                None => r is Ok && final(self).last_search_failed && *final(textarea_properties) == *old(textarea_properties),
            },
    {
        match found {
            Some((line, start, end)) => {
                self.apply_found_match(textarea_properties, line, start, end);
                self.last_search_failed = false;
                Err(())
            },
            None => {
                self.last_search_failed = true;
                Ok(())
            },
        }
    }

    /// Selects a match and puts the caret at its end.
    pub fn apply_found_match(&self, textarea_properties: &mut TextAreaProperties, line: usize, start_col: usize, end_col: usize)
        requires
            start_col <= end_col,
        ensures
            match_shown(*old(textarea_properties), *final(textarea_properties), line, start_col, end_col),
    {
        let start = Position { line, column: start_col };
        let end = Position { line, column: end_col };
        textarea_properties.caret_position = end;
        textarea_properties.selection = Some(Selection::new(start, end));
        let top = if line >= 5 { line - 5 } else { 0 };
        textarea_properties.set_first_line(top);
    }
}

/// The search bar gave up before searching: `Err`, nothing marked failed,
/// the text area unchanged.
pub open spec fn search_refused(tb: SearchToolbar, t0: TextAreaProperties, t: TextAreaProperties, r: Result<(), ()>) -> bool {
    r is Err && !tb.last_search_failed && t == t0
}

/// The search ran with the bar's matcher: a match is selected and `Err`
/// returned, or nothing was found, `Ok` returned and the search marked failed.
pub open spec fn search_ran(
    tb0: SearchToolbar,
    tb: SearchToolbar,
    t0: TextAreaProperties,
    t: TextAreaProperties,
    start: Position,
    find_next: bool,
    r: Result<(), ()>,
) -> bool {
    exists|found: Option<(usize, usize, usize)>| #![trigger toolbar_outcome(tb0, t0.buffer@, start, find_next, found)] {
        &&& toolbar_outcome(tb0, t0.buffer@, start, find_next, found)
        &&& match found {
            Some((line, s, e)) => r is Err && !tb.last_search_failed && match_shown(t0, t, line, s, e)
                && t.caret_ok() && t.selection_ok(),
            None => r is Ok && tb.last_search_failed && t == t0,
        }
    }
}

/// The toggles and focus request of the bar are kept.
pub open spec fn toggles_kept(tb0: SearchToolbar, tb: SearchToolbar) -> bool {
    &&& tb.query == tb0.query
    &&& tb.start_search_pos == tb0.start_search_pos
    &&& tb.case_sensitive == tb0.case_sensitive
    &&& tb.whole_words == tb0.whole_words
    &&& tb.is_regex == tb0.is_regex
    &&& tb.should_focus == tb0.should_focus
}

/// What a search by the bar did, ending in `r`: an empty query is refused; a
/// plain query is searched; a regular expression with a syntax error is
/// refused, and a valid one is searched unless it exceeds the regex crate's
/// size limit (measured in the machine's memory sizes, so for a valid pattern
/// either outcome is allowed here).
pub open spec fn searched(
    tb0: SearchToolbar,
    tb: SearchToolbar,
    t0: TextAreaProperties,
    t: TextAreaProperties,
    start: Position,
    find_next: bool,
    r: Result<(), ()>,
) -> bool {
    &&& toggles_kept(tb0, tb)
    &&& (tb0.query@.len() == 0 ==> search_refused(tb, t0, t, r))
    &&& (tb0.query@.len() > 0 && !tb0.is_regex ==> search_ran(tb0, tb, t0, t, start, find_next, r))
    &&& (tb0.query@.len() > 0 && tb0.is_regex ==> match regex_refusal(tb0.query@, !tb0.case_sensitive) {
        Some(_) => search_refused(tb, t0, t, r),
        None => search_ran(tb0, tb, t0, t, start, find_next, r) || search_refused(tb, t0, t, r),
    })
}

} // verus!
