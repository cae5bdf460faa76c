use vstd::prelude::*;
use crate::number::{decimal_text, is_digit, law_decimal_round_trip, lemma_decimal_text, parse_usize, parse_usize_slice};
use crate::utf8_text::chars_of;

verus! {

/// A range of line numbers typed as a command: `a..b`, `..b` or `a..`.
#[derive(Debug, PartialEq, Eq, Structural)]
pub struct Range {
    pub start: usize,
    pub end: Option<usize>,
}

/// `..` starts at character index `i`.
pub open spec fn dots_at(s: Seq<char>, i: int) -> bool {
    0 <= i && i + 1 < s.len() && s[i] == '.' && s[i + 1] == '.'
}

/// Index of the first `..` starting at `i` or later, `s.len()` when there is none.
pub open spec fn first_dots_from(s: Seq<char>, i: int) -> int
    decreases s.len() - i,
{
    if i >= s.len() {
        s.len() as int
    } else if dots_at(s, i) {
        i
    } else {
        first_dots_from(s, i + 1)
    }
}

/// The range a command denotes, as `Range::try_from` reads it.
pub open spec fn parse_range(s: Seq<char>) -> Result<Range, ()> {
    if dots_at(s, 0) {
        match parse_usize(s.skip(2)) {
            Some(e) => Ok(Range { start: 0, end: Some(e) }),
            None => Err(()),
        }
    } else if dots_at(s, s.len() - 2) {
        match parse_usize(s.take(s.len() - 2)) {
            Some(b) => Ok(Range { start: b, end: None }),
            None => Err(()),
        }
    } else {
        let i = first_dots_from(s, 0);
        if 0 <= i < s.len() && first_dots_from(s, i + 2) >= s.len() {
            match (parse_usize(s.take(i)), parse_usize(s.skip(i + 2))) {
                (Some(a), Some(b)) => if a <= b {
                    Ok(Range { start: a, end: Some(b) })
                } else {
                    Err(())
                },
                _ => Err(()),
            }
        } else {
            Err(())
        }
    }
}

/// Whether `value` lies in the range (the end is excluded, a missing end is unbounded).
pub open spec fn range_contains(r: Range, value: int) -> bool {
    r.start <= value && match r.end {
        Some(e) => value < e,
        None => true,
    }
}

proof fn lemma_first_dots_from(s: Seq<char>, i: int)
    requires
        0 <= i,
    ensures
        i <= first_dots_from(s, i) <= s.len() || (i > s.len() && first_dots_from(s, i) == s.len()),
        first_dots_from(s, i) < s.len() ==> dots_at(s, first_dots_from(s, i)),
    decreases s.len() - i,
{
    if i < s.len() && !dots_at(s, i) {
        lemma_first_dots_from(s, i + 1);
    }
}

/// No `..` starts from `i` to `j` when no character there is a dot.
proof fn lemma_no_dots(s: Seq<char>, i: int, j: int)
    requires
        0 <= i <= j <= s.len(),
        forall|k: int| i <= k < j ==> s[k] != '.',
    ensures
        first_dots_from(s, i) == first_dots_from(s, j),
    decreases j - i,
{
    if i < j {
        lemma_no_dots(s, i + 1, j);
    }
}

/// A range written as `a..b` reads back as itself when `a <= b`, and is
/// refused otherwise.
pub proof fn law_range_text_round_trip(a: usize, b: usize)
    ensures
        parse_range(decimal_text(a as nat) + seq!['.', '.'] + decimal_text(b as nat))
            == if a <= b { Ok::<Range, ()>(Range { start: a, end: Some(b) }) } else { Err::<Range, ()>(()) },
{
    let ta = decimal_text(a as nat);
    let tb = decimal_text(b as nat);
    let s = ta + seq!['.', '.'] + tb;
    lemma_decimal_text(a as nat);
    lemma_decimal_text(b as nat);
    law_decimal_round_trip(a);
    law_decimal_round_trip(b);
    let n = ta.len() as int;
    assert forall|k: int| 0 <= k < n implies s[k] != '.' by {
        assert(s[k] == ta[k]);
        assert(is_digit(ta[k]));
    }
    assert forall|k: int| n + 2 <= k < s.len() implies s[k] != '.' by {
        assert(s[k] == tb[k - n - 2]);
        assert(is_digit(tb[k - n - 2]));
    }
    assert(s[0] != '.');
    assert(s[s.len() - 1] != '.') by {
        assert(s[s.len() - 1] == tb[tb.len() - 1]);
        assert(is_digit(tb[tb.len() - 1]));
    }
    assert(!dots_at(s, 0));
    assert(!dots_at(s, s.len() - 2));
    lemma_no_dots(s, 0, n);
    assert(dots_at(s, n));
    assert(first_dots_from(s, n) == n);
    lemma_no_dots(s, n + 2, s.len() as int);
    assert(first_dots_from(s, s.len() as int) == s.len());
    assert(s.take(n) =~= ta);
    assert(s.skip(n + 2) =~= tb);
}

/// A range written as `..b` reads back as the lines from 0 up to `b`.
pub proof fn law_range_up_to(b: usize)
    ensures
        parse_range(seq!['.', '.'] + decimal_text(b as nat)) == Ok::<Range, ()>(Range { start: 0, end: Some(b) }),
{
    let s = seq!['.', '.'] + decimal_text(b as nat);
    law_decimal_round_trip(b);
    assert(dots_at(s, 0));
    assert(s.skip(2) =~= decimal_text(b as nat));
}

/// A range written as `a..` reads back as the lines from `a` on, without end.
pub proof fn law_range_from(a: usize)
    ensures
        parse_range(decimal_text(a as nat) + seq!['.', '.']) == Ok::<Range, ()>(Range { start: a, end: None }),
{
    let ta = decimal_text(a as nat);
    let s = ta + seq!['.', '.'];
    lemma_decimal_text(a as nat);
    law_decimal_round_trip(a);
    assert(s[0] == ta[0]);
    assert(is_digit(ta[0]));
    assert(!dots_at(s, 0));
    assert(dots_at(s, s.len() - 2));
    assert(s.take(s.len() - 2) =~= ta);
}

/// Every range a command reads as starts at or before its end.
pub proof fn law_parsed_range_ordered(s: Seq<char>)
    ensures
        parse_range(s) matches Ok(r) ==> (r.end matches Some(e) ==> r.start <= e),
{
}

/// A range holds exactly the values from its start on, up to but not
/// including its end; a range without end holds every value from its start on.
pub proof fn law_range_membership(r: Range, value: int)
    ensures
        range_contains(r, value) ==> r.start <= value,
        r.end matches Some(e) ==> (range_contains(r, value) <==> r.start <= value < e),
        r.end is None ==> (range_contains(r, value) <==> r.start <= value),
{
}

/// The command `a..` holds every value from `a` on, and nothing below `a`.
pub proof fn law_open_range_command_contains(a: usize, value: int)
    ensures
        parse_range(decimal_text(a as nat) + seq!['.', '.']) matches Ok(r)
            && (range_contains(r, value) <==> a <= value),
{
    law_range_from(a);
}

/// First `..` in `v` at index `from` or later (`v.len()` when none).
fn find_dots(v: &Vec<char>, from: usize) -> (r: usize)
    requires
        from <= v@.len(),
    ensures
        r == first_dots_from(v@, from as int),
{
    let mut i = from;
    while i < v.len()
        invariant
            from <= i <= v@.len(),
            first_dots_from(v@, from as int) == first_dots_from(v@, i as int),
        decreases v@.len() - i,
    {
        if i + 1 < v.len() && v[i] == '.' && v[i + 1] == '.' {
            return i;
        }
        i = i + 1;
    }
    i
}

impl Range {
    /// `start..end`; refused when `start > end`.
    pub fn new(start: usize, end: usize) -> (r: Result<Range, ()>)
        ensures
            start <= end ==> r == Ok::<Range, ()>(Range { start, end: Some(end) }),
            start > end ==> r == Err::<Range, ()>(()),
    {
        if start > end {
            return Err(());
        }
        Ok(Range { start, end: Some(end) })
    }

    /// Reads a range command such as `3..22`, `..22` or `3..`.
    pub fn try_from(command: &str) -> (r: Result<Range, ()>)
        ensures
            r == parse_range(command@),
    {
        let v = chars_of(command);
        let n = v.len();
        if n >= 2 && v[0] == '.' && v[1] == '.' {
            assert(v@.skip(2) =~= v@.subrange(2, n as int));
            return match parse_usize_slice(&v, 2, n) {
                Some(e) => Ok(Range { start: 0, end: Some(e) }),
                None => Err(()),
            };
        }
        if n >= 2 && v[n - 2] == '.' && v[n - 1] == '.' {
            assert(v@.take(n - 2) =~= v@.subrange(0, n - 2));
            return match parse_usize_slice(&v, 0, n - 2) {
                Some(b) => Ok(Range { start: b, end: None }),
                None => Err(()),
            };
        }
        let i = find_dots(&v, 0);
        proof {
            lemma_first_dots_from(v@, 0);
        }
        if i >= n {
            return Err(());
        }
        let j = find_dots(&v, i + 2);
        if j < n {
            return Err(());
        }
        assert(v@.take(i as int) =~= v@.subrange(0, i as int));
        assert(v@.skip(i + 2) =~= v@.subrange(i + 2, n as int));
        let a = parse_usize_slice(&v, 0, i);
        let b = parse_usize_slice(&v, i + 2, n);
        match (a, b) {
            (Some(a), Some(b)) => {
                Range::new(a, b)
            },
            _ => Err(()),
        }
    }

    /// Whether `value` is in the range.
    pub fn contains(&self, value: usize) -> (b: bool)
        ensures
            b == range_contains(*self, value as int),
    {
        if value < self.start {
            return false;
        }
        match self.end {
            Some(end) => value < end,
            None => true,
        }
    }
}

} // verus!
