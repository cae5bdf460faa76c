use vstd::prelude::*;
use vstd::string::StringSliceAdditionalSpecFns;
use vstd::utf8::encode_utf8;
use crate::search::{SearchMatcher, find_bytes, first_occurrence, lemma_first_from_bound, lemma_first_from_first, occurs_at};
use crate::strings::{lowered, lower_text};
use crate::text_tool::{TextTool, separator};
use crate::utf8_text::{
    boundary_at, byte_len, char_index, chars_of, is_boundary, lemma_boundary, lemma_byte_len_encode,
    lemma_encode_skip, lemma_str_len, text_from,
};

verus! {

/// The character of index `i` (a byte offset is used as a character index), or a space.
pub open spec fn nth_or_space(line: Seq<char>, i: int) -> char {
    if 0 <= i < line.len() { line[i] } else { ' ' }
}

/// Searches a query in a line, lower-casing both when asked to ignore case.
#[derive(Debug)]
pub struct SimpleSearchMatcher {
    query: String,
    case_insensitive: bool,
    whole_words: bool,
}

impl SimpleSearchMatcher {
    /// The query as searched for (lower-cased when case is ignored).
    pub closed spec fn query_view(&self) -> Seq<char> {
        self.query@
    }

    pub closed spec fn case_insensitive_view(&self) -> bool {
        self.case_insensitive
    }

    pub closed spec fn whole_words_view(&self) -> bool {
        self.whole_words
    }

    pub fn new(query: &str, case_insensitive: bool, whole_words: bool) -> (m: Self)
        ensures
            m.query_view() == (if case_insensitive { lowered(query@) } else { query@ }),
            m.case_insensitive_view() == case_insensitive,
            m.whole_words_view() == whole_words,
    {
        let query_text = if case_insensitive {
            lower_text(query)
        } else {
            String::from_str(query)
        };
        Self { query: query_text, case_insensitive, whole_words }
    }

    /// The text searched: the line, lower-cased when case is ignored.
    pub open spec fn search_text(&self, line: Seq<char>) -> Seq<char> {
        if self.case_insensitive_view() { lowered(line) } else { line }
    }

    /// Where the query first occurs in the searched text from byte `from` on, relative to `from`.
    pub open spec fn raw_match(&self, line: Seq<char>, from: int) -> Option<usize> {
        let t = self.search_text(line);
        first_occurrence(encode_utf8(t.skip(char_index(t, from))), encode_utf8(self.query_view()))
    }

    /// The match `search` reports. The neighbours checked for whole words are
    /// the line's characters whose index is the byte offset before the match and
    /// the byte offset of its end.
    pub open spec fn search_result(&self, line: Seq<char>, from: int) -> Option<(usize, usize)> {
        match self.raw_match(line, from) {
            None => None,
            Some(p) => {
                let start = from + p;
                let end = start + byte_len(self.query_view());
                let before = if start == 0 { ' ' } else { nth_or_space(line, start - 1) };
                let after = nth_or_space(line, end);
                if self.whole_words_view() && (!separator(before) || !separator(after)) {
                    None
                } else {
                    Some((start as usize, end as usize))
                }
            },
        }
    }
}

/// A plain search reports a place where the bytes of the query stand in the
/// searched text (the line, lower-cased when case is ignored), at or after
/// where the search started.
pub proof fn law_plain_match_occurs(m: SimpleSearchMatcher, line: Seq<char>, from: int)
    requires
        m.search_defined(line, from),
        encode_utf8(m.search_text(line)).len() <= usize::MAX,
    ensures
        m.search_result(line, from) matches Some((s, e)) ==> {
            &&& from <= s
            &&& e == s + encode_utf8(m.query_view()).len()
            &&& encode_utf8(m.search_text(line)).subrange(s as int, e as int) == encode_utf8(m.query_view())
        },
{
    let t = m.search_text(line);
    lemma_boundary(t, from);
    let k = char_index(t, from);
    lemma_encode_skip(t, k);
    let h = encode_utf8(t.skip(k));
    let q = encode_utf8(m.query_view());
    lemma_byte_len_encode(m.query_view());
    lemma_byte_len_encode(t);
    lemma_first_from_bound(h, q, 0);
    if let Some(p) = m.raw_match(line, from) {
        assert(h == encode_utf8(t).skip(from));
        assert(h.subrange(p as int, p + q.len()) == q);
        assert(encode_utf8(t).subrange(from + p, from + p + q.len()) =~= h.subrange(p as int, p + q.len()));
    }
}

/// A plain search reports the first place at or after where it started where
/// the query's bytes stand in the searched text; when it reports nothing and
/// whole words are off, the query stands nowhere from there on.
pub proof fn law_plain_match_is_first(m: SimpleSearchMatcher, line: Seq<char>, from: int)
    requires
        m.search_defined(line, from),
        encode_utf8(m.search_text(line)).len() <= usize::MAX,
    ensures
        ({
            let t = encode_utf8(m.search_text(line));
            let q = encode_utf8(m.query_view());
            &&& m.search_result(line, from) matches Some((s, e)) ==>
                forall|p: int| from <= p < s ==> !occurs_at(t, q, p)
            &&& (m.search_result(line, from) is None && !m.whole_words_view()) ==>
                forall|p: int| from <= p ==> !occurs_at(t, q, p)
        }),
{
    let tt = m.search_text(line);
    lemma_boundary(tt, from);
    let k = char_index(tt, from);
    lemma_encode_skip(tt, k);
    let t = encode_utf8(tt);
    let h = encode_utf8(tt.skip(k));
    let q = encode_utf8(m.query_view());
    lemma_byte_len_encode(m.query_view());
    lemma_byte_len_encode(tt);
    lemma_first_from_bound(h, q, 0);
    lemma_first_from_first(h, q, 0);
    assert(h == t.skip(from));
    assert forall|p: int| from <= p && occurs_at(t, q, p) implies occurs_at(h, q, p - from) by {
        assert(h.subrange(p - from, p - from + q.len()) =~= t.subrange(p, p + q.len()));
    }
}

/// With whole words on, every match reported is delimited on both sides: the
/// character before it and the character at its end are separators (neither
/// alphanumeric nor `_`), the ends of the line counting as separators. As in
/// the search, a match's byte offsets pick those characters by index.
pub proof fn law_whole_word_match_is_delimited(m: SimpleSearchMatcher, line: Seq<char>, from: int)
    requires
        m.whole_words_view(),
        m.search_defined(line, from),
        encode_utf8(m.search_text(line)).len() <= usize::MAX,
    ensures
        m.search_result(line, from) matches Some((s, e)) ==> {
            &&& (s == 0 || s - 1 >= line.len() || separator(line[s - 1]))
            &&& (e >= line.len() || separator(line[e as int]))
        },
{
    let t = m.search_text(line);
    lemma_boundary(t, from);
    let k = char_index(t, from);
    lemma_encode_skip(t, k);
    let h = encode_utf8(t.skip(k));
    let q = encode_utf8(m.query_view());
    lemma_byte_len_encode(m.query_view());
    lemma_byte_len_encode(t);
    lemma_first_from_bound(h, q, 0);
    if let Some(p) = m.raw_match(line, from) {
        assert(h == encode_utf8(t).skip(from));
        assert(from + p + q.len() <= encode_utf8(t).len());
    }
}

impl SearchMatcher for SimpleSearchMatcher {
    open spec fn search_defined(&self, line: Seq<char>, from_col: int) -> bool {
        is_boundary(self.search_text(line), from_col)
    }

    open spec fn search_ok(&self, line: Seq<char>, from_col: int, r: Option<(usize, usize)>) -> bool {
        r == self.search_result(line, from_col)
    }

    fn defined(&self, line_text: &str, from_col: usize) -> (b: bool) {
        if self.case_insensitive {
            let lower = lower_text(line_text);
            boundary_at(lower.as_str(), from_col)
        } else {
            boundary_at(line_text, from_col)
        }
    }

    fn search(&self, line_text: &str, from_col: usize) -> (r: Option<(usize, usize)>) {
        let search_text = if self.case_insensitive {
            lower_text(line_text)
        } else {
            String::from_str(line_text)
        };
        let t = search_text.as_str();
        let slice = text_from(t, from_col);
        let q = self.query.as_str();
        let sb = slice.as_bytes();
        let _sl = sb.len();
        let found_idx = match find_bytes(sb, q.as_bytes()) {
            Some(i) => i,
            None => return None,
        };
        let ghost k = char_index(t@, from_col as int);
        proof {
            lemma_first_from_bound(slice.spec_bytes(), q.spec_bytes(), 0);
            lemma_boundary(t@, from_col as int);
            lemma_encode_skip(t@, k);
            lemma_str_len(t);
            lemma_str_len(q);
            lemma_byte_len_encode(self.query_view());
        }
        let tl = t.as_bytes().len();
        let actual_idx = from_col + found_idx;
        let match_len = q.as_bytes().len();
        let end = actual_idx + match_len;
        if self.whole_words {
            let chars = chars_of(line_text);
            let before = if actual_idx == 0 {
                ' '
            } else if actual_idx - 1 < chars.len() {
                chars[actual_idx - 1]
            } else {
                ' '
            };
            let after = if end < chars.len() { chars[end] } else { ' ' };
            if !TextTool::is_word_separator(&before) || !TextTool::is_word_separator(&after) {
                return None;
            }
        }
        Some((actual_idx, end))
    }
}

} // verus!
