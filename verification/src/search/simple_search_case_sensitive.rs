use vstd::prelude::*;
use vstd::string::StringSliceAdditionalSpecFns;
use vstd::string::StrSliceExecFns;
use vstd::utf8::encode_utf8;
use crate::search::{SearchMatcher, first_occurrence};
use crate::text_tool::{TextTool, char_after, char_before, separator, whole_word};
use crate::utf8_text::{
    boundary_at, byte_len, char_index, char_index_at, chars_of, is_boundary, lemma_byte_len_encode,
    text_from,
};

verus! {

/// The first place of `needle` in `haystack`: calls `memchr::memmem::find`,
/// documented to return the index of the first occurrence of the needle in
/// the haystack (0 for an empty needle), or `None`.
#[verifier::external_body]
fn memmem_find(haystack: &[u8], needle: &[u8]) -> (r: Option<usize>)
    ensures
        r == first_occurrence(haystack@, needle@),
{
    memchr::memmem::find(haystack, needle)
}

/// Searches the exact bytes of a query in a line.
#[derive(Debug)]
pub struct SimpleSearchCaseSensitiveMatcher {
    len: usize,
    needle: Vec<u8>,
    whole_words: bool,
}

impl SimpleSearchCaseSensitiveMatcher {
    /// The bytes searched for.
    pub closed spec fn needle_view(&self) -> Seq<u8> {
        self.needle@
    }

    pub closed spec fn whole_words_view(&self) -> bool {
        self.whole_words
    }

    pub closed spec fn len_view(&self) -> usize {
        self.len
    }

    #[inline]
    pub fn new(query: &str, whole_words: bool) -> (m: Self)
        ensures
            m.needle_view() == encode_utf8(query@),
            m.len_view() == byte_len(query@),
            m.whole_words_view() == whole_words,
    {
        let needle = query.as_bytes_vec();
        proof {
            lemma_byte_len_encode(query@);
        }
        Self { len: needle.len(), needle, whole_words }
    }

    /// A letter, a digit or `_`.
    #[inline]
    pub fn is_word_char(c: char) -> (b: bool)
        ensures
            b == !separator(c),
    {
        !TextTool::is_word_separator(&c)
    }

    /// Where the query first occurs in a line from byte `from` on, relative to `from`.
    pub open spec fn raw_match(&self, line: Seq<char>, from: int) -> Option<usize> {
        first_occurrence(encode_utf8(line.skip(char_index(line, from))), self.needle_view())
    }

    /// The match `search` reports.
    pub open spec fn search_result(&self, line: Seq<char>, from: int) -> Option<(usize, usize)> {
        match self.raw_match(line, from) {
            None => None,
            Some(p) => {
                let start = from + p;
                let end = start + self.len_view();
                if self.whole_words_view() && !whole_word(line, start, end) {
                    None
                } else {
                    Some((start as usize, end as usize))
                }
            },
        }
    }

    fn raw_find(&self, line_text: &str, from_col: usize) -> (r: Option<usize>)
        requires
            is_boundary(line_text@, from_col as int),
        ensures
            r == self.raw_match(line_text@, from_col as int),
    {
        let slice = text_from(line_text, from_col);
        memmem_find(slice.as_bytes(), self.needle.as_slice())
    }
}

impl SearchMatcher for SimpleSearchCaseSensitiveMatcher {
    open spec fn search_defined(&self, line: Seq<char>, from_col: int) -> bool {
        &&& is_boundary(line, from_col)
        &&& match self.raw_match(line, from_col) {
            None => true,
            Some(p) => {
                let start = from_col + p;
                let end = start + self.len_view();
                &&& end <= usize::MAX
                &&& self.whole_words_view() ==> is_boundary(line, start) && is_boundary(line, end)
            },
        }
    }

    open spec fn search_ok(&self, line: Seq<char>, from_col: int, r: Option<(usize, usize)>) -> bool {
        r == self.search_result(line, from_col)
    }

    fn defined(&self, line_text: &str, from_col: usize) -> (b: bool) {
        if !boundary_at(line_text, from_col) {
            return false;
        }
        match self.raw_find(line_text, from_col) {
            None => true,
            Some(p) => {
                if p > usize::MAX - from_col || self.len > usize::MAX - from_col - p {
                    return false;
                }
                let start = from_col + p;
                let end = start + self.len;
                !self.whole_words || (boundary_at(line_text, start) && boundary_at(line_text, end))
            },
        }
    }

    fn search(&self, line_text: &str, from_col: usize) -> (r: Option<(usize, usize)>) {
        let found_in_slice = match self.raw_find(line_text, from_col) {
            Some(p) => p,
            None => return None,
        };
        let start = from_col + found_in_slice;
        let end = start + self.len;
        if self.whole_words {
            let chars = chars_of(line_text);
            let ks = char_index_at(&chars, start);
            let before = if ks == 0 { ' ' } else { chars[ks - 1] };
            if Self::is_word_char(before) {
                return None;
            }
            let ke = char_index_at(&chars, end);
            let after = if ke >= chars.len() { ' ' } else { chars[ke] };
            if Self::is_word_char(after) {
                return None;
            }
        }
        Some((start, end))
    }
}

} // verus!
