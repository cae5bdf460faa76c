use vstd::prelude::*;
use vstd::string::StringSliceAdditionalSpecFns;
use vstd::string::StrSliceExecFns;
use vstd::utf8::{encode_utf8, is_ascii_chars};
use crate::search::{
    SearchMatcher, ci_occurs_at, eq_ignore_ascii_case, find_bytes, first_ci_from,
    first_ci_occurrence, first_occurrence, lemma_first_ci_from_bound, lemma_first_from_bound,
    lower_byte, to_ascii_lowercase, to_ascii_uppercase, upper_byte,
};
use crate::strings::{lowered, lower_text};
use crate::text_tool::{TextTool, whole_word};
use crate::keys::lemma_ascii_lower_byte;
use crate::utf8_text::{
    boundary_at, byte_len, char_index, is_boundary, lemma_byte_len_encode, lemma_str_len, text_from,
};

verus! {

/// The first byte index of `n1` or `n2` in `haystack`: calls `memchr::memchr2`,
/// documented to return the index of the first occurrence of one of the two
/// needle bytes, or `None` when neither occurs.
#[verifier::external_body]
fn memchr2(n1: u8, n2: u8, haystack: &[u8]) -> (r: Option<usize>)
    ensures
        match r {
            Some(i) => {
                &&& i < haystack@.len()
                &&& (haystack@[i as int] == n1 || haystack@[i as int] == n2)
                &&& forall|j: int| 0 <= j < i ==> haystack@[j] != n1 && haystack@[j] != n2
            },
            None => forall|j: int| 0 <= j < haystack@.len() ==> haystack@[j] != n1 && haystack@[j] != n2,
        },
{
    memchr::memchr2(n1, n2, haystack)
}

/// Where a case-insensitive query first occurs in the rest of a line (byte
/// offset in that rest): ASCII comparison when both are ASCII, otherwise a
/// search of the lower-cased query in the lower-cased text.
pub open spec fn ci_raw(query: Seq<char>, query_bytes: Option<Seq<u8>>, rest: Seq<char>) -> Option<usize> {
    if is_ascii_chars(rest) && query_bytes is Some {
        first_ci_occurrence(encode_utf8(rest), query_bytes->0)
    } else {
        first_occurrence(encode_utf8(lowered(rest)), encode_utf8(query))
    }
}

/// Two byte strings of the same length that differ at most in ASCII letter case.
pub open spec fn same_ignoring_ascii_case(a: Seq<u8>, b: Seq<u8>) -> bool {
    &&& a.len() == b.len()
    &&& forall|i: int| 0 <= i < a.len() ==> lower_byte(#[trigger] a[i]) == lower_byte(b[i])
}

/// Searches a query in a line regardless of letter case.
#[derive(Debug)]
pub struct SimpleSearchCaseInsensitiveMatcher {
    /// The lower-cased query.
    query: String,
    /// Only whole words count as matches.
    whole_words: bool,
    /// The query's bytes, kept when it is ASCII for a byte-wise comparison.
    query_bytes: Option<Vec<u8>>,
}

impl SimpleSearchCaseInsensitiveMatcher {
    /// The lower-cased query.
    pub closed spec fn query_view(&self) -> Seq<char> {
        self.query@
    }

    /// The query's own bytes, kept when the query is ASCII.
    pub closed spec fn query_bytes_view(&self) -> Option<Seq<u8>> {
        match self.query_bytes {
            Some(v) => Some(v@),
            None => None,
        }
    }

    pub closed spec fn whole_words_view(&self) -> bool {
        self.whole_words
    }

    /// Where the query first occurs in a line from byte `from` on, relative to `from`.
    pub open spec fn raw_match(&self, line: Seq<char>, from: int) -> Option<usize> {
        ci_raw(self.query_view(), self.query_bytes_view(), line.skip(char_index(line, from)))
    }

    #[inline]
    pub fn new(query: &str, whole_words: bool) -> (m: Self)
        ensures
            m.query_view() == lowered(query@),
            m.query_bytes_view() == (if is_ascii_chars(query@) { Some(encode_utf8(query@)) } else { None::<Seq<u8>> }),
            m.whole_words_view() == whole_words,
    {
        let query_text = lower_text(query);
        let query_bytes = if query.is_ascii() {
            Some(query.as_bytes_vec())
        } else {
            None
        };
        Self { query: query_text, query_bytes, whole_words }
    }

    /// First place of `needle` in `haystack`, ignoring ASCII case.
    #[inline]
    pub fn find_ascii_case_insensitive(haystack: &[u8], needle: &[u8]) -> (r: Option<usize>)
        ensures
            r == first_ci_occurrence(haystack@, needle@),
    {
        if needle.len() == 0 {
            return Some(0);
        }
        if needle.len() > haystack.len() {
            return None;
        }
        let hl = haystack.len();
        let nl = needle.len();
        let n0_lo = to_ascii_lowercase(needle[0]);
        let n0_hi = to_ascii_uppercase(needle[0]);
        let mut start: usize = 0;
        while start <= hl - nl
            invariant
                hl == haystack@.len(),
                nl == needle@.len(),
                0 < nl <= hl,
                n0_lo == lower_byte(needle@[0]),
                n0_hi == upper_byte(needle@[0]),
                start <= hl,
                first_ci_from(haystack@, needle@, 0) == first_ci_from(haystack@, needle@, start as int),
            decreases hl - start,
        {
            let (_, rest) = haystack.split_at(start);
            let rel = match memchr2(n0_lo, n0_hi, rest) {
                Some(rel) => rel,
                None => {
                    proof {
                        assert forall|j: int| start <= j < hl implies lower_byte(#[trigger] haystack@[j]) != lower_byte(needle@[0]) by {
                            assert(rest@[j - start] == haystack@[j]);
                            lemma_byte_class(haystack@[j], needle@[0]);
                        }
                        lemma_skip_no_first_byte(haystack@, needle@, start as int, hl as int);
                    }
                    return None;
                },
            };
            let pos = start + rel;
            proof {
                assert forall|j: int| start <= j < pos implies lower_byte(#[trigger] haystack@[j]) != lower_byte(needle@[0]) by {
                    assert(rest@[j - start] == haystack@[j]);
                    lemma_byte_class(haystack@[j], needle@[0]);
                }
                lemma_skip_no_first_byte(haystack@, needle@, start as int, pos as int);
            }
            if pos <= hl - nl {
                let mut ok = true;
                let mut i: usize = 0;
                while i < nl
                    invariant
                        i <= nl,
                        pos + nl <= hl,
                        hl == haystack@.len(),
                        nl == needle@.len(),
                        ok ==> forall|k: int| 0 <= k < i ==> lower_byte(#[trigger] haystack@[pos + k]) == lower_byte(needle@[k]),
                        !ok ==> !ci_occurs_at(haystack@, needle@, pos as int),
                    decreases nl - i,
                {
                    if !eq_ignore_ascii_case(haystack[pos + i], needle[i]) {
                        ok = false;
                    }
                    i = i + 1;
                }
                if ok {
                    return Some(pos);
                }
            } else {
                proof {
                    lemma_past_end(haystack@, needle@, pos as int);
                }
                return None;
            }
            start = pos + 1;
        }
        proof {
            lemma_past_end(haystack@, needle@, start as int);
        }
        None
    }

    /// The raw place of the query in the line from `from_col` on.
    fn raw_find(&self, line_text: &str, from_col: usize) -> (r: Option<usize>)
        requires
            is_boundary(line_text@, from_col as int),
        ensures
            r == self.raw_match(line_text@, from_col as int),
    {
        let slice = text_from(line_text, from_col);
        if slice.is_ascii() {
            match &self.query_bytes {
                Some(bytes) => {
                    return Self::find_ascii_case_insensitive(slice.as_bytes(), bytes.as_slice());
                },
                None => {},
            }
        }
        let lower = lower_text(slice);
        find_bytes(lower.as_str().as_bytes(), self.query.as_str().as_bytes())
    }

    /// Byte length of the lower-cased query.
    fn query_len(&self) -> (n: usize)
        ensures
            n == byte_len(self.query_view()),
    {
        let q = self.query.as_str();
        proof {
            lemma_str_len(q);
        }
        q.as_bytes().len()
    }
}

impl SimpleSearchCaseInsensitiveMatcher {
    /// The match `search` reports: the raw place of the query, rejected when whole
    /// words are asked for and it is not one.
    pub open spec fn search_result(&self, line: Seq<char>, from: int) -> Option<(usize, usize)> {
        match self.raw_match(line, from) {
            None => None,
            Some(p) => {
                let start = from + p;
                let end = start + byte_len(self.query_view());
                if self.whole_words_view() && !whole_word(line, start, end) {
                    None
                } else {
                    Some((start as usize, end as usize))
                }
            },
        }
    }
}

impl SearchMatcher for SimpleSearchCaseInsensitiveMatcher {
    open spec fn search_defined(&self, line: Seq<char>, from_col: int) -> bool {
        &&& is_boundary(line, from_col)
        &&& match self.raw_match(line, from_col) {
            None => true,
            Some(p) => {
                let start = from_col + p;
                let end = start + byte_len(self.query_view());
                &&& end <= usize::MAX
                &&& self.whole_words_view() ==> is_boundary(line, start) && is_boundary(line, end)
            },
        }
    }

    open spec fn search_ok(&self, line: Seq<char>, from_col: int, r: Option<(usize, usize)>) -> bool {
        r == self.search_result(line, from_col)
    }

    fn defined(&self, line_text: &str, from_col: usize) -> (b: bool) {
        if !boundary_at(line_text, from_col) {
            return false;
        }
        match self.raw_find(line_text, from_col) {
            None => true,
            Some(p) => {
                let len = self.query_len();
                if p > usize::MAX - from_col || len > usize::MAX - from_col - p {
                    return false;
                }
                let start = from_col + p;
                let end = start + len;
                !self.whole_words || (boundary_at(line_text, start) && boundary_at(line_text, end))
            },
        }
    }

    fn search(&self, line_text: &str, from_col: usize) -> (r: Option<(usize, usize)>) {
        let found_in_slice = match self.raw_find(line_text, from_col) {
            Some(p) => p,
            None => return None,
        };
        let first = from_col + found_in_slice;
        let last = first + self.query_len();
        if !self.whole_words || TextTool::is_whole_word(line_text, first, last) {
            Some((first, last))
        } else {
            None
        }
    }
}

/// Needles that differ only in ASCII letter case are found at the same places.
proof fn lemma_ci_from_same(h: Seq<u8>, n1: Seq<u8>, n2: Seq<u8>, i: int)
    requires
        same_ignoring_ascii_case(n1, n2),
    ensures
        first_ci_from(h, n1, i) == first_ci_from(h, n2, i),
    decreases h.len() + 1 - i,
{
    if !(i < 0 || i + n1.len() > h.len()) {
        assert(ci_occurs_at(h, n1, i) == ci_occurs_at(h, n2, i)) by {
            if ci_occurs_at(h, n1, i) {
                assert forall|k: int| 0 <= k < n2.len() implies lower_byte(#[trigger] h[i + k]) == lower_byte(n2[k]) by {
                    assert(lower_byte(h[i + k]) == lower_byte(n1[k]));
                }
            }
            if ci_occurs_at(h, n2, i) {
                assert forall|k: int| 0 <= k < n1.len() implies lower_byte(#[trigger] h[i + k]) == lower_byte(n1[k]) by {
                    assert(lower_byte(h[i + k]) == lower_byte(n2[k]));
                }
            }
        }
        lemma_ci_from_same(h, n1, n2, i + 1);
    }
}

/// For an ASCII query the letter case of the query does not matter: matchers
/// made (as `new` makes them) from two ASCII queries that differ only in
/// letter case may be asked about the same lines and places, and a `search`
/// call answers the same for both (`search_ok` pins the answer to
/// `search_result`).
pub proof fn law_query_case_does_not_matter(
    m1: &SimpleSearchCaseInsensitiveMatcher,
    m2: &SimpleSearchCaseInsensitiveMatcher,
    q1: Seq<char>,
    q2: Seq<char>,
    line: Seq<char>,
    from: int,
)
    requires
        is_ascii_chars(q1),
        is_ascii_chars(q2),
        same_ignoring_ascii_case(encode_utf8(q1), encode_utf8(q2)),
        m1.query_bytes_view() == Some(encode_utf8(q1)),
        m2.query_bytes_view() == Some(encode_utf8(q2)),
        m1.query_view() == lowered(q1),
        m2.query_view() == lowered(q2),
        m1.whole_words_view() == m2.whole_words_view(),
    ensures
        m1.search_defined(line, from) == m2.search_defined(line, from),
        m1.search_result(line, from) == m2.search_result(line, from),
{
    let l1 = m1.query_view();
    let l2 = m2.query_view();
    vstd::utf8::is_ascii_chars_encode_utf8(q1);
    vstd::utf8::is_ascii_chars_encode_utf8(q2);
    assert forall|i: int| 0 <= i < l1.len() implies l1[i] == l2[i] by {
        lemma_ascii_lower_byte(q1[i]);
        lemma_ascii_lower_byte(q2[i]);
        assert(encode_utf8(q1)[i] == q1[i] as u8);
        assert(encode_utf8(q2)[i] == q2[i] as u8);
    }
    assert(l1 =~= l2);
    let rest = line.skip(char_index(line, from));
    lemma_ci_from_same(encode_utf8(rest), encode_utf8(q1), encode_utf8(q2), 0);
    assert(m1.raw_match(line, from) == m2.raw_match(line, from));
}

/// No place between `start` and `stop` holds a byte equal, ignoring ASCII case,
/// to the first byte of `n` (as `memchr2` reported), so the search goes on from `stop`.
proof fn lemma_skip_no_first_byte(h: Seq<u8>, n: Seq<u8>, start: int, stop: int)
    requires
        0 <= start <= stop <= h.len(),
        n.len() > 0,
        forall|j: int| start <= j < stop ==> lower_byte(#[trigger] h[j]) != lower_byte(n[0]),
    ensures
        first_ci_from(h, n, start) == first_ci_from(h, n, stop),
    decreases stop - start,
{
    if start < stop {
        if start + n.len() <= h.len() {
            assert(!ci_occurs_at(h, n, start)) by {
                assert(lower_byte(h[start + 0]) != lower_byte(n[0]));
            }
        }
        lemma_skip_no_first_byte(h, n, start + 1, stop);
    }
}

/// A byte matches `n0` ignoring ASCII case exactly when it is its lower or upper case.
proof fn lemma_byte_class(x: u8, n0: u8)
    ensures
        (lower_byte(x) == lower_byte(n0)) <==> (x == lower_byte(n0) || x == upper_byte(n0)),
{
}

proof fn lemma_past_end(h: Seq<u8>, n: Seq<u8>, i: int)
    requires
        0 <= i,
        i + n.len() > h.len(),
    ensures
        first_ci_from(h, n, i) == None::<usize>,
{
}

} // verus!
