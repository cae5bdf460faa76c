use vstd::prelude::*;
use crate::utf8_text::{
    byte_len, byte_offset, char_index, char_index_at, chars_of, is_boundary, lemma_boundary, lemma_byte_len_lower,
    lemma_byte_offset_full, lemma_byte_offset_mono, lemma_byte_offset_step, text_byte_len, utf8_width,
};

verus! {

/// What `char::is_alphanumeric` answers for a character beyond ASCII.
pub uninterp spec fn alphanumeric(c: char) -> bool;

/// An ASCII letter or digit.
pub open spec fn ascii_alphanumeric(c: char) -> bool {
    ('a' <= c <= 'z') || ('A' <= c <= 'Z') || ('0' <= c <= '9')
}

/// Whether `char::is_alphanumeric` holds: among ASCII characters exactly the
/// letters and digits; beyond ASCII, the named Unicode answer.
pub open spec fn is_alphanumeric_char(c: char) -> bool {
    if c <= '\x7f' { ascii_alphanumeric(c) } else { alphanumeric(c) }
}

/// Calls `char::is_alphanumeric` (Unicode `Alphabetic` or `Numeric`). Among
/// ASCII characters these are the letters and the digits; beyond ASCII the
/// answer is only named, the Unicode tables are not restated here.
#[verifier::external_body]
fn char_is_alphanumeric(c: char) -> (b: bool)
    ensures
        c <= '\x7f' ==> b == ascii_alphanumeric(c),
        c > '\x7f' ==> b == alphanumeric(c),
{
    c.is_alphanumeric()
}

/// A character that does not belong to a word: neither alphanumeric nor `_`.
pub open spec fn separator(c: char) -> bool {
    !is_alphanumeric_char(c) && c != '_'
}

/// The byte offset just after the last separator among the first `k` characters
/// (plus one byte, as the editor counts it), or 0 when there is none.
pub open spec fn word_start_before(s: Seq<char>, k: int) -> int
    decreases k,
{
    if k <= 0 {
        0
    } else if separator(s[k - 1]) {
        byte_offset(s, k - 1) + 1int
    } else {
        word_start_before(s, k - 1)
    }
}

/// Result of `TextTool::find_word_start`.
pub open spec fn word_start(s: Seq<char>, pos: int) -> int {
    if pos == 0 || s.len() == 0 || pos >= byte_len(s) {
        0
    } else {
        word_start_before(s, char_index(s, pos))
    }
}

/// Index of the first separator at character index `i` or later, `s.len()` when none.
pub open spec fn first_separator_from(s: Seq<char>, i: int) -> int
    decreases s.len() - i,
{
    if i >= s.len() {
        s.len() as int
    } else if i >= 0 && separator(s[i]) {
        i
    } else {
        first_separator_from(s, i + 1)
    }
}

/// Result of `TextTool::find_word_end`: `pos` is used as a count of characters to skip.
pub open spec fn word_end(s: Seq<char>, pos: int) -> int {
    if s.len() == 0 || pos >= byte_len(s) {
        byte_len(s) as int
    } else if first_separator_from(s, pos) < s.len() {
        first_separator_from(s, pos)
    } else {
        byte_len(s) as int
    }
}

/// The character just before byte offset `pos`, or a space at the start.
pub open spec fn char_before(s: Seq<char>, pos: int) -> char {
    let k = char_index(s, pos);
    if k == 0 { ' ' } else { s[k - 1] }
}

/// The character starting at byte offset `pos`, or a space at the end.
pub open spec fn char_after(s: Seq<char>, pos: int) -> char {
    let k = char_index(s, pos);
    if k >= s.len() { ' ' } else { s[k] }
}

/// `start..end` is delimited by separators (or by the ends of the line).
pub open spec fn whole_word(s: Seq<char>, start: int, end: int) -> bool {
    separator(char_before(s, start)) && separator(char_after(s, end))
}

/// Result of `TextTool::char_to_byte_idx`.
pub open spec fn char_to_byte(s: Seq<char>, char_idx: int) -> int {
    if char_idx < s.len() {
        byte_offset(s, char_idx) as int
    } else {
        byte_len(s) as int
    }
}

pub proof fn lemma_first_separator_from(s: Seq<char>, i: int)
    requires
        0 <= i,
    ensures
        i <= s.len() ==> i <= first_separator_from(s, i) <= s.len(),
        i > s.len() ==> first_separator_from(s, i) == s.len(),
        first_separator_from(s, i) < s.len() ==> separator(s[first_separator_from(s, i)]),
        forall|j: int| i <= j < first_separator_from(s, i) ==> !separator(#[trigger] s[j]),
    decreases s.len() - i,
{
    if i < s.len() && !separator(s[i]) {
        lemma_first_separator_from(s, i + 1);
    }
}

proof fn lemma_word_start_before(s: Seq<char>, k: int)
    requires
        0 <= k <= s.len(),
    ensures
        0 <= word_start_before(s, k) <= byte_offset(s, k),
    decreases k,
{
    if k > 0 {
        lemma_byte_offset_step(s, k - 1);
        if !separator(s[k - 1]) {
            lemma_word_start_before(s, k - 1);
        }
    }
}

/// The word found around a position holds it: it starts at or before the
/// position and ends at or after it.
pub proof fn law_word_holds_position(s: Seq<char>, pos: int)
    requires
        is_boundary(s, pos),
    ensures
        word_start(s, pos) <= pos <= word_end(s, pos),
{
    lemma_boundary(s, pos);
    let k = char_index(s, pos);
    lemma_word_start_before(s, k);
    lemma_byte_offset_mono(s, k, s.len() as int);
    lemma_byte_offset_full(s);
    if pos >= 0 {
        lemma_first_separator_from(s, pos);
    }
}

/// Word-oriented helpers on one line of text. Positions are byte offsets.
#[derive(Debug)]
pub struct TextTool<'a> {
    text: &'a str,
}

impl<'a> TextTool<'a> {
    pub closed spec fn text_view(&self) -> Seq<char> {
        self.text@
    }

    pub fn new(text: &'a str) -> (tool: Self)
        ensures
            tool.text_view() == text@,
    {
        Self { text }
    }

    /// Turns a `&str` into a tool over it.
    pub fn from(text: &'a str) -> (tool: Self)
        ensures
            tool.text_view() == text@,
    {
        Self::new(text)
    }

    /// The text the tool works on.
    pub fn as_ref(&self) -> (s: &str)
        ensures
            s@ == self.text_view(),
    {
        self.text
    }

    /// Byte offset where the word containing `pos` starts.
    pub fn find_word_start(&self, pos: usize) -> (r: usize)
        requires
            pos == 0 || pos >= byte_len(self.text_view()) || is_boundary(self.text_view(), pos as int),
        ensures
            r == word_start(self.text_view(), pos as int),
    {
        let len = text_byte_len(self.text);
        if pos == 0 || self.text.is_empty() || pos >= len {
            return 0;
        }
        let chars = chars_of(self.text);
        let k = char_index_at(&chars, pos);
        let mut last: usize = 0;
        let mut off: usize = 0;
        let mut j: usize = 0;
        while j < k
            invariant
                j <= k,
                k <= chars@.len(),
                chars@.len() == chars.len(),
                byte_offset(chars@, k as int) == pos,
                off == byte_offset(chars@, j as int),
                last == word_start_before(chars@, j as int),
            decreases k - j,
        {
            proof {
                lemma_byte_offset_step(chars@, j as int);
                lemma_byte_offset_mono(chars@, j as int + 1, k as int);
            }
            let c = chars[j];
            if Self::is_word_separator(&c) {
                last = off + 1;
            }
            let w = utf8_width(c);
            off = off + w;
            j = j + 1;
        }
        last
    }

    /// Byte offset where the word containing `pos` ends (`pos` counts characters to skip).
    pub fn find_word_end(&self, pos: usize) -> (r: usize)
        ensures
            r == word_end(self.text_view(), pos as int),
    {
        let len = text_byte_len(self.text);
        if self.text.is_empty() || pos >= len {
            return len;
        }
        let chars = chars_of(self.text);
        proof {
            lemma_byte_len_lower(chars@);
            lemma_first_separator_from(chars@, pos as int);
        }
        let mut i: usize = pos;
        while i < chars.len()
            invariant
                pos <= i,
                pos < byte_len(chars@),
                chars@ == self.text_view(),
                first_separator_from(chars@, pos as int) == first_separator_from(chars@, i as int),
                i <= chars@.len() || i == pos,
            decreases chars@.len() - i,
        {
            let c = chars[i];
            if Self::is_word_separator(&c) {
                assert(first_separator_from(chars@, i as int) == i as int);
                return i;
            }
            assert(first_separator_from(chars@, i as int) == first_separator_from(chars@, i as int + 1));
            i = i + 1;
        }
        assert(first_separator_from(chars@, i as int) == chars@.len());
        len
    }

    #[inline]
    pub fn is_word_separator(c: &char) -> (b: bool)
        ensures
            b == separator(*c),
    {
        !char_is_alphanumeric(*c) && *c != '_'
    }

    /// Whether `line_text[start..end]` stands between separators or line ends.
    #[inline]
    pub fn is_whole_word(line_text: &str, start: usize, end: usize) -> (b: bool)
        requires
            is_boundary(line_text@, start as int),
            is_boundary(line_text@, end as int),
        ensures
            b == whole_word(line_text@, start as int, end as int),
    {
        let chars = chars_of(line_text);
        let ks = char_index_at(&chars, start);
        let before = if ks == 0 { ' ' } else { chars[ks - 1] };
        if !Self::is_word_separator(&before) {
            return false;
        }
        let ke = char_index_at(&chars, end);
        let after = if ke >= chars.len() { ' ' } else { chars[ke] };
        if !Self::is_word_separator(&after) {
            return false;
        }
        true
    }

    /// Byte offset of the character of index `char_idx` (the byte length past the end).
    pub fn char_to_byte_idx(&self, char_idx: usize) -> (r: usize)
        ensures
            r == char_to_byte(self.text_view(), char_idx as int),
    {
        let len = text_byte_len(self.text);
        if char_idx == 0 {
            proof {
                assert(self.text_view().take(0) =~= Seq::<char>::empty());
                if self.text_view().len() == 0 {
                    assert(byte_len(self.text_view()) == 0);
                }
            }
            return 0;
        }
        let chars = chars_of(self.text);
        if char_idx >= chars.len() {
            return len;
        }
        let mut off: usize = 0;
        let mut j: usize = 0;
        proof {
            assert(chars@.take(0) =~= Seq::<char>::empty());
        }
        while j < char_idx
            invariant
                j <= char_idx,
                char_idx < chars@.len(),
                chars@.len() == chars.len(),
                chars@ == self.text_view(),
                off == byte_offset(chars@, j as int),
                len == byte_len(chars@),
            decreases char_idx - j,
        {
            proof {
                lemma_byte_offset_step(chars@, j as int);
                lemma_byte_offset_mono(chars@, j as int + 1, chars@.len() as int);
                lemma_byte_offset_full(chars@);
            }
            let w = utf8_width(chars[j]);
            off = off + w;
            j = j + 1;
        }
        off
    }
}

} // verus!
