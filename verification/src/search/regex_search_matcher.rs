use vstd::prelude::*;
use crate::search::SearchMatcher;
use crate::text_tool::{TextTool, whole_word};
use crate::utf8_text::{byte_len, is_boundary, text_byte_len};

verus! {

#[verifier::external_type_specification]
#[verifier::external_body]
pub struct ExRegex(regex::Regex);

/// Why the regex crate refused to compile a pattern.
#[derive(Debug, Clone, PartialEq, Eq)]
pub enum RegexRefusal {
    /// The pattern is not a valid regular expression; the crate's message.
    Syntax(String),
    /// The compiled program would exceed the crate's size limit (given).
    TooBig(usize),
    /// A kind of refusal the crate may add in a later version.
    Other,
}

/// The syntax error the regex crate reports for a pattern read with the given
/// case setting (its message), or `None` for a valid pattern. This verdict
/// comes from parsing and translating the pattern and does not depend on the
/// machine; only the size limit checked afterwards does.
pub uninterp spec fn regex_refusal(pattern: Seq<char>, case_insensitive: bool) -> Option<Seq<char>>;

/// What compiling `pattern` with the given case setting may give: a matcher
/// that keeps the pattern, the case setting and the whole-word flag when the
/// pattern is valid; the crate's syntax message when it is not; the size
/// limit only for a valid pattern.
pub open spec fn compiled_as(
    r: Result<RegexSearchMatcher, RegexRefusal>,
    pattern: Seq<char>,
    case_insensitive: bool,
    whole_words: bool,
) -> bool {
    match r {
        Ok(m) => {
            &&& m.pattern_view() == pattern
            &&& m.case_insensitive_view() == case_insensitive
            &&& m.whole_words_view() == whole_words
            &&& regex_refusal(pattern, case_insensitive) is None
        },
        Err(RegexRefusal::Syntax(msg)) => regex_refusal(pattern, case_insensitive) == Some(msg@),
        Err(RegexRefusal::TooBig(_)) => regex_refusal(pattern, case_insensitive) is None,
        Err(RegexRefusal::Other) => false,
    }
}

/// Compiles a pattern into a matcher: calls `regex::RegexBuilder::new(pattern)`,
/// `.case_insensitive(..)` and `.build()`, and keeps the compiled regex with
/// the pattern, the case setting and the whole-word flag it was compiled
/// from. `regex::Error` has two variants in this version, each mapped to its
/// own: `Syntax` (parse and translation errors, whose message is named) and
/// `CompiledTooBig` (the size limit, measured in the machine's memory sizes,
/// so whether a valid pattern fits is not stated).
#[verifier::external_body]
fn compile_matcher(pattern: &str, case_insensitive: bool, whole_words: bool) -> (r: Result<RegexSearchMatcher, RegexRefusal>)
    ensures
        r matches Ok(m) ==> {
            &&& m.pattern_view() == pattern@
            &&& m.case_insensitive_view() == case_insensitive
            &&& m.whole_words_view() == whole_words
        },
        r is Ok ==> regex_refusal(pattern@, case_insensitive) is None,
        r matches Err(RegexRefusal::Syntax(msg)) ==> regex_refusal(pattern@, case_insensitive) == Some(msg@),
        r matches Err(RegexRefusal::TooBig(_)) ==> regex_refusal(pattern@, case_insensitive) is None,
        !(r matches Err(RegexRefusal::Other)),
{
    match regex::RegexBuilder::new(pattern).case_insensitive(case_insensitive).build() {
        Ok(regex) => Ok(RegexSearchMatcher { regex, pattern: pattern.to_owned(), case_insensitive, whole_words }),
        Err(regex::Error::Syntax(message)) => Err(RegexRefusal::Syntax(message)),
        Err(regex::Error::CompiledTooBig(limit)) => Err(RegexRefusal::TooBig(limit)),
        Err(_) => Err(RegexRefusal::Other),
    }
}

/// The match (start and end byte) that a regex compiled from `pattern`, with
/// the given case setting, finds in `haystack` at or after byte `start`, by
/// the leftmost-first rule of the regex crate; `None` when there is none.
pub uninterp spec fn regex_match(pattern: Seq<char>, case_insensitive: bool, haystack: Seq<char>, start: int) -> Option<(usize, usize)>;

/// The leftmost-first match at or after byte `start`: calls `Regex::find_at`
/// on the matcher's compiled regex and reads the match's `start()` and
/// `end()`. The match is named by the pattern and case setting the regex was
/// compiled from (the matcher's private fields, set together in `new` only).
/// The documentation promises a match that begins at or after `start`, with
/// `start() <= end()`, both on character boundaries of the haystack. It
/// panics when `start` exceeds the length of the haystack, which `requires`
/// rules out.
#[verifier::external_body]
fn regex_find_at(m: &RegexSearchMatcher, haystack: &str, start: usize) -> (r: Option<(usize, usize)>)
    requires
        start <= byte_len(haystack@),
    ensures
        r == regex_match(m.pattern_view(), m.case_insensitive_view(), haystack@, start as int),
        r matches Some((s, e)) ==> start <= s <= e && is_boundary(haystack@, s as int) && is_boundary(haystack@, e as int),
{
    match m.regex.find_at(haystack, start) {
        Some(found) => Some((found.start(), found.end())),
        None => None,
    }
}

/// What becomes of a raw regex match: dropped when whole words are asked for
/// and it is not one.
pub open spec fn filtered_match(line: Seq<char>, raw: Option<(usize, usize)>, whole_words: bool) -> Option<(usize, usize)> {
    match raw {
        None => None,
        Some((s, e)) => if whole_words && !whole_word(line, s as int, e as int) {
            None
        } else {
            Some((s, e))
        },
    }
}

/// Searches a regular expression in a line.
#[derive(Debug)]
pub struct RegexSearchMatcher {
    regex: regex::Regex,
    pattern: String,
    case_insensitive: bool,
    whole_words: bool,
}

impl RegexSearchMatcher {
    pub closed spec fn whole_words_view(&self) -> bool {
        self.whole_words
    }

    /// The pattern the regex was compiled from.
    pub closed spec fn pattern_view(&self) -> Seq<char> {
        self.pattern@
    }

    /// Whether the regex was compiled to ignore letter case.
    pub closed spec fn case_insensitive_view(&self) -> bool {
        self.case_insensitive
    }

    /// Compiles the pattern, ignoring letter case unless `case_sensitive`. A
    /// pattern with a syntax error is refused with the crate's message; a valid
    /// one gives a matcher keeping the pattern, the case setting and the
    /// whole-word flag, or is refused for the crate's size limit.
    pub fn new(pattern: &str, case_sensitive: bool, whole_words: bool) -> (r: Result<Self, RegexRefusal>)
        ensures
            compiled_as(r, pattern@, !case_sensitive, whole_words),
    {
        compile_matcher(pattern, !case_sensitive, whole_words)
    }

    /// Applies the whole-word rule to a raw match of the line.
    pub fn filter_match(line_text: &str, raw: Option<(usize, usize)>, whole_words: bool) -> (r: Option<(usize, usize)>)
        requires
            raw matches Some((s, e)) ==> is_boundary(line_text@, s as int) && is_boundary(line_text@, e as int),
        ensures
            r == filtered_match(line_text@, raw, whole_words),
    {
        match raw {
            None => None,
            Some((start, end)) => {
                if whole_words && !TextTool::is_whole_word(line_text, start, end) {
                    return None;
                }
                Some((start, end))
            },
        }
    }
}

impl SearchMatcher for RegexSearchMatcher {
    open spec fn search_defined(&self, line: Seq<char>, from_col: int) -> bool {
        from_col <= byte_len(line)
    }

    open spec fn search_ok(&self, line: Seq<char>, from_col: int, r: Option<(usize, usize)>) -> bool {
        &&& r == filtered_match(line, regex_match(self.pattern_view(), self.case_insensitive_view(), line, from_col), self.whole_words_view())
        &&& r matches Some((s, e)) ==> {
            &&& from_col <= s <= e
            &&& is_boundary(line, s as int)
            &&& is_boundary(line, e as int)
            &&& (self.whole_words_view() ==> whole_word(line, s as int, e as int))
        }
    }

    fn defined(&self, line_text: &str, from_col: usize) -> (b: bool) {
        from_col <= text_byte_len(line_text)
    }

    fn search(&self, line_text: &str, from_col: usize) -> (r: Option<(usize, usize)>) {
        let raw = regex_find_at(self, line_text, from_col);
        Self::filter_match(line_text, raw, self.whole_words)
    }
}

} // verus!
