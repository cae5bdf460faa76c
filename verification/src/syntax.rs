use vstd::prelude::*;
use crate::keys::{ascii_lower, ascii_lower_seq, char_to_ascii_lowercase};
use vstd::utf8::is_ascii_chars;
use crate::utf8_text::{
    byte_len, byte_offset, chars_of, char_index, char_index_at, is_boundary, lemma_byte_offset_mono,
    lemma_byte_offset_full, lemma_byte_offset_step, text_byte_len, utf8_width,
};
use vstd::string::StrSliceExecFns;

verus! {

/// The kinds of words the highlighter colors: JSON punctuation and values, and
/// log levels.
#[derive(Debug, Clone, Copy, PartialEq, Eq, Structural)]
pub enum Token {
    /// `true` or `false`.
    Bool,
    BraceOpen,
    BraceClose,
    BracketOpen,
    BracketClose,
    Colon,
    Comma,
    Null,
    /// A JSON number: `-?(0|[1-9][0-9]*)(.[0-9]+)?([eE][+-]?[0-9]+)?`.
    Number,
    /// A double-quoted string whose backslashes escape one of `"\bnfrt`.
    String,
    /// `info`, in any letter case.
    Info,
    /// `warning` or `warn`, in any letter case.
    Warning,
    /// `error`, in any letter case.
    Error,
    /// `fatal`, in any letter case.
    Fatal,
}

/// The color a theme gives a kind of token.
#[derive(Debug, Clone, Copy, PartialEq, Eq, Structural)]
pub enum ColorRole {
    Literal,
    Operator,
    Number,
    String,
    Info,
    Warning,
    Error,
}

/// Which theme color a token is painted in: `true`, `false` and `null` as
/// literals, punctuation as operators, fatal messages as errors.
pub open spec fn role_of(token: Token) -> ColorRole {
    match token {
        Token::Bool | Token::Null => ColorRole::Literal,
        Token::BraceOpen | Token::BraceClose | Token::BracketOpen | Token::BracketClose
            | Token::Colon | Token::Comma => ColorRole::Operator,
        Token::Number => ColorRole::Number,
        Token::String => ColorRole::String,
        Token::Info => ColorRole::Info,
        Token::Warning => ColorRole::Warning,
        Token::Error | Token::Fatal => ColorRole::Error,
    }
}

impl Token {
    /// Which theme color the token is painted in.
    pub fn color_role(&self) -> (r: ColorRole)
        ensures
            r == role_of(*self),
    {
        match self {
            Token::Null | Token::Bool => ColorRole::Literal,
            Token::Number => ColorRole::Number,
            Token::String => ColorRole::String,
            Token::Info => ColorRole::Info,
            Token::Warning => ColorRole::Warning,
            Token::Fatal | Token::Error => ColorRole::Error,
            _ => ColorRole::Operator,
        }
    }
}

/// The character at `j`, or NUL past either end.
pub open spec fn char_at(s: Seq<char>, j: int) -> char {
    if 0 <= j < s.len() { s[j] } else { '\0' }
}

/// Space, tab, carriage return, line feed and form feed are skipped.
pub open spec fn skipped_char(c: char) -> bool {
    c == ' ' || c == '\t' || c == '\r' || c == '\n' || c == '\x0C'
}

pub open spec fn is_digit(c: char) -> bool {
    '0' <= c <= '9'
}

/// The number of skipped characters from `j` on.
pub open spec fn space_run(s: Seq<char>, j: int) -> int
    decreases s.len() - j,
{
    if 0 <= j < s.len() && skipped_char(s[j]) { 1 + space_run(s, j + 1) } else { 0 }
}

/// The number of digits from `j` on.
pub open spec fn digit_run(s: Seq<char>, j: int) -> int
    decreases s.len() - j,
{
    if 0 <= j < s.len() && is_digit(s[j]) { 1 + digit_run(s, j + 1) } else { 0 }
}

/// The end of the integer part of a number starting at `j` (-1 when there is none).
pub open spec fn integer_end(s: Seq<char>, j: int) -> int {
    let c = char_at(s, j);
    if c == '0' {
        j + 1
    } else if '1' <= c <= '9' {
        j + digit_run(s, j)
    } else {
        -1
    }
}

/// The end of the fraction part of a number whose integer part ends at `a`.
pub open spec fn fraction_end(s: Seq<char>, a: int) -> int {
    if char_at(s, a) == '.' && digit_run(s, a + 1) > 0 { a + 1 + digit_run(s, a + 1) } else { a }
}

/// The end of the exponent part of a number whose fraction ends at `b`.
pub open spec fn exponent_end(s: Seq<char>, b: int) -> int {
    let k = if char_at(s, b + 1) == '+' || char_at(s, b + 1) == '-' { b + 2 } else { b + 1 };
    if (char_at(s, b) == 'e' || char_at(s, b) == 'E') && digit_run(s, k) > 0 { k + digit_run(s, k) } else { b }
}

/// The end of the longest number starting at `i` (-1 when there is none).
pub open spec fn number_end(s: Seq<char>, i: int) -> int {
    let j = if char_at(s, i) == '-' { i + 1 } else { i };
    let a = integer_end(s, j);
    if a < 0 { -1 } else { exponent_end(s, fraction_end(s, a)) }
}

/// A character that may follow a backslash in a string.
pub open spec fn escape_char(c: char) -> bool {
    c == '"' || c == '\\' || c == 'b' || c == 'n' || c == 'f' || c == 'r' || c == 't'
}

/// The end of a string whose content is scanned from `j` (-1 when it is not closed
/// or holds a bad escape).
pub open spec fn string_end(s: Seq<char>, j: int) -> int
    decreases s.len() - j,
{
    if j < 0 || j >= s.len() {
        -1
    } else if s[j] == '"' {
        j + 1
    } else if s[j] == '\\' {
        if j + 1 < s.len() && escape_char(s[j + 1]) { string_end(s, j + 2) } else { -1 }
    } else {
        string_end(s, j + 1)
    }
}

/// `w` stands at `i` in `s`.
pub open spec fn word_at(s: Seq<char>, i: int, w: Seq<char>) -> bool {
    0 <= i && i + w.len() <= s.len() && s.subrange(i, i + w.len()) == w
}

/// `w` (in lower case) stands at `i` in `s`, ignoring ASCII letter case.
pub open spec fn word_at_ci(s: Seq<char>, i: int, w: Seq<char>) -> bool {
    0 <= i && i + w.len() <= s.len() && forall|k: int| 0 <= k < w.len() ==> ascii_lower(#[trigger] s[i + k]) == w[k]
}

/// The token that starts at `j`, with its length in characters; `None` where
/// no token starts.
pub open spec fn token_at(s: Seq<char>, j: int) -> Option<(Token, int)> {
    let c = char_at(s, j);
    if c == '{' {
        Some((Token::BraceOpen, 1))
    } else if c == '}' {
        Some((Token::BraceClose, 1))
    } else if c == '[' {
        Some((Token::BracketOpen, 1))
    } else if c == ']' {
        Some((Token::BracketClose, 1))
    } else if c == ':' {
        Some((Token::Colon, 1))
    } else if c == ',' {
        Some((Token::Comma, 1))
    } else if word_at(s, j, seq!['f', 'a', 'l', 's', 'e']) {
        Some((Token::Bool, 5))
    } else if word_at(s, j, seq!['t', 'r', 'u', 'e']) {
        Some((Token::Bool, 4))
    } else if word_at(s, j, seq!['n', 'u', 'l', 'l']) {
        Some((Token::Null, 4))
    } else if c == '"' && string_end(s, j + 1) > 0 {
        Some((Token::String, string_end(s, j + 1) - j))
    } else if (c == '-' || is_digit(c)) && number_end(s, j) > 0 {
        Some((Token::Number, number_end(s, j) - j))
    } else if word_at_ci(s, j, seq!['w', 'a', 'r', 'n', 'i', 'n', 'g']) {
        Some((Token::Warning, 7))
    } else if word_at_ci(s, j, seq!['w', 'a', 'r', 'n']) {
        Some((Token::Warning, 4))
    } else if word_at_ci(s, j, seq!['i', 'n', 'f', 'o']) {
        Some((Token::Info, 4))
    } else if word_at_ci(s, j, seq!['e', 'r', 'r', 'o', 'r']) {
        Some((Token::Error, 5))
    } else if word_at_ci(s, j, seq!['f', 'a', 't', 'a', 'l']) {
        Some((Token::Fatal, 5))
    } else {
        None
    }
}

/// The chunks of `s` from character `i` on, as (token, first character, end
/// character): skipped characters are dropped, each token takes its longest
/// match, and a character where no token starts is a chunk without token.
pub open spec fn lex(s: Seq<char>, i: int) -> Seq<(Option<Token>, int, int)>
    decreases s.len() - i,
{
    if i < 0 || i >= s.len() {
        Seq::empty()
    } else {
        let j = i + space_run(s, i);
        if j < i || j >= s.len() {
            Seq::empty()
        } else {
            match token_at(s, j) {
                Some((t, n)) => if n > 0 && j + n <= s.len() {
                    seq![(Some(t), j, j + n)] + lex(s, j + n)
                } else {
                    Seq::empty()
                },
                None => seq![(None, j, j + 1)] + lex(s, j + 1),
            }
        }
    }
}

proof fn lemma_space_run(s: Seq<char>, j: int)
    requires
        0 <= j <= s.len(),
    ensures
        0 <= space_run(s, j) <= s.len() - j,
    decreases s.len() - j,
{
    if j < s.len() && skipped_char(s[j]) {
        lemma_space_run(s, j + 1);
    }
}

proof fn lemma_digit_run(s: Seq<char>, j: int)
    requires
        0 <= j,
    ensures
        0 <= digit_run(s, j),
        j <= s.len() ==> digit_run(s, j) <= s.len() - j,
        j > s.len() ==> digit_run(s, j) == 0,
    decreases s.len() - j,
{
    if 0 <= j < s.len() && is_digit(s[j]) {
        lemma_digit_run(s, j + 1);
    }
}

proof fn lemma_string_end(s: Seq<char>, j: int)
    ensures
        string_end(s, j) == -1 || (j < string_end(s, j) <= s.len()),
    decreases s.len() - j,
{
    if 0 <= j < s.len() && s[j] != '"' {
        if s[j] == '\\' {
            if j + 1 < s.len() && escape_char(s[j + 1]) {
                lemma_string_end(s, j + 2);
            }
        } else {
            lemma_string_end(s, j + 1);
        }
    }
}

/// The character at `j`, or NUL past the end.
fn char_at_exec(s: &Vec<char>, j: usize) -> (c: char)
    ensures
        c == char_at(s@, j as int),
{
    if j < s.len() { s[j] } else { '\0' }
}

fn space_run_exec(s: &Vec<char>, j: usize) -> (n: usize)
    requires
        j <= s@.len(),
    ensures
        n == space_run(s@, j as int),
        j + n <= s@.len(),
{
    let mut k = j;
    proof {
        lemma_space_run(s@, j as int);
    }
    while k < s.len() && (s[k] == ' ' || s[k] == '\t' || s[k] == '\r' || s[k] == '\n' || s[k] == '\x0C')
        invariant
            j <= k <= s@.len(),
            space_run(s@, j as int) == (k - j) + space_run(s@, k as int),
        decreases s@.len() - k,
    {
        k = k + 1;
    }
    k - j
}

fn digit_run_exec(s: &Vec<char>, j: usize) -> (n: usize)
    ensures
        n == digit_run(s@, j as int),
        j <= s@.len() ==> j + n <= s@.len(),
        j > s@.len() ==> n == 0,
{
    proof {
        lemma_digit_run(s@, j as int);
    }
    if j > s.len() {
        return 0;
    }
    let mut k = j;
    while k < s.len() && '0' <= s[k] && s[k] <= '9'
        invariant
            j <= k <= s@.len(),
            digit_run(s@, j as int) == (k - j) + digit_run(s@, k as int),
        decreases s@.len() - k,
    {
        k = k + 1;
    }
    k - j
}

fn integer_end_exec(s: &Vec<char>, j: usize) -> (r: Option<usize>)
    requires
        j <= s@.len(),
    ensures
        match r {
            Some(a) => a == integer_end(s@, j as int) && j < a <= s@.len(),
            None => integer_end(s@, j as int) < 0,
        },
{
    if j >= s.len() {
        return None;
    }
    let c = s[j];
    if c == '0' {
        Some(j + 1)
    } else if '1' <= c && c <= '9' {
        let n = digit_run_exec(s, j);
        proof {
            lemma_digit_run(s@, j + 1);
        }
        Some(j + n)
    } else {
        None
    }
}

fn fraction_end_exec(s: &Vec<char>, a: usize) -> (b: usize)
    requires
        a <= s@.len(),
    ensures
        b == fraction_end(s@, a as int),
        a <= b <= s@.len(),
{
    if a < s.len() && s[a] == '.' {
        let n = digit_run_exec(s, a + 1);
        if n > 0 {
            return a + 1 + n;
        }
    }
    a
}

fn exponent_end_exec(s: &Vec<char>, b: usize) -> (e: usize)
    requires
        b <= s@.len(),
    ensures
        e == exponent_end(s@, b as int),
        b <= e <= s@.len(),
{
    let len = s.len();
    if b < len && (s[b] == 'e' || s[b] == 'E') {
        let sign = b + 1 < len && (s[b + 1] == '+' || s[b + 1] == '-');
        let k = if sign { b + 2 } else { b + 1 };
        let n = digit_run_exec(s, k);
        if n > 0 {
            return k + n;
        }
    }
    b
}

/// The end of the longest number starting at `i`, if any.
fn number_end_exec(s: &Vec<char>, i: usize) -> (r: Option<usize>)
    requires
        i < s@.len(),
    ensures
        match r {
            Some(e) => e == number_end(s@, i as int) && e > i && e <= s@.len(),
            None => number_end(s@, i as int) < 0,
        },
{
    let _len = s.len();
    let j = if s[i] == '-' { i + 1 } else { i };
    let a = match integer_end_exec(s, j) {
        Some(a) => a,
        None => return None,
    };
    let b = fraction_end_exec(s, a);
    Some(exponent_end_exec(s, b))
}

/// The end of a string whose content is scanned from `j`, if it is closed.
fn string_end_exec(s: &Vec<char>, j: usize) -> (r: Option<usize>)
    requires
        j <= s@.len(),
    ensures
        match r {
            Some(e) => e == string_end(s@, j as int) && j < e <= s@.len(),
            None => string_end(s@, j as int) == -1,
        },
{
    let mut k = j;
    proof {
        lemma_string_end(s@, j as int);
    }
    while k < s.len()
        invariant
            j <= k <= s@.len() + 1,
            string_end(s@, j as int) == string_end(s@, k as int),
        decreases s@.len() + 1 - k,
    {
        if s[k] == '"' {
            proof {
                lemma_string_end(s@, j as int);
            }
            return Some(k + 1);
        } else if s[k] == '\\' {
            if k + 1 < s.len() && (s[k + 1] == '"' || s[k + 1] == '\\' || s[k + 1] == 'b' || s[k + 1] == 'n'
                || s[k + 1] == 'f' || s[k + 1] == 'r' || s[k + 1] == 't') {
                k = k + 2;
            } else {
                return None;
            }
        } else {
            k = k + 1;
        }
    }
    None
}

/// Whether `w` stands at `i` in `s`.
fn word_at_exec(s: &Vec<char>, i: usize, w: &Vec<char>) -> (b: bool)
    ensures
        b == word_at(s@, i as int, w@),
{
    let sl = s.len();
    if w.len() > sl || i > sl - w.len() {
        return false;
    }
    let mut k: usize = 0;
    while k < w.len()
        invariant
            sl == s@.len(),
            i + w@.len() <= s@.len(),
            k <= w@.len(),
            forall|m: int| 0 <= m < k ==> s@[i + m] == w@[m],
        decreases w@.len() - k,
    {
        if s[i + k] != w[k] {
            assert(s@.subrange(i as int, i + w@.len())[k as int] != w@[k as int]);
            return false;
        }
        k = k + 1;
    }
    assert(s@.subrange(i as int, i + w@.len()) =~= w@);
    true
}

/// Whether `w` (lower case) stands at `i` in `s`, ignoring ASCII letter case.
fn word_at_ci_exec(s: &Vec<char>, i: usize, w: &Vec<char>) -> (b: bool)
    ensures
        b == word_at_ci(s@, i as int, w@),
{
    let sl = s.len();
    if w.len() > sl || i > sl - w.len() {
        return false;
    }
    let mut k: usize = 0;
    while k < w.len()
        invariant
            sl == s@.len(),
            i + w@.len() <= s@.len(),
            k <= w@.len(),
            forall|m: int| 0 <= m < k ==> ascii_lower(#[trigger] s@[i + m]) == w@[m],
        decreases w@.len() - k,
    {
        if char_to_ascii_lowercase(s[i + k]) != w[k] {
            return false;
        }
        k = k + 1;
    }
    true
}

/// The chunks of a text are non-empty, lie inside the text, and follow each
/// other without overlapping.
pub proof fn law_chunks_ordered(s: Seq<char>, i: int)
    requires
        0 <= i,
    ensures
        forall|k: int| 0 <= k < lex(s, i).len() ==>
            i <= (#[trigger] lex(s, i)[k]).1 < lex(s, i)[k].2 <= s.len(),
        forall|k: int| 0 <= k < lex(s, i).len() - 1 ==> (#[trigger] lex(s, i)[k]).2 <= lex(s, i)[k + 1].1,
    decreases s.len() - i,
{
    if i < s.len() {
        let j = i + space_run(s, i);
        if j >= i && j < s.len() {
            let next = match token_at(s, j) {
                Some((t, n)) => j + n,
                None => j + 1,
            };
            if next > j && next <= s.len() {
                law_chunks_ordered(s, next);
                let rest = lex(s, next);
                let all = lex(s, i);
                assert forall|k: int| 0 <= k < all.len() implies i <= (#[trigger] all[k]).1 < all[k].2 <= s.len() by {
                    if k > 0 {
                        assert(all[k] == rest[k - 1]);
                    }
                }
                assert forall|k: int| 0 <= k < all.len() - 1 implies (#[trigger] all[k]).2 <= all[k + 1].1 by {
                    if k > 0 {
                        assert(all[k] == rest[k - 1]);
                        assert(all[k + 1] == rest[k]);
                    } else {
                        assert(all[1] == rest[0]);
                    }
                }
            }
        }
    }
}

/// The inside of a JSON string: no bare double quote, and every backslash
/// followed by one of `"`, `\`, `b`, `n`, `f`, `r`, `t`.
pub open spec fn json_string_body(b: Seq<char>) -> bool
    decreases b.len(),
{
    if b.len() == 0 {
        true
    } else if b[0] == '\\' {
        &&& b.len() >= 2
        &&& (b[1] == '"' || b[1] == '\\' || b[1] == 'b' || b[1] == 'n' || b[1] == 'f' || b[1] == 'r' || b[1] == 't')
        &&& json_string_body(b.skip(2))
    } else {
        b[0] != '"' && json_string_body(b.skip(1))
    }
}

/// The scan of a string's inside from `j` on, over a JSON string body
/// followed by a closing quote, ends just after that quote.
proof fn lemma_string_end_body(s: Seq<char>, b: Seq<char>, j: int)
    requires
        json_string_body(b),
        0 <= j,
        j + b.len() < s.len(),
        s.subrange(j, j + b.len()) == b,
        s[j + b.len()] == '"',
    ensures
        string_end(s, j) == j + b.len() + 1,
    decreases b.len(),
{
    if b.len() > 0 {
        assert(s[j] == b[0]);
        if b[0] == '\\' {
            assert(s[j + 1] == b[1]);
            assert(s.subrange(j + 2, j + b.len()) =~= b.skip(2));
            lemma_string_end_body(s, b.skip(2), j + 2);
        } else {
            assert(s.subrange(j + 1, j + b.len()) =~= b.skip(1));
            lemma_string_end_body(s, b.skip(1), j + 1);
        }
    }
}

/// A double-quoted JSON string, its escapes included, is colored as one
/// string from its opening to its closing quote.
pub proof fn law_json_string_is_one_token(b: Seq<char>)
    requires
        json_string_body(b),
    ensures
        lex(seq!['"'] + b + seq!['"'], 0) == seq![(Some(Token::String), 0int, b.len() + 2int)],
{
    let s = seq!['"'] + b + seq!['"'];
    assert(s.subrange(1, 1 + b.len() as int) =~= b);
    lemma_string_end_body(s, b, 1);
    assert(space_run(s, 0) == 0);
    assert(!word_at(s, 0, seq!['f', 'a', 'l', 's', 'e'])) by {
        if word_at(s, 0, seq!['f', 'a', 'l', 's', 'e']) {
            assert(s.subrange(0, 5)[0] == s[0]);
        }
    }
    assert(!word_at(s, 0, seq!['t', 'r', 'u', 'e'])) by {
        if word_at(s, 0, seq!['t', 'r', 'u', 'e']) {
            assert(s.subrange(0, 4)[0] == s[0]);
        }
    }
    assert(!word_at(s, 0, seq!['n', 'u', 'l', 'l'])) by {
        if word_at(s, 0, seq!['n', 'u', 'l', 'l']) {
            assert(s.subrange(0, 4)[0] == s[0]);
        }
    }
    assert(token_at(s, 0) == Some((Token::String, s.len() as int)));
    assert(lex(s, s.len() as int) == Seq::<(Option<Token>, int, int)>::empty());
    assert(lex(s, 0) =~= seq![(Some(Token::String), 0int, b.len() + 2int)]);
}

/// The log level a word names, in lower case: `info`, `warn` or `warning`,
/// `error`, `fatal`.
pub open spec fn level_named(l: Seq<char>) -> Option<Token> {
    if false {
        None
    } else if l == seq!['i', 'n', 'f', 'o'] {
        Some(Token::Info)
    } else if l == seq!['w', 'a', 'r', 'n'] {
        Some(Token::Warning)
    } else if l == seq!['w', 'a', 'r', 'n', 'i', 'n', 'g'] {
        Some(Token::Warning)
    } else if l == seq!['e', 'r', 'r', 'o', 'r'] {
        Some(Token::Error)
    } else if l == seq!['f', 'a', 't', 'a', 'l'] {
        Some(Token::Fatal)
    } else {
        None
    }
}

/// A log level written in any letter case is one chunk, colored as that level.
pub proof fn law_log_level_words(w: Seq<char>)
    requires
        is_ascii_chars(w),
        level_named(ascii_lower_seq(w)) is Some,
    ensures
        lex(w, 0) == seq![(level_named(ascii_lower_seq(w)), 0int, w.len() as int)],
{
    let l = ascii_lower_seq(w);
    assert(forall|i: int| 0 <= i < w.len() ==> #[trigger] ascii_lower(w[i]) == l[i]);
    let c = w[0];
    assert(ascii_lower(c) == l[0]);
    assert(('a' <= c <= 'z') || ('A' <= c <= 'Z'));
    assert(space_run(w, 0) == 0);
    assert(!word_at(w, 0, seq!['f', 'a', 'l', 's', 'e'])) by {
        if word_at(w, 0, seq!['f', 'a', 'l', 's', 'e']) {
            assert(w.subrange(0, 5)[2] == w[2]);
            assert(w.subrange(0, 5)[0] == w[0]);
        }
    }
    assert(!word_at(w, 0, seq!['t', 'r', 'u', 'e'])) by {
        if word_at(w, 0, seq!['t', 'r', 'u', 'e']) {
            assert(w.subrange(0, 4)[0] == w[0]);
        }
    }
    assert(!word_at(w, 0, seq!['n', 'u', 'l', 'l'])) by {
        if word_at(w, 0, seq!['n', 'u', 'l', 'l']) {
            assert(w.subrange(0, 4)[0] == w[0]);
        }
    }
    if l == seq!['w', 'a', 'r', 'n', 'i', 'n', 'g'] {
        assert(word_at_ci(w, 0, seq!['w', 'a', 'r', 'n', 'i', 'n', 'g']));
    }
    if l == seq!['w', 'a', 'r', 'n'] {
        assert(word_at_ci(w, 0, seq!['w', 'a', 'r', 'n']));
        assert(!word_at_ci(w, 0, seq!['w', 'a', 'r', 'n', 'i', 'n', 'g']));
    }
    if l == seq!['i', 'n', 'f', 'o'] {
        assert(word_at_ci(w, 0, seq!['i', 'n', 'f', 'o']));
        assert(!word_at_ci(w, 0, seq!['w', 'a', 'r', 'n', 'i', 'n', 'g']));
        assert(!word_at_ci(w, 0, seq!['w', 'a', 'r', 'n'])) by {
            assert(ascii_lower(w[0]) == l[0]);
        }
    }
    if l == seq!['e', 'r', 'r', 'o', 'r'] {
        assert(word_at_ci(w, 0, seq!['e', 'r', 'r', 'o', 'r']));
        assert(!word_at_ci(w, 0, seq!['w', 'a', 'r', 'n', 'i', 'n', 'g']));
        assert(!word_at_ci(w, 0, seq!['w', 'a', 'r', 'n'])) by {
            assert(ascii_lower(w[0]) == l[0]);
        }
        assert(!word_at_ci(w, 0, seq!['i', 'n', 'f', 'o'])) by {
            assert(ascii_lower(w[0]) == l[0]);
        }
    }
    if l == seq!['f', 'a', 't', 'a', 'l'] {
        assert(word_at_ci(w, 0, seq!['f', 'a', 't', 'a', 'l']));
        assert(!word_at_ci(w, 0, seq!['w', 'a', 'r', 'n', 'i', 'n', 'g']));
        assert(!word_at_ci(w, 0, seq!['w', 'a', 'r', 'n'])) by {
            assert(ascii_lower(w[0]) == l[0]);
        }
        assert(!word_at_ci(w, 0, seq!['i', 'n', 'f', 'o'])) by {
            assert(ascii_lower(w[0]) == l[0]);
        }
        assert(!word_at_ci(w, 0, seq!['e', 'r', 'r', 'o', 'r'])) by {
            assert(ascii_lower(w[0]) == l[0]);
        }
    }
    assert(token_at(w, 0) == Some((level_named(l)->0, w.len() as int)));
    assert(lex(w, w.len() as int) == Seq::<(Option<Token>, int, int)>::empty());
    assert(lex(w, 0) =~= seq![(level_named(l), 0int, w.len() as int)]);
}

/// The token that starts at `j`, with its length in characters.
fn token_at_exec(s: &Vec<char>, j: usize) -> (r: Option<(Token, usize)>)
    requires
        j < s@.len(),
    ensures
        match r {
            Some((t, n)) => token_at(s@, j as int) == Some((t, n as int)) && n > 0 && j + n <= s@.len(),
            None => token_at(s@, j as int) is None,
        },
{
    let _len = s.len();
    let c = s[j];
    if c == '{' {
        return Some((Token::BraceOpen, 1));
    } else if c == '}' {
        return Some((Token::BraceClose, 1));
    } else if c == '[' {
        return Some((Token::BracketOpen, 1));
    } else if c == ']' {
        return Some((Token::BracketClose, 1));
    } else if c == ':' {
        return Some((Token::Colon, 1));
    } else if c == ',' {
        return Some((Token::Comma, 1));
    }
    let w_false = vec!['f', 'a', 'l', 's', 'e'];
    let w_true = vec!['t', 'r', 'u', 'e'];
    let w_null = vec!['n', 'u', 'l', 'l'];
    assert(w_false@ =~= seq!['f', 'a', 'l', 's', 'e']);
    assert(w_true@ =~= seq!['t', 'r', 'u', 'e']);
    assert(w_null@ =~= seq!['n', 'u', 'l', 'l']);
    if word_at_exec(s, j, &w_false) {
        return Some((Token::Bool, 5));
    } else if word_at_exec(s, j, &w_true) {
        return Some((Token::Bool, 4));
    } else if word_at_exec(s, j, &w_null) {
        return Some((Token::Null, 4));
    }
    if c == '"' {
        if let Some(e) = string_end_exec(s, j + 1) {
            return Some((Token::String, e - j));
        }
    } else if c == '-' || ('0' <= c && c <= '9') {
        if let Some(e) = number_end_exec(s, j) {
            return Some((Token::Number, e - j));
        }
    }
    let w_warning = vec!['w', 'a', 'r', 'n', 'i', 'n', 'g'];
    let w_warn = vec!['w', 'a', 'r', 'n'];
    let w_info = vec!['i', 'n', 'f', 'o'];
    let w_error = vec!['e', 'r', 'r', 'o', 'r'];
    let w_fatal = vec!['f', 'a', 't', 'a', 'l'];
    assert(w_warning@ =~= seq!['w', 'a', 'r', 'n', 'i', 'n', 'g']);
    assert(w_warn@ =~= seq!['w', 'a', 'r', 'n']);
    assert(w_info@ =~= seq!['i', 'n', 'f', 'o']);
    assert(w_error@ =~= seq!['e', 'r', 'r', 'o', 'r']);
    assert(w_fatal@ =~= seq!['f', 'a', 't', 'a', 'l']);
    if word_at_ci_exec(s, j, &w_warning) {
        Some((Token::Warning, 7))
    } else if word_at_ci_exec(s, j, &w_warn) {
        Some((Token::Warning, 4))
    } else if word_at_ci_exec(s, j, &w_info) {
        Some((Token::Info, 4))
    } else if word_at_ci_exec(s, j, &w_error) {
        Some((Token::Error, 5))
    } else if word_at_ci_exec(s, j, &w_fatal) {
        Some((Token::Fatal, 5))
    } else {
        None
    }
}

/// A stretch of text given by its byte offsets.
#[derive(Debug, Clone, Copy, PartialEq, Eq, Structural)]
pub struct Span {
    pub start: usize,
    pub end: usize,
}

/// A piece of a line of text, with the token it is (none for a stray character).
#[derive(Debug)]
pub struct Chunk<'a> {
    token: Option<Token>,
    span: Span,
    text: &'a str,
    first: usize,
    last: usize,
}

impl<'a> Chunk<'a> {
    /// The span runs from character `first` to character `last` of the text.
    #[verifier::type_invariant]
    spec fn well_formed(&self) -> bool {
        &&& self.first <= self.last <= self.text@.len()
        &&& self.span.start == byte_offset(self.text@, self.first as int)
        &&& self.span.end == byte_offset(self.text@, self.last as int)
    }

    pub closed spec fn spec_token(&self) -> Option<Token> {
        self.token
    }

    pub closed spec fn spec_span(&self) -> Span {
        self.span
    }

    pub closed spec fn spec_text(&self) -> Seq<char> {
        self.text@
    }

    /// The index of the chunk's first character.
    pub closed spec fn first_char(&self) -> int {
        self.first as int
    }

    /// The index of the character just after the chunk.
    pub closed spec fn end_char(&self) -> int {
        self.last as int
    }

    /// The chunk of `text` between two byte offsets that start characters.
    pub fn new(token: Option<Token>, span: Span, text: &'a str) -> (c: Self)
        requires
            is_boundary(text@, span.start as int),
            is_boundary(text@, span.end as int),
            span.start <= span.end,
        ensures
            c.spec_token() == token,
            c.spec_span() == span,
            c.spec_text() == text@,
            c.first_char() == char_index(text@, span.start as int),
            c.end_char() == char_index(text@, span.end as int),
    {
        let chars = chars_of(text);
        let first = char_index_at(&chars, span.start);
        let last = char_index_at(&chars, span.end);
        proof {
            if last < first {
                crate::utf8_text::lemma_byte_offset_strict(text@, last as int, first as int);
            }
        }
        Chunk { token, span, text, first, last }
    }

    pub fn token(&self) -> (t: Option<Token>)
        ensures
            t == self.spec_token(),
    {
        self.token
    }

    pub fn span(&self) -> (s: Span)
        ensures
            s == self.spec_span(),
    {
        self.span
    }

    /// The text of the chunk.
    pub fn as_str(&self) -> (r: &str)
        ensures
            r@ == self.spec_text().subrange(self.first_char(), self.end_char()),
    {
        proof {
            use_type_invariant(self);
        }
        self.text.substring_char(self.first, self.last)
    }

    /// The byte offset where the chunk starts.
    #[inline]
    pub fn start(&self) -> (s: usize)
        ensures
            s == self.spec_span().start,
    {
        self.span.start
    }

    /// Stretches the chunk to the end of `chunk`, a later chunk of the same text.
    pub fn merge(&mut self, chunk: &Chunk)
        requires
            chunk.spec_text() == old(self).spec_text(),
            old(self).first_char() <= chunk.end_char(),
        ensures
            final(self).spec_token() == old(self).spec_token(),
            final(self).spec_text() == old(self).spec_text(),
            final(self).spec_span() == (Span { start: old(self).spec_span().start, end: chunk.spec_span().end }),
            final(self).first_char() == old(self).first_char(),
            final(self).end_char() == chunk.end_char(),
    {
        proof {
            use_type_invariant(&*self);
            use_type_invariant(chunk);
        }
        *self = Chunk {
            token: self.token,
            span: Span { start: self.span.start, end: chunk.span.end },
            text: self.text,
            first: self.first,
            last: chunk.last,
        };
    }
}

/// What a chunk stands for: its token, first character and end character.
pub open spec fn chunk_view(c: Chunk) -> (Option<Token>, int, int) {
    (c.spec_token(), c.first_char(), c.end_char())
}

/// The byte offset of character `j`, walking from character `i` at byte `off`.
fn advance(s: &Vec<char>, i: usize, off: usize, j: usize) -> (r: usize)
    requires
        i <= j <= s@.len(),
        off == byte_offset(s@, i as int),
        byte_len(s@) <= usize::MAX,
    ensures
        r == byte_offset(s@, j as int),
{
    let mut k = i;
    let mut b = off;
    proof {
        lemma_byte_offset_mono(s@, j as int, s@.len() as int);
        lemma_byte_offset_full(s@);
    }
    while k < j
        invariant
            i <= k <= j <= s@.len(),
            b == byte_offset(s@, k as int),
            byte_offset(s@, j as int) <= usize::MAX,
        decreases j - k,
    {
        proof {
            lemma_byte_offset_step(s@, k as int);
            lemma_byte_offset_mono(s@, k + 1, j as int);
        }
        b = b + utf8_width(s[k]);
        k = k + 1;
    }
    b
}

/// Cuts a line of text into chunks: see `lex`.
pub fn tokenize<'a>(text: &'a str) -> (r: Vec<Chunk<'a>>)
    ensures
        r@.map_values(|c: Chunk<'a>| chunk_view(c)) == lex(text@, 0),
        forall|k: int| 0 <= k < r@.len() ==> (#[trigger] r@[k]).spec_text() == text@,
{
    let s = chars_of(text);
    let _bytes = text_byte_len(text);
    let len = s.len();
    let mut chunks: Vec<Chunk<'a>> = Vec::new();
    let mut i: usize = 0;
    let mut off: usize = 0;
    proof {
        assert(s@.take(0) =~= Seq::<char>::empty());
    }
    while i < len
        invariant
            s@ == text@,
            len == s@.len(),
            byte_len(s@) <= usize::MAX,
            i <= len,
            off == byte_offset(s@, i as int),
            chunks@.map_values(|c: Chunk<'a>| chunk_view(c)) + lex(s@, i as int) == lex(s@, 0),
            forall|k: int| 0 <= k < chunks@.len() ==> (#[trigger] chunks@[k]).spec_text() == text@,
        decreases len - i,
    {
        let ws = space_run_exec(&s, i);
        let j = i + ws;
        if j >= len {
            assert(lex(s@, i as int) =~= Seq::<(Option<Token>, int, int)>::empty());
            assert(lex(s@, len as int) =~= Seq::<(Option<Token>, int, int)>::empty());
            off = advance(&s, i, off, len);
            i = len;
            continue;
        }
        let start = advance(&s, i, off, j);
        let ghost before = chunks@;
        let (token, next) = match token_at_exec(&s, j) {
            Some((t, n)) => (Some(t), j + n),
            None => (None, j + 1),
        };
        let end = advance(&s, j, start, next);
        proof {
            lemma_byte_offset_mono(s@, j as int, next as int);
            crate::utf8_text::lemma_byte_offset_full(s@);
        }
        let chunk = Chunk { token, span: Span { start, end }, text, first: j, last: next };
        chunks.push(chunk);
        proof {
            assert(chunks@.map_values(|c: Chunk<'a>| chunk_view(c)) =~= before.map_values(|c: Chunk<'a>| chunk_view(c)).push((token, j as int, next as int)));
            assert(lex(s@, i as int) == seq![(token, j as int, next as int)] + lex(s@, next as int));
        }
        i = next;
        off = end;
    }
    assert(lex(s@, len as int) =~= Seq::<(Option<Token>, int, int)>::empty());
    assert(chunks@.map_values(|c: Chunk<'a>| chunk_view(c)) =~= lex(s@, 0));
    chunks
}

} // verus!
