use vstd::prelude::*;
use vstd::utf8::encode_utf8;
use crate::buffer::Buffer;
use crate::highlight::{Highlight, color_of_hash, deterministic_color, text_hash};
use crate::progress::ProgressOperation;
use crate::strings::string_from_chars;
use crate::utf8_text::chars_of;

verus! {

/// The characters with the Unicode `White_Space` property (as listed in the
/// Unicode Character Database, PropList.txt): the ASCII controls tab to
/// carriage return, space, next line, no-break space, ogham space mark, the
/// spaces U+2000 to U+200A, line and paragraph separators, narrow no-break
/// space, medium mathematical space and ideographic space.
pub open spec fn white_space(c: char) -> bool {
    ||| '\u{9}' <= c <= '\u{d}'
    ||| c == ' '
    ||| c == '\u{85}'
    ||| c == '\u{a0}'
    ||| c == '\u{1680}'
    ||| '\u{2000}' <= c <= '\u{200a}'
    ||| c == '\u{2028}'
    ||| c == '\u{2029}'
    ||| c == '\u{202f}'
    ||| c == '\u{205f}'
    ||| c == '\u{3000}'
}

/// Whether a character has the Unicode `White_Space` property, as
/// `char::is_whitespace` tells.
fn char_is_whitespace(c: char) -> (r: bool)
    ensures
        r == white_space(c),
{
    ('\u{9}' <= c && c <= '\u{d}') || c == ' ' || c == '\u{85}' || c == '\u{a0}' || c == '\u{1680}'
        || ('\u{2000}' <= c && c <= '\u{200a}') || c == '\u{2028}' || c == '\u{2029}' || c == '\u{202f}'
        || c == '\u{205f}' || c == '\u{3000}'
}

/// The number of characters before the first white space.
pub open spec fn word_len(s: Seq<char>) -> nat
    decreases s.len(),
{
    if s.len() == 0 || white_space(s[0]) { 0 } else { 1 + word_len(s.drop_first()) }
}

pub proof fn lemma_word_len(s: Seq<char>)
    ensures
        word_len(s) <= s.len(),
        s.len() > 0 && !white_space(s[0]) ==> word_len(s) >= 1,
    decreases s.len(),
{
    if s.len() > 0 && !white_space(s[0]) {
        lemma_word_len(s.drop_first());
    }
}

/// The words of a text: its longest runs of characters other than white space.
pub open spec fn words(s: Seq<char>) -> Seq<Seq<char>>
    decreases s.len(),
{
    if s.len() == 0 {
        Seq::empty()
    } else if white_space(s[0]) {
        words(s.drop_first())
    } else {
        let n = word_len(s);
        proof {
            lemma_word_len(s);
        }
        seq![s.take(n as int)] + words(s.skip(n as int))
    }
}

/// The words of a text, as `str::split_whitespace` gives them.
pub fn split_words(text: &str) -> (r: Vec<String>)
    ensures
        r@.map_values(|w: String| w@) == words(text@),
{
    let s = chars_of(text);
    let len = s.len();
    let mut r: Vec<String> = Vec::new();
    let mut i: usize = 0;
    assert(s@.skip(0) =~= s@);
    while i < len
        invariant
            s@ == text@,
            len == s@.len(),
            i <= len,
            r@.map_values(|w: String| w@) + words(s@.skip(i as int)) == words(s@),
        decreases len - i,
    {
        let ghost rest = s@.skip(i as int);
        if char_is_whitespace(s[i]) {
            assert(rest.drop_first() =~= s@.skip(i + 1));
            i = i + 1;
        } else {
            let mut j = i + 1;
            assert(rest.drop_first() =~= s@.skip(i + 1));
            while j < len && !char_is_whitespace(s[j])
                invariant
                    i < j <= len,
                    len == s@.len(),
                    rest == s@.skip(i as int),
                    word_len(rest) == (j - i) + word_len(s@.skip(j as int)),
                decreases len - j,
            {
                assert(s@.skip(j as int).drop_first() =~= s@.skip(j + 1));
                j = j + 1;
            }
            proof {
                if j < len {
                    assert(s@.skip(j as int)[0] == s@[j as int]);
                }
                assert(word_len(s@.skip(j as int)) == 0);
            }
            let mut word: Vec<char> = Vec::new();
            let mut k = i;
            while k < j
                invariant
                    i <= k <= j <= len,
                    len == s@.len(),
                    word@ == s@.subrange(i as int, k as int),
                decreases j - k,
            {
                word.push(s[k]);
                assert(s@.subrange(i as int, k + 1) =~= s@.subrange(i as int, k as int).push(s@[k as int]));
                k = k + 1;
            }
            let w = string_from_chars(&word);
            let ghost before = r@.map_values(|w: String| w@);
            r.push(w);
            proof {
                assert(rest.take(j - i) =~= s@.subrange(i as int, j as int));
                assert(rest.skip(j - i) =~= s@.skip(j as int));
                assert(r@.map_values(|w: String| w@) =~= before.push(s@.subrange(i as int, j as int)));
                assert(words(rest) == seq![rest.take(j - i)] + words(rest.skip(j - i)));
                assert(before.push(s@.subrange(i as int, j as int)) + words(s@.skip(j as int))
                    =~= before + (seq![rest.take(j - i)] + words(rest.skip(j - i))));
            }
            i = j;
        }
    }
    assert(words(s@.skip(len as int)) =~= Seq::<Seq<char>>::empty()) by {
        assert(s@.skip(len as int).len() == 0);
    }
    assert(r@.map_values(|w: String| w@) =~= words(s@));
    r
}

/// Something that happened, for the editor to act on.
#[derive(Debug)]
pub enum Event {
    /// The user typed `?`.
    ShowHelp,
    /// The search bar is wanted.
    ShowSearch,
    /// The replace bar is wanted.
    ShowReplace,
    /// The file browser is wanted.
    ShowBrowser,
    /// The list of highlights is wanted.
    ShowHighlight,
    /// A file is to be opened, by path.
    OpenFile(String),
    /// Loading began: path and byte count.
    BufferLoadingStarted(String, u64),
    /// Loading went on: path, bytes read, byte count.
    BufferLoading(String, u64, u64),
    /// The loaded text.
    BufferLoaded(Buffer),
    /// Saving began: path and byte count.
    BufferSavingStarted(String, u64),
    /// Saving went on: path, bytes written, byte count.
    BufferSaving(String, u64, u64),
    /// Saving ended, at this path.
    BufferSaved(String),
    /// Saving to this path did not succeed.
    BufferSaveFailed(String),
    /// The text was closed.
    BufferClosed,
    /// The command line gets this text.
    SetCommand(String),
    /// The command line is emptied.
    ClearCommand,
    /// A tracked operation began, with its total amount.
    OperationStarted(ProgressOperation, usize),
    /// A tracked operation reached this amount.
    OperationProgress(ProgressOperation, usize),
    /// A tracked operation advanced by this amount.
    OperationIncrement(ProgressOperation, usize),
    /// A tracked operation is over.
    OperationFinished(ProgressOperation),
    /// A highlight is to be shown.
    AddHighlight(Highlight),
    /// The highlight at this index is to be dropped.
    RemoveHighlight(usize),
}

/// The words after `highlight ` when the command starts with it.
pub open spec fn highlight_args(c: Seq<char>) -> Option<Seq<Seq<char>>> {
    let prefix = seq!['h', 'i', 'g', 'h', 'l', 'i', 'g', 'h', 't', ' '];
    if c.len() >= prefix.len() && c.take(prefix.len() as int) == prefix {
        Some(words(c.skip(prefix.len() as int)))
    } else {
        None
    }
}

/// The help command.
pub open spec fn is_help_command(c: Seq<char>) -> bool {
    c == seq!['?']
}

/// The command that closes the text.
pub open spec fn is_close_command(c: Seq<char>) -> bool {
    c == seq!['c', 'l', 'o', 's', 'e']
}

impl Event {
    /// The event a typed command asks for: `?` shows the help, `close` closes
    /// the text, `highlight <word> [i]` highlights a word (ignoring case when
    /// followed by `i`) in a color drawn from the word. Anything else is refused.
    pub fn try_from(command: &str) -> (r: Result<Event, ()>)
        ensures
            match r {
                Ok(Event::ShowHelp) => is_help_command(command@),
                Ok(Event::BufferClosed) => is_close_command(command@),
                Ok(Event::AddHighlight(h)) => {
                    &&& highlight_args(command@) matches Some(args)
                    &&& args.len() > 0
                    &&& h.text@ == args[0]
                    &&& h.case_insensitive == (args.len() > 1 && args[1] == seq!['i'])
                    &&& h.color == color_of_hash(text_hash(encode_utf8(args[0])))
                },
                Ok(_) => false,
                Err(()) => !is_help_command(command@) && !is_close_command(command@)
                    && !(highlight_args(command@) matches Some(args) && args.len() > 0),
            },
    {
        let chars = chars_of(command);
        let n = chars.len();
        if n == 1 && chars[0] == '?' {
            assert(command@ =~= seq!['?']);
            return Ok(Event::ShowHelp);
        }
        let close = vec!['c', 'l', 'o', 's', 'e'];
        assert(close@ =~= seq!['c', 'l', 'o', 's', 'e']);
        if chars_equal(&chars, &close) {
            return Ok(Event::BufferClosed);
        }
        let prefix = vec!['h', 'i', 'g', 'h', 'l', 'i', 'g', 'h', 't', ' '];
        assert(prefix@ =~= seq!['h', 'i', 'g', 'h', 'l', 'i', 'g', 'h', 't', ' ']);
        if n >= 10 && starts_with(&chars, &prefix) {
            let mut rest: Vec<char> = Vec::new();
            let mut k: usize = 10;
            while k < n
                invariant
                    10 <= k <= n,
                    n == chars@.len(),
                    rest@ == chars@.subrange(10, k as int),
                decreases n - k,
            {
                rest.push(chars[k]);
                assert(chars@.subrange(10, k + 1) =~= chars@.subrange(10, k as int).push(chars@[k as int]));
                k = k + 1;
            }
            assert(rest@ =~= command@.skip(10));
            let rest_text = string_from_chars(&rest);
            let parts = split_words(rest_text.as_str());
            assert(parts@.len() == words(command@.skip(10)).len());
            if parts.len() > 0 {
                let text = parts[0].clone();
                assert(text@ == parts@.map_values(|w: String| w@)[0]);
                let case_insensitive = if parts.len() > 1 {
                    let ichar = vec!['i'];
                    assert(ichar@ =~= seq!['i']);
                    let second = chars_of(parts[1].as_str());
                    assert(second@ == parts@.map_values(|w: String| w@)[1]);
                    chars_equal(&second, &ichar)
                } else {
                    false
                };
                let color = deterministic_color(text.as_str());
                return Ok(Event::AddHighlight(Highlight::new(text, case_insensitive, color)));
            }
        }
        Err(())
    }
}

/// Whether two character sequences are equal.
fn chars_equal(a: &Vec<char>, b: &Vec<char>) -> (r: bool)
    ensures
        r == (a@ == b@),
{
    if a.len() != b.len() {
        return false;
    }
    let mut k: usize = 0;
    while k < a.len()
        invariant
            a@.len() == b@.len(),
            k <= a@.len(),
            forall|m: int| 0 <= m < k ==> a@[m] == b@[m],
        decreases a@.len() - k,
    {
        if a[k] != b[k] {
            return false;
        }
        k = k + 1;
    }
    assert(a@ =~= b@);
    true
}

/// Whether `s` starts with `p`.
fn starts_with(s: &Vec<char>, p: &Vec<char>) -> (r: bool)
    ensures
        r == (s@.len() >= p@.len() && s@.take(p@.len() as int) == p@),
{
    if s.len() < p.len() {
        return false;
    }
    let mut k: usize = 0;
    while k < p.len()
        invariant
            s@.len() >= p@.len(),
            k <= p@.len(),
            forall|m: int| 0 <= m < k ==> s@[m] == p@[m],
        decreases p@.len() - k,
    {
        if s[k] != p[k] {
            assert(s@.take(p@.len() as int)[k as int] != p@[k as int]);
            return false;
        }
        k = k + 1;
    }
    assert(s@.take(p@.len() as int) =~= p@);
    true
}

} // verus!
