use vstd::prelude::*;
use vstd::utf8::is_ascii_chars;
use crate::search::lower_byte;
use crate::keys::{ascii_lower_seq, lemma_ascii_lowered};

verus! {

/// Appends one character: calls `String::push`, whose documentation says it
/// appends the given char to the end of the string.
#[verifier::external_body]
pub(crate) fn push_char(s: &mut String, c: char)
    ensures
        final(s)@ == old(s)@.push(c),
{
    s.push(c);
}

/// What `str::to_lowercase` returns for a text.
pub uninterp spec fn lowercase(s: Seq<char>) -> Seq<char>;

/// Calls `str::to_lowercase` (the Unicode `Lowercase` mapping of each
/// character). The contract names the result; the Unicode tables are not
/// restated here. Of an ASCII text it states what the documentation of
/// `str::to_ascii_lowercase` says `to_lowercase` also does to ASCII letters:
/// each character becomes its ASCII lower case ('A' to 'Z' become 'a' to
/// 'z', the rest stay).
#[verifier::external_body]
pub(crate) fn to_lowercase(s: &str) -> (r: String)
    ensures
        r@ == lowercase(s@),
        is_ascii_chars(s@) ==> {
            &&& is_ascii_chars(r@)
            &&& r@.len() == s@.len()
            &&& forall|i: int| 0 <= i < s@.len() ==> (#[trigger] r@[i]) as u8 == lower_byte(s@[i] as u8)
        },
{
    s.to_lowercase()
}

/// The lower case of a text as `to_lowercase` gives it: for an ASCII text
/// its ASCII lower case, otherwise the Unicode mapping, only named.
pub open spec fn lowered(s: Seq<char>) -> Seq<char> {
    if is_ascii_chars(s) { ascii_lower_seq(s) } else { lowercase(s) }
}

/// The lower case of a text.
pub fn lower_text(s: &str) -> (r: String)
    ensures
        r@ == lowered(s@),
{
    let r = to_lowercase(s);
    proof {
        if is_ascii_chars(s@) {
            lemma_ascii_lowered(s@, r@);
        }
    }
    r
}

/// A string holding the given characters.
pub fn string_from_chars(chars: &Vec<char>) -> (s: String)
    ensures
        s@ == chars@,
{
    let mut s = String::new();
    for i in 0..chars.len()
        invariant
            s@ == chars@.take(i as int),
    {
        push_char(&mut s, chars[i]);
        assert(chars@.take(i + 1) =~= chars@.take(i as int).push(chars@[i as int]));
    }
    assert(chars@.take(chars.len() as int) =~= chars@);
    s
}

/// Appends the characters of `t` to `s`.
pub fn append_text(s: &mut String, t: &str)
    ensures
        final(s)@ == old(s)@ + t@,
{
    let chars = crate::utf8_text::chars_of(t);
    let ghost start = s@;
    for i in 0..chars.len()
        invariant
            chars@ == t@,
            s@ == start + chars@.take(i as int),
    {
        push_char(s, chars[i]);
        assert(chars@.take(i + 1) =~= chars@.take(i as int).push(chars@[i as int]));
    }
    assert(chars@.take(chars.len() as int) =~= chars@);
}

/// What `format!("{:?}", text)` gives for a text.
pub uninterp spec fn debug_quoted(text: Seq<char>) -> Seq<char>;

/// The text in Rust's debug notation: calls `format!("{:?}", text)`, which the
/// documentation describes as the text between double quotes with special
/// characters escaped. The escaping rules are only named here.
#[verifier::external_body]
pub(crate) fn quoted(text: &str) -> (r: String)
    ensures
        r@ == debug_quoted(text@),
{
    format!("{:?}", text)
}

} // verus!
