use vstd::prelude::*;
use vstd::utf8::*;
use vstd::string::StringSliceAdditionalSpecFns;

verus! {

broadcast use vstd::utf8::char_is_scalar;

/// Number of bytes of the UTF-8 encoding of one character.
pub open spec fn char_width(c: char) -> nat {
    encode_scalar(c as u32).len()
}

/// Number of bytes of the UTF-8 encoding of a character sequence.
pub open spec fn byte_len(s: Seq<char>) -> nat
    decreases s.len(),
{
    if s.len() == 0 {
        0
    } else {
        char_width(s[0]) + byte_len(s.drop_first())
    }
}

/// The byte offset at which the character of index `k` starts.
pub open spec fn byte_offset(s: Seq<char>, k: int) -> nat {
    byte_len(s.take(k))
}

/// `pos` is the byte offset of a character start, or the byte length of `s`.
pub open spec fn is_boundary(s: Seq<char>, pos: int) -> bool {
    exists|k: int| 0 <= k <= s.len() && #[trigger] byte_offset(s, k) == pos
}

/// The character index whose byte offset is `pos` (meaningful where `is_boundary(s, pos)`).
pub open spec fn char_index(s: Seq<char>, pos: int) -> int {
    choose|k: int| 0 <= k <= s.len() && #[trigger] byte_offset(s, k) == pos
}

pub proof fn lemma_byte_len_encode(s: Seq<char>)
    ensures
        byte_len(s) == encode_utf8(s).len(),
    decreases s.len(),
{
    if s.len() > 0 {
        lemma_byte_len_encode(s.drop_first());
    }
}

pub proof fn lemma_byte_len_concat(a: Seq<char>, b: Seq<char>)
    ensures
        byte_len(a + b) == byte_len(a) + byte_len(b),
    decreases a.len(),
{
    if a.len() > 0 {
        assert((a + b).drop_first() =~= a.drop_first() + b);
        lemma_byte_len_concat(a.drop_first(), b);
    } else {
        assert(a + b =~= b);
    }
}

pub proof fn lemma_byte_len_single(c: char)
    ensures
        byte_len(seq![c]) == char_width(c),
{
    assert(seq![c].drop_first() =~= Seq::<char>::empty());
    assert(byte_len(Seq::<char>::empty()) == 0);
}

pub proof fn lemma_byte_len_lower(s: Seq<char>)
    ensures
        byte_len(s) >= s.len(),
    decreases s.len(),
{
    if s.len() > 0 {
        lemma_byte_len_lower(s.drop_first());
    }
}

/// Adding one character to a prefix adds its width.
pub proof fn lemma_byte_offset_step(s: Seq<char>, k: int)
    requires
        0 <= k < s.len(),
    ensures
        byte_offset(s, k + 1) == byte_offset(s, k) + char_width(s[k]),
{
    assert(s.take(k + 1) =~= s.take(k) + seq![s[k]]);
    lemma_byte_len_concat(s.take(k), seq![s[k]]);
    assert(seq![s[k]].drop_first() =~= Seq::<char>::empty());
    assert(byte_len(Seq::<char>::empty()) == 0);
    assert(byte_len(seq![s[k]]) == char_width(s[k]) + byte_len(seq![s[k]].drop_first()));
}

/// Byte offsets grow strictly with the character index.
pub proof fn lemma_byte_offset_strict(s: Seq<char>, i: int, j: int)
    requires
        0 <= i < j <= s.len(),
    ensures
        byte_offset(s, i) + (j - i) <= byte_offset(s, j),
{
    assert(s.take(j) =~= s.take(i) + s.subrange(i, j));
    lemma_byte_len_concat(s.take(i), s.subrange(i, j));
    lemma_byte_len_lower(s.subrange(i, j));
}

pub proof fn lemma_byte_offset_mono(s: Seq<char>, i: int, j: int)
    requires
        0 <= i <= j <= s.len(),
    ensures
        byte_offset(s, i) <= byte_offset(s, j),
{
    if i < j {
        lemma_byte_offset_strict(s, i, j);
    }
}

pub proof fn lemma_byte_offset_full(s: Seq<char>)
    ensures
        byte_offset(s, s.len() as int) == byte_len(s),
{
    assert(s.take(s.len() as int) =~= s);
}

/// Properties of the character index of a boundary.
pub proof fn lemma_boundary(s: Seq<char>, pos: int)
    requires
        is_boundary(s, pos),
    ensures
        0 <= char_index(s, pos) <= s.len(),
        byte_offset(s, char_index(s, pos)) == pos,
        0 <= pos <= byte_len(s),
{
    let k = char_index(s, pos);
    lemma_byte_offset_mono(s, k, s.len() as int);
    lemma_byte_offset_full(s);
}

pub proof fn lemma_encode_concat(a: Seq<char>, b: Seq<char>)
    ensures
        encode_utf8(a + b) == encode_utf8(a) + encode_utf8(b),
    decreases a.len(),
{
    if a.len() == 0 {
        assert(a + b =~= b);
        assert(encode_utf8(a) =~= Seq::<u8>::empty());
        assert(encode_utf8(a) + encode_utf8(b) =~= encode_utf8(b));
    } else {
        assert((a + b).drop_first() =~= a.drop_first() + b);
        assert((a + b)[0] == a[0]);
        lemma_encode_concat(a.drop_first(), b);
        assert(encode_utf8(a + b) =~= encode_utf8(a) + encode_utf8(b));
    }
}

/// The bytes of the characters from index `k` on are the bytes from the
/// corresponding offset on.
pub proof fn lemma_encode_skip(s: Seq<char>, k: int)
    requires
        0 <= k <= s.len(),
    ensures
        encode_utf8(s.skip(k)) == encode_utf8(s).skip(byte_offset(s, k) as int),
        encode_utf8(s.take(k)) == encode_utf8(s).take(byte_offset(s, k) as int),
{
    assert(s =~= s.take(k) + s.skip(k));
    lemma_encode_concat(s.take(k), s.skip(k));
    lemma_byte_len_encode(s.take(k));
    let e = encode_utf8(s);
    assert(e.skip(byte_offset(s, k) as int) =~= encode_utf8(s.skip(k)));
    assert(e.take(byte_offset(s, k) as int) =~= encode_utf8(s.take(k)));
}

proof fn lemma_byte_offset_drop_first(s: Seq<char>, k: int)
    requires
        1 <= k <= s.len(),
    ensures
        byte_offset(s, k) == char_width(s[0]) + byte_offset(s.drop_first(), k - 1),
{
    assert(s.take(k).drop_first() =~= s.drop_first().take(k - 1));
    assert(s.take(k)[0] == s[0]);
}

/// A character boundary in the sense of `str` is a boundary of the characters.
pub proof fn lemma_char_boundary_iff(s: Seq<char>, b: int)
    ensures
        is_char_boundary(encode_utf8(s), b) <==> is_boundary(s, b),
    decreases s.len(),
{
    let h = encode_utf8(s);
    encode_utf8_valid_utf8(s);
    if s.len() == 0 {
        assert(h =~= Seq::<u8>::empty());
        assert(s.take(0) =~= Seq::<char>::empty());
        if is_boundary(s, b) {
            let k = choose|k: int| 0 <= k <= s.len() && #[trigger] byte_offset(s, k) == b;
            assert(k == 0);
        }
        if b == 0 {
            assert(byte_offset(s, 0) == 0);
        }
    } else {
        encode_utf8_first_scalar(s);
        let w = char_width(s[0]) as int;
        let t = s.drop_first();
        assert(pop_first_scalar(h) =~= encode_utf8(t));
        lemma_char_boundary_iff(t, b - w);
        lemma_byte_len_encode(s);
        assert(s.take(0) =~= Seq::<char>::empty());
        assert(byte_offset(s, 0) == 0);
        if is_boundary(s, b) {
            let k = choose|k: int| 0 <= k <= s.len() && #[trigger] byte_offset(s, k) == b;
            if k > 0 {
                lemma_byte_offset_drop_first(s, k);
                assert(byte_offset(t, k - 1) == b - w);
                assert(is_boundary(t, b - w));
                lemma_byte_offset_mono(s, k, s.len() as int);
                lemma_byte_offset_full(s);
            }
        }
        if is_char_boundary(h, b) && b != 0 {
            let k2 = choose|k: int| 0 <= k <= t.len() && #[trigger] byte_offset(t, k) == b - w;
            lemma_byte_offset_drop_first(s, k2 + 1);
            assert(byte_offset(s, k2 + 1) == b);
        }
    }
}

/// The byte length of a `str` is the byte length of its characters.
pub proof fn lemma_str_len(text: &str)
    ensures
        text.spec_bytes().len() == byte_len(text@),
{
    lemma_byte_len_encode(text@);
}

/// The number of UTF-8 bytes of a character.
pub fn utf8_width(c: char) -> (n: usize)
    ensures
        n == char_width(c),
        1 <= n <= 4,
{
    let u = c as u32;
    if u < 0x80 {
        1
    } else if u < 0x800 {
        2
    } else if u < 0x10000 {
        3
    } else {
        4
    }
}

/// The part of a text from byte offset `pos` on.
pub fn text_from(text: &str, pos: usize) -> (r: &str)
    requires
        is_boundary(text@, pos as int),
    ensures
        r@ == text@.skip(char_index(text@, pos as int)),
        r.spec_bytes() == text.spec_bytes().skip(pos as int),
{
    proof {
        lemma_char_boundary_iff(text@, pos as int);
        lemma_boundary(text@, pos as int);
        lemma_encode_skip(text@, char_index(text@, pos as int));
    }
    let (_head, tail) = text.split_at(pos);
    proof {
        let k = char_index(text@, pos as int);
        assert(tail.spec_bytes() =~= text.spec_bytes().skip(pos as int));
        encode_utf8_decode_utf8(tail@);
        encode_utf8_decode_utf8(text@.skip(k));
    }
    tail
}

/// Whether byte offset `pos` is a boundary of the text.
pub fn boundary_at(text: &str, pos: usize) -> (b: bool)
    ensures
        b == is_boundary(text@, pos as int),
{
    proof {
        lemma_char_boundary_iff(text@, pos as int);
    }
    text.is_char_boundary(pos)
}

/// The characters of a text, in order.
pub fn chars_of(text: &str) -> (v: Vec<char>)
    ensures
        v@ == text@,
{
    let mut v: Vec<char> = Vec::new();
    for c in it: text.chars()
        invariant
            v@ == it.seq().take(it.index() as int),
    {
        v.push(c);
    }
    v
}

/// The byte length of a text.
pub fn text_byte_len(text: &str) -> (n: usize)
    ensures
        n == byte_len(text@),
{
    proof {
        lemma_str_len(text);
    }
    let b = text.as_bytes();
    b.len()
}

/// The character index at which a character boundary lies.
pub fn char_index_at(chars: &Vec<char>, pos: usize) -> (k: usize)
    requires
        is_boundary(chars@, pos as int),
    ensures
        k == char_index(chars@, pos as int),
        k <= chars@.len(),
        byte_offset(chars@, k as int) == pos,
{
    proof {
        lemma_boundary(chars@, pos as int);
    }
    proof {
        lemma_boundary(chars@, pos as int);
    }
    let ghost target = char_index(chars@, pos as int);
    let mut off: usize = 0;
    let mut i: usize = 0;
    while off < pos
        invariant
            0 <= i <= target,
            target <= chars@.len(),
            chars@.len() == chars.len(),
            byte_offset(chars@, target) == pos,
            off == byte_offset(chars@, i as int),
            off <= pos,
        decreases target - i,
    {
        assert(i < target) by {
            if i as int == target {
                assert(off == pos);
            }
        }
        proof {
            lemma_byte_offset_step(chars@, i as int);
            lemma_byte_offset_mono(chars@, i as int + 1, target);
        }
        let w = utf8_width(chars[i]);
        off = off + w;
        i = i + 1;
    }
    proof {
        if i < target {
            lemma_byte_offset_strict(chars@, i as int, target);
        }
    }
    i
}

} // verus!
