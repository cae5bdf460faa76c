use vstd::prelude::*;
use vstd::string::StringSliceAdditionalSpecFns;
use crate::strings::{lowered, lower_text};
use crate::utf8_text::chars_of;

verus! {

/// An opaque RGB color.
#[derive(Debug, Clone, Copy, PartialEq, Eq, Structural)]
pub struct Color {
    pub r: u8,
    pub g: u8,
    pub b: u8,
    pub a: u8,
}

impl Color {
    /// An opaque color from its red, green and blue parts.
    pub fn from_rgb(r: u8, g: u8, b: u8) -> (c: Color)
        ensures
            c == (Color { r, g, b, a: 255 }),
    {
        Color { r, g, b, a: 255 }
    }
}

/// A word shown with a colored background wherever it appears.
#[derive(Debug, Clone)]
pub struct Highlight {
    pub text: String,
    pub case_insensitive: bool,
    pub color: Color,
}

impl Highlight {
    pub fn new(text: String, case_insensitive: bool, color: Color) -> (h: Self)
        ensures
            h.text == text,
            h.case_insensitive == case_insensitive,
            h.color == color,
    {
        Self { text, case_insensitive, color }
    }
}

/// The multiplier of the text hash.
pub const HASH_FACTOR: u32 = 0x85ebca6b;

/// The hash of some bytes: for each byte, add it and multiply, both wrapping.
pub open spec fn text_hash(bytes: Seq<u8>) -> u32
    decreases bytes.len(),
{
    if bytes.len() == 0 {
        0
    } else {
        vstd::wrapping::u32_specs::wrapping_mul(
            vstd::wrapping::u32_specs::wrapping_add(text_hash(bytes.drop_last()), bytes.last() as u32),
            HASH_FACTOR,
        )
    }
}

/// The color a text always gets: the low three bytes of its hash.
pub open spec fn color_of_hash(h: u32) -> Color {
    Color { r: (h & 0xFF) as u8, g: ((h >> 8) & 0xFF) as u8, b: ((h >> 16) & 0xFF) as u8, a: 255 }
}

/// A color that depends on the text only.
pub fn deterministic_color(text: &str) -> (c: Color)
    ensures
        c == color_of_hash(text_hash(text.spec_bytes())),
{
    let bytes = text.as_bytes();
    let mut hash: u32 = 0;
    let mut i: usize = 0;
    while i < bytes.len()
        invariant
            i <= bytes@.len(),
            bytes@ == text.spec_bytes(),
            hash == text_hash(bytes@.take(i as int)),
        decreases bytes@.len() - i,
    {
        let b = bytes[i];
        assert(bytes@.take(i + 1).drop_last() =~= bytes@.take(i as int));
        hash = hash.wrapping_add(b as u32).wrapping_mul(HASH_FACTOR);
        i = i + 1;
    }
    assert(bytes@.take(i as int) =~= bytes@);
    let r = (hash & 0xFF) as u8;
    let g = ((hash >> 8) & 0xFF) as u8;
    let b = ((hash >> 16) & 0xFF) as u8;
    Color::from_rgb(r, g, b)
}

/// The places where `p` occurs in `t` from character `i` on, left to right and
/// without overlap, as (character index, character count).
pub open spec fn spans_from(t: Seq<char>, p: Seq<char>, i: int) -> Seq<(usize, usize)>
    decreases t.len() - i,
{
    if p.len() == 0 || i < 0 || i + p.len() > t.len() {
        Seq::empty()
    } else if t.subrange(i, i + p.len()) == p {
        seq![(i as usize, p.len() as usize)] + spans_from(t, p, i + p.len())
    } else {
        spans_from(t, p, i + 1)
    }
}

/// What a highlight marks in a line: the text compared in lower case when case is ignored.
pub open spec fn highlight_spans_spec(text: Seq<char>, pattern: Seq<char>, case_insensitive: bool) -> Seq<(usize, usize)> {
    if case_insensitive {
        spans_from(lowered(text), lowered(pattern), 0)
    } else {
        spans_from(text, pattern, 0)
    }
}

/// The stretches of a line a highlight covers, as (first character, number of characters).
/// The pattern is not empty (an empty one would match everywhere without end).
pub fn highlight_spans(text: &str, pattern: &str, case_insensitive: bool) -> (r: Vec<(usize, usize)>)
    requires
        pattern@.len() > 0,
    ensures
        r@ == highlight_spans_spec(text@, pattern@, case_insensitive),
{
    let (t, p) = if case_insensitive {
        let lt = lower_text(text);
        let lp = lower_text(pattern);
        (chars_of(lt.as_str()), chars_of(lp.as_str()))
    } else {
        (chars_of(text), chars_of(pattern))
    };
    let ghost full = spans_from(t@, p@, 0);
    let mut r: Vec<(usize, usize)> = Vec::new();
    if p.len() == 0 {
        return r;
    }
    let tl = t.len();
    let pl = p.len();
    let mut i: usize = 0;
    while i <= tl && pl <= tl - i
        invariant
            tl == t@.len(),
            pl == p@.len(),
            pl > 0,
            i <= tl,
            r@ + spans_from(t@, p@, i as int) == full,
        decreases tl - i,
    {
        let mut j: usize = 0;
        let mut same = true;
        while j < pl
            invariant
                j <= pl,
                i + pl <= tl,
                tl == t@.len(),
                pl == p@.len(),
                same ==> forall|k: int| 0 <= k < j ==> t@[i + k] == p@[k],
                !same ==> t@.subrange(i as int, i + pl) != p@,
            decreases pl - j,
        {
            if t[i + j] != p[j] {
                same = false;
                assert(t@.subrange(i as int, i + pl)[j as int] != p@[j as int]);
            }
            j = j + 1;
        }
        if same {
            assert(t@.subrange(i as int, i + pl) =~= p@);
            let ghost before = r@;
            r.push((i, pl));
            assert(r@ + spans_from(t@, p@, i + pl) =~= before + spans_from(t@, p@, i as int));
            i = i + pl;
        } else {
            i = i + 1;
        }
    }
    assert(spans_from(t@, p@, i as int) =~= Seq::<(usize, usize)>::empty());
    assert(r@ =~= full);
    r
}

/// The colors handed to new highlights, in turn.
pub open spec fn palette(i: int) -> Color {
    if i == 0 { Color { r: 0x99, g: 0xff, b: 0xcc, a: 255 } }
    else if i == 1 { Color { r: 0x66, g: 0x66, b: 0xff, a: 255 } }
    else if i == 2 { Color { r: 0xff, g: 0x66, b: 0x66, a: 255 } }
    else if i == 3 { Color { r: 0xff, g: 0xcc, b: 0x66, a: 255 } }
    else if i == 4 { Color { r: 0xcc, g: 0xff, b: 0x66, a: 255 } }
    else if i == 5 { Color { r: 0xff, g: 0x33, b: 0x99, a: 255 } }
    else if i == 6 { Color { r: 0xff, g: 0x33, b: 0x00, a: 255 } }
    else if i == 7 { Color { r: 0x66, g: 0xff, b: 0x00, a: 255 } }
    else if i == 8 { Color { r: 0x99, g: 0x00, b: 0x99, a: 255 } }
    else if i == 9 { Color { r: 0x99, g: 0x99, b: 0x00, a: 255 } }
    else { Color { r: 0x00, g: 0x99, b: 0x66, a: 255 } }
}

/// The number of colors in the palette.
pub const PALETTE_SIZE: usize = 11;

/// The palette color of index `i`.
pub fn palette_color(i: usize) -> (c: Color)
    requires
        i < PALETTE_SIZE,
    ensures
        c == palette(i as int),
{
    if i == 0 { Color::from_rgb(0x99, 0xff, 0xcc) }
    else if i == 1 { Color::from_rgb(0x66, 0x66, 0xff) }
    else if i == 2 { Color::from_rgb(0xff, 0x66, 0x66) }
    else if i == 3 { Color::from_rgb(0xff, 0xcc, 0x66) }
    else if i == 4 { Color::from_rgb(0xcc, 0xff, 0x66) }
    else if i == 5 { Color::from_rgb(0xff, 0x33, 0x99) }
    else if i == 6 { Color::from_rgb(0xff, 0x33, 0x00) }
    else if i == 7 { Color::from_rgb(0x66, 0xff, 0x00) }
    else if i == 8 { Color::from_rgb(0x99, 0x00, 0x99) }
    else if i == 9 { Color::from_rgb(0x99, 0x99, 0x00) }
    else { Color::from_rgb(0x00, 0x99, 0x66) }
}

/// What a highlight stands for: its text, whether case is ignored, its color.
pub open spec fn highlight_view(h: Highlight) -> (Seq<char>, bool, Color) {
    (h.text@, h.case_insensitive, h.color)
}

/// No two entries share a text.
pub open spec fn texts_distinct(entries: Seq<(Seq<char>, bool, Color)>) -> bool {
    forall|i: int, j: int| 0 <= i < j < entries.len() ==> (#[trigger] entries[i]).0 != (#[trigger] entries[j]).0
}

/// Some entry has this text.
pub open spec fn has_text(entries: Seq<(Seq<char>, bool, Color)>, text: Seq<char>) -> bool {
    exists|i: int| 0 <= i < entries.len() && (#[trigger] entries[i]).0 == text
}

/// After adding a highlight, one with its text is shown, and still no two
/// highlights share a text.
pub proof fn law_added_highlight_is_shown(entries: Seq<(Seq<char>, bool, Color)>, h: Highlight)
    requires
        texts_distinct(entries),
    ensures
        ({
            let after = if has_text(entries, h.text@) { entries } else { entries.push(highlight_view(h)) };
            has_text(after, h.text@) && texts_distinct(after)
        }),
{
    if !has_text(entries, h.text@) {
        let after = entries.push(highlight_view(h));
        assert(after[entries.len() as int].0 == h.text@);
        assert forall|i: int, j: int| 0 <= i < j < after.len() implies (#[trigger] after[i]).0 != (#[trigger] after[j]).0 by {
            assert(after[i] == entries[i]);
            if j < entries.len() {
                assert(after[j] == entries[j]);
            }
        }
    }
}

/// The highlights shown in the text, each with its own text, and the next
/// palette color to hand out.
#[derive(Debug)]
pub struct HighlightManager {
    color_index: usize,
    highlights: Vec<Highlight>,
}

impl HighlightManager {
    #[verifier::type_invariant]
    spec fn unique_texts(&self) -> bool {
        texts_distinct(self.entries())
    }

    /// The highlights, in the order they were added.
    pub closed spec fn entries(&self) -> Seq<(Seq<char>, bool, Color)> {
        self.highlights@.map_values(|h: Highlight| highlight_view(h))
    }

    /// The index of the next palette color.
    pub closed spec fn next_color(&self) -> int {
        self.color_index as int
    }

    /// No highlight yet; the first color comes next.
    pub fn new() -> (m: Self)
        ensures
            m.entries() == Seq::<(Seq<char>, bool, Color)>::empty(),
            m.next_color() == 0,
            texts_distinct(m.entries()),
    {
        let m = HighlightManager { color_index: 0, highlights: Vec::new() };
        assert(m.entries() =~= Seq::<(Seq<char>, bool, Color)>::empty());
        m
    }

    /// Adds a highlight, unless one with the same text is already there.
    pub fn add(&mut self, highlight: Highlight)
        ensures
            final(self).entries() == if has_text(old(self).entries(), highlight.text@) {
                old(self).entries()
            } else {
                old(self).entries().push(highlight_view(highlight))
            },
            final(self).next_color() == old(self).next_color(),
            texts_distinct(final(self).entries()),
    {
        proof {
            use_type_invariant(&*self);
        }
        if self.has_highlight_with_text(highlight.text.as_str()) {
            return;
        }
        proof {
            use_type_invariant(&*self);
        }
        let ghost es = self.entries();
        let mut v: Vec<Highlight> = Vec::new();
        std::mem::swap(&mut v, &mut self.highlights);
        let ghost hv = highlight_view(highlight);
        v.push(highlight);
        proof {
            assert(v@.map_values(|h: Highlight| highlight_view(h)) =~= es.push(hv));
            assert forall|i: int, j: int| 0 <= i < j < es.push(hv).len()
                implies (#[trigger] es.push(hv)[i]).0 != (#[trigger] es.push(hv)[j]).0 by {
                if j == es.len() {
                    assert(es.push(hv)[i] == es[i]);
                } else {
                    assert(es.push(hv)[i] == es[i]);
                    assert(es.push(hv)[j] == es[j]);
                }
            }
        }
        self.highlights = v;
    }

    /// A new highlight of `text`, case kept, in the next palette color.
    pub fn create_highlight(&mut self, text: String) -> (h: Highlight)
        requires
            old(self).next_color() < PALETTE_SIZE,
        ensures
            h.text@ == text@,
            !h.case_insensitive,
            h.color == palette(old(self).next_color()),
            final(self).next_color() == old(self).next_color() + 1,
            final(self).entries() == old(self).entries(),
            texts_distinct(final(self).entries()),
    {
        proof {
            use_type_invariant(&*self);
        }
        let color = palette_color(self.color_index);
        self.color_index = self.color_index + 1;
        Highlight::new(text, false, color)
    }

    /// Removes the highlight at `index`, if there is one.
    pub fn remove(&mut self, index: usize)
        ensures
            final(self).entries() == if index < old(self).entries().len() {
                old(self).entries().remove(index as int)
            } else {
                old(self).entries()
            },
            final(self).next_color() == old(self).next_color(),
            texts_distinct(final(self).entries()),
    {
        proof {
            use_type_invariant(&*self);
        }
        if index < self.highlights.len() {
            let ghost es = self.entries();
            let mut v: Vec<Highlight> = Vec::new();
            std::mem::swap(&mut v, &mut self.highlights);
            let _gone = v.remove(index);
            proof {
                assert(v@.map_values(|h: Highlight| highlight_view(h)) =~= es.remove(index as int));
                assert forall|i: int, j: int| 0 <= i < j < es.remove(index as int).len()
                    implies (#[trigger] es.remove(index as int)[i]).0 != (#[trigger] es.remove(index as int)[j]).0 by {
                    let oi = if i < index { i } else { i + 1 };
                    let oj = if j < index { j } else { j + 1 };
                    assert(es.remove(index as int)[i] == es[oi]);
                    assert(es.remove(index as int)[j] == es[oj]);
                }
            }
            self.highlights = v;
        }
    }

    /// Whether a highlight has this text.
    pub fn has_highlight_with_text(&self, text: &str) -> (b: bool)
        ensures
            b == has_text(self.entries(), text@),
    {
        let mut k: usize = 0;
        while k < self.highlights.len()
            invariant
                k <= self.highlights@.len(),
                forall|m: int| 0 <= m < k ==> (#[trigger] self.highlights@[m]).text@ != text@,
            decreases self.highlights@.len() - k,
        {
            if string_eq(self.highlights[k].text.as_str(), text) {
                assert(self.entries()[k as int].0 == text@);
                return true;
            }
            k = k + 1;
        }
        proof {
            assert forall|i: int| 0 <= i < self.entries().len() implies (#[trigger] self.entries()[i]).0 != text@ by {
                assert(self.entries()[i].0 == self.highlights@[i].text@);
            }
        }
        false
    }

    /// The index of the next palette color.
    pub fn next_color_index(&self) -> (n: usize)
        ensures
            n == self.next_color(),
    {
        self.color_index
    }

    /// The number of highlights.
    pub fn len(&self) -> (n: usize)
        ensures
            n == self.entries().len(),
    {
        self.highlights.len()
    }

    /// The highlights, in the order they were added.
    pub fn iter(&self) -> (v: &Vec<Highlight>)
        ensures
            v@.map_values(|h: Highlight| highlight_view(h)) == self.entries(),
    {
        &self.highlights
    }
}

/// Whether two texts are equal.
pub fn string_eq(a: &str, b: &str) -> (r: bool)
    ensures
        r == (a@ == b@),
{
    let ca = chars_of(a);
    let cb = chars_of(b);
    if ca.len() != cb.len() {
        return false;
    }
    let mut k: usize = 0;
    while k < ca.len()
        invariant
            ca@ == a@,
            cb@ == b@,
            ca@.len() == cb@.len(),
            k <= ca@.len(),
            forall|m: int| 0 <= m < k ==> ca@[m] == cb@[m],
        decreases ca@.len() - k,
    {
        if ca[k] != cb[k] {
            return false;
        }
        k = k + 1;
    }
    assert(ca@ =~= cb@);
    true
}

} // verus!
