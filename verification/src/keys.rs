use vstd::prelude::*;
use vstd::utf8::is_ascii_chars;
use crate::search::lower_byte;
use crate::utf8_text::chars_of;

verus! {

/// ASCII lower case of one character: `A`..`Z` become `a`..`z`, the rest is unchanged.
pub open spec fn ascii_lower(c: char) -> char {
    if 'A' <= c <= 'Z' {
        ((c as u32) + 32) as char
    } else {
        c
    }
}

/// ASCII lower case of a character sequence.
pub open spec fn ascii_lower_seq(s: Seq<char>) -> Seq<char> {
    s.map_values(|c: char| ascii_lower(c))
}

/// A text whose characters each have the ASCII lower case (as a byte) of the
/// corresponding ASCII character of `s` is the ASCII lower case of `s`.
pub proof fn lemma_ascii_lowered(s: Seq<char>, r: Seq<char>)
    requires
        is_ascii_chars(s),
        is_ascii_chars(r),
        r.len() == s.len(),
        forall|i: int| 0 <= i < s.len() ==> (#[trigger] r[i]) as u8 == lower_byte(s[i] as u8),
    ensures
        r == ascii_lower_seq(s),
{
    assert forall|i: int| 0 <= i < s.len() implies #[trigger] r[i] == ascii_lower(s[i]) by {
        assert(r[i] as u8 == lower_byte(s[i] as u8));
    }
    assert(r =~= ascii_lower_seq(s));
}

/// The ASCII lower case of an ASCII character, as a byte, is the ASCII lower
/// case of its byte.
pub proof fn lemma_ascii_lower_byte(c: char)
    requires
        c <= '\x7f',
    ensures
        ascii_lower(c) <= '\x7f',
        ascii_lower(c) as u8 == lower_byte(c as u8),
{
}

/// ASCII lower case of one character, as `char::to_ascii_lowercase` gives it.
pub fn char_to_ascii_lowercase(c: char) -> (r: char)
    ensures
        r == ascii_lower(c),
{
    if 'A' <= c && c <= 'Z' {
        let b: u8 = c as u8;
        (b + 32) as char
    } else {
        c
    }
}

/// The ASCII lower case of the characters `v[lo..hi]`.
pub fn ascii_lower_slice(v: &Vec<char>, lo: usize, hi: usize) -> (r: Vec<char>)
    requires
        lo <= hi <= v@.len(),
    ensures
        r@ == ascii_lower_seq(v@.subrange(lo as int, hi as int)),
{
    let mut r: Vec<char> = Vec::new();
    let mut i = lo;
    while i < hi
        invariant
            lo <= i <= hi,
            hi <= v@.len(),
            r@ == ascii_lower_seq(v@.subrange(lo as int, i as int)),
        decreases hi - i,
    {
        let c = char_to_ascii_lowercase(v[i]);
        r.push(c);
        i = i + 1;
        assert(r@ =~= ascii_lower_seq(v@.subrange(lo as int, i as int)));
    }
    r
}

/// Whether the characters of `v` are those of `lit`.
pub fn chars_eq(v: &Vec<char>, lit: &str) -> (b: bool)
    ensures
        b == (v@ == lit@),
{
    let w = chars_of(lit);
    if v.len() != w.len() {
        return false;
    }
    let mut i: usize = 0;
    while i < v.len()
        invariant
            i <= v@.len(),
            v@.len() == w@.len(),
            w@ == lit@,
            forall|j: int| 0 <= j < i ==> v@[j] == w@[j],
        decreases v@.len() - i,
    {
        if v[i] != w[i] {
            return false;
        }
        i = i + 1;
    }
    assert(v@ =~= w@);
    true
}

/// The keys a shortcut can name.
#[derive(Debug, Clone, Copy, PartialEq, Eq, Hash, Structural)]
pub enum Key {
    A,
    B,
    C,
    D,
    E,
    F,
    G,
    H,
    I,
    J,
    K,
    L,
    M,
    N,
    O,
    P,
    Q,
    R,
    S,
    T,
    U,
    V,
    W,
    X,
    Y,
    Z,
    Num0,
    Num1,
    Num2,
    Num3,
    Num4,
    Num5,
    Num6,
    Num7,
    Num8,
    Num9,
    F1,
    F2,
    F3,
    F4,
    F5,
    F6,
    F7,
    F8,
    F9,
    F10,
    F11,
    F12,
    F13,
    F14,
    F15,
    F16,
    F17,
    F18,
    F19,
    F20,
    ArrowDown,
    ArrowLeft,
    ArrowRight,
    ArrowUp,
    Escape,
    Tab,
    Backspace,
    Enter,
    Space,
    Insert,
    Delete,
    Home,
    End,
    PageUp,
    PageDown,
}

/// The key a (lower-case) name denotes, as `string_to_key` reads it.
pub open spec fn key_for_lower_name(n: Seq<char>) -> Option<Key> {
    if n == "a"@ {
        Some(Key::A)
    } else if n == "b"@ {
        Some(Key::B)
    } else if n == "c"@ {
        Some(Key::C)
    } else if n == "d"@ {
        Some(Key::D)
    } else if n == "e"@ {
        Some(Key::E)
    } else if n == "f"@ {
        Some(Key::F)
    } else if n == "g"@ {
        Some(Key::G)
    } else if n == "h"@ {
        Some(Key::H)
    } else if n == "i"@ {
        Some(Key::I)
    } else if n == "j"@ {
        Some(Key::J)
    } else if n == "k"@ {
        Some(Key::K)
    } else if n == "l"@ {
        Some(Key::L)
    } else if n == "m"@ {
        Some(Key::M)
    } else if n == "n"@ {
        Some(Key::N)
    } else if n == "o"@ {
        Some(Key::O)
    } else if n == "p"@ {
        Some(Key::P)
    } else if n == "q"@ {
        Some(Key::Q)
    } else if n == "r"@ {
        Some(Key::R)
    } else if n == "s"@ {
        Some(Key::S)
    } else if n == "t"@ {
        Some(Key::T)
    } else if n == "u"@ {
        Some(Key::U)
    } else if n == "v"@ {
        Some(Key::V)
    } else if n == "w"@ {
        Some(Key::W)
    } else if n == "x"@ {
        Some(Key::X)
    } else if n == "y"@ {
        Some(Key::Y)
    } else if n == "z"@ {
        Some(Key::Z)
    } else if n == "0"@ {
        Some(Key::Num0)
    } else if n == "1"@ {
        Some(Key::Num1)
    } else if n == "2"@ {
        Some(Key::Num2)
    } else if n == "3"@ {
        Some(Key::Num3)
    } else if n == "4"@ {
        Some(Key::Num4)
    } else if n == "5"@ {
        Some(Key::Num5)
    } else if n == "6"@ {
        Some(Key::Num6)
    } else if n == "7"@ {
        Some(Key::Num7)
    } else if n == "8"@ {
        Some(Key::Num8)
    } else if n == "9"@ {
        Some(Key::Num9)
    } else if n == "f1"@ {
        Some(Key::F1)
    } else if n == "f2"@ {
        Some(Key::F2)
    } else if n == "f3"@ {
        Some(Key::F3)
    } else if n == "f4"@ {
        Some(Key::F4)
    } else if n == "f5"@ {
        Some(Key::F5)
    } else if n == "f6"@ {
        Some(Key::F6)
    } else if n == "f7"@ {
        Some(Key::F7)
    } else if n == "f8"@ {
        Some(Key::F8)
    } else if n == "f9"@ {
        Some(Key::F9)
    } else if n == "f10"@ {
        Some(Key::F10)
    } else if n == "f11"@ {
        Some(Key::F11)
    } else if n == "f12"@ {
        Some(Key::F12)
    } else if n == "f13"@ {
        Some(Key::F13)
    } else if n == "f14"@ {
        Some(Key::F14)
    } else if n == "f15"@ {
        Some(Key::F15)
    } else if n == "f16"@ {
        Some(Key::F16)
    } else if n == "f17"@ {
        Some(Key::F17)
    } else if n == "f18"@ {
        Some(Key::F18)
    } else if n == "f19"@ {
        Some(Key::F19)
    } else if n == "f20"@ {
        Some(Key::F20)
    } else if n == "arrowdown"@ || n == "down"@ {
        Some(Key::ArrowDown)
    } else if n == "arrowleft"@ || n == "left"@ {
        Some(Key::ArrowLeft)
    } else if n == "arrowright"@ || n == "right"@ {
        Some(Key::ArrowRight)
    } else if n == "arrowup"@ || n == "up"@ {
        Some(Key::ArrowUp)
    } else if n == "escape"@ || n == "esc"@ {
        Some(Key::Escape)
    } else if n == "tab"@ {
        Some(Key::Tab)
    } else if n == "backspace"@ {
        Some(Key::Backspace)
    } else if n == "enter"@ || n == "return"@ {
        Some(Key::Enter)
    } else if n == "space"@ {
        Some(Key::Space)
    } else if n == "insert"@ {
        Some(Key::Insert)
    } else if n == "delete"@ || n == "del"@ {
        Some(Key::Delete)
    } else if n == "home"@ {
        Some(Key::Home)
    } else if n == "end"@ {
        Some(Key::End)
    } else if n == "pageup"@ {
        Some(Key::PageUp)
    } else if n == "pagedown"@ {
        Some(Key::PageDown)
    } else {
        None
    }
}

/// The name `Debug` prints for a key.
pub open spec fn key_debug_name(k: Key) -> Seq<char> {
    match k {
        Key::A => "A"@,
        Key::B => "B"@,
        Key::C => "C"@,
        Key::D => "D"@,
        Key::E => "E"@,
        Key::F => "F"@,
        Key::G => "G"@,
        Key::H => "H"@,
        Key::I => "I"@,
        Key::J => "J"@,
        Key::K => "K"@,
        Key::L => "L"@,
        Key::M => "M"@,
        Key::N => "N"@,
        Key::O => "O"@,
        Key::P => "P"@,
        Key::Q => "Q"@,
        Key::R => "R"@,
        Key::S => "S"@,
        Key::T => "T"@,
        Key::U => "U"@,
        Key::V => "V"@,
        Key::W => "W"@,
        Key::X => "X"@,
        Key::Y => "Y"@,
        Key::Z => "Z"@,
        Key::Num0 => "Num0"@,
        Key::Num1 => "Num1"@,
        Key::Num2 => "Num2"@,
        Key::Num3 => "Num3"@,
        Key::Num4 => "Num4"@,
        Key::Num5 => "Num5"@,
        Key::Num6 => "Num6"@,
        Key::Num7 => "Num7"@,
        Key::Num8 => "Num8"@,
        Key::Num9 => "Num9"@,
        Key::F1 => "F1"@,
        Key::F2 => "F2"@,
        Key::F3 => "F3"@,
        Key::F4 => "F4"@,
        Key::F5 => "F5"@,
        Key::F6 => "F6"@,
        Key::F7 => "F7"@,
        Key::F8 => "F8"@,
        Key::F9 => "F9"@,
        Key::F10 => "F10"@,
        Key::F11 => "F11"@,
        Key::F12 => "F12"@,
        Key::F13 => "F13"@,
        Key::F14 => "F14"@,
        Key::F15 => "F15"@,
        Key::F16 => "F16"@,
        Key::F17 => "F17"@,
        Key::F18 => "F18"@,
        Key::F19 => "F19"@,
        Key::F20 => "F20"@,
        Key::ArrowDown => "ArrowDown"@,
        Key::ArrowLeft => "ArrowLeft"@,
        Key::ArrowRight => "ArrowRight"@,
        Key::ArrowUp => "ArrowUp"@,
        Key::Escape => "Escape"@,
        Key::Tab => "Tab"@,
        Key::Backspace => "Backspace"@,
        Key::Enter => "Enter"@,
        Key::Space => "Space"@,
        Key::Insert => "Insert"@,
        Key::Delete => "Delete"@,
        Key::Home => "Home"@,
        Key::End => "End"@,
        Key::PageUp => "PageUp"@,
        Key::PageDown => "PageDown"@,
    }
}

/// The key a lower-case name denotes.
pub fn key_for_lower_name_exec(n: &Vec<char>) -> (k: Option<Key>)
    ensures
        k == key_for_lower_name(n@),
{
    if chars_eq(n, "a") {
        return Some(Key::A);
    }
    if chars_eq(n, "b") {
        return Some(Key::B);
    }
    if chars_eq(n, "c") {
        return Some(Key::C);
    }
    if chars_eq(n, "d") {
        return Some(Key::D);
    }
    if chars_eq(n, "e") {
        return Some(Key::E);
    }
    if chars_eq(n, "f") {
        return Some(Key::F);
    }
    if chars_eq(n, "g") {
        return Some(Key::G);
    }
    if chars_eq(n, "h") {
        return Some(Key::H);
    }
    if chars_eq(n, "i") {
        return Some(Key::I);
    }
    if chars_eq(n, "j") {
        return Some(Key::J);
    }
    if chars_eq(n, "k") {
        return Some(Key::K);
    }
    if chars_eq(n, "l") {
        return Some(Key::L);
    }
    if chars_eq(n, "m") {
        return Some(Key::M);
    }
    if chars_eq(n, "n") {
        return Some(Key::N);
    }
    if chars_eq(n, "o") {
        return Some(Key::O);
    }
    if chars_eq(n, "p") {
        return Some(Key::P);
    }
    if chars_eq(n, "q") {
        return Some(Key::Q);
    }
    if chars_eq(n, "r") {
        return Some(Key::R);
    }
    if chars_eq(n, "s") {
        return Some(Key::S);
    }
    if chars_eq(n, "t") {
        return Some(Key::T);
    }
    if chars_eq(n, "u") {
        return Some(Key::U);
    }
    if chars_eq(n, "v") {
        return Some(Key::V);
    }
    if chars_eq(n, "w") {
        return Some(Key::W);
    }
    if chars_eq(n, "x") {
        return Some(Key::X);
    }
    if chars_eq(n, "y") {
        return Some(Key::Y);
    }
    if chars_eq(n, "z") {
        return Some(Key::Z);
    }
    if chars_eq(n, "0") {
        return Some(Key::Num0);
    }
    if chars_eq(n, "1") {
        return Some(Key::Num1);
    }
    if chars_eq(n, "2") {
        return Some(Key::Num2);
    }
    if chars_eq(n, "3") {
        return Some(Key::Num3);
    }
    if chars_eq(n, "4") {
        return Some(Key::Num4);
    }
    if chars_eq(n, "5") {
        return Some(Key::Num5);
    }
    if chars_eq(n, "6") {
        return Some(Key::Num6);
    }
    if chars_eq(n, "7") {
        return Some(Key::Num7);
    }
    if chars_eq(n, "8") {
        return Some(Key::Num8);
    }
    if chars_eq(n, "9") {
        return Some(Key::Num9);
    }
    if chars_eq(n, "f1") {
        return Some(Key::F1);
    }
    if chars_eq(n, "f2") {
        return Some(Key::F2);
    }
    if chars_eq(n, "f3") {
        return Some(Key::F3);
    }
    if chars_eq(n, "f4") {
        return Some(Key::F4);
    }
    if chars_eq(n, "f5") {
        return Some(Key::F5);
    }
    if chars_eq(n, "f6") {
        return Some(Key::F6);
    }
    if chars_eq(n, "f7") {
        return Some(Key::F7);
    }
    if chars_eq(n, "f8") {
        return Some(Key::F8);
    }
    if chars_eq(n, "f9") {
        return Some(Key::F9);
    }
    if chars_eq(n, "f10") {
        return Some(Key::F10);
    }
    if chars_eq(n, "f11") {
        return Some(Key::F11);
    }
    if chars_eq(n, "f12") {
        return Some(Key::F12);
    }
    if chars_eq(n, "f13") {
        return Some(Key::F13);
    }
    if chars_eq(n, "f14") {
        return Some(Key::F14);
    }
    if chars_eq(n, "f15") {
        return Some(Key::F15);
    }
    if chars_eq(n, "f16") {
        return Some(Key::F16);
    }
    if chars_eq(n, "f17") {
        return Some(Key::F17);
    }
    if chars_eq(n, "f18") {
        return Some(Key::F18);
    }
    if chars_eq(n, "f19") {
        return Some(Key::F19);
    }
    if chars_eq(n, "f20") {
        return Some(Key::F20);
    }
    if chars_eq(n, "arrowdown") || chars_eq(n, "down") {
        return Some(Key::ArrowDown);
    }
    if chars_eq(n, "arrowleft") || chars_eq(n, "left") {
        return Some(Key::ArrowLeft);
    }
    if chars_eq(n, "arrowright") || chars_eq(n, "right") {
        return Some(Key::ArrowRight);
    }
    if chars_eq(n, "arrowup") || chars_eq(n, "up") {
        return Some(Key::ArrowUp);
    }
    if chars_eq(n, "escape") || chars_eq(n, "esc") {
        return Some(Key::Escape);
    }
    if chars_eq(n, "tab") {
        return Some(Key::Tab);
    }
    if chars_eq(n, "backspace") {
        return Some(Key::Backspace);
    }
    if chars_eq(n, "enter") || chars_eq(n, "return") {
        return Some(Key::Enter);
    }
    if chars_eq(n, "space") {
        return Some(Key::Space);
    }
    if chars_eq(n, "insert") {
        return Some(Key::Insert);
    }
    if chars_eq(n, "delete") || chars_eq(n, "del") {
        return Some(Key::Delete);
    }
    if chars_eq(n, "home") {
        return Some(Key::Home);
    }
    if chars_eq(n, "end") {
        return Some(Key::End);
    }
    if chars_eq(n, "pageup") {
        return Some(Key::PageUp);
    }
    if chars_eq(n, "pagedown") {
        return Some(Key::PageDown);
    }
    None
}

impl Key {
    /// The name `Debug` prints for the key.
    pub fn debug_name(&self) -> (s: &'static str)
        ensures
            s@ == key_debug_name(*self),
    {
        match self {
            Key::A => "A",
            Key::B => "B",
            Key::C => "C",
            Key::D => "D",
            Key::E => "E",
            Key::F => "F",
            Key::G => "G",
            Key::H => "H",
            Key::I => "I",
            Key::J => "J",
            Key::K => "K",
            Key::L => "L",
            Key::M => "M",
            Key::N => "N",
            Key::O => "O",
            Key::P => "P",
            Key::Q => "Q",
            Key::R => "R",
            Key::S => "S",
            Key::T => "T",
            Key::U => "U",
            Key::V => "V",
            Key::W => "W",
            Key::X => "X",
            Key::Y => "Y",
            Key::Z => "Z",
            Key::Num0 => "Num0",
            Key::Num1 => "Num1",
            Key::Num2 => "Num2",
            Key::Num3 => "Num3",
            Key::Num4 => "Num4",
            Key::Num5 => "Num5",
            Key::Num6 => "Num6",
            Key::Num7 => "Num7",
            Key::Num8 => "Num8",
            Key::Num9 => "Num9",
            Key::F1 => "F1",
            Key::F2 => "F2",
            Key::F3 => "F3",
            Key::F4 => "F4",
            Key::F5 => "F5",
            Key::F6 => "F6",
            Key::F7 => "F7",
            Key::F8 => "F8",
            Key::F9 => "F9",
            Key::F10 => "F10",
            Key::F11 => "F11",
            Key::F12 => "F12",
            Key::F13 => "F13",
            Key::F14 => "F14",
            Key::F15 => "F15",
            Key::F16 => "F16",
            Key::F17 => "F17",
            Key::F18 => "F18",
            Key::F19 => "F19",
            Key::F20 => "F20",
            Key::ArrowDown => "ArrowDown",
            Key::ArrowLeft => "ArrowLeft",
            Key::ArrowRight => "ArrowRight",
            Key::ArrowUp => "ArrowUp",
            Key::Escape => "Escape",
            Key::Tab => "Tab",
            Key::Backspace => "Backspace",
            Key::Enter => "Enter",
            Key::Space => "Space",
            Key::Insert => "Insert",
            Key::Delete => "Delete",
            Key::Home => "Home",
            Key::End => "End",
            Key::PageUp => "PageUp",
            Key::PageDown => "PageDown",
        }
    }
}

} // verus!
