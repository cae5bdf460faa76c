use vstd::prelude::*;
use crate::keys::{Key, ascii_lower_seq, chars_eq, key_debug_name, key_for_lower_name, key_for_lower_name_exec};
use vstd::utf8::is_ascii_chars;
use crate::strings::{lower_text, lowered, push_char, string_from_chars};
use crate::utf8_text::chars_of;

verus! {

/// The modifier keys a shortcut holds.
#[derive(Debug, Hash, PartialEq, Eq, Clone, Copy, Structural)]
pub struct SimpleModifiers {
    pub alt: bool,
    pub ctrl: bool,
    pub shift: bool,
    pub command: bool,
}

impl SimpleModifiers {
    pub fn new(alt: bool, ctrl: bool, shift: bool, command: bool) -> (m: Self)
        ensures
            m == (SimpleModifiers { alt, ctrl, shift, command }),
    {
        SimpleModifiers { alt, ctrl, shift, command }
    }

    /// No modifier.
    pub fn none() -> (m: Self)
        ensures
            m == (SimpleModifiers { alt: false, ctrl: false, shift: false, command: false }),
    {
        SimpleModifiers { alt: false, ctrl: false, shift: false, command: false }
    }

    pub fn ctrl() -> (m: Self)
        ensures
            m == (SimpleModifiers { alt: false, ctrl: true, shift: false, command: false }),
    {
        SimpleModifiers { alt: false, ctrl: true, shift: false, command: false }
    }

    pub fn shift() -> (m: Self)
        ensures
            m == (SimpleModifiers { alt: false, ctrl: false, shift: true, command: false }),
    {
        SimpleModifiers { alt: false, ctrl: false, shift: true, command: false }
    }

    pub fn alt() -> (m: Self)
        ensures
            m == (SimpleModifiers { alt: true, ctrl: false, shift: false, command: false }),
    {
        SimpleModifiers { alt: true, ctrl: false, shift: false, command: false }
    }

    pub fn command() -> (m: Self)
        ensures
            m == (SimpleModifiers { alt: false, ctrl: false, shift: false, command: true }),
    {
        SimpleModifiers { alt: false, ctrl: false, shift: false, command: true }
    }

    /// The modifiers held in either.
    pub fn plus(self, other: Self) -> (m: Self)
        ensures
            m == (SimpleModifiers {
                alt: self.alt || other.alt,
                ctrl: self.ctrl || other.ctrl,
                shift: self.shift || other.shift,
                command: self.command || other.command,
            }),
    {
        SimpleModifiers {
            alt: self.alt || other.alt,
            ctrl: self.ctrl || other.ctrl,
            shift: self.shift || other.shift,
            command: self.command || other.command,
        }
    }
}

/// A key together with the modifiers held while pressing it.
#[derive(Debug, Hash, PartialEq, Eq, Clone, Copy, Structural)]
pub struct SimpleShortcut {
    pub modifiers: SimpleModifiers,
    pub key: Key,
}

impl SimpleShortcut {
    pub fn new(modifiers: SimpleModifiers, key: Key) -> (s: Self)
        ensures
            s == (SimpleShortcut { modifiers, key }),
    {
        Self { modifiers, key }
    }
}

/// What `string_to_key` returns for a name: the key its lower case names
/// (for an ASCII name, its ASCII lower case).
pub open spec fn key_of_name(s: Seq<char>) -> Option<Key> {
    key_for_lower_name(lowered(s))
}

/// The key a name such as `f7`, `Ctrl`-less `S`, `ArrowUp` or `esc` denotes (case does not matter).
pub fn string_to_key(s: &str) -> (k: Option<Key>)
    ensures
        k == key_of_name(s@),
{
    let lower = lower_text(s);
    let v = chars_of(lower.as_str());
    key_for_lower_name_exec(&v)
}

/// Characters the shortcut syntax skips.
pub open spec fn shortcut_space(c: char) -> bool {
    c == ' ' || c == '\t' || c == '\n' || c == '\x0C'
}

/// Characters of a word of the shortcut syntax (ASCII letters and digits).
pub open spec fn word_char(c: char) -> bool {
    ('a' <= c <= 'z') || ('A' <= c <= 'Z') || ('0' <= c <= '9')
}

/// End of the word starting at `i`.
pub open spec fn word_end_at(s: Seq<char>, i: int) -> int
    decreases s.len() - i,
{
    if i >= s.len() || i < 0 || !word_char(s[i]) {
        i
    } else {
        word_end_at(s, i + 1)
    }
}

pub open spec fn with_ctrl(m: SimpleModifiers) -> SimpleModifiers {
    SimpleModifiers { ctrl: true, ..m }
}

pub open spec fn with_shift(m: SimpleModifiers) -> SimpleModifiers {
    SimpleModifiers { shift: true, ..m }
}

pub open spec fn with_alt(m: SimpleModifiers) -> SimpleModifiers {
    SimpleModifiers { alt: true, ..m }
}

pub open spec fn with_command(m: SimpleModifiers) -> SimpleModifiers {
    SimpleModifiers { command: true, ..m }
}

/// Modifiers after reading a word that is not a key: `None` for an unknown word.
pub open spec fn modifier_word(w: Seq<char>, m: SimpleModifiers) -> Option<SimpleModifiers> {
    let l = ascii_lower_seq(w);
    if l == "ctrl"@ || l == "control"@ {
        Some(with_ctrl(m))
    } else if l == "shift"@ {
        Some(with_shift(m))
    } else if l == "alt"@ {
        Some(with_alt(m))
    } else if l == "command"@ || l == "cmd"@ || l == "super"@ || l == "win"@ {
        Some(with_command(m))
    } else {
        None
    }
}

/// The reading of a shortcut from character `i` on, with the modifiers and key seen so far.
pub open spec fn parse_shortcut_from(s: Seq<char>, i: int, m: SimpleModifiers, key: Option<Key>) -> Result<SimpleShortcut, Seq<char>>
    decreases s.len() - i,
{
    if i >= s.len() || i < 0 {
        match key {
            Some(k) => Ok(SimpleShortcut { modifiers: m, key: k }),
            None => Err("No key specified in shortcut"@),
        }
    } else {
        let c = s[i];
        if shortcut_space(c) || c == '+' || c == '-' {
            parse_shortcut_from(s, i + 1, m, key)
        } else if c == '⌘' || c == '⊞' {
            parse_shortcut_from(s, i + 1, with_command(m), key)
        } else if word_char(c) {
            proof {
                lemma_word_end_at(s, i);
                lemma_word_end_at(s, i + 1);
            }
            let j = word_end_at(s, i);
            let w = s.subrange(i, j);
            if w == "Ctrl"@ {
                parse_shortcut_from(s, j, with_ctrl(m), key)
            } else if w == "Shift"@ {
                parse_shortcut_from(s, j, with_shift(m), key)
            } else if w == "Alt"@ {
                parse_shortcut_from(s, j, with_alt(m), key)
            } else if w == "Cmd"@ || w == "Win"@ {
                parse_shortcut_from(s, j, with_command(m), key)
            } else {
                match key_of_name(w) {
                    Some(k) => match key {
                        Some(k0) => Err("Multiple keys specified: "@ + key_debug_name(k0) + " and "@ + key_debug_name(k)),
                        None => parse_shortcut_from(s, j, m, Some(k)),
                    },
                    None => match modifier_word(w, m) {
                        Some(m2) => parse_shortcut_from(s, j, m2, key),
                        None => Err("Unknown key or modifier: "@ + w),
                    },
                }
            }
        } else {
            Err("Invalid token at '"@ + seq![c] + "'"@)
        }
    }
}

/// What `parse_shortcut` returns for a text.
pub open spec fn parse_shortcut_spec(s: Seq<char>) -> Result<SimpleShortcut, Seq<char>> {
    parse_shortcut_from(s, 0, SimpleModifiers { alt: false, ctrl: false, shift: false, command: false }, None)
}

pub proof fn lemma_word_end_at(s: Seq<char>, i: int)
    requires
        0 <= i <= s.len(),
    ensures
        i <= word_end_at(s, i) <= s.len(),
        forall|k: int| i <= k < word_end_at(s, i) ==> word_char(#[trigger] s[k]),
        word_end_at(s, i) < s.len() ==> !word_char(s[word_end_at(s, i)]),
    decreases s.len() - i,
{
    if i < s.len() && word_char(s[i]) {
        lemma_word_end_at(s, i + 1);
    }
}

fn is_word_char(c: char) -> (b: bool)
    ensures
        b == word_char(c),
{
    ('a' <= c && c <= 'z') || ('A' <= c && c <= 'Z') || ('0' <= c && c <= '9')
}

/// A string made of a literal followed by more text.
fn concat(lit: &str, rest: &str) -> (s: String)
    ensures
        s@ == lit@ + rest@,
{
    let mut s = String::from_str(lit);
    s.append(rest);
    s
}

/// Reads a shortcut such as `Ctrl+Shift+F7`, `ctrl + s` or `Cmd+Z`.
pub fn parse_shortcut(input: &str) -> (r: Result<SimpleShortcut, String>)
    ensures
        match (r, parse_shortcut_spec(input@)) {
            (Ok(a), Ok(b)) => a == b,
            (Err(e), Err(f)) => e@ == f,
            _ => false,
        },
{
    let s = chars_of(input);
    let mut m = SimpleModifiers { alt: false, ctrl: false, shift: false, command: false };
    let mut key: Option<Key> = None;
    let mut i: usize = 0;
    while i < s.len()
        invariant
            i <= s@.len(),
            s@ == input@,
            parse_shortcut_from(s@, i as int, m, key) == parse_shortcut_spec(input@),
        decreases s@.len() - i,
    {
        let c = s[i];
        if c == ' ' || c == '\t' || c == '\n' || c == '\x0C' || c == '+' || c == '-' {
            i = i + 1;
        } else if c == '⌘' || c == '⊞' {
            m.command = true;
            i = i + 1;
        } else if is_word_char(c) {
            let mut j = i;
            proof {
                lemma_word_end_at(s@, i as int);
            }
            while j < s.len() && is_word_char(s[j])
                invariant
                    i <= j <= s@.len(),
                    word_end_at(s@, i as int) == word_end_at(s@, j as int),
                decreases s@.len() - j,
            {
                j = j + 1;
            }
            let mut w: Vec<char> = Vec::new();
            let mut k = i;
            while k < j
                invariant
                    i <= k <= j,
                    j <= s@.len(),
                    w@ == s@.subrange(i as int, k as int),
                decreases j - k,
            {
                w.push(s[k]);
                k = k + 1;
                assert(w@ =~= s@.subrange(i as int, k as int));
            }
            if chars_eq(&w, "Ctrl") {
                m.ctrl = true;
            } else if chars_eq(&w, "Shift") {
                m.shift = true;
            } else if chars_eq(&w, "Alt") {
                m.alt = true;
            } else if chars_eq(&w, "Cmd") || chars_eq(&w, "Win") {
                m.command = true;
            } else {
                let word = string_from_chars(&w);
                match string_to_key(word.as_str()) {
                    Some(k) => {
                        match key {
                            Some(k0) => {
                                let mut msg = String::from_str("Multiple keys specified: ");
                                msg.append(k0.debug_name());
                                msg.append(" and ");
                                msg.append(k.debug_name());
                                return Err(msg);
                            },
                            None => {
                                key = Some(k);
                            },
                        }
                    },
                    None => {
                        let lower = lower_text(word.as_str());
                        let l = chars_of(lower.as_str());
                        if chars_eq(&l, "ctrl") || chars_eq(&l, "control") {
                            m.ctrl = true;
                        } else if chars_eq(&l, "shift") {
                            m.shift = true;
                        } else if chars_eq(&l, "alt") {
                            m.alt = true;
                        } else if chars_eq(&l, "command") || chars_eq(&l, "cmd") || chars_eq(&l, "super")
                            || chars_eq(&l, "win") {
                            m.command = true;
                        } else {
                            return Err(concat("Unknown key or modifier: ", word.as_str()));
                        }
                    },
                }
            }
            i = j;
        } else {
            let mut msg = String::from_str("Invalid token at '");
            push_char(&mut msg, c);
            msg.append("'");
            return Err(msg);
        }
    }
    match key {
        Some(k) => Ok(SimpleShortcut { modifiers: m, key: k }),
        None => Err(String::from_str("No key specified in shortcut")),
    }
}


/// The lower-case modifier names a shortcut may spell in any letter case.
pub open spec fn modifier_name(l: Seq<char>) -> bool {
    ||| l == seq!['a', 'l', 't']
    ||| l == seq!['c', 't', 'r', 'l'] || l == seq!['c', 'o', 'n', 't', 'r', 'o', 'l']
    ||| l == seq!['s', 'h', 'i', 'f', 't']
    ||| l == seq!['c', 'm', 'd'] || l == seq!['c', 'o', 'm', 'm', 'a', 'n', 'd'] || l == seq!['s', 'u', 'p', 'e', 'r'] || l == seq!['w', 'i', 'n']
}

/// The modifiers a modifier name stands for: `alt` for Alt, `ctrl` and
/// `control` for Ctrl, `shift` for Shift, `cmd`, `command`, `super` and `win`
/// for the command key; only that one.
pub open spec fn modifiers_named(l: Seq<char>) -> SimpleModifiers {
    SimpleModifiers {
        alt: l == seq!['a', 'l', 't'],
        ctrl: l == seq!['c', 't', 'r', 'l'] || l == seq!['c', 'o', 'n', 't', 'r', 'o', 'l'],
        shift: l == seq!['s', 'h', 'i', 'f', 't'],
        command: l == seq!['c', 'm', 'd'] || l == seq!['c', 'o', 'm', 'm', 'a', 'n', 'd'] || l == seq!['s', 'u', 'p', 'e', 'r'] || l == seq!['w', 'i', 'n'],
    }
}

/// No modifier name is also a key name.
proof fn lemma_modifier_names_are_not_keys()
    ensures
        key_for_lower_name(seq!['a', 'l', 't']) is None,
        key_for_lower_name(seq!['c', 't', 'r', 'l']) is None,
        key_for_lower_name(seq!['c', 'o', 'n', 't', 'r', 'o', 'l']) is None,
        key_for_lower_name(seq!['s', 'h', 'i', 'f', 't']) is None,
        key_for_lower_name(seq!['c', 'm', 'd']) is None,
        key_for_lower_name(seq!['c', 'o', 'm', 'm', 'a', 'n', 'd']) is None,
        key_for_lower_name(seq!['s', 'u', 'p', 'e', 'r']) is None,
        key_for_lower_name(seq!['w', 'i', 'n']) is None,
{
    reveal_strlit("a");
    assert("a"@.len() == 1);
    reveal_strlit("b");
    assert("b"@.len() == 1);
    reveal_strlit("c");
    assert("c"@.len() == 1);
    reveal_strlit("d");
    assert("d"@.len() == 1);
    reveal_strlit("e");
    assert("e"@.len() == 1);
    reveal_strlit("f");
    assert("f"@.len() == 1);
    reveal_strlit("g");
    assert("g"@.len() == 1);
    reveal_strlit("h");
    assert("h"@.len() == 1);
    reveal_strlit("i");
    assert("i"@.len() == 1);
    reveal_strlit("j");
    assert("j"@.len() == 1);
    reveal_strlit("k");
    assert("k"@.len() == 1);
    reveal_strlit("l");
    assert("l"@.len() == 1);
    reveal_strlit("m");
    assert("m"@.len() == 1);
    reveal_strlit("n");
    assert("n"@.len() == 1);
    reveal_strlit("o");
    assert("o"@.len() == 1);
    reveal_strlit("p");
    assert("p"@.len() == 1);
    reveal_strlit("q");
    assert("q"@.len() == 1);
    reveal_strlit("r");
    assert("r"@.len() == 1);
    reveal_strlit("s");
    assert("s"@.len() == 1);
    reveal_strlit("t");
    assert("t"@.len() == 1);
    reveal_strlit("u");
    assert("u"@.len() == 1);
    reveal_strlit("v");
    assert("v"@.len() == 1);
    reveal_strlit("w");
    assert("w"@.len() == 1);
    reveal_strlit("x");
    assert("x"@.len() == 1);
    reveal_strlit("y");
    assert("y"@.len() == 1);
    reveal_strlit("z");
    assert("z"@.len() == 1);
    reveal_strlit("0");
    assert("0"@.len() == 1);
    reveal_strlit("1");
    assert("1"@.len() == 1);
    reveal_strlit("2");
    assert("2"@.len() == 1);
    reveal_strlit("3");
    assert("3"@.len() == 1);
    reveal_strlit("4");
    assert("4"@.len() == 1);
    reveal_strlit("5");
    assert("5"@.len() == 1);
    reveal_strlit("6");
    assert("6"@.len() == 1);
    reveal_strlit("7");
    assert("7"@.len() == 1);
    reveal_strlit("8");
    assert("8"@.len() == 1);
    reveal_strlit("9");
    assert("9"@.len() == 1);
    reveal_strlit("f1");
    assert("f1"@.len() == 2);
    reveal_strlit("f2");
    assert("f2"@.len() == 2);
    reveal_strlit("f3");
    assert("f3"@.len() == 2);
    reveal_strlit("f4");
    assert("f4"@.len() == 2);
    reveal_strlit("f5");
    assert("f5"@.len() == 2);
    reveal_strlit("f6");
    assert("f6"@.len() == 2);
    reveal_strlit("f7");
    assert("f7"@.len() == 2);
    reveal_strlit("f8");
    assert("f8"@.len() == 2);
    reveal_strlit("f9");
    assert("f9"@.len() == 2);
    reveal_strlit("f10");
    assert("f10"@.len() == 3);
    reveal_strlit("f11");
    assert("f11"@.len() == 3);
    reveal_strlit("f12");
    assert("f12"@.len() == 3);
    reveal_strlit("f13");
    assert("f13"@.len() == 3);
    reveal_strlit("f14");
    assert("f14"@.len() == 3);
    reveal_strlit("f15");
    assert("f15"@.len() == 3);
    reveal_strlit("f16");
    assert("f16"@.len() == 3);
    reveal_strlit("f17");
    assert("f17"@.len() == 3);
    reveal_strlit("f18");
    assert("f18"@.len() == 3);
    reveal_strlit("f19");
    assert("f19"@.len() == 3);
    reveal_strlit("f20");
    assert("f20"@.len() == 3);
    reveal_strlit("arrowdown");
    assert("arrowdown"@.len() == 9);
    reveal_strlit("down");
    assert("down"@.len() == 4);
    reveal_strlit("arrowleft");
    assert("arrowleft"@.len() == 9);
    reveal_strlit("left");
    assert("left"@.len() == 4);
    reveal_strlit("arrowright");
    assert("arrowright"@.len() == 10);
    reveal_strlit("right");
    assert("right"@.len() == 5);
    reveal_strlit("arrowup");
    assert("arrowup"@.len() == 7);
    reveal_strlit("up");
    assert("up"@.len() == 2);
    reveal_strlit("escape");
    assert("escape"@.len() == 6);
    reveal_strlit("esc");
    assert("esc"@.len() == 3);
    reveal_strlit("tab");
    assert("tab"@.len() == 3);
    reveal_strlit("backspace");
    assert("backspace"@.len() == 9);
    reveal_strlit("enter");
    assert("enter"@.len() == 5);
    reveal_strlit("return");
    assert("return"@.len() == 6);
    reveal_strlit("space");
    assert("space"@.len() == 5);
    reveal_strlit("insert");
    assert("insert"@.len() == 6);
    reveal_strlit("delete");
    assert("delete"@.len() == 6);
    reveal_strlit("del");
    assert("del"@.len() == 3);
    reveal_strlit("home");
    assert("home"@.len() == 4);
    reveal_strlit("end");
    assert("end"@.len() == 3);
    reveal_strlit("pageup");
    assert("pageup"@.len() == 6);
    reveal_strlit("pagedown");
    assert("pagedown"@.len() == 8);
    assert(seq!['a', 'l', 't'][0] != "f10"@[0]);
    assert(seq!['a', 'l', 't'][0] != "f11"@[0]);
    assert(seq!['a', 'l', 't'][0] != "f12"@[0]);
    assert(seq!['a', 'l', 't'][0] != "f13"@[0]);
    assert(seq!['a', 'l', 't'][0] != "f14"@[0]);
    assert(seq!['a', 'l', 't'][0] != "f15"@[0]);
    assert(seq!['a', 'l', 't'][0] != "f16"@[0]);
    assert(seq!['a', 'l', 't'][0] != "f17"@[0]);
    assert(seq!['a', 'l', 't'][0] != "f18"@[0]);
    assert(seq!['a', 'l', 't'][0] != "f19"@[0]);
    assert(seq!['a', 'l', 't'][0] != "f20"@[0]);
    assert(seq!['a', 'l', 't'][0] != "esc"@[0]);
    assert(seq!['a', 'l', 't'][0] != "tab"@[0]);
    assert(seq!['a', 'l', 't'][0] != "del"@[0]);
    assert(seq!['a', 'l', 't'][0] != "end"@[0]);
    assert(seq!['c', 't', 'r', 'l'][0] != "down"@[0]);
    assert(seq!['c', 't', 'r', 'l'][0] != "left"@[0]);
    assert(seq!['c', 't', 'r', 'l'][0] != "home"@[0]);
    assert(seq!['c', 'o', 'n', 't', 'r', 'o', 'l'][0] != "arrowup"@[0]);
    assert(seq!['s', 'h', 'i', 'f', 't'][0] != "right"@[0]);
    assert(seq!['s', 'h', 'i', 'f', 't'][0] != "enter"@[0]);
    assert(seq!['s', 'h', 'i', 'f', 't'][1] != "space"@[1]);
    assert(seq!['c', 'm', 'd'][0] != "f10"@[0]);
    assert(seq!['c', 'm', 'd'][0] != "f11"@[0]);
    assert(seq!['c', 'm', 'd'][0] != "f12"@[0]);
    assert(seq!['c', 'm', 'd'][0] != "f13"@[0]);
    assert(seq!['c', 'm', 'd'][0] != "f14"@[0]);
    assert(seq!['c', 'm', 'd'][0] != "f15"@[0]);
    assert(seq!['c', 'm', 'd'][0] != "f16"@[0]);
    assert(seq!['c', 'm', 'd'][0] != "f17"@[0]);
    assert(seq!['c', 'm', 'd'][0] != "f18"@[0]);
    assert(seq!['c', 'm', 'd'][0] != "f19"@[0]);
    assert(seq!['c', 'm', 'd'][0] != "f20"@[0]);
    assert(seq!['c', 'm', 'd'][0] != "esc"@[0]);
    assert(seq!['c', 'm', 'd'][0] != "tab"@[0]);
    assert(seq!['c', 'm', 'd'][0] != "del"@[0]);
    assert(seq!['c', 'm', 'd'][0] != "end"@[0]);
    assert(seq!['c', 'o', 'm', 'm', 'a', 'n', 'd'][0] != "arrowup"@[0]);
    assert(seq!['s', 'u', 'p', 'e', 'r'][0] != "right"@[0]);
    assert(seq!['s', 'u', 'p', 'e', 'r'][0] != "enter"@[0]);
    assert(seq!['s', 'u', 'p', 'e', 'r'][1] != "space"@[1]);
    assert(seq!['w', 'i', 'n'][0] != "f10"@[0]);
    assert(seq!['w', 'i', 'n'][0] != "f11"@[0]);
    assert(seq!['w', 'i', 'n'][0] != "f12"@[0]);
    assert(seq!['w', 'i', 'n'][0] != "f13"@[0]);
    assert(seq!['w', 'i', 'n'][0] != "f14"@[0]);
    assert(seq!['w', 'i', 'n'][0] != "f15"@[0]);
    assert(seq!['w', 'i', 'n'][0] != "f16"@[0]);
    assert(seq!['w', 'i', 'n'][0] != "f17"@[0]);
    assert(seq!['w', 'i', 'n'][0] != "f18"@[0]);
    assert(seq!['w', 'i', 'n'][0] != "f19"@[0]);
    assert(seq!['w', 'i', 'n'][0] != "f20"@[0]);
    assert(seq!['w', 'i', 'n'][0] != "esc"@[0]);
    assert(seq!['w', 'i', 'n'][0] != "tab"@[0]);
    assert(seq!['w', 'i', 'n'][0] != "del"@[0]);
    assert(seq!['w', 'i', 'n'][0] != "end"@[0]);
}

/// A word of letters and digits runs to the first character that is not one.
proof fn lemma_word_end_at_run(s: Seq<char>, i: int, end: int)
    requires
        0 <= i <= end <= s.len(),
        forall|k: int| i <= k < end ==> word_char(#[trigger] s[k]),
        end == s.len() || !word_char(s[end]),
    ensures
        word_end_at(s, i) == end,
    decreases end - i,
{
    if i < end {
        lemma_word_end_at_run(s, i + 1, end);
    }
}

/// A modifier written in any letter case, joined by `+` to a key name, gives
/// that key with that one modifier and no other.
pub proof fn law_modifier_word_names_its_modifier(w: Seq<char>, k: Seq<char>, key: Key)
    requires
        w.len() > 0,
        forall|i: int| 0 <= i < w.len() ==> word_char(#[trigger] w[i]),
        modifier_name(ascii_lower_seq(w)),
        k.len() > 0,
        forall|i: int| 0 <= i < k.len() ==> word_char(#[trigger] k[i]),
        key_of_name(k) == Some(key),
    ensures
        parse_shortcut_spec(w + seq!['+'] + k)
            == Ok::<SimpleShortcut, Seq<char>>(SimpleShortcut { modifiers: modifiers_named(ascii_lower_seq(w)), key }),
{
    reveal_strlit("alt");
    reveal_strlit("ctrl");
    reveal_strlit("control");
    reveal_strlit("shift");
    reveal_strlit("cmd");
    reveal_strlit("command");
    reveal_strlit("super");
    reveal_strlit("win");
    reveal_strlit("Ctrl");
    reveal_strlit("Shift");
    reveal_strlit("Alt");
    reveal_strlit("Cmd");
    reveal_strlit("Win");
    lemma_modifier_names_are_not_keys();
    let s = w + seq!['+'] + k;
    let n = w.len() as int;
    let none = SimpleModifiers { alt: false, ctrl: false, shift: false, command: false };
    let l = ascii_lower_seq(w);
    assert(is_ascii_chars(w));
    assert(is_ascii_chars(k));
    assert(forall|i: int| 0 <= i < n ==> s[i] == w[i]);
    assert(s[n] == '+');
    assert(forall|i: int| 0 <= i < k.len() ==> s[n + 1 + i] == k[i]);
    lemma_word_end_at_run(s, 0, n);
    assert(s.subrange(0, n) =~= w);
    lemma_word_end_at_run(s, n + 1, s.len() as int);
    assert(s.subrange(n + 1, s.len() as int) =~= k);
    assert("alt"@ =~= seq!['a', 'l', 't']);
    assert("ctrl"@ =~= seq!['c', 't', 'r', 'l']);
    assert("control"@ =~= seq!['c', 'o', 'n', 't', 'r', 'o', 'l']);
    assert("shift"@ =~= seq!['s', 'h', 'i', 'f', 't']);
    assert("cmd"@ =~= seq!['c', 'm', 'd']);
    assert("command"@ =~= seq!['c', 'o', 'm', 'm', 'a', 'n', 'd']);
    assert("super"@ =~= seq!['s', 'u', 'p', 'e', 'r']);
    assert("win"@ =~= seq!['w', 'i', 'n']);
    assert("Ctrl"@ =~= seq!['C', 't', 'r', 'l']);
    assert("Shift"@ =~= seq!['S', 'h', 'i', 'f', 't']);
    assert("Alt"@ =~= seq!['A', 'l', 't']);
    assert("Cmd"@ =~= seq!['C', 'm', 'd']);
    assert("Win"@ =~= seq!['W', 'i', 'n']);
    assert(lowered(w) == l);
    assert(key_of_name(w) is None);
    let m1 = modifiers_named(l);
    let c = s[0];
    assert(word_char(c));
    assert(!shortcut_space(c) && c != '+' && c != '-' && c != '⌘' && c != '⊞');
    assert(word_end_at(s, 0) == n);
    let first = if w == seq!['C', 't', 'r', 'l'] {
        with_ctrl(none)
    } else if w == seq!['S', 'h', 'i', 'f', 't'] {
        with_shift(none)
    } else if w == seq!['A', 'l', 't'] {
        with_alt(none)
    } else if w == seq!['C', 'm', 'd'] || w == seq!['W', 'i', 'n'] {
        with_command(none)
    } else {
        modifier_word(w, none)->0
    };
    assert(parse_shortcut_from(s, 0, none, None) == parse_shortcut_from(s, n, first, None));
    assert(first == m1) by {
        if w == seq!['C', 't', 'r', 'l'] {
            assert(l =~= seq!['c', 't', 'r', 'l']);
        } else if w == seq!['S', 'h', 'i', 'f', 't'] {
            assert(l =~= seq!['s', 'h', 'i', 'f', 't']);
        } else if w == seq!['A', 'l', 't'] {
            assert(l =~= seq!['a', 'l', 't']);
        } else if w == seq!['C', 'm', 'd'] {
            assert(l =~= seq!['c', 'm', 'd']);
        } else if w == seq!['W', 'i', 'n'] {
            assert(l =~= seq!['w', 'i', 'n']);
        }
    }
    assert(parse_shortcut_from(s, n, m1, None) == parse_shortcut_from(s, n + 1, m1, None));
    assert(k != seq!['C', 't', 'r', 'l'] && k != seq!['S', 'h', 'i', 'f', 't'] && k != seq!['A', 'l', 't'] && k != seq!['C', 'm', 'd'] && k != seq!['W', 'i', 'n']) by {
        if k == seq!['C', 't', 'r', 'l'] {
            assert(ascii_lower_seq(k) =~= seq!['c', 't', 'r', 'l']);
        } else if k == seq!['S', 'h', 'i', 'f', 't'] {
            assert(ascii_lower_seq(k) =~= seq!['s', 'h', 'i', 'f', 't']);
        } else if k == seq!['A', 'l', 't'] {
            assert(ascii_lower_seq(k) =~= seq!['a', 'l', 't']);
        } else if k == seq!['C', 'm', 'd'] {
            assert(ascii_lower_seq(k) =~= seq!['c', 'm', 'd']);
        } else if k == seq!['W', 'i', 'n'] {
            assert(ascii_lower_seq(k) =~= seq!['w', 'i', 'n']);
        }
    }
    assert(parse_shortcut_from(s, n + 1, m1, None) == parse_shortcut_from(s, s.len() as int, m1, Some(key)));
}

} // verus!
