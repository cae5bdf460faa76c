use vstd::prelude::*;
use crate::action::Action;
use crate::keys::Key;
use crate::shortcut::{SimpleModifiers, SimpleShortcut};

verus! {

pub open spec fn m_none() -> SimpleModifiers {
    SimpleModifiers { alt: false, ctrl: false, shift: false, command: false }
}

pub open spec fn m_ctrl() -> SimpleModifiers {
    SimpleModifiers { alt: false, ctrl: true, shift: false, command: false }
}

pub open spec fn m_shift() -> SimpleModifiers {
    SimpleModifiers { alt: false, ctrl: false, shift: true, command: false }
}

pub open spec fn m_cmd() -> SimpleModifiers {
    SimpleModifiers { alt: false, ctrl: false, shift: false, command: true }
}

pub open spec fn m_ctrl_shift() -> SimpleModifiers {
    SimpleModifiers { alt: false, ctrl: true, shift: true, command: false }
}

pub open spec fn m_cmd_shift() -> SimpleModifiers {
    SimpleModifiers { alt: false, ctrl: false, shift: true, command: true }
}

/// The bindings the editor starts with, in the order they are made.
pub open spec fn default_bindings() -> Seq<(SimpleShortcut, Action)> {
    seq![
        (SimpleShortcut { modifiers: m_ctrl(), key: Key::S }, Action::Save),
        (SimpleShortcut { modifiers: m_none(), key: Key::ArrowLeft }, Action::GoToPrevCharacter { select: false }),
        (SimpleShortcut { modifiers: m_shift(), key: Key::ArrowLeft }, Action::GoToPrevCharacter { select: true }),
        (SimpleShortcut { modifiers: m_none(), key: Key::ArrowRight }, Action::GoToNextCharacter { select: false }),
        (SimpleShortcut { modifiers: m_shift(), key: Key::ArrowRight }, Action::GoToNextCharacter { select: true }),
        (SimpleShortcut { modifiers: m_none(), key: Key::ArrowUp }, Action::GoToPrevLine { select: false }),
        (SimpleShortcut { modifiers: m_shift(), key: Key::ArrowUp }, Action::GoToPrevLine { select: true }),
        (SimpleShortcut { modifiers: m_none(), key: Key::ArrowDown }, Action::GoToNextLine { select: false }),
        (SimpleShortcut { modifiers: m_shift(), key: Key::ArrowDown }, Action::GoToNextLine { select: true }),
        (SimpleShortcut { modifiers: m_none(), key: Key::Enter }, Action::Enter),
        (SimpleShortcut { modifiers: m_none(), key: Key::Backspace }, Action::Backspace),
        (SimpleShortcut { modifiers: m_none(), key: Key::Delete }, Action::Delete),
        (SimpleShortcut { modifiers: m_none(), key: Key::Home }, Action::GoToLineStart { select: false }),
        (SimpleShortcut { modifiers: m_none(), key: Key::End }, Action::GoToLineEnd { select: false }),
        (SimpleShortcut { modifiers: m_ctrl_shift(), key: Key::F7 }, Action::InsertHighlight),
        (SimpleShortcut { modifiers: m_cmd_shift(), key: Key::F7 }, Action::InsertHighlight),
        (SimpleShortcut { modifiers: m_cmd_shift(), key: Key::F7 }, Action::InsertHighlight),
        (SimpleShortcut { modifiers: m_ctrl(), key: Key::Z }, Action::Undo),
        (SimpleShortcut { modifiers: m_ctrl_shift(), key: Key::Z }, Action::Redo),
        (SimpleShortcut { modifiers: m_ctrl(), key: Key::Home }, Action::GoToBufferStart { select: false }),
        (SimpleShortcut { modifiers: m_ctrl(), key: Key::End }, Action::GoToBufferEnd { select: false }),
        (SimpleShortcut { modifiers: m_ctrl(), key: Key::F }, Action::Search),
        (SimpleShortcut { modifiers: m_ctrl(), key: Key::R }, Action::Replace),
        (SimpleShortcut { modifiers: m_cmd(), key: Key::Z }, Action::Undo),
    ]
}
/// The action bound to a shortcut: the last binding made for it wins.
pub open spec fn binding_of(bindings: Seq<(SimpleShortcut, Action)>, k: SimpleShortcut) -> Option<Action>
    decreases bindings.len(),
{
    if bindings.len() == 0 {
        None
    } else if bindings.last().0 == k {
        Some(bindings.last().1)
    } else {
        binding_of(bindings.drop_last(), k)
    }
}

/// Binding a shortcut makes it give that action, and leaves every other
/// shortcut as it was.
pub proof fn law_last_binding_wins(bindings: Seq<(SimpleShortcut, Action)>, shortcut: SimpleShortcut, action: Action, other: SimpleShortcut)
    ensures
        binding_of(bindings.push((shortcut, action)), shortcut) == Some(action),
        other != shortcut ==> binding_of(bindings.push((shortcut, action)), other) == binding_of(bindings, other),
{
    assert(bindings.push((shortcut, action)).drop_last() =~= bindings);
}

/// The standard bindings send each key to its own action: the arrows move the
/// caret (extending the selection with Shift), Enter, Backspace and Delete
/// edit, Home and End go to the line ends (with Ctrl, to the text ends),
/// Ctrl+S saves, Ctrl+Z and Cmd+Z undo, Ctrl+Shift+Z redoes, Ctrl+F searches,
/// Ctrl+R replaces and Ctrl+Shift+F7 or Cmd+Shift+F7 highlight.
pub proof fn law_default_keys()
    ensures
        ({
            let none = SimpleModifiers { alt: false, ctrl: false, shift: false, command: false };
            let shift = SimpleModifiers { alt: false, ctrl: false, shift: true, command: false };
            let ctrl = SimpleModifiers { alt: false, ctrl: true, shift: false, command: false };
            let ctrl_shift = SimpleModifiers { alt: false, ctrl: true, shift: true, command: false };
            let cmd = SimpleModifiers { alt: false, ctrl: false, shift: false, command: true };
            let cmd_shift = SimpleModifiers { alt: false, ctrl: false, shift: true, command: true };
            let b = default_bindings();
            &&& binding_of(b, SimpleShortcut { modifiers: none, key: Key::Delete }) == Some(Action::Delete)
            &&& binding_of(b, SimpleShortcut { modifiers: none, key: Key::Backspace }) == Some(Action::Backspace)
            &&& binding_of(b, SimpleShortcut { modifiers: none, key: Key::Enter }) == Some(Action::Enter)
            &&& binding_of(b, SimpleShortcut { modifiers: none, key: Key::ArrowLeft }) == Some(Action::GoToPrevCharacter { select: false })
            &&& binding_of(b, SimpleShortcut { modifiers: shift, key: Key::ArrowLeft }) == Some(Action::GoToPrevCharacter { select: true })
            &&& binding_of(b, SimpleShortcut { modifiers: none, key: Key::ArrowRight }) == Some(Action::GoToNextCharacter { select: false })
            &&& binding_of(b, SimpleShortcut { modifiers: shift, key: Key::ArrowRight }) == Some(Action::GoToNextCharacter { select: true })
            &&& binding_of(b, SimpleShortcut { modifiers: none, key: Key::ArrowUp }) == Some(Action::GoToPrevLine { select: false })
            &&& binding_of(b, SimpleShortcut { modifiers: shift, key: Key::ArrowUp }) == Some(Action::GoToPrevLine { select: true })
            &&& binding_of(b, SimpleShortcut { modifiers: none, key: Key::ArrowDown }) == Some(Action::GoToNextLine { select: false })
            &&& binding_of(b, SimpleShortcut { modifiers: shift, key: Key::ArrowDown }) == Some(Action::GoToNextLine { select: true })
            &&& binding_of(b, SimpleShortcut { modifiers: none, key: Key::Home }) == Some(Action::GoToLineStart { select: false })
            &&& binding_of(b, SimpleShortcut { modifiers: none, key: Key::End }) == Some(Action::GoToLineEnd { select: false })
            &&& binding_of(b, SimpleShortcut { modifiers: ctrl, key: Key::Home }) == Some(Action::GoToBufferStart { select: false })
            &&& binding_of(b, SimpleShortcut { modifiers: ctrl, key: Key::End }) == Some(Action::GoToBufferEnd { select: false })
            &&& binding_of(b, SimpleShortcut { modifiers: ctrl, key: Key::S }) == Some(Action::Save)
            &&& binding_of(b, SimpleShortcut { modifiers: ctrl, key: Key::Z }) == Some(Action::Undo)
            &&& binding_of(b, SimpleShortcut { modifiers: cmd, key: Key::Z }) == Some(Action::Undo)
            &&& binding_of(b, SimpleShortcut { modifiers: ctrl_shift, key: Key::Z }) == Some(Action::Redo)
            &&& binding_of(b, SimpleShortcut { modifiers: ctrl, key: Key::F }) == Some(Action::Search)
            &&& binding_of(b, SimpleShortcut { modifiers: ctrl, key: Key::R }) == Some(Action::Replace)
            &&& binding_of(b, SimpleShortcut { modifiers: ctrl_shift, key: Key::F7 }) == Some(Action::InsertHighlight)
            &&& binding_of(b, SimpleShortcut { modifiers: cmd_shift, key: Key::F7 }) == Some(Action::InsertHighlight)
        }),
{
    reveal_with_fuel(binding_of, 25);
}

/// Maps keyboard shortcuts to editor actions.
#[derive(Debug)]
pub struct KeyboardHandler {
    shortcuts: Vec<(SimpleShortcut, Action)>,
}

impl KeyboardHandler {
    /// The bindings made so far, in order.
    pub closed spec fn bindings(&self) -> Seq<(SimpleShortcut, Action)> {
        self.shortcuts@
    }

    /// A handler with no binding.
    pub fn empty() -> (h: Self)
        ensures
            h.bindings() == Seq::<(SimpleShortcut, Action)>::empty(),
    {
        KeyboardHandler { shortcuts: Vec::new() }
    }

    /// Binds a shortcut to an action, replacing an earlier binding of it.
    pub fn insert(&mut self, shortcut: SimpleShortcut, action: Action)
        ensures
            final(self).bindings() == old(self).bindings().push((shortcut, action)),
    {
        self.shortcuts.push((shortcut, action));
    }

    /// The editor's standard bindings.
    pub fn new() -> (h: Self)
        ensures
            h.bindings() == default_bindings(),
    {
        let mut handler = Self::empty();
        handler.insert(SimpleShortcut::new(SimpleModifiers::ctrl(), Key::S), Action::Save);
        handler.insert(SimpleShortcut::new(SimpleModifiers::none(), Key::ArrowLeft), Action::GoToPrevCharacter { select: false });
        handler.insert(SimpleShortcut::new(SimpleModifiers::shift(), Key::ArrowLeft), Action::GoToPrevCharacter { select: true });
        handler.insert(SimpleShortcut::new(SimpleModifiers::none(), Key::ArrowRight), Action::GoToNextCharacter { select: false });
        handler.insert(SimpleShortcut::new(SimpleModifiers::shift(), Key::ArrowRight), Action::GoToNextCharacter { select: true });
        handler.insert(SimpleShortcut::new(SimpleModifiers::none(), Key::ArrowUp), Action::GoToPrevLine { select: false });
        handler.insert(SimpleShortcut::new(SimpleModifiers::shift(), Key::ArrowUp), Action::GoToPrevLine { select: true });
        handler.insert(SimpleShortcut::new(SimpleModifiers::none(), Key::ArrowDown), Action::GoToNextLine { select: false });
        handler.insert(SimpleShortcut::new(SimpleModifiers::shift(), Key::ArrowDown), Action::GoToNextLine { select: true });
        handler.insert(SimpleShortcut::new(SimpleModifiers::none(), Key::Enter), Action::Enter);
        handler.insert(SimpleShortcut::new(SimpleModifiers::none(), Key::Backspace), Action::Backspace);
        handler.insert(SimpleShortcut::new(SimpleModifiers::none(), Key::Delete), Action::Delete);
        handler.insert(SimpleShortcut::new(SimpleModifiers::none(), Key::Home), Action::GoToLineStart { select: false });
        handler.insert(SimpleShortcut::new(SimpleModifiers::none(), Key::End), Action::GoToLineEnd { select: false });
        handler.insert(SimpleShortcut::new(SimpleModifiers::ctrl().plus(SimpleModifiers::shift()), Key::F7), Action::InsertHighlight);
        handler.insert(SimpleShortcut::new(SimpleModifiers::command().plus(SimpleModifiers::shift()), Key::F7), Action::InsertHighlight);
        handler.insert(SimpleShortcut::new(SimpleModifiers::command().plus(SimpleModifiers::shift()), Key::F7), Action::InsertHighlight);
        handler.insert(SimpleShortcut::new(SimpleModifiers::ctrl(), Key::Z), Action::Undo);
        handler.insert(SimpleShortcut::new(SimpleModifiers::ctrl().plus(SimpleModifiers::shift()), Key::Z), Action::Redo);
        handler.insert(SimpleShortcut::new(SimpleModifiers::ctrl(), Key::Home), Action::GoToBufferStart { select: false });
        handler.insert(SimpleShortcut::new(SimpleModifiers::ctrl(), Key::End), Action::GoToBufferEnd { select: false });
        handler.insert(SimpleShortcut::new(SimpleModifiers::ctrl(), Key::F), Action::Search);
        handler.insert(SimpleShortcut::new(SimpleModifiers::ctrl(), Key::R), Action::Replace);
        handler.insert(SimpleShortcut::new(SimpleModifiers::command(), Key::Z), Action::Undo);
        assert(handler.bindings() =~= default_bindings());
        handler
    }

    /// The action bound to a shortcut, if any.
    pub fn get_action(&self, shortcut: &SimpleShortcut) -> (a: Option<Action>)
        ensures
            a == binding_of(self.bindings(), *shortcut),
    {
        let mut i = self.shortcuts.len();
        assert(self.shortcuts@.take(i as int) =~= self.shortcuts@);
        while i > 0
            invariant
                i <= self.shortcuts@.len(),
                binding_of(self.shortcuts@, *shortcut) == binding_of(self.shortcuts@.take(i as int), *shortcut),
            decreases i,
        {
            let entry = self.shortcuts[i - 1];
            assert(self.shortcuts@.take(i as int).drop_last() =~= self.shortcuts@.take(i - 1));
            if entry.0 == *shortcut {
                return Some(entry.1);
            }
            i = i - 1;
        }
        None
    }
}

} // verus!
