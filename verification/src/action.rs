use vstd::prelude::*;
use crate::keys::chars_eq;
use crate::position::Position;
use crate::text_area::{
    TextAreaProperties, backspaced, caret_jumped, caret_moved, entered, forward_deleted, last_column,
    next_char_spec, next_line_spec, prev_char_spec, prev_line_spec, unchanged,
};
use crate::utf8_text::chars_of;

verus! {

/// Work an action leaves to the rest of the application.
#[derive(Debug, Clone, Copy, PartialEq, Eq, Structural)]
pub enum ActionRequest {
    /// Nothing is left to the application: the action was carried out on
    /// the text area, or asks nothing of the window.
    Done,
    ShowSearch,
    ShowReplace,
    Undo,
    Redo,
    InsertHighlight,
}

/// What the rest of the application is asked to do for an action.
pub open spec fn request_of(a: Action) -> ActionRequest {
    match a {
        Action::Search => ActionRequest::ShowSearch,
        Action::Replace => ActionRequest::ShowReplace,
        Action::Undo => ActionRequest::Undo,
        Action::Redo => ActionRequest::Redo,
        Action::InsertHighlight => ActionRequest::InsertHighlight,
        _ => ActionRequest::Done,
    }
}

/// The effect of an action on the text area.
pub open spec fn action_effect(act: Action, b: TextAreaProperties, a: TextAreaProperties) -> bool {
    match act {
        Action::Backspace => backspaced(b, a),
        Action::Delete => forward_deleted(b, a),
        Action::Enter => entered(b, a),
        Action::GoToPrevCharacter { .. } => caret_moved(b, a, prev_char_spec(b.buffer@, b.caret_position)),
        Action::GoToNextCharacter { .. } => caret_moved(b, a, next_char_spec(b.buffer@, b.caret_position)),
        Action::GoToPrevLine { .. } => caret_moved(b, a, prev_line_spec(b.buffer@, b.caret_position)),
        Action::GoToNextLine { .. } => caret_moved(b, a, next_line_spec(b.buffer@, b.caret_position)),
        Action::GoToLineStart { .. } => caret_jumped(b, a, Position { line: b.caret_position.line, column: 0 }),
        Action::GoToLineEnd { .. } => caret_jumped(
            b,
            a,
            Position { line: b.caret_position.line, column: last_column(b.buffer@[b.caret_position.line as int]) },
        ),
        Action::GoToBufferStart { .. } => caret_jumped(b, a, Position { line: 0, column: 0 }),
        Action::GoToBufferEnd { .. } => caret_jumped(
            b,
            a,
            Position { line: (b.buffer@.len() - 1) as usize, column: last_column(b.buffer@[b.buffer@.len() - 1]) },
        ),
        _ => unchanged(b, a),
    }
}

/// What a key binding can do.
#[derive(Debug, Clone, Copy, PartialEq, Eq, Structural)]
pub enum Action {
    /// Write the text to its file.
    Save,
    /// One character back.
    /// `select` asks to extend the selection while moving.
    GoToPrevCharacter { select: bool },
    /// One character forward.
    /// `select` asks to extend the selection while moving.
    GoToNextCharacter { select: bool },
    /// One line up.
    /// `select` asks to extend the selection while moving.
    GoToPrevLine { select: bool },
    /// One line down.
    /// `select` asks to extend the selection while moving.
    GoToNextLine { select: bool },
    /// To the start of the line.
    /// `select` asks to extend the selection while moving.
    GoToLineStart { select: bool },
    /// To the end of the line.
    /// `select` asks to extend the selection while moving.
    GoToLineEnd { select: bool },
    /// To the start of the text.
    /// `select` asks to extend the selection while moving.
    GoToBufferStart { select: bool },
    /// To the end of the text.
    /// `select` asks to extend the selection while moving.
    GoToBufferEnd { select: bool },
    /// Highlight the selected word.
    InsertHighlight,
    /// Break the line.
    Enter,
    /// Delete backwards.
    Backspace,
    /// Delete forwards.
    Delete,
    /// Open the search bar.
    Search,
    /// Open the replace bar.
    Replace,
    /// Undo the last edit.
    Undo,
    /// Redo the last undone edit.
    Redo,
}

/// The name of a binding target; a moving action that selects adds `Select`.
pub open spec fn action_name(a: Action) -> Seq<char> {
    match a {
        Action::GoToPrevCharacter { select } => if select { "GoToPrevCharacterSelect"@ } else { "GoToPrevCharacter"@ },
        Action::Undo => "Undo"@,
        Action::GoToNextCharacter { select } => if select { "GoToNextCharacterSelect"@ } else { "GoToNextCharacter"@ },
        Action::Redo => "Redo"@,
        Action::GoToPrevLine { select } => if select { "GoToPrevLineSelect"@ } else { "GoToPrevLine"@ },
        Action::Save => "Save"@,
        Action::GoToNextLine { select } => if select { "GoToNextLineSelect"@ } else { "GoToNextLine"@ },
        Action::Search => "Search"@,
        Action::GoToLineStart { select } => if select { "GoToLineStartSelect"@ } else { "GoToLineStart"@ },
        Action::Replace => "Replace"@,
        Action::GoToLineEnd { select } => if select { "GoToLineEndSelect"@ } else { "GoToLineEnd"@ },
        Action::InsertHighlight => "InsertHighlight"@,
        Action::GoToBufferStart { select } => if select { "GoToBufferStartSelect"@ } else { "GoToBufferStart"@ },
        Action::Delete => "Delete"@,
        Action::GoToBufferEnd { select } => if select { "GoToBufferEndSelect"@ } else { "GoToBufferEnd"@ },
        Action::Backspace => "Backspace"@,
        Action::Enter => "Enter"@,
    }
}

/// Every action, in the order names are looked up.
pub open spec fn all_actions() -> Seq<Action> {
    plain_actions() + moves(false) + moves(true)
}

/// The actions that do not move the caret.
pub open spec fn plain_actions() -> Seq<Action> {
    seq![Action::Undo, Action::Redo, Action::Save, Action::Search, Action::Replace, Action::InsertHighlight, Action::Delete, Action::Backspace, Action::Enter]
}

/// The moving actions, all extending the selection or none.
pub open spec fn moves(select: bool) -> Seq<Action> {
    seq![
        Action::GoToPrevCharacter { select },
        Action::GoToNextCharacter { select },
        Action::GoToPrevLine { select },
        Action::GoToNextLine { select },
        Action::GoToLineStart { select },
        Action::GoToLineEnd { select },
        Action::GoToBufferStart { select },
        Action::GoToBufferEnd { select },
    ]
}

/// The first action of `actions` whose name is `s`.
pub open spec fn action_named_in(actions: Seq<Action>, s: Seq<char>) -> Option<Action>
    decreases actions.len(),
{
    if actions.len() == 0 {
        None
    } else if action_name(actions[0]) == s {
        Some(actions[0])
    } else {
        action_named_in(actions.drop_first(), s)
    }
}

/// The action a name denotes, `None` for an unknown name.
pub open spec fn action_of_name(s: Seq<char>) -> Option<Action> {
    action_named_in(all_actions(), s)
}

impl Action {
    /// The name the action is written under.
    pub fn name(&self) -> (s: &'static str)
        ensures
            s@ == action_name(*self),
    {
        match *self {
            Action::GoToPrevCharacter { select } => if select { "GoToPrevCharacterSelect" } else { "GoToPrevCharacter" },
            Action::Undo => "Undo",
            Action::GoToNextCharacter { select } => if select { "GoToNextCharacterSelect" } else { "GoToNextCharacter" },
            Action::Redo => "Redo",
            Action::GoToPrevLine { select } => if select { "GoToPrevLineSelect" } else { "GoToPrevLine" },
            Action::Save => "Save",
            Action::GoToNextLine { select } => if select { "GoToNextLineSelect" } else { "GoToNextLine" },
            Action::Search => "Search",
            Action::GoToLineStart { select } => if select { "GoToLineStartSelect" } else { "GoToLineStart" },
            Action::Replace => "Replace",
            Action::GoToLineEnd { select } => if select { "GoToLineEndSelect" } else { "GoToLineEnd" },
            Action::InsertHighlight => "InsertHighlight",
            Action::GoToBufferStart { select } => if select { "GoToBufferStartSelect" } else { "GoToBufferStart" },
            Action::Delete => "Delete",
            Action::GoToBufferEnd { select } => if select { "GoToBufferEndSelect" } else { "GoToBufferEnd" },
            Action::Backspace => "Backspace",
            Action::Enter => "Enter",
        }
    }

    /// Every action.
    pub fn all() -> (v: Vec<Action>)
        ensures
            v@ == all_actions(),
    {
        let mut v = vec![Action::Undo, Action::Redo, Action::Save, Action::Search, Action::Replace, Action::InsertHighlight, Action::Delete, Action::Backspace, Action::Enter];
        assert(v@ =~= plain_actions());
        push_moves(&mut v, false);
        push_moves(&mut v, true);
        assert(v@ =~= all_actions());
        v
    }

    /// The action a name denotes.
    pub fn from_name(s: &str) -> (a: Option<Action>)
        ensures
            a == action_of_name(s@),
    {
        let wanted = chars_of(s);
        let actions = Action::all();
        let mut i: usize = 0;
        assert(actions@.skip(0) =~= actions@);
        while i < actions.len()
            invariant
                i <= actions@.len(),
                actions@ == all_actions(),
                wanted@ == s@,
                action_of_name(s@) == action_named_in(actions@.skip(i as int), s@),
            decreases actions@.len() - i,
        {
            let a = actions[i];
            assert(actions@.skip(i as int)[0] == a);
            assert(actions@.skip(i as int).drop_first() =~= actions@.skip(i + 1));
            if chars_eq(&wanted, a.name()) {
                return Some(a);
            }
            i = i + 1;
        }
        assert(actions@.skip(i as int) =~= Seq::<Action>::empty());
        None
    }
}

/// Appends the moving actions with the given selection flag.
fn push_moves(v: &mut Vec<Action>, select: bool)
    ensures
        final(v)@ == old(v)@ + moves(select),
{
    v.push(Action::GoToPrevCharacter { select });
    v.push(Action::GoToNextCharacter { select });
    v.push(Action::GoToPrevLine { select });
    v.push(Action::GoToNextLine { select });
    v.push(Action::GoToLineStart { select });
    v.push(Action::GoToLineEnd { select });
    v.push(Action::GoToBufferStart { select });
    v.push(Action::GoToBufferEnd { select });
    assert(v@ =~= old(v)@ + moves(select));
}

proof fn lemma_all_actions_listed()
    ensures
        all_actions().len() == 25,
        all_actions()[0] == Action::Undo,
        all_actions()[1] == Action::Redo,
        all_actions()[2] == Action::Save,
        all_actions()[3] == Action::Search,
        all_actions()[4] == Action::Replace,
        all_actions()[5] == Action::InsertHighlight,
        all_actions()[6] == Action::Delete,
        all_actions()[7] == Action::Backspace,
        all_actions()[8] == Action::Enter,
        all_actions()[9] == (Action::GoToPrevCharacter { select: false }),
        all_actions()[10] == (Action::GoToNextCharacter { select: false }),
        all_actions()[11] == (Action::GoToPrevLine { select: false }),
        all_actions()[12] == (Action::GoToNextLine { select: false }),
        all_actions()[13] == (Action::GoToLineStart { select: false }),
        all_actions()[14] == (Action::GoToLineEnd { select: false }),
        all_actions()[15] == (Action::GoToBufferStart { select: false }),
        all_actions()[16] == (Action::GoToBufferEnd { select: false }),
        all_actions()[17] == (Action::GoToPrevCharacter { select: true }),
        all_actions()[18] == (Action::GoToNextCharacter { select: true }),
        all_actions()[19] == (Action::GoToPrevLine { select: true }),
        all_actions()[20] == (Action::GoToNextLine { select: true }),
        all_actions()[21] == (Action::GoToLineStart { select: true }),
        all_actions()[22] == (Action::GoToLineEnd { select: true }),
        all_actions()[23] == (Action::GoToBufferStart { select: true }),
        all_actions()[24] == (Action::GoToBufferEnd { select: true }),
{
}

/// A few characters that tell the action names apart: the length, the first
/// character and the fifth one (a space when there is none).
pub open spec fn name_key(s: Seq<char>) -> (int, char, char) {
    (s.len() as int, if s.len() > 0 { s[0] } else { ' ' }, if s.len() > 4 { s[4] } else { ' ' })
}

/// The key of each action's name.
pub open spec fn expected_key(a: Action) -> (int, char, char) {
    match a {
        Action::Undo => (4, 'U', ' '),
        Action::GoToPrevCharacter { select } => if select { (23, 'G', 'P') } else { (17, 'G', 'P') },
        Action::Redo => (4, 'R', ' '),
        Action::GoToNextCharacter { select } => if select { (23, 'G', 'N') } else { (17, 'G', 'N') },
        Action::Save => (4, 'S', ' '),
        Action::GoToPrevLine { select } => if select { (18, 'G', 'P') } else { (12, 'G', 'P') },
        Action::Search => (6, 'S', 'c'),
        Action::GoToNextLine { select } => if select { (18, 'G', 'N') } else { (12, 'G', 'N') },
        Action::Replace => (7, 'R', 'a'),
        Action::GoToLineStart { select } => if select { (19, 'G', 'L') } else { (13, 'G', 'L') },
        Action::InsertHighlight => (15, 'I', 'r'),
        Action::GoToLineEnd { select } => if select { (17, 'G', 'L') } else { (11, 'G', 'L') },
        Action::Delete => (6, 'D', 't'),
        Action::GoToBufferStart { select } => if select { (21, 'G', 'B') } else { (15, 'G', 'B') },
        Action::Backspace => (9, 'B', 's'),
        Action::GoToBufferEnd { select } => if select { (19, 'G', 'B') } else { (13, 'G', 'B') },
        Action::Enter => (5, 'E', 'r'),
    }
}

proof fn lemma_name_key(a: Action)
    ensures
        name_key(action_name(a)) == expected_key(a),
{
    reveal_strlit("Undo");
    reveal_strlit("Redo");
    reveal_strlit("Save");
    reveal_strlit("Search");
    reveal_strlit("Replace");
    reveal_strlit("InsertHighlight");
    reveal_strlit("Delete");
    reveal_strlit("Backspace");
    reveal_strlit("Enter");
    reveal_strlit("GoToPrevCharacter");
    reveal_strlit("GoToNextCharacter");
    reveal_strlit("GoToPrevLine");
    reveal_strlit("GoToNextLine");
    reveal_strlit("GoToLineStart");
    reveal_strlit("GoToLineEnd");
    reveal_strlit("GoToBufferStart");
    reveal_strlit("GoToBufferEnd");
    reveal_strlit("GoToPrevCharacterSelect");
    reveal_strlit("GoToNextCharacterSelect");
    reveal_strlit("GoToPrevLineSelect");
    reveal_strlit("GoToNextLineSelect");
    reveal_strlit("GoToLineStartSelect");
    reveal_strlit("GoToLineEndSelect");
    reveal_strlit("GoToBufferStartSelect");
    reveal_strlit("GoToBufferEndSelect");
}

/// Reading back the name of an action gives the action.
pub proof fn law_action_name_round_trip(a: Action)
    ensures
        action_of_name(action_name(a)) == Some(a),
{
    lemma_all_actions_listed();
    assert forall|x: Action| name_key(#[trigger] action_name(x)) == expected_key(x) by {
        lemma_name_key(x);
    }
    reveal_with_fuel(action_named_in, 26);
}

impl Action {
    /// Carries out the action on the text area; what it cannot do there is
    /// returned as a request.
    pub fn execute(&self, textarea: &mut TextAreaProperties) -> (r: ActionRequest)
        requires
            old(textarea).caret_ok(),
            old(textarea).selection_ok(),
        ensures
            r == request_of(*self),
            action_effect(*self, *old(textarea), *final(textarea)),
            final(textarea).caret_ok(),
            final(textarea).interaction_mode == old(textarea).interaction_mode,
            *self != Action::Enter || old(textarea).selection.is_none() ==> final(textarea).selection_ok(),
            final(textarea).first_line == old(textarea).first_line,
    {
        match self {
            Action::Backspace => textarea.input_backspace(),
            Action::Delete => textarea.input_delete(),
            Action::Enter => textarea.input_enter(),
            Action::GoToPrevCharacter { .. } => textarea.go_to_prev_char(),
            Action::GoToNextCharacter { .. } => textarea.go_to_next_char(),
            Action::GoToPrevLine { .. } => textarea.go_to_prev_line(),
            Action::GoToNextLine { .. } => textarea.go_to_next_line(),
            Action::GoToLineStart { .. } => textarea.go_to_start_of_line(),
            Action::GoToLineEnd { .. } => textarea.go_to_end_of_line(),
            Action::GoToBufferStart { .. } => textarea.go_to_start_of_buffer(),
            Action::GoToBufferEnd { .. } => textarea.go_to_end_of_buffer(),
            Action::Save => {},
            Action::Undo => return ActionRequest::Undo,
            Action::Redo => return ActionRequest::Redo,
            Action::Search => return ActionRequest::ShowSearch,
            Action::Replace => return ActionRequest::ShowReplace,
            Action::InsertHighlight => return ActionRequest::InsertHighlight,
        }
        ActionRequest::Done
    }
}

} // verus!
