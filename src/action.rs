//! What the event loop acts on: the actions that keys are bound to.

use vstd::prelude::*;

use crate::key::{Key, same, string_of};
use crate::text::{chars_of, trim, trimmed};

verus! {

/// An action of the whole program.
#[derive(Clone, Copy, Debug, PartialEq, Eq, Structural)]
pub enum Action {
    Exit,
    Draw,
    Tui(TuiAction),
}

/// An action on the result list or the query box.
#[derive(Clone, Copy, Debug, PartialEq, Eq, Structural)]
pub enum TuiAction {
    Next,
    Previous,
    First,
    Last,
    Input(InputAction),
}

/// An edit of the query box.
#[derive(Clone, Copy, Debug, PartialEq, Eq, Structural)]
pub enum InputAction {
    Key(Key),
    MoveForward,
    MoveBack,
    MoveUp,
    MoveDown,
    MoveForwardWord,
    MoveBackWord,
    MoveToEndOfWord,
    MoveToTop,
    MoveToBottom,
    MoveToHead,
    MoveToEnd,
    Delete,
    DeleteNext,
    DeleteWord,
    DeleteNextWord,
    DeleteToHead,
    DeleteToEnd,
}

impl From<TuiAction> for Action {
    fn from(value: TuiAction) -> (r: Action)
        ensures
            r == Action::Tui(value),
    {
        Action::Tui(value)
    }
}

impl vstd::std_specs::convert::FromSpecImpl<TuiAction> for Action {
    open spec fn obeys_from_spec() -> bool {
        true
    }

    open spec fn from_spec(v: TuiAction) -> Action {
        Action::Tui(v)
    }
}

impl From<InputAction> for Action {
    fn from(value: InputAction) -> (r: Action)
        ensures
            r == Action::Tui(TuiAction::Input(value)),
    {
        Action::Tui(TuiAction::Input(value))
    }
}

impl vstd::std_specs::convert::FromSpecImpl<InputAction> for Action {
    open spec fn obeys_from_spec() -> bool {
        true
    }

    open spec fn from_spec(v: InputAction) -> Action {
        Action::Tui(TuiAction::Input(v))
    }
}

/// The action that a name denotes.
pub open spec fn action_named(s: Seq<char>) -> Option<Action> {
    if s == "exit"@ {
        Some(Action::Exit)
    } else if s == "next"@ {
        Some(Action::Tui(TuiAction::Next))
    } else if s == "previous"@ {
        Some(Action::Tui(TuiAction::Previous))
    } else if s == "first"@ {
        Some(Action::Tui(TuiAction::First))
    } else if s == "last"@ {
        Some(Action::Tui(TuiAction::Last))
    } else if s == "move-forward"@ {
        Some(Action::Tui(TuiAction::Input(InputAction::MoveForward)))
    } else if s == "move-back"@ {
        Some(Action::Tui(TuiAction::Input(InputAction::MoveBack)))
    } else if s == "move-up"@ {
        Some(Action::Tui(TuiAction::Input(InputAction::MoveUp)))
    } else if s == "move-down"@ {
        Some(Action::Tui(TuiAction::Input(InputAction::MoveDown)))
    } else if s == "move-forward-word"@ {
        Some(Action::Tui(TuiAction::Input(InputAction::MoveForwardWord)))
    } else if s == "move-back-word"@ {
        Some(Action::Tui(TuiAction::Input(InputAction::MoveBackWord)))
    } else if s == "move-to-end-of-word"@ {
        Some(Action::Tui(TuiAction::Input(InputAction::MoveToEndOfWord)))
    } else if s == "move-to-top"@ {
        Some(Action::Tui(TuiAction::Input(InputAction::MoveToTop)))
    } else if s == "move-to-bottom"@ {
        Some(Action::Tui(TuiAction::Input(InputAction::MoveToBottom)))
    } else if s == "move-to-head"@ {
        Some(Action::Tui(TuiAction::Input(InputAction::MoveToHead)))
    } else if s == "move-to-end"@ {
        Some(Action::Tui(TuiAction::Input(InputAction::MoveToEnd)))
    } else if s == "delete"@ {
        Some(Action::Tui(TuiAction::Input(InputAction::Delete)))
    } else if s == "delete-next"@ {
        Some(Action::Tui(TuiAction::Input(InputAction::DeleteNext)))
    } else if s == "delete-word"@ {
        Some(Action::Tui(TuiAction::Input(InputAction::DeleteWord)))
    } else if s == "delete-next-word"@ {
        Some(Action::Tui(TuiAction::Input(InputAction::DeleteNextWord)))
    } else if s == "delete-to-head"@ {
        Some(Action::Tui(TuiAction::Input(InputAction::DeleteToHead)))
    } else if s == "delete-to-end"@ {
        Some(Action::Tui(TuiAction::Input(InputAction::DeleteToEnd)))
    } else {
        None
    }
}

/// A name that names no action.
#[derive(Debug, PartialEq, Eq)]
pub struct ParseActionError(pub String);

impl Action {
    /// Reads an action from its name, around which whitespace is ignored.
    pub fn parse(s: &str) -> (r: Result<Action, ParseActionError>)
        ensures
            match r {
                Ok(a) => action_named(trimmed(s@)) == Some(a),
                Err(e) => action_named(trimmed(s@)) is None && e.0@ == trimmed(s@),
            },
    {
        let v = trim(&chars_of(s));
        Action::parse_chars(&v)
    }

    /// Reads an action from a name with no whitespace around it.
    pub fn parse_chars(v: &Vec<char>) -> (r: Result<Action, ParseActionError>)
        ensures
            match r {
                Ok(a) => action_named(v@) == Some(a),
                Err(e) => action_named(v@) is None && e.0@ == v@,
            },
    {
        if same(v, "exit") {
            Ok(Action::Exit)
        } else if same(v, "next") {
            Ok(Action::Tui(TuiAction::Next))
        } else if same(v, "previous") {
            Ok(Action::Tui(TuiAction::Previous))
        } else if same(v, "first") {
            Ok(Action::Tui(TuiAction::First))
        } else if same(v, "last") {
            Ok(Action::Tui(TuiAction::Last))
        } else if same(v, "move-forward") {
            Ok(Action::Tui(TuiAction::Input(InputAction::MoveForward)))
        } else if same(v, "move-back") {
            Ok(Action::Tui(TuiAction::Input(InputAction::MoveBack)))
        } else if same(v, "move-up") {
            Ok(Action::Tui(TuiAction::Input(InputAction::MoveUp)))
        } else if same(v, "move-down") {
            Ok(Action::Tui(TuiAction::Input(InputAction::MoveDown)))
        } else if same(v, "move-forward-word") {
            Ok(Action::Tui(TuiAction::Input(InputAction::MoveForwardWord)))
        } else if same(v, "move-back-word") {
            Ok(Action::Tui(TuiAction::Input(InputAction::MoveBackWord)))
        } else if same(v, "move-to-end-of-word") {
            Ok(Action::Tui(TuiAction::Input(InputAction::MoveToEndOfWord)))
        } else if same(v, "move-to-top") {
            Ok(Action::Tui(TuiAction::Input(InputAction::MoveToTop)))
        } else if same(v, "move-to-bottom") {
            Ok(Action::Tui(TuiAction::Input(InputAction::MoveToBottom)))
        } else if same(v, "move-to-head") {
            Ok(Action::Tui(TuiAction::Input(InputAction::MoveToHead)))
        } else if same(v, "move-to-end") {
            Ok(Action::Tui(TuiAction::Input(InputAction::MoveToEnd)))
        } else if same(v, "delete") {
            Ok(Action::Tui(TuiAction::Input(InputAction::Delete)))
        } else if same(v, "delete-next") {
            Ok(Action::Tui(TuiAction::Input(InputAction::DeleteNext)))
        } else if same(v, "delete-word") {
            Ok(Action::Tui(TuiAction::Input(InputAction::DeleteWord)))
        } else if same(v, "delete-next-word") {
            Ok(Action::Tui(TuiAction::Input(InputAction::DeleteNextWord)))
        } else if same(v, "delete-to-head") {
            Ok(Action::Tui(TuiAction::Input(InputAction::DeleteToHead)))
        } else if same(v, "delete-to-end") {
            Ok(Action::Tui(TuiAction::Input(InputAction::DeleteToEnd)))
        } else {
            Err(ParseActionError(string_of(v)))
        }
    }
}

impl std::str::FromStr for Action {
    type Err = ParseActionError;

    fn from_str(s: &str) -> Result<Action, ParseActionError> {
        Action::parse(s)
    }
}

} // verus!
