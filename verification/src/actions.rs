//! User-facing actions, their consumption states, and the key events the
//! application maps onto them.

use vstd::prelude::*;

verus! {

/// What the application is asked to do next.
pub enum Action {
    /// Initial population of the list.
    Start,
    /// Apply the wallpaper at the given path; `None` when nothing is
    /// selected.
    Select(Option<String>),
    /// Move the selection down.
    Next,
    /// Move the selection up.
    Previous,
    /// Leave the application.
    Quit,
}

/// Whether a component fully handled an action.
#[derive(PartialEq, Eq, Structural, Debug)]
pub enum ActionState {
    Consumed,
    NotConsumed,
}

impl ActionState {
    pub fn is_consumed(&self) -> (r: bool)
        ensures
            r == (self is Consumed),
    {
        *self == ActionState::Consumed
    }
}

/// Whether a component fully handled a message.
#[derive(PartialEq, Eq, Structural, Debug)]
pub enum MessageState {
    Consumed,
    NotConsumed,
}

impl MessageState {
    pub fn is_consumed(&self) -> (r: bool)
        ensures
            r == (self is Consumed),
    {
        *self == MessageState::Consumed
    }
}

/// A keyboard event, reduced to what the key tables care about.
#[derive(PartialEq, Eq, Structural, Clone, Copy, Debug)]
pub enum Key {
    Char(char),
    Up,
    Down,
    Enter,
    Esc,
    Other,
}

/// The application-wide key table: `Esc` and `q` quit, everything else is
/// left to the focused component.
pub fn global_key_action(key: &Key) -> (r: Option<Action>)
    ensures
        r == (match *key {
            Key::Esc => Some(Action::Quit),
            Key::Char('q') => Some(Action::Quit),
            _ => None::<Action>,
        }),
{
    match key {
        Key::Esc => Some(Action::Quit),
        Key::Char(c) => {
            if *c == 'q' {
                Some(Action::Quit)
            } else {
                None
            }
        },
        _ => None,
    }
}

} // verus!
