//! What every screen has in common: a state that events move.

use vstd::prelude::*;
use crate::event::{Command, Event};

verus! {

/// A screen: a state, and a transition function that maps the state and an
/// event to the next state and a command for the loop.
///
/// The transition is a pure function of state and event, named by `react`,
/// and `transition` computes exactly that: no screen has any other way to
/// change.
pub trait Screen: Sized {
    /// What holds of every state that the screen can be in.
    spec fn valid(self) -> bool;

    /// The state after `event`, and the command that goes with it.
    spec fn react(self, event: Event) -> (Self, Command);

    /// Whether the screen is in a sub-state that has to be committed or
    /// cancelled before anything else is heard.
    spec fn modal(self) -> bool;

    /// Moves the screen to the state that follows on `event`.
    fn transition(&mut self, event: Event) -> (command: Command)
        requires
            old(self).valid(),
        ensures
            final(self).valid(),
            (*final(self), command) == old(self).react(event),
    ;
}

} // verus!
