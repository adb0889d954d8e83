//! The decisions of the application loop.
//!
//! The loop draws a frame, waits for an event, hands the event to the
//! screen, and starts over until the screen asks to terminate or the
//! terminal fails. Drawing and waiting are the caller's part. What to do
//! next is decided here: the caller reports what happened and is told the
//! next action.

use vstd::prelude::*;
use crate::error::Error;
use crate::event::{Command, Event};
use crate::screen::Screen;

verus! {

/// Where the loop stands.
#[derive(Debug, Clone, Copy, PartialEq, Eq, Structural)]
pub enum Phase {
    /// A frame is to be drawn.
    Render,
    /// An event is awaited.
    Poll,
    /// The screen has asked to terminate.
    Done,
    /// The terminal has failed.
    Failed(Error),
}

/// What the caller reports back to the loop.
#[derive(Debug, Clone, Copy, PartialEq, Eq, Structural)]
pub enum Happened {
    /// The frame was drawn and flushed.
    Rendered,
    /// The frame could not be flushed.
    RenderFailed,
    /// The wait ended without an event.
    TimedOut,
    /// An event arrived.
    Received(Event),
    /// The event source failed.
    InputFailed,
}

/// What the caller is to do next.
#[derive(Debug, Clone, Copy, PartialEq, Eq, Structural)]
pub enum Action {
    /// Draw the screen and flush the frame, then report `Rendered` or
    /// `RenderFailed`.
    Render,
    /// Wait for an event, then report `Received`, `TimedOut` or
    /// `InputFailed`.
    Poll,
    /// Leave the loop: the screen has terminated.
    Exit,
    /// Leave the loop with this failure.
    Fail(Error),
}

impl Phase {
    /// The action that the phase waits for.
    pub open spec fn wants(self) -> Action {
        match self {
            Phase::Render => Action::Render,
            Phase::Poll => Action::Poll,
            Phase::Done => Action::Exit,
            Phase::Failed(e) => Action::Fail(e),
        }
    }

    /// Whether the loop has ended.
    pub open spec fn ended(self) -> bool {
        self is Done || self is Failed
    }
}

/// A loop around one screen.
pub struct Loop<S: Screen> {
    pub screen: S,
    pub phase: Phase,
}

impl<S: Screen> Loop<S> {
    /// The loop with its phase replaced.
    pub open spec fn at(self, phase: Phase) -> Loop<S> {
        Loop { screen: self.screen, phase }
    }

    /// The loop after `happened`, and the action that follows.
    ///
    /// A report that does not answer the pending action changes nothing,
    /// and the pending action is asked for again.
    pub open spec fn after(self, happened: Happened) -> (Loop<S>, Action) {
        match (self.phase, happened) {
            (Phase::Render, Happened::Rendered) => (self.at(Phase::Poll), Action::Poll),
            (Phase::Render, Happened::RenderFailed) => (
                self.at(Phase::Failed(Error::RenderSurfaceFailure)),
                Action::Fail(Error::RenderSurfaceFailure),
            ),
            (Phase::Poll, Happened::TimedOut) => (self.at(Phase::Render), Action::Render),
            (Phase::Poll, Happened::InputFailed) => (
                self.at(Phase::Failed(Error::InputSourceFailure)),
                Action::Fail(Error::InputSourceFailure),
            ),
            (Phase::Poll, Happened::Received(event)) => {
                let (screen, command) = self.screen.react(event);
                match command {
                    Command::Continue => (Loop { screen, phase: Phase::Render }, Action::Render),
                    Command::Terminate => (Loop { screen, phase: Phase::Done }, Action::Exit),
                }
            },
            _ => (self, self.phase.wants()),
        }
    }

    /// A loop that is about to draw the first frame of `screen`.
    pub fn new(screen: S) -> (l: Loop<S>)
        ensures
            l.screen == screen,
            l.phase == Phase::Render,
    {
        Loop { screen, phase: Phase::Render }
    }

    /// The action that the loop waits for.
    pub fn pending(&self) -> (action: Action)
        ensures
            action == self.phase.wants(),
    {
        match self.phase {
            Phase::Render => Action::Render,
            Phase::Poll => Action::Poll,
            Phase::Done => Action::Exit,
            Phase::Failed(e) => Action::Fail(e),
        }
    }

    /// Takes note of what happened and says what to do next.
    pub fn step(&mut self, happened: Happened) -> (action: Action)
        requires
            old(self).screen.valid(),
        ensures
            final(self).screen.valid(),
            (*final(self), action) == old(self).after(happened),
    {
        match (self.phase, happened) {
            (Phase::Render, Happened::Rendered) => {
                self.phase = Phase::Poll;
                Action::Poll
            },
            (Phase::Render, Happened::RenderFailed) => {
                self.phase = Phase::Failed(Error::RenderSurfaceFailure);
                Action::Fail(Error::RenderSurfaceFailure)
            },
            (Phase::Poll, Happened::TimedOut) => {
                self.phase = Phase::Render;
                Action::Render
            },
            (Phase::Poll, Happened::InputFailed) => {
                self.phase = Phase::Failed(Error::InputSourceFailure);
                Action::Fail(Error::InputSourceFailure)
            },
            (Phase::Poll, Happened::Received(event)) => {
                match self.screen.transition(event) {
                    Command::Continue => {
                        self.phase = Phase::Render;
                        Action::Render
                    },
                    Command::Terminate => {
                        self.phase = Phase::Done;
                        Action::Exit
                    },
                }
            },
            _ => self.pending(),
        }
    }
}

/// An event on which the screen terminates ends the loop within the
/// iteration that receives it: the next action is to leave, and the loop
/// has ended.
pub proof fn law_terminate_ends_loop<S: Screen>(l: Loop<S>, event: Event)
    requires
        l.phase is Poll,
        l.screen.react(event).1 is Terminate,
    ensures
        l.after(Happened::Received(event)).1 is Exit,
        l.after(Happened::Received(event)).0.phase is Done,
        l.after(Happened::Received(event)).0.screen == l.screen.react(event).0,
{
}

/// A loop that has ended stays as it is, whatever happens next, and goes on
/// asking to be left.
pub proof fn law_ended_loop_stays_ended<S: Screen>(l: Loop<S>, happened: Happened)
    requires
        l.phase.ended(),
    ensures
        l.after(happened).0 == l,
        l.after(happened).1 == l.phase.wants(),
        l.after(happened).1 is Exit || l.after(happened).1 is Fail,
{
}

/// Only a failure of the terminal, or the screen itself, ends the loop: after
/// any other report the loop draws or polls.
pub proof fn law_loop_goes_on<S: Screen>(l: Loop<S>, happened: Happened)
    requires
        !l.phase.ended(),
        !(happened is RenderFailed),
        !(happened is InputFailed),
        happened matches Happened::Received(event) ==> l.screen.react(event).1 is Continue,
    ensures
        !l.after(happened).0.phase.ended(),
{
}

} // verus!
