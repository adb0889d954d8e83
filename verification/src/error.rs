//! The ways in which the library, or the loop around it, can fail.

use vstd::prelude::*;

verus! {

/// A failure of the layout engine or of the loop that drives a screen.
#[derive(Debug, Clone, Copy, PartialEq, Eq, Structural)]
pub enum Error {
    /// A sizing constraint is malformed: a ratio over zero, or a percentage
    /// above one hundred.
    InvalidConstraint,
    /// The event source failed to deliver an event.
    InputSourceFailure,
    /// The frame could not be flushed to the terminal.
    RenderSurfaceFailure,
}

impl Error {
    /// Whether the loop must stop on this failure. The two failures of the
    /// terminal do; a malformed constraint is a mistake of the caller of the
    /// layout engine and never reaches the loop.
    pub open spec fn is_fatal(self) -> bool {
        self is InputSourceFailure || self is RenderSurfaceFailure
    }

    /// A short description for the user.
    pub fn message(&self) -> (s: String)
        ensures
            s@ == match *self {
                Error::InvalidConstraint => "invalid layout constraint"@,
                Error::InputSourceFailure => "the input source failed"@,
                Error::RenderSurfaceFailure => "the frame could not be written"@,
            },
    {
        match self {
            Error::InvalidConstraint => "invalid layout constraint".to_owned(),
            Error::InputSourceFailure => "the input source failed".to_owned(),
            Error::RenderSurfaceFailure => "the frame could not be written".to_owned(),
        }
    }
}

} // verus!
