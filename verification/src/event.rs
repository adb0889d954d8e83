//! Input events, and what a screen answers to one.

use vstd::prelude::*;

verus! {

/// Which key an event is about.
#[derive(Debug, Clone, Copy, PartialEq, Eq, Structural)]
pub enum KeyCode {
    Char(char),
    Enter,
    Esc,
    Backspace,
    Tab,
    Left,
    Right,
    Up,
    Down,
    /// A key that no screen of this library reacts to.
    Other,
}

/// Whether a key went down, came up, or repeats while held.
#[derive(Debug, Clone, Copy, PartialEq, Eq, Structural)]
pub enum KeyPhase {
    Press,
    Release,
    Repeat,
}

/// The modifier keys held during an event.
#[derive(Debug, Clone, Copy, PartialEq, Eq, Structural)]
pub struct Modifiers {
    pub shift: bool,
    pub control: bool,
    pub alt: bool,
}

/// What the pointer did.
#[derive(Debug, Clone, Copy, PartialEq, Eq, Structural)]
pub enum MouseKind {
    Down,
    Up,
    Moved,
    Drag,
    ScrollUp,
    ScrollDown,
}

/// A key event.
#[derive(Debug, Clone, Copy, PartialEq, Eq, Structural)]
pub struct KeyEvent {
    pub code: KeyCode,
    pub modifiers: Modifiers,
    pub phase: KeyPhase,
}

/// A pointer event at the cell in column `column`, row `row`.
#[derive(Debug, Clone, Copy, PartialEq, Eq, Structural)]
pub struct MouseEvent {
    pub kind: MouseKind,
    pub column: u16,
    pub row: u16,
    pub modifiers: Modifiers,
}

/// An input event.
#[derive(Debug, Clone, Copy, PartialEq, Eq, Structural)]
pub enum Event {
    Key(KeyEvent),
    Mouse(MouseEvent),
}

/// What a screen tells the loop after an event.
#[derive(Debug, Clone, Copy, PartialEq, Eq, Structural)]
pub enum Command {
    /// Go on with the next frame.
    Continue,
    /// Leave the loop.
    Terminate,
}

impl Modifiers {
    /// No modifier key held.
    pub fn none() -> (m: Modifiers)
        ensures
            m == (Modifiers { shift: false, control: false, alt: false }),
    {
        Modifiers { shift: false, control: false, alt: false }
    }
}

impl Event {
    /// The key of a key press: screens react to presses only, so a release,
    /// a repeat and every pointer event have none.
    pub open spec fn pressed_key(self) -> Option<KeyCode> {
        match self {
            Event::Key(key) => if key.phase is Press {
                Some(key.code)
            } else {
                None
            },
            Event::Mouse(_) => None,
        }
    }

    /// The press of `code` with no modifier held.
    pub open spec fn press_of(code: KeyCode) -> Event {
        Event::Key(
            KeyEvent {
                code,
                modifiers: Modifiers { shift: false, control: false, alt: false },
                phase: KeyPhase::Press,
            },
        )
    }

    /// The key of a key press, if the event is one.
    pub fn pressed(&self) -> (key: Option<KeyCode>)
        ensures
            key == self.pressed_key(),
    {
        match *self {
            Event::Key(key) => match key.phase {
                KeyPhase::Press => Some(key.code),
                _ => None,
            },
            Event::Mouse(_) => None,
        }
    }

    /// The press of `code` with no modifier held.
    pub fn press(code: KeyCode) -> (e: Event)
        ensures
            e == Event::press_of(code),
            e.pressed_key() == Some(code),
    {
        Event::Key(KeyEvent { code, modifiers: Modifiers::none(), phase: KeyPhase::Press })
    }
}

} // verus!
