//! A row of three buttons: the arrow keys move the selection, the space bar
//! or the enter key presses the selected button and lets it go again, and
//! `q` quits. The pointer selects the button it moves over and presses it
//! when a mouse button goes down.

use vstd::prelude::*;
use crate::event::{Command, Event, KeyCode, MouseEvent, MouseKind};
use crate::run_loop::{Happened, Loop, Phase};
use crate::screen::Screen;

verus! {

/// How a button looks and answers.
#[derive(Debug, Clone, Copy, PartialEq, Eq, Structural)]
pub enum State {
    /// Not selected.
    Normal,
    /// Selected, and let go.
    Selected,
    /// Selected, and pressed.
    Active,
}

/// The three buttons and the index of the selected one.
#[derive(Debug, Clone, Copy, PartialEq, Eq)]
pub struct Buttons {
    pub states: [State; 3],
    pub selected: usize,
}

/// The columns that one button takes up.
pub const BUTTON_WIDTH: u16 = 15;

/// The button that the pointer is over when it is in column `column`: the
/// first for the first fifteen columns, the second for the next fifteen, the
/// third beyond.
pub open spec fn button_at(column: int) -> int {
    if column < 15 {
        0
    } else if column < 30 {
        1
    } else {
        2
    }
}

impl Buttons {
    /// The index of the selected button is one of the three.
    pub open spec fn wf(self) -> bool {
        self.selected < 3
    }

    /// Only the selected button is selected or pressed.
    pub open spec fn focused(self) -> bool {
        &&& self.wf()
        &&& forall|i: int| 0 <= i < 3 ==> (self.states[i] is Normal <==> i != self.selected)
    }

    /// The row with button `i` in state `s`.
    pub open spec fn with(self, i: int, s: State) -> Buttons {
        Buttons {
            states: [
                if i == 0 {
                    s
                } else {
                    self.states[0]
                },
                if i == 1 {
                    s
                } else {
                    self.states[1]
                },
                if i == 2 {
                    s
                } else {
                    self.states[2]
                },
            ],
            selected: self.selected,
        }
    }

    /// The row with button `target` selected and let go, and the button
    /// that was selected back to normal.
    pub open spec fn moved_to(self, target: int) -> Buttons {
        let cleared = self.with(self.selected as int, State::Normal);
        Buttons { states: cleared.with(target, State::Selected).states, selected: target as usize }
    }

    /// The row with the selected button pressed, or let go where it was
    /// pressed.
    pub open spec fn toggled(self) -> Buttons {
        if self.states[self.selected as int] is Active {
            self.with(self.selected as int, State::Selected)
        } else {
            self.with(self.selected as int, State::Active)
        }
    }

    /// The row after the key `key` went down, and the command that goes
    /// with it.
    pub open spec fn after_key(self, key: KeyCode) -> (Buttons, Command) {
        match key {
            KeyCode::Char('q') => (self, Command::Terminate),
            KeyCode::Left | KeyCode::Char('h') => (
                self.moved_to(
                    if self.selected == 0 {
                        0
                    } else {
                        self.selected - 1
                    },
                ),
                Command::Continue,
            ),
            KeyCode::Right | KeyCode::Char('l') => (
                self.moved_to(
                    if self.selected >= 2 {
                        2
                    } else {
                        self.selected + 1
                    },
                ),
                Command::Continue,
            ),
            KeyCode::Char(' ') | KeyCode::Enter => (self.toggled(), Command::Continue),
            _ => (self, Command::Continue),
        }
    }

    /// The row after the pointer event `mouse`: a move selects the button
    /// under the pointer, unless it is selected already, a button going down
    /// presses the selected button or lets it go, and nothing else changes
    /// anything.
    pub open spec fn after_mouse(self, mouse: MouseEvent) -> Buttons {
        match mouse.kind {
            MouseKind::Moved => if button_at(mouse.column as int) == self.selected {
                self
            } else {
                self.moved_to(button_at(mouse.column as int))
            },
            MouseKind::Down => self.toggled(),
            _ => self,
        }
    }

    /// The row with the first button selected.
    pub fn new() -> (row: Buttons)
        ensures
            row.states@ =~= seq![State::Selected, State::Normal, State::Normal],
            row.selected == 0,
            row.focused(),
    {
        Buttons { states: [State::Selected, State::Normal, State::Normal], selected: 0 }
    }

    /// The state of button `i`.
    pub fn state(&self, i: usize) -> (s: State)
        requires
            i < 3,
        ensures
            s == self.states[i as int],
    {
        self.states[i]
    }

    /// Selects button `target` and sets the button that was selected back
    /// to normal.
    pub fn select(&mut self, target: usize)
        requires
            old(self).wf(),
            target < 3,
        ensures
            *final(self) == old(self).moved_to(target as int),
            final(self).wf(),
    {
        let from = self.selected;
        self.states[from] = State::Normal;
        self.selected = target;
        self.states[target] = State::Selected;
        assert(self.states =~= old(self).moved_to(target as int).states);
    }

    /// Presses the selected button, or lets it go where it was pressed.
    pub fn toggle(&mut self)
        requires
            old(self).wf(),
        ensures
            *final(self) == old(self).toggled(),
            final(self).wf(),
    {
        let at = self.selected;
        if self.states[at] == State::Active {
            self.states[at] = State::Selected;
        } else {
            self.states[at] = State::Active;
        }
        assert(self.states =~= old(self).toggled().states);
    }

    /// Takes the key that went down.
    pub fn handle_key_event(&mut self, key: KeyCode) -> (command: Command)
        requires
            old(self).wf(),
        ensures
            (*final(self), command) == old(self).after_key(key),
            final(self).wf(),
    {
        match key {
            KeyCode::Char('q') => {
                return Command::Terminate;
            },
            KeyCode::Left | KeyCode::Char('h') => {
                let target = self.selected.saturating_sub(1);
                self.select(target);
            },
            KeyCode::Right | KeyCode::Char('l') => {
                let next = self.selected.saturating_add(1);
                let target = if next < 2 {
                    next
                } else {
                    2
                };
                self.select(target);
            },
            KeyCode::Char(' ') | KeyCode::Enter => {
                self.toggle();
            },
            _ => {},
        }
        Command::Continue
    }

    /// Takes a pointer event.
    pub fn handle_mouse_event(&mut self, mouse: MouseEvent)
        requires
            old(self).wf(),
        ensures
            *final(self) == old(self).after_mouse(mouse),
            final(self).wf(),
    {
        match mouse.kind {
            MouseKind::Moved => {
                let target: usize = if mouse.column < BUTTON_WIDTH {
                    0
                } else if mouse.column < 2 * BUTTON_WIDTH {
                    1
                } else {
                    2
                };
                if target != self.selected {
                    self.select(target);
                }
            },
            MouseKind::Down => {
                self.toggle();
            },
            _ => {},
        }
    }
}

impl Default for Buttons {
    fn default() -> (row: Buttons)
        ensures
            row.states@ =~= seq![State::Selected, State::Normal, State::Normal],
            row.selected == 0,
    {
        Buttons::new()
    }
}

impl Screen for Buttons {
    open spec fn valid(self) -> bool {
        self.wf()
    }

    /// Key presses and pointer events move the row; releases and repeats of
    /// keys change nothing.
    open spec fn react(self, event: Event) -> (Self, Command) {
        match event {
            Event::Key(_) => match event.pressed_key() {
                Some(key) => self.after_key(key),
                None => (self, Command::Continue),
            },
            Event::Mouse(mouse) => (self.after_mouse(mouse), Command::Continue),
        }
    }

    /// The row has no sub-state that holds keys back.
    open spec fn modal(self) -> bool {
        false
    }

    fn transition(&mut self, event: Event) -> (command: Command) {
        match event {
            Event::Key(_) => match event.pressed() {
                Some(key) => self.handle_key_event(key),
                None => Command::Continue,
            },
            Event::Mouse(mouse) => {
                self.handle_mouse_event(mouse);
                Command::Continue
            },
        }
    }
}

/// Whatever happens, only the selected button is selected or pressed.
pub proof fn law_only_selected_stands_out(row: Buttons, event: Event)
    requires
        row.focused(),
    ensures
        row.react(event).0.focused(),
{
    let next = row.react(event).0;
    assert(next.wf());
    assert forall|i: int| 0 <= i < 3 implies (next.states[i] is Normal <==> i != next.selected) by {
        assert(row.states[0] is Normal <==> 0 != row.selected);
        assert(row.states[1] is Normal <==> 1 != row.selected);
        assert(row.states[2] is Normal <==> 2 != row.selected);
    }
}

/// Pressing a selected button and pressing it again leaves it selected.
pub proof fn law_toggle_twice(row: Buttons)
    requires
        row.wf(),
        row.states[row.selected as int] is Selected,
    ensures
        row.toggled().states[row.selected as int] is Active,
        row.toggled().toggled().states[row.selected as int] is Selected,
        row.toggled().toggled().states =~= row.states,
{
}

/// `q` quits from every state: the row terminates and stays as it is, and
/// a loop that waits for an event leaves within that iteration.
pub proof fn law_quit_key_terminates(row: Buttons, event: Event)
    requires
        event.pressed_key() == Some(KeyCode::Char('q')),
    ensures
        row.react(event) == (row, Command::Terminate),
        (Loop { screen: row, phase: Phase::Poll }).after(Happened::Received(event)).1 is Exit,
        (Loop { screen: row, phase: Phase::Poll }).after(Happened::Received(event)).0.phase is Done,
{
}

/// A key that comes up or repeats changes nothing, and no event but a
/// press of `q` ends the row.
pub proof fn law_other_events_change_nothing(row: Buttons, event: Event)
    ensures
        event is Key && event.pressed_key() is None ==> row.react(event) == (
            row,
            Command::Continue,
        ),
        event.pressed_key() != Some(KeyCode::Char('q')) ==> row.react(event).1 is Continue,
{
}

} // verus!
