//! A screen of four tabs: `h` or the left arrow goes one tab to the left,
//! `l` or the right arrow one to the right, and `q` quits.

use vstd::prelude::*;
use crate::constraint::{Constraint, Direction, Flex};
use crate::event::{Command, Event, KeyCode};
use crate::layout::{axis_length, partition, partition_of, segment_lengths_of};
use crate::layout_laws::lemma_partition_segments;
use crate::length_laws::{
    law_long_source_meets_requests,
    law_short_source_served_by_firmness,
    lemma_lengths_total,
};
use crate::placement::available;
use crate::placement_laws::lemma_packed_from_start;
use crate::rect::Rect;
use crate::run_loop::{Happened, Loop, Phase};
use crate::screen::Screen;
use crate::selected_tab::SelectedTab;
use crate::sizing::{fill_flags, grow_weight, grow_weights, length, requests, served_before, smaller};
use crate::sums::lemma_prefix_sums_written_out;

verus! {

/// Whether the screen goes on or has been quit.
#[derive(Debug, Clone, Copy, PartialEq, Eq, Structural)]
pub enum AppState {
    Running,
    Quitting,
}

/// The state of the screen: whether it runs, and which tab it shows.
#[derive(Debug, Clone, Copy, PartialEq, Eq, Structural)]
pub struct App {
    pub state: AppState,
    pub selected_tab: SelectedTab,
}

/// Where the parts of a frame go.
#[derive(Debug, Clone, Copy, PartialEq, Eq, Structural)]
pub struct Areas {
    /// The row of tab titles, at the top left.
    pub tabs: Rect,
    /// The title of the screen, at the top right.
    pub title: Rect,
    /// The body of the selected tab.
    pub body: Rect,
    /// The line of help at the bottom.
    pub footer: Rect,
}

/// How a frame is cut into rows: one for the header, one for the footer,
/// and the body takes what is between.
pub open spec fn row_constraints() -> Seq<Constraint> {
    seq![Constraint::Fixed(1), Constraint::Min(0), Constraint::Fixed(1)]
}

/// How the header is cut into columns: twenty for the title, and the tabs
/// take what is left of it.
pub open spec fn header_constraints() -> Seq<Constraint> {
    seq![Constraint::Min(0), Constraint::Fixed(20)]
}

/// The rows of the header: one, or none where the area has no row.
pub open spec fn header_rows(height: int) -> int {
    if height >= 1 {
        1
    } else {
        0
    }
}

/// The rows of the footer: one, or none where the area has fewer than two
/// rows.
pub open spec fn footer_rows(height: int) -> int {
    if height >= 2 {
        1
    } else {
        0
    }
}

/// The parts of a frame on `area`: the header in the top row, cut into the
/// title in its last twenty columns and the tabs before it, the footer in
/// the bottom row, and the body between them. Where the area is too small,
/// the header comes before the footer and the title before the tabs.
pub open spec fn areas_of(area: Rect) -> Areas {
    let width = axis_length(area, Direction::Horizontal);
    let height = axis_length(area, Direction::Vertical);
    let head = header_rows(height);
    let foot = footer_rows(height);
    let title = smaller(20, width);
    Areas {
        tabs: Rect { x: area.x, y: area.y, width: (width - title) as u16, height: head as u16 },
        title: Rect {
            x: (area.x + width - title) as u16,
            y: area.y,
            width: title as u16,
            height: head as u16,
        },
        body: Rect {
            x: area.x,
            y: (area.y + head) as u16,
            width: area.width,
            height: (height - head - foot) as u16,
        },
        footer: Rect {
            x: area.x,
            y: (area.y + height - foot) as u16,
            width: area.width,
            height: foot as u16,
        },
    }
}

/// The rows of a frame as the partition yields them.
proof fn lemma_rows(area: Rect)
    ensures
        ({
            let rows = partition_of(area, Direction::Vertical, row_constraints(), 0, Flex::Start);
            let height = axis_length(area, Direction::Vertical);
            &&& rows[0] == (Rect {
                x: area.x,
                y: area.y,
                width: area.width,
                height: header_rows(height) as u16,
            })
            &&& rows[1] == areas_of(area).body
            &&& rows[2] == areas_of(area).footer
        }),
{
    let cs = row_constraints();
    let height = axis_length(area, Direction::Vertical);
    let lens = segment_lengths_of(area, Direction::Vertical, cs, 0);
    let asked = requests(cs, height);
    assert(available(height, 0, 3) == height);
    lemma_prefix_sums_written_out(asked);
    lemma_prefix_sums_written_out(lens);
    lemma_prefix_sums_written_out(fill_flags(cs));
    lemma_prefix_sums_written_out(grow_weights(cs));
    lemma_lengths_total(cs, height, height);
    if height >= 2 {
        law_long_source_meets_requests(cs, height, height);
    } else {
        law_short_source_served_by_firmness(cs, height, height);
    }
    lemma_partition_segments(area, Direction::Vertical, cs, 0, Flex::Start, 0);
    lemma_partition_segments(area, Direction::Vertical, cs, 0, Flex::Start, 1);
    lemma_partition_segments(area, Direction::Vertical, cs, 0, Flex::Start, 2);
    lemma_packed_from_start(lens, height, 0, 0);
    lemma_packed_from_start(lens, height, 0, 1);
    lemma_packed_from_start(lens, height, 0, 2);
}

/// The columns of a header as the partition yields them.
proof fn lemma_columns(header: Rect)
    ensures
        ({
            let columns = partition_of(
                header,
                Direction::Horizontal,
                header_constraints(),
                0,
                Flex::Start,
            );
            let width = axis_length(header, Direction::Horizontal);
            let title = smaller(20, width);
            &&& columns[0] == (Rect {
                x: header.x,
                y: header.y,
                width: (width - title) as u16,
                height: header.height,
            })
            &&& columns[1] == (Rect {
                x: (header.x + width - title) as u16,
                y: header.y,
                width: title as u16,
                height: header.height,
            })
        }),
{
    let cs = header_constraints();
    let width = axis_length(header, Direction::Horizontal);
    let lens = segment_lengths_of(header, Direction::Horizontal, cs, 0);
    let asked = requests(cs, width);
    assert(available(width, 0, 2) == width);
    lemma_prefix_sums_written_out(asked);
    lemma_prefix_sums_written_out(lens);
    lemma_prefix_sums_written_out(fill_flags(cs));
    lemma_prefix_sums_written_out(grow_weights(cs));
    lemma_lengths_total(cs, width, width);
    if width >= 20 {
        law_long_source_meets_requests(cs, width, width);
    } else {
        law_short_source_served_by_firmness(cs, width, width);
    }
    lemma_partition_segments(header, Direction::Horizontal, cs, 0, Flex::Start, 0);
    lemma_partition_segments(header, Direction::Horizontal, cs, 0, Flex::Start, 1);
    lemma_packed_from_start(lens, width, 0, 0);
    lemma_packed_from_start(lens, width, 0, 1);
}

impl AppState {
    /// Whether the screen goes on.
    pub fn is_running(&self) -> (b: bool)
        ensures
            b == (*self is Running),
    {
        match self {
            AppState::Running => true,
            AppState::Quitting => false,
        }
    }
}

impl Default for AppState {
    fn default() -> (state: AppState)
        ensures
            state == AppState::Running,
    {
        AppState::Running
    }
}

impl App {
    /// The screen with the tab to the right selected, if there is one.
    pub open spec fn moved_right(self) -> App {
        App { state: self.state, selected_tab: self.selected_tab.to_right() }
    }

    /// The screen with the tab to the left selected, if there is one.
    pub open spec fn moved_left(self) -> App {
        App { state: self.state, selected_tab: self.selected_tab.to_left() }
    }

    /// The screen once it has been quit.
    pub open spec fn stopped(self) -> App {
        App { state: AppState::Quitting, selected_tab: self.selected_tab }
    }

    /// The state that follows on `event`.
    pub open spec fn after(self, event: Event) -> App {
        match event.pressed_key() {
            Some(KeyCode::Char('h')) => self.moved_left(),
            Some(KeyCode::Left) => self.moved_left(),
            Some(KeyCode::Char('l')) => self.moved_right(),
            Some(KeyCode::Right) => self.moved_right(),
            Some(KeyCode::Char('q')) => self.stopped(),
            _ => self,
        }
    }

    /// A running screen that shows the first tab.
    pub fn new() -> (app: App)
        ensures
            app == (App { state: AppState::Running, selected_tab: SelectedTab::Tab1 }),
    {
        App { state: AppState::Running, selected_tab: SelectedTab::Tab1 }
    }

    /// Whether the screen goes on.
    pub fn running(&self) -> (b: bool)
        ensures
            b == (self.state is Running),
    {
        self.state.is_running()
    }

    /// Selects the tab to the right, if there is one.
    pub fn next_tab(&mut self)
        ensures
            *final(self) == old(self).moved_right(),
    {
        self.selected_tab = self.selected_tab.next();
    }

    /// Selects the tab to the left, if there is one.
    pub fn previous_tab(&mut self)
        ensures
            *final(self) == old(self).moved_left(),
    {
        self.selected_tab = self.selected_tab.previous();
    }

    /// Quits the screen.
    pub fn quit(&mut self)
        ensures
            *final(self) == old(self).stopped(),
    {
        self.state = AppState::Quitting;
    }

    /// Takes an event: moves between the tabs or quits on the keys that say
    /// so, and leaves the screen as it is on every other event. The command
    /// is to terminate once the screen has been quit.
    pub fn handle_events(&mut self, event: Event) -> (command: Command)
        ensures
            *final(self) == old(self).after(event),
            command == if old(self).after(event).state is Quitting {
                Command::Terminate
            } else {
                Command::Continue
            },
    {
        match event.pressed() {
            Some(KeyCode::Char('h')) => {
                self.previous_tab();
            },
            Some(KeyCode::Left) => {
                self.previous_tab();
            },
            Some(KeyCode::Char('l')) => {
                self.next_tab();
            },
            Some(KeyCode::Right) => {
                self.next_tab();
            },
            Some(KeyCode::Char('q')) => {
                self.quit();
            },
            _ => {},
        }
        if self.running() {
            Command::Continue
        } else {
            Command::Terminate
        }
    }

    /// Where the parts of a frame on `area` go: a header of one row, cut
    /// into the tabs and a title of twenty columns, a footer of one row, and
    /// the body between them.
    pub fn areas(&self, area: Rect) -> (parts: Areas)
        ensures
            parts == areas_of(area),
    {
        let rows = vec![Constraint::Fixed(1), Constraint::Min(0), Constraint::Fixed(1)];
        let columns = vec![Constraint::Min(0), Constraint::Fixed(20)];
        proof {
            lemma_rows(area);
        }
        let (header, body, footer) = match partition(
            area,
            Direction::Vertical,
            &rows,
            0,
            Flex::Start,
        ) {
            Ok(rects) => (rects[0], rects[1], rects[2]),
            Err(_) => vstd::pervasive::unreached(),
        };
        proof {
            lemma_columns(header);
        }
        match partition(header, Direction::Horizontal, &columns, 0, Flex::Start) {
            Ok(rects) => Areas { tabs: rects[0], title: rects[1], body, footer },
            Err(_) => vstd::pervasive::unreached(),
        }
    }
}

impl Default for App {
    fn default() -> (app: App)
        ensures
            app == (App { state: AppState::Running, selected_tab: SelectedTab::Tab1 }),
    {
        App::new()
    }
}

impl Screen for App {
    /// Every state is one the screen can be in.
    open spec fn valid(self) -> bool {
        true
    }

    open spec fn react(self, event: Event) -> (Self, Command) {
        (
            self.after(event),
            if self.after(event).state is Quitting {
                Command::Terminate
            } else {
                Command::Continue
            },
        )
    }

    /// The screen has no sub-state that holds keys back.
    open spec fn modal(self) -> bool {
        false
    }

    fn transition(&mut self, event: Event) -> (command: Command) {
        self.handle_events(event)
    }
}

/// `q` quits from every state: the screen terminates, and a loop that
/// waits for an event leaves within that iteration.
pub proof fn law_quit_key_terminates(app: App, event: Event)
    requires
        event.pressed_key() == Some(KeyCode::Char('q')),
    ensures
        app.react(event).0.state is Quitting,
        app.react(event).1 is Terminate,
        (Loop { screen: app, phase: Phase::Poll }).after(Happened::Received(event)).1 is Exit,
        (Loop { screen: app, phase: Phase::Poll }).after(Happened::Received(event)).0.phase is Done,
{
}

/// An event that is no press of one of the five keys leaves the screen as
/// it is, and no event but a press of `q` stops a running screen.
pub proof fn law_other_events_change_nothing(app: App, event: Event)
    ensures
        event.pressed_key() is None ==> app.react(event).0 == app,
        app.state is Running && event.pressed_key() != Some(KeyCode::Char('q')) ==> app.react(
            event,
        ).1 is Continue,
        app.react(event).0.selected_tab.position() - app.selected_tab.position() <= 1,
        app.selected_tab.position() - app.react(event).0.selected_tab.position() <= 1,
{
}

} // verus!
