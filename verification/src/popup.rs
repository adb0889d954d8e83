//! A screen with a pop-up: a line of instructions above a content block,
//! and a centred pop-up that `p` opens and closes. `q` quits.

use vstd::prelude::*;
use crate::constraint::{Constraint, Direction, Flex};
use crate::error::Error;
use crate::event::{Command, Event, KeyCode};
use crate::layout::{axis_length, partition, partition_of, segment_lengths_of};
use crate::layout_laws::{lemma_lone_segment, lemma_partition_segments};
use crate::length_laws::lemma_requests_kept;
use crate::placement::available;
use crate::placement_laws::lemma_packed_from_start;
use crate::rect::Rect;
use crate::run_loop::{Happened, Loop, Phase};
use crate::screen::Screen;
use crate::sizing::requests;
use crate::sums::lemma_prefix_sums_written_out;

verus! {

/// The state of the screen: whether the pop-up is shown.
#[derive(Debug, Clone, Copy, PartialEq, Eq, Structural)]
pub struct App {
    pub show_popup: bool,
}

/// What a frame of the screen holds, and where.
#[derive(Debug, Clone, Copy, PartialEq, Eq)]
pub struct Scene {
    /// Where the line of instructions goes.
    pub instructions: Rect,
    /// The line of instructions.
    pub text: &'static str,
    /// Where the content block goes.
    pub content: Rect,
    /// Where the pop-up goes, if it is shown.
    pub popup: Option<Rect>,
}

/// The rows or columns that `percent` hundredths of `len` come to, rounded
/// to the nearest whole.
pub open spec fn percent_of(percent: int, len: int) -> int {
    (percent * len + 50) / 100
}

/// The rectangle that takes up `percent_x` hundredths of the width of
/// `area` and `percent_y` hundredths of its height, and lies in its middle:
/// as far from the left as from the right, as far from the top as from the
/// bottom, or one cell nearer to the left and to the top.
pub open spec fn centred(area: Rect, percent_x: int, percent_y: int) -> Rect {
    let width = axis_length(area, Direction::Horizontal);
    let height = axis_length(area, Direction::Vertical);
    let w = percent_of(percent_x, width);
    let h = percent_of(percent_y, height);
    Rect {
        x: (area.x + (width - w) / 2) as u16,
        y: (area.y + (height - h) / 2) as u16,
        width: w as u16,
        height: h as u16,
    }
}

/// The top fifth of `area`, rounded to the nearest row.
pub open spec fn instructions_area(area: Rect) -> Rect {
    Rect {
        x: area.x,
        y: area.y,
        width: area.width,
        height: percent_of(20, axis_length(area, Direction::Vertical)) as u16,
    }
}

/// What `area` holds below its top fifth.
pub open spec fn content_area(area: Rect) -> Rect {
    let height = axis_length(area, Direction::Vertical);
    Rect {
        x: area.x,
        y: (area.y + percent_of(20, height)) as u16,
        width: area.width,
        height: (height - percent_of(20, height)) as u16,
    }
}

impl App {
    /// The line that tells what `p` does next.
    pub open spec fn instruction(self) -> Seq<char> {
        if self.show_popup {
            "Press p to close the popup"@
        } else {
            "Press p to open the popup"@
        }
    }

    /// The screen with the pop-up closed.
    pub fn new() -> (app: App)
        ensures
            !app.show_popup,
    {
        App { show_popup: false }
    }

    /// Opens the pop-up, or closes it where it is open.
    pub fn toggle_popup(&mut self)
        ensures
            final(self).show_popup == !old(self).show_popup,
    {
        self.show_popup = !self.show_popup;
    }

    /// The line that tells what `p` does next.
    pub fn instruction_text(&self) -> (text: &'static str)
        ensures
            text@ == self.instruction(),
    {
        if self.show_popup {
            "Press p to close the popup"
        } else {
            "Press p to open the popup"
        }
    }

    /// Lays out a frame on `area`: the instructions in the top fifth, the
    /// content below them and, where it is shown, the pop-up in the middle,
    /// three fifths of the area wide and one fifth high.
    pub fn draw(&self, area: Rect) -> (scene: Scene)
        ensures
            scene.instructions == instructions_area(area),
            scene.content == content_area(area),
            scene.text@ == self.instruction(),
            scene.popup == if self.show_popup {
                Some(centred(area, 60, 20))
            } else {
                None
            },
    {
        let constraints = vec![Constraint::Percentage(20), Constraint::Percentage(80)];
        proof {
            lemma_fifths(area);
        }
        let (instructions, content) = match partition(
            area,
            Direction::Vertical,
            &constraints,
            0,
            Flex::Start,
        ) {
            Ok(rows) => (rows[0], rows[1]),
            Err(_) => vstd::pervasive::unreached(),
        };
        let popup = if self.show_popup {
            match popup_area(area, 60, 20) {
                Ok(rect) => Some(rect),
                Err(_) => vstd::pervasive::unreached(),
            }
        } else {
            None
        };
        Scene { instructions, text: self.instruction_text(), content, popup }
    }
}

impl Default for App {
    fn default() -> (app: App)
        ensures
            !app.show_popup,
    {
        App::new()
    }
}

impl Screen for App {
    /// Every state is one the screen can be in.
    open spec fn valid(self) -> bool {
        true
    }

    /// `q` terminates, `p` opens or closes the pop-up, and nothing else
    /// changes anything.
    open spec fn react(self, event: Event) -> (Self, Command) {
        match event.pressed_key() {
            Some(KeyCode::Char('q')) => (self, Command::Terminate),
            Some(KeyCode::Char('p')) => (App { show_popup: !self.show_popup }, Command::Continue),
            _ => (self, Command::Continue),
        }
    }

    /// The open pop-up is the one sub-state of the screen.
    open spec fn modal(self) -> bool {
        self.show_popup
    }

    fn transition(&mut self, event: Event) -> (command: Command) {
        match event.pressed() {
            Some(KeyCode::Char('q')) => Command::Terminate,
            Some(KeyCode::Char('p')) => {
                self.toggle_popup();
                Command::Continue
            },
            _ => Command::Continue,
        }
    }
}

/// A fifth and four fifths of a length, each rounded to the nearest whole,
/// come to the length.
proof fn lemma_fifths_add_up(len: int)
    requires
        0 <= len,
    ensures
        0 <= percent_of(20, len),
        0 <= percent_of(80, len),
        percent_of(20, len) + percent_of(80, len) == len,
{
}

/// The two rows of a frame are the top fifth of the area and what lies
/// below it.
proof fn lemma_fifths(area: Rect)
    ensures
        ({
            let rows = partition_of(
                area,
                Direction::Vertical,
                seq![Constraint::Percentage(20), Constraint::Percentage(80)],
                0,
                Flex::Start,
            );
            rows[0] == instructions_area(area) && rows[1] == content_area(area)
        }),
{
    let cs = seq![Constraint::Percentage(20), Constraint::Percentage(80)];
    let len = axis_length(area, Direction::Vertical);
    let asked = requests(cs, len);
    lemma_fifths_add_up(len);
    assert(available(len, 0, 2) == len);
    lemma_prefix_sums_written_out(asked);
    lemma_requests_kept(cs, len, len);
    let lens = segment_lengths_of(area, Direction::Vertical, cs, 0);
    lemma_partition_segments(area, Direction::Vertical, cs, 0, Flex::Start, 0);
    lemma_partition_segments(area, Direction::Vertical, cs, 0, Flex::Start, 1);
    lemma_packed_from_start(lens, len, 0, 0);
    lemma_packed_from_start(lens, len, 0, 1);
}

/// The rectangle in the middle of `area` that is `percent_x` hundredths of
/// it wide and `percent_y` hundredths of it high.
///
/// A percentage above one hundred is refused.
pub fn popup_area(area: Rect, percent_x: u16, percent_y: u16) -> (result: Result<Rect, Error>)
    ensures
        match result {
            Ok(rect) => percent_x <= 100 && percent_y <= 100 && rect == centred(
                area,
                percent_x as int,
                percent_y as int,
            ),
            Err(e) => (percent_x > 100 || percent_y > 100) && e == Error::InvalidConstraint,
        },
{
    if percent_x > 100 || percent_y > 100 {
        return Err(Error::InvalidConstraint);
    }
    let rows = vec![Constraint::Percentage(percent_y)];
    let columns = vec![Constraint::Percentage(percent_x)];
    proof {
        assert(rows@ =~= seq![Constraint::Percentage(percent_y)]);
        assert(columns@ =~= seq![Constraint::Percentage(percent_x)]);
        lemma_percent_within(percent_y as int, axis_length(area, Direction::Vertical));
        lemma_percent_within(percent_x as int, axis_length(area, Direction::Horizontal));
        lemma_lone_segment(
            area,
            Direction::Vertical,
            Constraint::Percentage(percent_y),
            0,
            Flex::Center,
        );
    }
    let band = match partition(area, Direction::Vertical, &rows, 0, Flex::Center) {
        Ok(rects) => rects[0],
        Err(_) => vstd::pervasive::unreached(),
    };
    proof {
        lemma_lone_segment(
            band,
            Direction::Horizontal,
            Constraint::Percentage(percent_x),
            0,
            Flex::Center,
        );
    }
    match partition(band, Direction::Horizontal, &columns, 0, Flex::Center) {
        Ok(rects) => Ok(rects[0]),
        Err(_) => vstd::pervasive::unreached(),
    }
}

/// No more than one hundred hundredths of a length is no more than the
/// length.
proof fn lemma_percent_within(percent: int, len: int)
    requires
        0 <= percent <= 100,
        0 <= len,
    ensures
        0 <= percent_of(percent, len) <= len,
{
    assert(0 <= percent * len <= 100 * len) by (nonlinear_arith)
        requires
            0 <= percent <= 100,
            0 <= len,
    ;
}

/// `q` quits from every state, with the pop-up open or closed: the screen
/// terminates, and a loop that waits for an event leaves within that
/// iteration.
pub proof fn law_quit_key_terminates(app: App, event: Event)
    requires
        event.pressed_key() == Some(KeyCode::Char('q')),
    ensures
        app.react(event).1 is Terminate,
        (Loop { screen: app, phase: Phase::Poll }).after(Happened::Received(event)).1 is Exit,
        (Loop { screen: app, phase: Phase::Poll }).after(Happened::Received(event)).0.phase is Done,
{
}

/// The pop-up is never dropped in passing: it opens and closes on a press
/// of `p` and on nothing else, and every event but the two keys leaves the
/// screen as it is.
pub proof fn law_popup_changes_on_p_only(app: App, event: Event)
    ensures
        event.pressed_key() == Some(KeyCode::Char('p')) <==> app.react(event).0.show_popup
            != app.show_popup,
        event.pressed_key() != Some(KeyCode::Char('q')) ==> app.react(event).1 is Continue,
{
}

} // verus!
