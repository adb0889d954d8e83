use tui_core::buttons::{Buttons, State};
use tui_core::error::Error;
use tui_core::event::{Command, Event, KeyCode, KeyEvent, KeyPhase, Modifiers, MouseEvent, MouseKind};
use tui_core::popup::{popup_area, App as PopupApp};
use tui_core::rect::Rect;
use tui_core::run_loop::{Action, Happened, Loop, Phase};
use tui_core::screen::Screen;
use tui_core::selected_tab::SelectedTab;
use tui_core::tabs::{App as TabsApp, AppState};

fn release(code: KeyCode) -> Event {
    Event::Key(KeyEvent { code, modifiers: Modifiers::none(), phase: KeyPhase::Release })
}

fn mouse(kind: MouseKind, column: u16) -> Event {
    Event::Mouse(MouseEvent { kind, column, row: 0, modifiers: Modifiers::none() })
}

#[test]
fn right_enter_enter_cycles_a_button() {
    let mut row = Buttons::new();
    assert_eq!(row.state(1), State::Normal);
    assert_eq!(row.handle_key_event(KeyCode::Right), Command::Continue);
    assert_eq!(row.state(1), State::Selected);
    assert_eq!(row.handle_key_event(KeyCode::Enter), Command::Continue);
    assert_eq!(row.state(1), State::Active);
    assert_eq!(row.handle_key_event(KeyCode::Enter), Command::Continue);
    assert_eq!(row.state(1), State::Selected);
    assert_eq!(row.states, [State::Normal, State::Selected, State::Normal]);
    assert_eq!(row.selected, 1);
}

#[test]
fn selection_stops_at_the_ends_of_the_row() {
    let mut row = Buttons::new();
    row.handle_key_event(KeyCode::Left);
    assert_eq!((row.selected, row.states), (0, [State::Selected, State::Normal, State::Normal]));
    row.handle_key_event(KeyCode::Char('l'));
    row.handle_key_event(KeyCode::Right);
    row.handle_key_event(KeyCode::Right);
    assert_eq!((row.selected, row.states), (2, [State::Normal, State::Normal, State::Selected]));
    row.handle_key_event(KeyCode::Char(' '));
    assert_eq!(row.states, [State::Normal, State::Normal, State::Active]);
    row.handle_key_event(KeyCode::Char('h'));
    assert_eq!((row.selected, row.states), (1, [State::Normal, State::Selected, State::Normal]));
    row.handle_key_event(KeyCode::Char('x'));
    assert_eq!((row.selected, row.states), (1, [State::Normal, State::Selected, State::Normal]));
}

#[test]
fn the_pointer_selects_and_presses() {
    let mut row = Buttons::new();
    assert_eq!(row.transition(mouse(MouseKind::Moved, 14)), Command::Continue);
    assert_eq!(row.selected, 0);
    row.transition(mouse(MouseKind::Moved, 15));
    assert_eq!((row.selected, row.states), (1, [State::Normal, State::Selected, State::Normal]));
    row.transition(mouse(MouseKind::Down, 15));
    assert_eq!(row.states, [State::Normal, State::Active, State::Normal]);
    row.transition(mouse(MouseKind::Moved, 20));
    assert_eq!(row.states, [State::Normal, State::Active, State::Normal]);
    row.transition(mouse(MouseKind::Moved, 30));
    assert_eq!((row.selected, row.states), (2, [State::Normal, State::Normal, State::Selected]));
    for kind in [MouseKind::Up, MouseKind::Drag, MouseKind::ScrollUp, MouseKind::ScrollDown] {
        row.transition(mouse(kind, 0));
        assert_eq!((row.selected, row.states), (2, [State::Normal, State::Normal, State::Selected]));
    }
}

#[test]
fn buttons_ignore_releases_and_quit_on_q() {
    let mut row = Buttons::new();
    assert_eq!(row.transition(release(KeyCode::Right)), Command::Continue);
    assert_eq!(row.transition(release(KeyCode::Char('q'))), Command::Continue);
    assert_eq!(row.selected, 0);
    assert_eq!(row.transition(Event::press(KeyCode::Char('q'))), Command::Terminate);
    assert_eq!(row, Buttons::new());
}

#[test]
fn tabs_move_left_and_right() {
    assert_eq!(SelectedTab::Tab1.previous(), SelectedTab::Tab1);
    assert_eq!(SelectedTab::Tab1.next(), SelectedTab::Tab2);
    assert_eq!(SelectedTab::Tab2.previous(), SelectedTab::Tab1);
    assert_eq!(SelectedTab::Tab3.next(), SelectedTab::Tab4);
    assert_eq!(SelectedTab::Tab4.next(), SelectedTab::Tab4);
    assert_eq!(SelectedTab::Tab4.previous(), SelectedTab::Tab3);
    assert_eq!(SelectedTab::from_repr(2), Some(SelectedTab::Tab3));
    assert_eq!(SelectedTab::from_repr(4), None);
    assert_eq!(SelectedTab::Tab3.index(), 2);
    assert_eq!(SelectedTab::default(), SelectedTab::Tab1);
    assert_eq!(SelectedTab::Tab2.title(), "Tab 2");
    assert_eq!(SelectedTab::all().len(), 4);
    for (i, tab) in SelectedTab::all().into_iter().enumerate() {
        assert_eq!(tab.index(), i);
        assert_eq!(SelectedTab::from_repr(i), Some(tab));
    }
}

#[test]
fn tabs_screen_takes_its_keys() {
    let mut app = TabsApp::default();
    assert!(app.running());
    assert_eq!(app.selected_tab, SelectedTab::Tab1);
    assert_eq!(app.handle_events(Event::press(KeyCode::Right)), Command::Continue);
    assert_eq!(app.handle_events(Event::press(KeyCode::Char('l'))), Command::Continue);
    assert_eq!(app.selected_tab, SelectedTab::Tab3);
    app.handle_events(Event::press(KeyCode::Left));
    app.handle_events(release(KeyCode::Left));
    app.handle_events(Event::press(KeyCode::Char('z')));
    app.handle_events(mouse(MouseKind::Down, 3));
    assert_eq!(app.selected_tab, SelectedTab::Tab2);
    app.handle_events(Event::press(KeyCode::Char('h')));
    app.previous_tab();
    assert_eq!(app.selected_tab, SelectedTab::Tab1);
    app.next_tab();
    assert_eq!(app.selected_tab, SelectedTab::Tab2);
    assert_eq!(app.handle_events(Event::press(KeyCode::Char('q'))), Command::Terminate);
    assert_eq!(app.state, AppState::Quitting);
    assert!(!app.running());
    assert_eq!(app.selected_tab, SelectedTab::Tab2);
    let mut other = TabsApp::new();
    other.quit();
    assert!(!other.state.is_running());
}

#[test]
fn tabs_areas() {
    let app = TabsApp::new();
    let parts = app.areas(Rect::new(0, 0, 80, 24));
    assert_eq!(parts.tabs, Rect::new(0, 0, 60, 1));
    assert_eq!(parts.title, Rect::new(60, 0, 20, 1));
    assert_eq!(parts.body, Rect::new(0, 1, 80, 22));
    assert_eq!(parts.footer, Rect::new(0, 23, 80, 1));
    let small = app.areas(Rect::new(0, 0, 10, 1));
    assert_eq!(small.tabs, Rect::new(0, 0, 0, 1));
    assert_eq!(small.title, Rect::new(0, 0, 10, 1));
    assert_eq!(small.body, Rect::new(0, 1, 10, 0));
    assert_eq!(small.footer, Rect::new(0, 1, 10, 0));
}

#[test]
fn popup_opens_closes_and_quits() {
    let mut app = PopupApp::default();
    assert!(!app.show_popup);
    assert_eq!(app.instruction_text(), "Press p to open the popup");
    assert_eq!(app.transition(Event::press(KeyCode::Char('p'))), Command::Continue);
    assert!(app.show_popup);
    assert_eq!(app.instruction_text(), "Press p to close the popup");
    assert_eq!(app.transition(release(KeyCode::Char('p'))), Command::Continue);
    assert_eq!(app.transition(Event::press(KeyCode::Enter)), Command::Continue);
    assert!(app.show_popup);
    assert_eq!(app.transition(Event::press(KeyCode::Char('q'))), Command::Terminate);
    assert!(app.show_popup);
    app.toggle_popup();
    assert!(!app.show_popup);
    assert_eq!(app.transition(Event::press(KeyCode::Char('q'))), Command::Terminate);
}

#[test]
fn popup_scene() {
    let mut app = PopupApp::new();
    let area = Rect::new(0, 0, 100, 24);
    let scene = app.draw(area);
    assert_eq!(scene.instructions, Rect::new(0, 0, 100, 5));
    assert_eq!(scene.content, Rect::new(0, 5, 100, 19));
    assert_eq!(scene.text, "Press p to open the popup");
    assert_eq!(scene.popup, None);
    app.toggle_popup();
    let scene = app.draw(area);
    assert_eq!(scene.text, "Press p to close the popup");
    assert_eq!(scene.popup, Some(Rect::new(20, 9, 60, 5)));
}

#[test]
fn popup_area_is_centred() {
    assert_eq!(popup_area(Rect::new(0, 0, 100, 24), 60, 20), Ok(Rect::new(20, 9, 60, 5)));
    assert_eq!(popup_area(Rect::new(2, 3, 11, 7), 50, 50), Ok(Rect::new(4, 4, 6, 4)));
    assert_eq!(popup_area(Rect::new(2, 3, 11, 7), 100, 0), Ok(Rect::new(2, 6, 11, 0)));
    assert_eq!(popup_area(Rect::new(0, 0, 10, 10), 101, 20), Err(Error::InvalidConstraint));
    assert_eq!(popup_area(Rect::new(0, 0, 10, 10), 20, 200), Err(Error::InvalidConstraint));
}

#[test]
fn the_loop_draws_polls_and_leaves_on_quit() {
    let mut l = Loop::new(TabsApp::new());
    assert_eq!(l.pending(), Action::Render);
    assert_eq!(l.step(Happened::Rendered), Action::Poll);
    assert_eq!(l.step(Happened::TimedOut), Action::Render);
    assert_eq!(l.step(Happened::TimedOut), Action::Render);
    assert_eq!(l.phase, Phase::Render);
    assert_eq!(l.step(Happened::Rendered), Action::Poll);
    assert_eq!(l.step(Happened::Rendered), Action::Poll);
    assert_eq!(l.step(Happened::Received(Event::press(KeyCode::Right))), Action::Render);
    assert_eq!(l.screen.selected_tab, SelectedTab::Tab2);
    assert_eq!(l.step(Happened::Received(Event::press(KeyCode::Right))), Action::Render);
    assert_eq!(l.screen.selected_tab, SelectedTab::Tab2);
    assert_eq!(l.step(Happened::Rendered), Action::Poll);
    assert_eq!(l.step(Happened::Received(Event::press(KeyCode::Char('q')))), Action::Exit);
    assert_eq!(l.phase, Phase::Done);
    assert_eq!(l.step(Happened::Rendered), Action::Exit);
    assert_eq!(l.step(Happened::Received(Event::press(KeyCode::Left))), Action::Exit);
    assert_eq!(l.screen.selected_tab, SelectedTab::Tab2);
}

#[test]
fn the_loop_fails_with_the_terminal() {
    let mut l = Loop::new(PopupApp::new());
    assert_eq!(l.step(Happened::RenderFailed), Action::Fail(Error::RenderSurfaceFailure));
    assert_eq!(l.phase, Phase::Failed(Error::RenderSurfaceFailure));
    assert_eq!(l.step(Happened::Rendered), Action::Fail(Error::RenderSurfaceFailure));
    let mut l = Loop::new(Buttons::new());
    l.step(Happened::Rendered);
    assert_eq!(l.step(Happened::InputFailed), Action::Fail(Error::InputSourceFailure));
    assert_eq!(l.pending(), Action::Fail(Error::InputSourceFailure));
}

#[test]
fn error_messages() {
    assert_eq!(Error::InvalidConstraint.message(), "invalid layout constraint");
    assert_eq!(Error::InputSourceFailure.message(), "the input source failed");
    assert_eq!(Error::RenderSurfaceFailure.message(), "the frame could not be written");
}

#[test]
fn pressed_key_of_an_event() {
    assert_eq!(Event::press(KeyCode::Tab).pressed(), Some(KeyCode::Tab));
    assert_eq!(release(KeyCode::Tab).pressed(), None);
    assert_eq!(mouse(MouseKind::Down, 1).pressed(), None);
    let repeat = Event::Key(KeyEvent { code: KeyCode::Up, modifiers: Modifiers::none(), phase: KeyPhase::Repeat });
    assert_eq!(repeat.pressed(), None);
}
