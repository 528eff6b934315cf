use overlay_select::geometry::{Point, SelectionRect};
use overlay_select::selection::{Action, Event, Phase, Session};

const FIRST: u64 = 11;
const SECOND: u64 = 22;
const FULL_HD: Option<(u32, u32)> = Some((1920, 1080));
const QUAD_HD: Option<(u32, u32)> = Some((2560, 1440));

fn moved(window: u64, x: i32, y: i32) -> Event {
    Event::PointerMoved { window, position: Point { x, y } }
}

fn rect(x: i32, y: i32, width: u32, height: u32) -> SelectionRect {
    SelectionRect { x, y, width, height }
}

/// A session with a drag begun at (x, y) on the first window.
fn dragging_from(x: i32, y: i32) -> Session {
    let mut s = Session::new();
    assert_eq!(s.step(moved(FIRST, x, y), FULL_HD), Action::Ignore);
    assert_eq!(s.step(Event::PointerDown { window: FIRST }, FULL_HD), Action::Ignore);
    assert_eq!(s.phase(), Phase::Dragging);
    s
}

#[test]
fn session_starts_idle() {
    let s = Session::new();
    assert_eq!(s.phase(), Phase::Idle);
    assert!(!s.pointer.dragging);
    assert!(!s.terminated);
}

#[test]
fn pointer_down_begins_a_drag_at_the_pointer() {
    let s = dragging_from(100, 100);
    assert_eq!(s.pointer.origin, Point { x: 100, y: 100 });
    assert_eq!(s.pointer.owner, FIRST);
    assert!(s.pointer.dragging);
}

#[test]
fn drag_on_the_first_of_two_monitors_gives_the_rectangle() {
    let mut s = dragging_from(100, 100);
    let live = s.step(moved(FIRST, 300, 50), FULL_HD);
    assert_eq!(live, Action::Redraw { window: FIRST, rect: rect(100, 50, 200, 50) });
    let done = s.step(Event::PointerUp { window: FIRST }, FULL_HD);
    assert_eq!(done, Action::Finalize { window: FIRST, rect: rect(100, 50, 200, 50) });
    assert_eq!(s.phase(), Phase::Terminated);
}

#[test]
fn drag_past_the_left_edge_is_clamped_to_it() {
    let mut s = dragging_from(100, 100);
    let live = s.step(moved(FIRST, -20, 40), FULL_HD);
    assert_eq!(s.pointer.position, Point { x: 0, y: 40 });
    assert_eq!(live, Action::Redraw { window: FIRST, rect: rect(0, 40, 100, 60) });
}

#[test]
fn drag_past_the_far_corner_is_clamped_to_it() {
    let mut s = dragging_from(100, 100);
    let live = s.step(moved(FIRST, 5000, 5000), FULL_HD);
    assert_eq!(s.pointer.position, Point { x: 1920, y: 1080 });
    assert_eq!(live, Action::Redraw { window: FIRST, rect: rect(100, 100, 1820, 980) });
}

#[test]
fn escape_in_the_middle_of_a_drag_cancels_without_recognition() {
    let mut s = dragging_from(100, 100);
    let _ = s.step(moved(FIRST, 300, 50), FULL_HD);
    assert_eq!(s.step(Event::EscapePressed, None), Action::Teardown);
    assert_eq!(s.phase(), Phase::Terminated);
    assert!(!s.pointer.dragging);
    assert_eq!(s.step(Event::PointerUp { window: FIRST }, FULL_HD), Action::Ignore);
}

#[test]
fn escape_while_idle_cancels() {
    let mut s = Session::new();
    assert_eq!(s.step(Event::EscapePressed, None), Action::Teardown);
    assert_eq!(s.phase(), Phase::Terminated);
}

#[test]
fn close_request_cancels() {
    let mut s = dragging_from(5, 5);
    assert_eq!(s.step(Event::CloseRequested, None), Action::Teardown);
    assert_eq!(s.phase(), Phase::Terminated);
}

#[test]
fn pointer_up_without_movement_gives_one_pixel() {
    let mut s = dragging_from(640, 480);
    let done = s.step(Event::PointerUp { window: FIRST }, FULL_HD);
    assert_eq!(done, Action::Finalize { window: FIRST, rect: rect(640, 480, 1, 1) });
}

#[test]
fn pointer_up_after_returning_to_the_origin_gives_one_pixel() {
    let mut s = dragging_from(640, 480);
    let _ = s.step(moved(FIRST, 700, 500), FULL_HD);
    let back = s.step(moved(FIRST, 640, 480), FULL_HD);
    assert_eq!(back, Action::Redraw { window: FIRST, rect: rect(640, 480, 1, 1) });
    let done = s.step(Event::PointerUp { window: FIRST }, FULL_HD);
    assert_eq!(done, Action::Finalize { window: FIRST, rect: rect(640, 480, 1, 1) });
}

#[test]
fn moves_on_another_window_are_ignored_during_a_drag() {
    let mut s = dragging_from(100, 100);
    let before = s;
    assert_eq!(s.step(moved(SECOND, 900, 900), QUAD_HD), Action::Ignore);
    assert_eq!(s, before);
}

#[test]
fn pointer_up_on_another_window_does_not_end_the_drag() {
    let mut s = dragging_from(100, 100);
    let before = s;
    assert_eq!(s.step(Event::PointerUp { window: SECOND }, QUAD_HD), Action::Ignore);
    assert_eq!(s, before);
    assert_eq!(s.phase(), Phase::Dragging);
}

#[test]
fn pointer_down_during_a_drag_changes_nothing() {
    let mut s = dragging_from(100, 100);
    let _ = s.step(moved(FIRST, 150, 150), FULL_HD);
    let before = s;
    assert_eq!(s.step(Event::PointerDown { window: SECOND }, QUAD_HD), Action::Ignore);
    assert_eq!(s.step(Event::PointerDown { window: FIRST }, FULL_HD), Action::Ignore);
    assert_eq!(s, before);
}

#[test]
fn pointer_up_while_idle_is_ignored() {
    let mut s = Session::new();
    assert_eq!(s.step(Event::PointerUp { window: FIRST }, FULL_HD), Action::Ignore);
    assert_eq!(s.phase(), Phase::Idle);
}

#[test]
fn pointer_down_on_an_unknown_window_is_ignored() {
    let mut s = Session::new();
    assert_eq!(s.step(Event::PointerDown { window: 99 }, None), Action::Ignore);
    assert_eq!(s.phase(), Phase::Idle);
}

#[test]
fn idle_moves_are_recorded_as_they_come() {
    let mut s = Session::new();
    assert_eq!(s.step(moved(SECOND, -5, 3000), QUAD_HD), Action::Ignore);
    assert_eq!(s.pointer.position, Point { x: -5, y: 3000 });
    assert_eq!(s.phase(), Phase::Idle);
}

#[test]
fn terminated_session_ignores_everything() {
    let mut s = dragging_from(1, 1);
    let _ = s.step(Event::PointerUp { window: FIRST }, FULL_HD);
    let over = s;
    let events = [
        moved(FIRST, 5, 5),
        Event::PointerDown { window: FIRST },
        Event::PointerUp { window: FIRST },
        Event::EscapePressed,
        Event::CloseRequested,
    ];
    for e in events.iter() {
        assert_eq!(s.step(*e, FULL_HD), Action::Ignore);
        assert_eq!(s, over);
    }
}

#[test]
fn event_window_is_the_window_it_arrived_on() {
    assert_eq!(moved(FIRST, 0, 0).window(), Some(FIRST));
    assert_eq!(Event::PointerDown { window: SECOND }.window(), Some(SECOND));
    assert_eq!(Event::PointerUp { window: SECOND }.window(), Some(SECOND));
    assert_eq!(Event::EscapePressed.window(), None);
    assert_eq!(Event::CloseRequested.window(), None);
}
