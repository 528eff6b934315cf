//! The pointer-driven selection state machine.
//!
//! A session starts idle, enters a drag on pointer-down, follows the pointer
//! on the window that owns the drag, and ends on pointer-up with the final
//! rectangle. Escape or a close request ends it from any state. A session
//! that has ended stays ended: selection is single-shot.

use crate::geometry::{keep_mouse_in_window, kept_in_window, normalize, normalized, Point, SelectionRect};
use vstd::prelude::*;

verus! {

/// What the machine is doing.
#[derive(Clone, Copy, Debug, PartialEq, Eq, Structural)]
pub enum Phase {
    /// No drag is under way.
    Idle,
    /// The pointer is held down and a rectangle is being dragged out.
    Dragging,
    /// The session is over; every further event is ignored.
    Terminated,
}

/// The pointer as the session last saw it.
#[derive(Clone, Copy, Debug, PartialEq, Eq, Structural)]
pub struct PointerState {
    /// Where the pointer is.
    pub position: Point,
    /// Where the drag began.
    pub origin: Point,
    /// Whether a drag is under way.
    pub dragging: bool,
    /// The window on which the drag began.
    pub owner: u64,
}

/// The state of one selection session.
#[derive(Clone, Copy, Debug, PartialEq, Eq, Structural)]
pub struct Session {
    pub pointer: PointerState,
    pub terminated: bool,
}

/// An input event, with the window it arrived on.
#[derive(Clone, Copy, Debug, PartialEq, Eq, Structural)]
pub enum Event {
    /// The pointer moved to `position` on `window`.
    PointerMoved { window: u64, position: Point },
    /// The selecting button went down on `window`.
    PointerDown { window: u64 },
    /// The selecting button came up on `window`.
    PointerUp { window: u64 },
    /// The Escape key was pressed.
    EscapePressed,
    /// A window was asked to close.
    CloseRequested,
}

/// What the caller has to do after an event.
#[derive(Clone, Copy, Debug, PartialEq, Eq, Structural)]
pub enum Action {
    /// Nothing.
    Ignore,
    /// Show the drag frame with `rect` on `window`.
    Redraw { window: u64, rect: SelectionRect },
    /// The selection is made: recognise what lies under `rect` on
    /// `window`, then close every window.
    Finalize { window: u64, rect: SelectionRect },
    /// The session was cancelled: close every window, recognise nothing.
    Teardown,
}

/// The size of a window's snapshot, as far as the window is known.
pub type Bounds = Option<(u32, u32)>;

impl Event {
    /// The window an event arrived on, for the events that have one.
    pub open spec fn spec_window(self) -> Option<u64> {
        match self {
            Event::PointerMoved { window, .. } => Some(window),
            Event::PointerDown { window } => Some(window),
            Event::PointerUp { window } => Some(window),
            Event::EscapePressed => None,
            Event::CloseRequested => None,
        }
    }

    /// The window an event arrived on, for the events that have one.
    pub fn window(&self) -> (out: Option<u64>)
        ensures
            out == self.spec_window(),
    {
        match self {
            Event::PointerMoved { window, .. } => Some(*window),
            Event::PointerDown { window } => Some(*window),
            Event::PointerUp { window } => Some(*window),
            Event::EscapePressed => None,
            Event::CloseRequested => None,
        }
    }
}

impl Session {
    /// The state a session starts in: idle, with the pointer at the origin.
    pub open spec fn initial() -> Session {
        Session {
            pointer: PointerState {
                position: Point { x: 0, y: 0 },
                origin: Point { x: 0, y: 0 },
                dragging: false,
                owner: 0,
            },
            terminated: false,
        }
    }

    /// A session that is over holds no drag.
    pub open spec fn wf(self) -> bool {
        self.terminated ==> !self.pointer.dragging
    }

    /// The phase the session is in.
    pub open spec fn spec_phase(self) -> Phase {
        if self.terminated {
            Phase::Terminated
        } else if self.pointer.dragging {
            Phase::Dragging
        } else {
            Phase::Idle
        }
    }

    /// The rectangle that the drag spans at the moment.
    pub open spec fn live_rect(self) -> SelectionRect {
        normalized(self.pointer.origin, self.pointer.position)
    }

    /// The session as it is once it has ended.
    pub open spec fn ended(self) -> Session {
        Session { pointer: PointerState { dragging: false, ..self.pointer }, terminated: true }
    }

    /// The session after `event`. `bounds` is the size of the snapshot
    /// shown on the window the event arrived on, `None` for a window that
    /// does not belong to the overlay.
    pub open spec fn after(self, event: Event, bounds: Bounds) -> Session {
        match (self.spec_phase(), event) {
            (Phase::Terminated, _) => self,
            (_, Event::EscapePressed) => self.ended(),
            (_, Event::CloseRequested) => self.ended(),
            (Phase::Idle, Event::PointerMoved { window, position }) => Session {
                pointer: PointerState { position, ..self.pointer },
                ..self
            },
            (Phase::Idle, Event::PointerDown { window }) => if bounds.is_some() {
                Session {
                    pointer: PointerState {
                        origin: self.pointer.position,
                        dragging: true,
                        owner: window,
                        ..self.pointer
                    },
                    ..self
                }
            } else {
                self
            },
            (Phase::Idle, Event::PointerUp { window }) => self,
            (Phase::Dragging, Event::PointerMoved { window, position }) => match bounds {
                Some((width, height)) => if window == self.pointer.owner {
                    Session {
                        pointer: PointerState {
                            position: kept_in_window(position, width, height),
                            ..self.pointer
                        },
                        ..self
                    }
                } else {
                    self
                },
                None => self,
            },
            (Phase::Dragging, Event::PointerDown { window }) => self,
            (Phase::Dragging, Event::PointerUp { window }) => if window == self.pointer.owner {
                self.ended()
            } else {
                self
            },
        }
    }

    /// What the caller has to do after `event`, given the same `bounds`.
    pub open spec fn action(self, event: Event, bounds: Bounds) -> Action {
        match (self.spec_phase(), event) {
            (Phase::Terminated, _) => Action::Ignore,
            (_, Event::EscapePressed) => Action::Teardown,
            (_, Event::CloseRequested) => Action::Teardown,
            (Phase::Dragging, Event::PointerMoved { window, position }) => if window
                == self.pointer.owner && bounds.is_some() {
                Action::Redraw { window, rect: self.after(event, bounds).live_rect() }
            } else {
                Action::Ignore
            },
            (Phase::Dragging, Event::PointerUp { window }) => if window == self.pointer.owner {
                Action::Finalize { window, rect: self.live_rect() }
            } else {
                Action::Ignore
            },
            _ => Action::Ignore,
        }
    }

    /// Starts a session: idle, no drag, the pointer at the origin.
    pub fn new() -> (session: Session)
        ensures
            session == Session::initial(),
            session.wf(),
            session.spec_phase() == Phase::Idle,
    {
        Session {
            pointer: PointerState {
                position: Point { x: 0, y: 0 },
                origin: Point { x: 0, y: 0 },
                dragging: false,
                owner: 0,
            },
            terminated: false,
        }
    }

    /// The phase the session is in.
    pub fn phase(&self) -> (phase: Phase)
        ensures
            phase == self.spec_phase(),
    {
        if self.terminated {
            Phase::Terminated
        } else if self.pointer.dragging {
            Phase::Dragging
        } else {
            Phase::Idle
        }
    }

    /// Ends the session and drops any drag.
    fn end(&mut self)
        ensures
            *final(self) == old(self).ended(),
    {
        self.pointer.dragging = false;
        self.terminated = true;
    }

    /// Feeds one event to the machine and says what to do about it.
    ///
    /// `bounds` is the size of the snapshot shown on the window the event
    /// arrived on; `None` where the window does not belong to the overlay
    /// or the event has no window.
    pub fn step(&mut self, event: Event, bounds: Bounds) -> (action: Action)
        ensures
            *final(self) == old(self).after(event, bounds),
            action == old(self).action(event, bounds),
            old(self).wf() ==> final(self).wf(),
    {
        if self.terminated {
            return Action::Ignore;
        }
        match event {
            Event::EscapePressed => {
                self.end();
                Action::Teardown
            },
            Event::CloseRequested => {
                self.end();
                Action::Teardown
            },
            Event::PointerMoved { window, position } => {
                if !self.pointer.dragging {
                    self.pointer.position = position;
                    Action::Ignore
                } else if window == self.pointer.owner {
                    match bounds {
                        Some((width, height)) => {
                            self.pointer.position = keep_mouse_in_window(position, width, height);
                            Action::Redraw {
                                window,
                                rect: normalize(self.pointer.origin, self.pointer.position),
                            }
                        },
                        None => Action::Ignore,
                    }
                } else {
                    Action::Ignore
                }
            },
            Event::PointerDown { window } => {
                if !self.pointer.dragging && bounds.is_some() {
                    self.pointer.origin = self.pointer.position;
                    self.pointer.owner = window;
                    self.pointer.dragging = true;
                }
                Action::Ignore
            },
            Event::PointerUp { window } => {
                if self.pointer.dragging && window == self.pointer.owner {
                    let rect: SelectionRect = normalize(self.pointer.origin, self.pointer.position);
                    self.end();
                    Action::Finalize { window, rect }
                } else {
                    Action::Ignore
                }
            },
        }
    }
}

/// A session that has ended ignores every event and stays as it is.
pub proof fn lemma_terminated_is_final(session: Session, event: Event, bounds: Bounds)
    requires
        session.terminated,
    ensures
        session.after(event, bounds) == session,
        session.action(event, bounds) == Action::Ignore,
{
}

/// Escape and a close request end a running session whatever it was
/// doing: the drag is dropped, every window is to be closed and nothing
/// is handed on for recognition.
pub proof fn lemma_cancel_is_unconditional(session: Session, event: Event, bounds: Bounds)
    requires
        !session.terminated,
        event == Event::EscapePressed || event == Event::CloseRequested,
    ensures
        session.after(event, bounds).spec_phase() == Phase::Terminated,
        !session.after(event, bounds).pointer.dragging,
        session.action(event, bounds) == Action::Teardown,
{
}

/// No step breaks the rule that an ended session holds no drag, and a
/// step leaves the phase where it was or moves it forward: from idle to
/// dragging, and from either to terminated.
pub proof fn lemma_step_moves_forward(session: Session, event: Event, bounds: Bounds)
    requires
        session.wf(),
    ensures
        session.after(event, bounds).wf(),
        session.spec_phase() == Phase::Terminated ==> session.after(event, bounds).spec_phase()
            == Phase::Terminated,
        session.spec_phase() == Phase::Dragging ==> session.after(event, bounds).spec_phase()
            != Phase::Idle,
{
}

/// While a drag is under way it belongs to one window: no event hands it
/// to another window or moves its origin.
pub proof fn lemma_drag_has_one_owner(session: Session, event: Event, bounds: Bounds)
    requires
        session.spec_phase() == Phase::Dragging,
        session.after(event, bounds).spec_phase() == Phase::Dragging,
    ensures
        session.after(event, bounds).pointer.owner == session.pointer.owner,
        session.after(event, bounds).pointer.origin == session.pointer.origin,
{
}

/// A redraw is asked for only during a drag, only for a move on the
/// window that owns the drag, and only for that window. Its rectangle
/// spans the drag origin and the new position clamped onto the window.
pub proof fn lemma_redraw_only_on_owner(session: Session, event: Event, bounds: Bounds)
    requires
        session.action(event, bounds) is Redraw,
    ensures
        session.spec_phase() == Phase::Dragging,
        event matches Event::PointerMoved { window, position } && bounds matches Some(
            (width, height),
        ) && window == session.pointer.owner && session.action(event, bounds) == (Action::Redraw {
            window: session.pointer.owner,
            rect: normalized(session.pointer.origin, kept_in_window(position, width, height)),
        }) && 0 <= session.after(event, bounds).pointer.position.x <= width && 0 <= session.after(
            event,
            bounds,
        ).pointer.position.y <= height,
{
}

/// A selection is finalized only by a pointer-up on the window that owns
/// the drag. Its rectangle spans the drag origin and the last position,
/// has no side shorter than one pixel, and the session is over.
pub proof fn lemma_finalize_ends_session(session: Session, event: Event, bounds: Bounds)
    requires
        session.action(event, bounds) is Finalize,
    ensures
        session.spec_phase() == Phase::Dragging,
        event == (Event::PointerUp { window: session.pointer.owner }),
        session.action(event, bounds) == (Action::Finalize {
            window: session.pointer.owner,
            rect: normalized(session.pointer.origin, session.pointer.position),
        }),
        normalized(session.pointer.origin, session.pointer.position).wf(),
        session.after(event, bounds).spec_phase() == Phase::Terminated,
{
}

} // verus!
