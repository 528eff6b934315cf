//! The set of overlay windows, one per display, and the session that runs
//! on them.
//!
//! The displays and their snapshots are the primary storage, indexed by
//! display. A window is found by its platform identifier through a hash
//! map from identifiers to display indices, which owns nothing and is kept
//! in step with the windows. Windows come into being one per
//! display, hidden, each with its first frame already rendered; a window is
//! shown only after that frame was presented; and all windows are closed
//! together.

use crate::compositor::{initial_frame, FrameBuffer};
use crate::error::OverlayError;
use crate::geometry::SelectionRect;
use crate::selection::{Action, Bounds, Event, Phase, Session};
use crate::snapshot::{Monitor, Snapshot};
use std::collections::HashMap;
use vstd::prelude::*;

verus! {

broadcast use vstd::std_specs::hash::group_hash_axioms;

/// The pointer icon of a window.
#[derive(Clone, Copy, Debug, PartialEq, Eq, Structural)]
pub enum CursorIcon {
    /// The platform's usual arrow.
    Arrow,
    /// A crosshair, for picking a region.
    Crosshair,
}

/// How the platform window of one display has to be made.
#[derive(Clone, Copy, Debug, PartialEq, Eq, Structural)]
pub struct WindowAttributes {
    pub x: i32,
    pub y: i32,
    pub width: u32,
    pub height: u32,
    pub borderless: bool,
    pub always_on_top: bool,
    pub skip_taskbar: bool,
    pub cursor: CursorIcon,
    pub visible: bool,
}

/// The attributes of the overlay window of `monitor`: it covers exactly
/// the display, has no border, stays on top, is kept out of the task bar,
/// shows a crosshair and starts hidden.
pub open spec fn attributes_for(monitor: Monitor) -> WindowAttributes {
    WindowAttributes {
        x: monitor.x,
        y: monitor.y,
        width: monitor.width,
        height: monitor.height,
        borderless: true,
        always_on_top: true,
        skip_taskbar: true,
        cursor: CursorIcon::Crosshair,
        visible: false,
    }
}

/// Says how the platform window of `monitor` has to be made.
pub fn window_attributes(monitor: &Monitor) -> (attributes: WindowAttributes)
    ensures
        attributes == attributes_for(*monitor),
{
    WindowAttributes {
        x: monitor.x,
        y: monitor.y,
        width: monitor.width,
        height: monitor.height,
        borderless: true,
        always_on_top: true,
        skip_taskbar: true,
        cursor: CursorIcon::Crosshair,
        visible: false,
    }
}

/// The overlay window of one display.
pub struct OverlayWindow {
    /// The identifier that the platform gave the window.
    pub id: u64,
    /// The display that the window covers.
    pub monitor: Monitor,
    /// The pixels that the window shows, or will show once presented.
    pub frame: FrameBuffer,
    /// The selection outline that is drawn on the frame, if any.
    pub outline: Option<SelectionRect>,
    /// Whether a frame was presented on the window at least once.
    pub presented: bool,
    /// Whether the window is shown.
    pub visible: bool,
}

/// The overlay: displays, snapshots, windows and the selection session.
pub struct Overlay {
    monitors: Vec<Monitor>,
    snapshots: Vec<Snapshot>,
    windows: Vec<OverlayWindow>,
    by_id: HashMap<u64, usize>,
    session: Session,
    brightness: u8,
}

impl Overlay {
    /// The displays, in the order they were listed.
    pub closed spec fn monitors(self) -> Seq<Monitor> {
        self.monitors@
    }

    /// The snapshot of each display.
    pub closed spec fn snapshots(self) -> Seq<Snapshot> {
        self.snapshots@
    }

    /// The windows that exist, the window of display `i` at index `i`.
    pub closed spec fn windows(self) -> Seq<OverlayWindow> {
        self.windows@
    }

    /// The lookup from platform identifiers to display indices.
    pub closed spec fn by_id(self) -> Map<u64, usize> {
        self.by_id@
    }

    /// The selection session.
    pub closed spec fn session(self) -> Session {
        self.session
    }

    /// The offset by which frames are brightened.
    pub closed spec fn brightness(self) -> u8 {
        self.brightness
    }

    /// What holds of every overlay: each display has a snapshot; windows
    /// exist for the first displays, at most one each, under distinct
    /// identifiers; the frame of each window shows the snapshot of its
    /// display, with the outline that the window records and no other;
    /// an outline is drawn only on the window that owns the drag, and it
    /// is the rectangle between the drag origin and the pointer as last
    /// seen; none is visible that was never presented; a drag belongs to a
    /// window that exists; and the lookup knows exactly the identifiers of
    /// the windows, each with the index of its window.
    pub open spec fn wf(self) -> bool {
        &&& self.snapshots().len() == self.monitors().len()
        &&& self.windows().len() <= self.monitors().len()
        &&& self.session().wf()
        &&& (self.session().pointer.dragging ==> self.has_window(self.session().pointer.owner))
        &&& forall|i: int|
            0 <= i < self.windows().len() ==> {
                let w = #[trigger] self.windows()[i];
                &&& w.monitor == self.monitors()[i]
                &&& w.frame.shows(self.snapshots()[i], self.brightness(), w.outline)
                &&& (w.outline matches Some(rect) ==> self.session().spec_phase() != Phase::Idle
                    && w.id == self.session().pointer.owner && rect
                    == self.session().live_rect())
                &&& (w.visible ==> w.presented)
            }
        &&& forall|i: int, j: int|
            0 <= i < j < self.windows().len() ==> (#[trigger] self.windows()[i]).id != (
            #[trigger] self.windows()[j]).id
        &&& forall|i: int|
            0 <= i < self.windows().len() ==> self.by_id().contains_key(
                (#[trigger] self.windows()[i]).id,
            )
        &&& forall|id: u64| #[trigger]
            self.by_id().contains_key(id) ==> self.by_id()[id] < self.windows().len()
                && self.windows()[self.by_id()[id] as int].id == id
    }

    #[verifier::type_invariant]
    spec fn inv(self) -> bool {
        self.wf()
    }

    /// Whether a window with the platform identifier `id` exists.
    pub open spec fn has_window(self, id: u64) -> bool {
        exists|i: int| 0 <= i < self.windows().len() && (#[trigger] self.windows()[i]).id == id
    }

    /// The index of the window with the platform identifier `id`.
    pub open spec fn position_of(self, id: u64) -> int {
        choose|i: int| 0 <= i < self.windows().len() && (#[trigger] self.windows()[i]).id == id
    }

    /// The size of the snapshot behind the window `window`, if there is
    /// such a window.
    pub open spec fn bounds_of(self, window: Option<u64>) -> Bounds {
        match window {
            Some(id) => if self.has_window(id) {
                let snapshot = self.snapshots()[self.position_of(id)];
                Some((snapshot.spec_width(), snapshot.spec_height()))
            } else {
                None
            },
            None => None,
        }
    }

    /// Whether every display has its window.
    pub open spec fn complete(self) -> bool {
        self.windows().len() == self.monitors().len()
    }

    /// Sets up an overlay over the given displays and their snapshots,
    /// with no window yet. Fails unless there is one snapshot per display.
    pub fn new(monitors: Vec<Monitor>, snapshots: Vec<Snapshot>, brightness: u8) -> (out: Result<
        Overlay,
        OverlayError,
    >)
        ensures
            out.is_ok() <==> monitors@.len() == snapshots@.len(),
            out matches Ok(overlay) ==> {
                &&& overlay.wf()
                &&& overlay.monitors() == monitors@
                &&& overlay.snapshots() == snapshots@
                &&& overlay.windows().len() == 0
                &&& overlay.session() == Session::initial()
                &&& overlay.brightness() == brightness
            },
            out matches Err(e) ==> e == OverlayError::StartupFailure,
    {
        if monitors.len() != snapshots.len() {
            return Err(OverlayError::StartupFailure);
        }
        Ok(
            Overlay {
                monitors,
                snapshots,
                windows: Vec::new(),
                by_id: HashMap::new(),
                session: Session::new(),
                brightness,
            },
        )
    }

    /// An overlay of no displays, to stand in while the windows of
    /// another are being changed: it has no display, no snapshot and no
    /// window, its session has not begun, and it brightens nothing.
    fn vacant() -> (out: Overlay)
        ensures
            out.wf(),
            out.monitors().len() == 0,
            out.snapshots().len() == 0,
            out.windows().len() == 0,
            out.session() == Session::initial(),
            out.brightness() == 0,
    {
        Overlay {
            monitors: Vec::new(),
            snapshots: Vec::new(),
            windows: Vec::new(),
            by_id: HashMap::new(),
            session: Session::new(),
            brightness: 0,
        }
    }

    /// The number of windows that exist.
    pub fn window_count(&self) -> (count: usize)
        ensures
            count == self.windows().len(),
            self.wf(),
    {
        proof {
            use_type_invariant(self);
        }
        self.windows.len()
    }

    /// The number of displays.
    pub fn monitor_count(&self) -> (count: usize)
        ensures
            count == self.monitors().len(),
            self.wf(),
    {
        proof {
            use_type_invariant(self);
        }
        self.monitors.len()
    }

    /// The session as it stands.
    pub fn current_session(&self) -> (session: Session)
        ensures
            session == self.session(),
            self.wf(),
    {
        proof {
            use_type_invariant(self);
        }
        self.session
    }

    /// The snapshot of display `index`; `None` past the last display.
    pub fn snapshot(&self, index: usize) -> (out: Option<&Snapshot>)
        ensures
            out.is_some() <==> index < self.snapshots().len(),
            out matches Some(s) ==> *s == self.snapshots()[index as int],
    {
        if index < self.snapshots.len() {
            Some(&self.snapshots[index])
        } else {
            None
        }
    }

    /// The window of display `index`; `None` where it does not exist.
    pub fn window(&self, index: usize) -> (out: Option<&OverlayWindow>)
        ensures
            out.is_some() <==> index < self.windows().len(),
            out matches Some(w) ==> *w == self.windows()[index as int],
    {
        if index < self.windows.len() {
            Some(&self.windows[index])
        } else {
            None
        }
    }

    /// Records the platform window `id` as the window of the next display
    /// that has none, and renders its first frame. The window starts
    /// hidden and unpresented. The attributes that come back say how the
    /// platform window has to look.
    ///
    /// Fails, and changes nothing, when the session is over, when every
    /// display has its window, or when `id` is already in use.
    pub fn create_window(&mut self, id: u64) -> (out: Result<WindowAttributes, OverlayError>)
        ensures
            final(self).wf(),
            final(self).monitors() == old(self).monitors(),
            final(self).snapshots() == old(self).snapshots(),
            final(self).session() == old(self).session(),
            final(self).brightness() == old(self).brightness(),
            out.is_ok() <==> !old(self).session().terminated && !old(self).complete() && !old(
                self,
            ).has_window(id),
            out matches Ok(attributes) ==> {
                let index = old(self).windows().len() as int;
                let made = final(self).windows()[index];
                &&& attributes == attributes_for(old(self).monitors()[index])
                &&& final(self).windows().len() == index + 1
                &&& final(self).windows().take(index) == old(self).windows()
                &&& made.id == id
                &&& made.monitor == old(self).monitors()[index]
                &&& made.frame.shows(old(self).snapshots()[index], old(self).brightness(), None)
                &&& made.outline.is_none()
                &&& !made.presented
                &&& !made.visible
            },
            out matches Err(e) ==> e == OverlayError::SurfaceFailure && final(self).windows() == old(
                self,
            ).windows(),
    {
        proof {
            use_type_invariant(&*self);
        }
        let index: usize = self.windows.len();
        if self.session.terminated || index >= self.monitors.len() || self.lookup(id).is_some() {
            return Err(OverlayError::SurfaceFailure);
        }
        let monitor: Monitor = self.monitors[index];
        let frame: FrameBuffer = initial_frame(&self.snapshots[index], self.brightness);
        let ghost before = self.windows@;
        let mut parts: Overlay = Overlay::vacant();
        core::mem::swap(self, &mut parts);
        let Overlay { monitors, snapshots, mut windows, mut by_id, session, brightness } = parts;
        windows.push(
            OverlayWindow { id, monitor, frame, outline: None, presented: false, visible: false },
        );
        let _replaced: Option<usize> = by_id.insert(id, index);
        proof {
            assert(windows@.take(index as int) == before);
            assert forall|i: int, j: int| 0 <= i < j < windows@.len() implies (
            #[trigger] windows@[i]).id != (#[trigger] windows@[j]).id by {
                if j == index {
                    assert(before[i].id != id);
                } else {
                    assert(before[i].id != before[j].id);
                }
            }
        }
        *self = Overlay { monitors, snapshots, windows, by_id, session, brightness };
        Ok(window_attributes(&monitor))
    }

    /// Notes that a frame was presented on the window `id`. Gives `false`,
    /// and changes nothing, where no such window exists.
    pub fn mark_presented(&mut self, id: u64) -> (known: bool)
        ensures
            final(self).wf(),
            final(self).monitors() == old(self).monitors(),
            final(self).snapshots() == old(self).snapshots(),
            final(self).session() == old(self).session(),
            final(self).brightness() == old(self).brightness(),
            known <==> old(self).has_window(id),
            known ==> final(self).windows() == old(self).windows().update(
                old(self).position_of(id),
                (OverlayWindow { presented: true, ..old(self).windows()[old(self).position_of(id)] }),
            ),
            !known ==> final(self).windows() == old(self).windows(),
    {
        proof {
            use_type_invariant(&*self);
        }
        match self.lookup(id) {
            Some(index) => {
                let mut parts: Overlay = Overlay::vacant();
                core::mem::swap(self, &mut parts);
                let Overlay { monitors, snapshots, mut windows, by_id, session, brightness } = parts;
                let ghost before = windows@;
                windows[index].presented = true;
                proof {
                    assert forall|i: int| 0 <= i < windows@.len() implies (#[trigger] windows@[i]).id
                        == before[i].id && windows@[i].frame == before[i].frame && windows@[i].outline
                        == before[i].outline && windows@[i].monitor == before[i].monitor by {}
                    if session.pointer.dragging {
                        let k = old(self).position_of(session.pointer.owner);
                        assert(windows@[k].id == session.pointer.owner);
                    }
                }
                *self = Overlay { monitors, snapshots, windows, by_id, session, brightness };
                true
            },
            None => false,
        }
    }

    /// Shows the window `id`. A window may be shown only after a frame was
    /// presented on it; for any other window, and for one that does not
    /// exist, this fails and changes nothing.
    pub fn show(&mut self, id: u64) -> (out: Result<(), OverlayError>)
        ensures
            final(self).wf(),
            final(self).monitors() == old(self).monitors(),
            final(self).snapshots() == old(self).snapshots(),
            final(self).session() == old(self).session(),
            final(self).brightness() == old(self).brightness(),
            out.is_ok() <==> old(self).has_window(id) && old(self).windows()[old(self).position_of(
                id,
            )].presented,
            out.is_ok() ==> final(self).windows() == old(self).windows().update(
                old(self).position_of(id),
                (OverlayWindow { visible: true, ..old(self).windows()[old(self).position_of(id)] }),
            ),
            out matches Err(e) ==> e == OverlayError::SurfaceFailure && final(self).windows() == old(
                self,
            ).windows(),
    {
        proof {
            use_type_invariant(&*self);
        }
        match self.lookup(id) {
            Some(index) => {
                if self.windows[index].presented {
                    let mut parts: Overlay = Overlay::vacant();
                    core::mem::swap(self, &mut parts);
                    let Overlay { monitors, snapshots, mut windows, by_id, session, brightness } = parts;
                    let ghost before = windows@;
                    windows[index].visible = true;
                    proof {
                        assert forall|i: int| 0 <= i < windows@.len() implies (#[trigger] windows@[i]).id
                            == before[i].id && windows@[i].frame == before[i].frame && windows@[i].outline
                            == before[i].outline && windows@[i].monitor == before[i].monitor by {}
                        if session.pointer.dragging {
                            let k = old(self).position_of(session.pointer.owner);
                            assert(windows@[k].id == session.pointer.owner);
                        }
                    }
                    *self = Overlay { monitors, snapshots, windows, by_id, session, brightness };
                    Ok(())
                } else {
                    Err(OverlayError::SurfaceFailure)
                }
            },
            None => Err(OverlayError::SurfaceFailure),
        }
    }

    /// Whether `after` is `before` with every window closed and the
    /// session ended: no window is left, and nothing else has changed.
    pub open spec fn is_teardown_of(after: Overlay, before: Overlay) -> bool {
        &&& after.windows().len() == 0
        &&& after.session() == before.session().ended()
        &&& after.monitors() == before.monitors()
        &&& after.snapshots() == before.snapshots()
        &&& after.brightness() == before.brightness()
    }

    /// Closes every window, whichever of them began the drag, and ends
    /// the session. On an overlay whose windows are closed already this
    /// changes nothing.
    pub fn teardown(&mut self)
        ensures
            final(self).wf(),
            Overlay::is_teardown_of(*final(self), *old(self)),
    {
        proof {
            use_type_invariant(&*self);
        }
        let mut parts: Overlay = Overlay::vacant();
        core::mem::swap(self, &mut parts);
        let Overlay { monitors, snapshots, windows: _, by_id: _, mut session, brightness } = parts;
        session.pointer.dragging = false;
        session.terminated = true;
        *self = Overlay {
            monitors,
            snapshots,
            windows: Vec::new(),
            by_id: HashMap::new(),
            session,
            brightness,
        };
    }

    /// Whether `after` is `before` with the drag frame of `rect` on the
    /// window `window`, and everything else as it was.
    pub open spec fn is_redraw_of(after: Overlay, before: Overlay, window: u64, rect: SelectionRect) -> bool {
        let index = before.position_of(window);
        &&& before.has_window(window)
        &&& after.windows().len() == before.windows().len()
        &&& forall|j: int|
            0 <= j < after.windows().len() && j != index ==> #[trigger] after.windows()[j]
                == before.windows()[j]
        &&& after.windows()[index].id == window
        &&& after.windows()[index].monitor == before.windows()[index].monitor
        &&& after.windows()[index].presented == before.windows()[index].presented
        &&& after.windows()[index].visible == before.windows()[index].visible
        &&& after.windows()[index].outline == Some(rect)
        &&& after.windows()[index].frame.shows(
            before.snapshots()[index],
            before.brightness(),
            Some(rect),
        )
    }

    /// Hands one input event to the session and carries out what it asks
    /// of the windows: on a redraw the frame of the window that owns the
    /// drag, and of no other, is brought to show the new rectangle; on a
    /// cancellation every window is closed. Only the cells on the old and
    /// the new outline are rendered anew, and the frame ends as a full
    /// rendering would leave it. The action that comes back tells the
    /// caller what is left to do on the platform's side.
    pub fn dispatch(&mut self, event: Event) -> (action: Action)
        ensures
            final(self).wf(),
            final(self).monitors() == old(self).monitors(),
            final(self).snapshots() == old(self).snapshots(),
            final(self).brightness() == old(self).brightness(),
            final(self).session() == old(self).session().after(
                event,
                old(self).bounds_of(event.spec_window()),
            ),
            action == old(self).session().action(event, old(self).bounds_of(event.spec_window())),
            match action {
                Action::Redraw { window, rect } => Overlay::is_redraw_of(
                    *final(self),
                    *old(self),
                    window,
                    rect,
                ),
                Action::Teardown => final(self).windows().len() == 0,
                _ => final(self).windows() == old(self).windows(),
            },
    {
        proof {
            use_type_invariant(&*self);
        }
        let found: Option<usize> = match event.window() {
            Some(id) => self.lookup(id),
            None => None,
        };
        let bounds: Bounds = match found {
            Some(index) => Some((self.snapshots[index].width(), self.snapshots[index].height())),
            None => None,
        };
        let mut parts: Overlay = Overlay::vacant();
        core::mem::swap(self, &mut parts);
        let Overlay { monitors, snapshots, mut windows, mut by_id, mut session, brightness } =
            parts;
        let ghost before = windows@;
        let action: Action = session.step(event, bounds);
        match action {
            Action::Redraw { window, rect } => {
                match found {
                    Some(index) => {
                        let previous: Option<SelectionRect> = windows[index].outline;
                        windows[index].frame.repaint(&snapshots[index], brightness, previous, rect);
                        windows[index].outline = Some(rect);
                    },
                    None => {},
                }
            },
            Action::Teardown => {
                windows = Vec::new();
                by_id = HashMap::new();
            },
            _ => {},
        }
        proof {
            assert forall|i: int| 0 <= i < windows@.len() implies (#[trigger] windows@[i]).id
                == before[i].id && windows@[i].monitor == before[i].monitor by {}
            if session.pointer.dragging {
                let k = old(self).position_of(session.pointer.owner);
                assert(windows@[k].id == session.pointer.owner);
            }
        }
        *self = Overlay { monitors, snapshots, windows, by_id, session, brightness };
        action
    }

    /// Cuts the selection out of the snapshot behind the window `window`.
    /// What of `rect` reaches past the snapshot's edges is cut off. Gives
    /// `None` where there is no such window or `rect` covers no pixel of
    /// its snapshot.
    pub fn finalize(&self, window: u64, rect: SelectionRect) -> (out: Option<Snapshot>)
        ensures
            out.is_some() <==> self.has_window(window) && rect.overlaps(
                self.snapshots()[self.position_of(window)].spec_width() as int,
                self.snapshots()[self.position_of(window)].spec_height() as int,
            ),
            out matches Some(c) ==> c.is_crop_of(self.snapshots()[self.position_of(window)], rect),
    {
        proof {
            use_type_invariant(self);
        }
        match self.lookup(window) {
            Some(index) => self.snapshots[index].crop(rect),
            None => None,
        }
    }

    /// Finds the window with the platform identifier `id` in the hash map
    /// and gives the index of its display.
    pub fn lookup(&self, id: u64) -> (out: Option<usize>)
        ensures
            self.wf(),
            out.is_some() <==> self.has_window(id),
            out matches Some(i) ==> i < self.windows().len() && self.windows()[i as int].id == id
                && i == self.position_of(id),
    {
        proof {
            use_type_invariant(self);
        }
        match self.by_id.get(&id) {
            Some(index) => {
                proof {
                    let chosen = self.position_of(id);
                    assert(self.windows()[*index as int].id == id);
                    if chosen < *index {
                        assert(self.windows()[chosen].id != self.windows()[*index as int].id);
                    }
                    if *index < chosen {
                        assert(self.windows()[*index as int].id != self.windows()[chosen].id);
                    }
                }
                Some(*index)
            },
            None => {
                assert forall|i: int| 0 <= i < self.windows().len() implies (
                #[trigger] self.windows()[i]).id != id by {
                    assert(self.by_id().contains_key(self.windows()[i].id));
                }
                None
            },
        }
    }
}

/// Closing the windows twice is closing them once: after the second
/// teardown no window is left, as after the first, and the session, the
/// displays and the snapshots are what the first left behind.
pub proof fn lemma_teardown_is_idempotent(before: Overlay, once: Overlay, twice: Overlay)
    requires
        Overlay::is_teardown_of(once, before),
        Overlay::is_teardown_of(twice, once),
    ensures
        twice.windows().len() == 0,
        twice.windows() == once.windows(),
        twice.session() == once.session(),
        twice.monitors() == once.monitors(),
        twice.snapshots() == once.snapshots(),
        twice.brightness() == once.brightness(),
        Overlay::is_teardown_of(twice, before),
{
    assert(twice.windows() =~= once.windows());
}

/// Once every window is closed no event brings one back or has a frame
/// rendered: the session is over, so every event is ignored.
pub proof fn lemma_nothing_after_teardown(before: Overlay, after: Overlay, event: Event)
    requires
        Overlay::is_teardown_of(after, before),
    ensures
        after.session().terminated,
        after.session().action(event, after.bounds_of(event.spec_window())) == Action::Ignore,
        after.session().after(event, after.bounds_of(event.spec_window())) == after.session(),
{
}

} // verus!
