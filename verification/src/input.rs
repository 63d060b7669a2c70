//! Window-event handling of the interactive view: which events quit, which
//! drive the camera, and the pick-and-drag life cycle of scene objects.
//! The caller performs the returned command (ray casting, camera moves,
//! drawing) and reports a successful pick back with `drag_started`.

use vstd::prelude::*;

verus! {

/// Returned instead of a control flow when the application should exit.
#[derive(Debug)]
pub struct QuitEvent;

/// How the event loop should wait for the next event.
#[derive(Clone, Copy, Debug, PartialEq, Eq, Structural)]
pub enum Flow {
    Wait,
    Poll,
}

/// A window event, reduced to what the decisions depend on.
#[derive(Clone, Copy, Debug, PartialEq, Eq, Structural)]
pub enum WindowInput {
    CloseRequested,
    Resized { width: u32, height: u32 },
    CursorMoved,
    /// A key pressed with a known physical key code.
    KeyPressed { escape: bool },
    MouseWheel,
    LeftPressed,
    LeftReleased,
    RedrawRequested,
    /// Anything else (key releases, other buttons, focus, ...).
    Other,
}

/// Work the caller performs for an event.
#[derive(Clone, Copy, Debug, PartialEq, Eq, Structural)]
pub enum Command {
    Nothing,
    /// The cursor moved while object `id` is dragged: move it to the cursor
    /// on its depth plane.
    DragTo(u64),
    /// Fly the camera with the pressed key.
    CameraKey,
    /// The wheel turned while dragging: move the drag depth plane.
    DragDepth,
    /// The wheel turned: zoom the camera.
    CameraWheel,
    /// Left button pressed: pick the object under the cursor and, when one is
    /// hit and can be dragged, report it with `drag_started`.
    Pick,
    /// Left button released: drop object `id`.
    Release(u64),
    /// Redraw requested: draw a frame when `draw`, then request a redraw.
    Redraw { draw: bool },
}

/// The decision state of the view.
#[derive(Clone, Copy, Debug, PartialEq, Eq, Structural)]
pub struct InputState {
    /// The object being dragged, if any.
    pub dragging: Option<u64>,
    /// Set once the window has had a non-empty size; frames are drawn only then.
    pub surface_ready: bool,
    pub width: u32,
    pub height: u32,
}

/// The state after `event`.
pub open spec fn next_state(s: InputState, event: WindowInput, consumed: bool) -> InputState {
    match event {
        WindowInput::Resized { width, height } => InputState {
            width,
            height,
            surface_ready: s.surface_ready || (width > 0 && height > 0),
            ..s
        },
        WindowInput::LeftReleased => if consumed { s } else { InputState { dragging: None, ..s } },
        _ => s,
    }
}

/// What `event` asks of the caller: `None` to quit, otherwise the control
/// flow to return and the command to perform. Window closing, resizing and
/// cursor moves are handled even when the GUI consumed the event; every
/// other event the GUI consumed is ignored.
pub open spec fn reaction(s: InputState, event: WindowInput, consumed: bool) -> Option<(Flow, Command)> {
    match event {
        WindowInput::CloseRequested => None,
        WindowInput::Resized { .. } => Some((Flow::Poll, Command::Nothing)),
        WindowInput::CursorMoved => Some(
            (
                Flow::Poll,
                match s.dragging {
                    Some(id) => Command::DragTo(id),
                    None => Command::Nothing,
                },
            ),
        ),
        _ => if consumed {
            Some((Flow::Poll, Command::Nothing))
        } else {
            match event {
                WindowInput::KeyPressed { escape } => if escape {
                    None
                } else {
                    Some((Flow::Poll, Command::CameraKey))
                },
                WindowInput::MouseWheel => Some(
                    (
                        Flow::Poll,
                        if s.dragging is Some {
                            Command::DragDepth
                        } else {
                            Command::CameraWheel
                        },
                    ),
                ),
                WindowInput::LeftPressed => Some((Flow::Poll, Command::Pick)),
                WindowInput::LeftReleased => Some(
                    (
                        Flow::Poll,
                        match s.dragging {
                            Some(id) => Command::Release(id),
                            None => Command::Nothing,
                        },
                    ),
                ),
                WindowInput::RedrawRequested => Some(
                    (Flow::Wait, Command::Redraw { draw: s.surface_ready }),
                ),
                _ => Some((Flow::Poll, Command::Nothing)),
            }
        },
    }
}

impl InputState {
    /// The state of a new window of the given size: nothing dragged, no
    /// frame drawn until a resize reports a non-empty size.
    pub fn new(width: u32, height: u32) -> (s: Self)
        ensures
            s == (InputState { dragging: None, surface_ready: false, width, height }),
    {
        InputState { dragging: None, surface_ready: false, width, height }
    }

    /// Handles one window event; `egui_consumed` tells whether the GUI used it.
    pub fn on_event(&mut self, event: WindowInput, egui_consumed: bool) -> (r: Result<(Flow, Command), QuitEvent>)
        ensures
            *final(self) == next_state(*old(self), event, egui_consumed),
            r is Err <==> reaction(*old(self), event, egui_consumed) is None,
            r matches Ok(fc) ==> reaction(*old(self), event, egui_consumed) == Some(fc),
    {
        match event {
            WindowInput::CloseRequested => return Err(QuitEvent),
            WindowInput::Resized { width, height } => {
                self.width = width;
                self.height = height;
                if width > 0 && height > 0 {
                    self.surface_ready = true;
                }
                return Ok((Flow::Poll, Command::Nothing));
            },
            WindowInput::CursorMoved => {
                return match self.dragging {
                    Some(id) => Ok((Flow::Poll, Command::DragTo(id))),
                    None => Ok((Flow::Poll, Command::Nothing)),
                };
            },
            _ => {},
        }
        if egui_consumed {
            return Ok((Flow::Poll, Command::Nothing));
        }
        match event {
            WindowInput::KeyPressed { escape } => {
                if escape {
                    Err(QuitEvent)
                } else {
                    Ok((Flow::Poll, Command::CameraKey))
                }
            },
            WindowInput::MouseWheel => {
                if self.dragging.is_some() {
                    Ok((Flow::Poll, Command::DragDepth))
                } else {
                    Ok((Flow::Poll, Command::CameraWheel))
                }
            },
            WindowInput::LeftPressed => Ok((Flow::Poll, Command::Pick)),
            WindowInput::LeftReleased => {
                match self.dragging.take() {
                    Some(id) => Ok((Flow::Poll, Command::Release(id))),
                    None => Ok((Flow::Poll, Command::Nothing)),
                }
            },
            WindowInput::RedrawRequested => Ok((Flow::Wait, Command::Redraw { draw: self.surface_ready })),
            _ => Ok((Flow::Poll, Command::Nothing)),
        }
    }

    /// Records that a pick hit object `id` and its drag began.
    pub fn drag_started(&mut self, id: u64)
        ensures
            *final(self) == (InputState { dragging: Some(id), ..*old(self) }),
    {
        self.dragging = Some(id);
    }
}

/// Closing the window always quits, and so does Escape unless the GUI took it;
/// no other event quits.
pub proof fn lemma_quit_events(s: InputState, event: WindowInput, consumed: bool)
    ensures
        reaction(s, event, consumed) is None <==> (event == WindowInput::CloseRequested || (!consumed
            && event == (WindowInput::KeyPressed { escape: true }))),
{
}

/// A drag ends when the left button is released outside the GUI, and no event
/// starts one: only a reported pick (`drag_started`) does.
pub proof fn lemma_drag_life_cycle(s: InputState, event: WindowInput, consumed: bool)
    ensures
        event == WindowInput::LeftReleased && !consumed ==> next_state(s, event, consumed).dragging is None,
        next_state(s, event, consumed).dragging is Some ==> next_state(s, event, consumed).dragging
            == s.dragging,
        s.dragging is Some && event == WindowInput::LeftReleased && !consumed ==> reaction(s, event, consumed)
            == Some((Flow::Poll, Command::Release(s.dragging->0))),
{
}

/// The controls: with an object held the wheel moves its depth plane,
/// otherwise it zooms; other keys fly the camera; a left click picks.
pub proof fn lemma_controls(s: InputState)
    ensures
        reaction(s, WindowInput::MouseWheel, false) == Some(
            (Flow::Poll, if s.dragging is Some { Command::DragDepth } else { Command::CameraWheel }),
        ),
        reaction(s, WindowInput::KeyPressed { escape: false }, false) == Some((Flow::Poll, Command::CameraKey)),
        reaction(s, WindowInput::LeftPressed, false) == Some((Flow::Poll, Command::Pick)),
        next_state(s, WindowInput::LeftPressed, false) == s,
{
}

/// While an object is dragged, every cursor move makes it follow the cursor,
/// whether or not the GUI consumed the move; with nothing dragged a cursor
/// move asks for nothing. A cursor move never changes the state.
pub proof fn lemma_cursor_drags(s: InputState, consumed: bool)
    ensures
        forall|id: u64|
            s.dragging == Some(id) ==> reaction(s, WindowInput::CursorMoved, consumed) == Some(
                (Flow::Poll, Command::DragTo(id)),
            ),
        s.dragging is None ==> reaction(s, WindowInput::CursorMoved, consumed) == Some(
            (Flow::Poll, Command::Nothing),
        ),
        next_state(s, WindowInput::CursorMoved, consumed) == s,
{
}

/// Only a left-button release outside the GUI ends a drag: every other event,
/// and any event the GUI consumed, leaves the dragged object as it was.
pub proof fn lemma_drag_persists(s: InputState, event: WindowInput, consumed: bool)
    ensures
        (event != WindowInput::LeftReleased || consumed) ==> next_state(s, event, consumed).dragging
            == s.dragging,
        event == WindowInput::LeftReleased && !consumed ==> next_state(s, event, consumed).dragging is None,
{
}

/// A resize records the new size and makes the surface ready once the size is
/// non-empty, even when the GUI consumed it; no other event changes the size
/// or the readiness. A redraw outside the GUI waits and draws exactly when the
/// surface is ready; all other events poll.
pub proof fn lemma_window_size_and_redraw(s: InputState, event: WindowInput, consumed: bool)
    ensures
        forall|w: u32, h: u32|
            event == (WindowInput::Resized { width: w, height: h }) ==> {
                &&& next_state(s, event, consumed).width == w
                &&& next_state(s, event, consumed).height == h
                &&& next_state(s, event, consumed).surface_ready == (s.surface_ready || (w > 0 && h > 0))
                &&& next_state(s, event, consumed).dragging == s.dragging
                &&& reaction(s, event, consumed) == Some((Flow::Poll, Command::Nothing))
            },
        !(event is Resized) ==> {
            &&& next_state(s, event, consumed).width == s.width
            &&& next_state(s, event, consumed).height == s.height
            &&& next_state(s, event, consumed).surface_ready == s.surface_ready
        },
        event == WindowInput::RedrawRequested && !consumed ==> reaction(s, event, consumed) == Some(
            (Flow::Wait, Command::Redraw { draw: s.surface_ready }),
        ),
        forall|f: Flow, c: Command|
            reaction(s, event, consumed) == Some((f, c)) && f == Flow::Wait ==> event
                == WindowInput::RedrawRequested && !consumed,
        reaction(s, WindowInput::Other, consumed) == Some((Flow::Poll, Command::Nothing)),
        next_state(s, WindowInput::Other, consumed) == s,
{
}

/// Releasing the left button outside the GUI drops the dragged object by its
/// id, and is the only event that asks for a release.
pub proof fn lemma_release_only_on_left_release(s: InputState, event: WindowInput, consumed: bool)
    ensures
        forall|id: u64|
            reaction(s, event, consumed) == Some((Flow::Poll, Command::Release(id))) ==> {
                &&& event == WindowInput::LeftReleased
                &&& !consumed
                &&& s.dragging == Some(id)
            },
        forall|id: u64|
            reaction(s, event, consumed) == Some((Flow::Poll, Command::DragTo(id))) ==> {
                &&& event == WindowInput::CursorMoved
                &&& s.dragging == Some(id)
            },
{
}

/// An event the GUI consumed changes nothing but the window size and sends no
/// command other than following the cursor with a dragged object.
pub proof fn lemma_consumed_events_ignored(s: InputState, event: WindowInput)
    ensures
        next_state(s, event, true).dragging == s.dragging,
        (event is CloseRequested || event is Resized || event is CursorMoved) || reaction(s, event, true)
            == Some((Flow::Poll, Command::Nothing)),
{
}

/// Frames are drawn only once the window has had a non-empty size, and the
/// surface never becomes unready again.
pub proof fn lemma_surface_ready_monotone(s: InputState, event: WindowInput, consumed: bool)
    ensures
        s.surface_ready ==> next_state(s, event, consumed).surface_ready,
        reaction(s, event, consumed) == Some((Flow::Wait, Command::Redraw { draw: true })) ==> s.surface_ready,
{
}

} // verus!
