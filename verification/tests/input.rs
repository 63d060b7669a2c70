use interact::input::{Command, Flow, InputState, WindowInput};

fn ready() -> InputState {
    let mut s = InputState::new(800, 533);
    assert!(s.on_event(WindowInput::Resized { width: 800, height: 533 }, false).is_ok());
    s
}

#[test]
fn new_state_is_idle() {
    let s = InputState::new(800, 533);
    assert_eq!(s.dragging, None);
    assert!(!s.surface_ready);
    assert_eq!((s.width, s.height), (800, 533));
}

#[test]
fn close_quits_even_when_consumed() {
    let mut s = ready();
    assert!(s.on_event(WindowInput::CloseRequested, false).is_err());
    assert!(s.on_event(WindowInput::CloseRequested, true).is_err());
}

#[test]
fn escape_quits_unless_gui_took_it() {
    let mut s = ready();
    assert!(s.on_event(WindowInput::KeyPressed { escape: true }, false).is_err());
    assert_eq!(
        s.on_event(WindowInput::KeyPressed { escape: true }, true).unwrap(),
        (Flow::Poll, Command::Nothing)
    );
    assert_eq!(
        s.on_event(WindowInput::KeyPressed { escape: false }, false).unwrap(),
        (Flow::Poll, Command::CameraKey)
    );
}

#[test]
fn resize_to_zero_does_not_make_surface_ready() {
    let mut s = InputState::new(0, 0);
    assert_eq!(s.on_event(WindowInput::Resized { width: 0, height: 10 }, false).unwrap(), (Flow::Poll, Command::Nothing));
    assert!(!s.surface_ready);
    assert_eq!((s.width, s.height), (0, 10));
    assert_eq!(
        s.on_event(WindowInput::RedrawRequested, false).unwrap(),
        (Flow::Wait, Command::Redraw { draw: false })
    );
    s.on_event(WindowInput::Resized { width: 5, height: 10 }, true).unwrap();
    assert!(s.surface_ready);
    s.on_event(WindowInput::Resized { width: 0, height: 0 }, false).unwrap();
    assert!(s.surface_ready);
    assert_eq!(
        s.on_event(WindowInput::RedrawRequested, false).unwrap(),
        (Flow::Wait, Command::Redraw { draw: true })
    );
}

#[test]
fn consumed_redraw_is_ignored() {
    let mut s = ready();
    assert_eq!(s.on_event(WindowInput::RedrawRequested, true).unwrap(), (Flow::Poll, Command::Nothing));
}

#[test]
fn pick_drag_release_cycle() {
    let mut s = ready();
    assert_eq!(s.on_event(WindowInput::CursorMoved, false).unwrap(), (Flow::Poll, Command::Nothing));
    assert_eq!(s.on_event(WindowInput::MouseWheel, false).unwrap(), (Flow::Poll, Command::CameraWheel));
    assert_eq!(s.on_event(WindowInput::LeftPressed, false).unwrap(), (Flow::Poll, Command::Pick));
    assert_eq!(s.dragging, None);
    s.drag_started(21);
    assert_eq!(s.dragging, Some(21));
    assert_eq!(s.on_event(WindowInput::CursorMoved, true).unwrap(), (Flow::Poll, Command::DragTo(21)));
    assert_eq!(s.on_event(WindowInput::MouseWheel, false).unwrap(), (Flow::Poll, Command::DragDepth));
    // A release the GUI consumed leaves the drag going.
    assert_eq!(s.on_event(WindowInput::LeftReleased, true).unwrap(), (Flow::Poll, Command::Nothing));
    assert_eq!(s.dragging, Some(21));
    assert_eq!(s.on_event(WindowInput::LeftReleased, false).unwrap(), (Flow::Poll, Command::Release(21)));
    assert_eq!(s.dragging, None);
    assert_eq!(s.on_event(WindowInput::LeftReleased, false).unwrap(), (Flow::Poll, Command::Nothing));
}

#[test]
fn other_events_poll() {
    let mut s = ready();
    let before = s;
    assert_eq!(s.on_event(WindowInput::Other, false).unwrap(), (Flow::Poll, Command::Nothing));
    assert_eq!(s, before);
}
