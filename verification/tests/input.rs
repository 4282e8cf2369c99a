use lwm::geometry::Point;
use lwm::input::{Button, ModMask, MouseEvent, MouseEventKind, MouseState};

#[test]
fn modifier_bits_and_held() {
    assert_eq!(ModMask::Shift.bits(), 0x0001);
    assert_eq!(ModMask::Control.bits(), 0x0004);
    assert_eq!(ModMask::Mod4.bits(), 0x0040);
    assert!(ModMask::Shift.was_held(0x0005));
    assert!(ModMask::Control.was_held(0x0005));
    assert!(!ModMask::Mod1.was_held(0x0005));
}

#[test]
fn mouse_state_sorts_modifiers() {
    let state = MouseState::new(Button::Left, vec![ModMask::Mod4, ModMask::Shift]);
    assert_eq!(state.modmask, vec![ModMask::Shift, ModMask::Mod4]);
    assert_eq!(state.mask(), 0x0041);
    assert_eq!(state.button(), 1);

    let state = MouseState::new(
        Button::Right,
        vec![ModMask::Mod1, ModMask::Control, ModMask::Lock],
    );
    assert_eq!(
        state.modmask,
        vec![ModMask::Lock, ModMask::Control, ModMask::Mod1]
    );
    assert_eq!(state.mask(), 0x000E);
    assert_eq!(state.button(), 3);
}

#[test]
fn mouse_state_from_event() {
    let state = MouseState::from_event(1, 0x0005).unwrap();
    assert_eq!(state.button, Button::Left);
    assert_eq!(state.modmask, vec![ModMask::Shift, ModMask::Control]);

    // an unknown button index names no state
    assert!(MouseState::from_event(9, 0x0005).is_none());
    assert!(MouseState::from_event(0, 0).is_none());
}

#[test]
fn button_indices() {
    assert_eq!(Button::Left.index(), 1);
    assert_eq!(Button::ScrollDown.index(), 5);
    assert_eq!(Button::from_index(2), Some(Button::Middle));
    assert_eq!(Button::from_index(4), Some(Button::ScrollUp));
    assert_eq!(Button::from_index(6), None);
}

#[test]
fn new_mouse_event() {
    let shortcut = MouseState::new(Button::Middle, vec![]);
    let ev = MouseEvent::new(
        MouseEventKind::Press,
        7,
        Some(9),
        7,
        10,
        -20,
        3,
        4,
        shortcut.clone(),
    );
    assert_eq!(ev.kind, MouseEventKind::Press);
    assert_eq!(ev.window, 7);
    assert_eq!(ev.subwindow, Some(9));
    assert!(ev.on_root);
    assert_eq!(ev.root_rpos, Point::new(10, -20));
    assert_eq!(ev.window_rpos, Point::new(3, 4));
    assert_eq!(ev.shortcut.button, Button::Middle);

    let ev = MouseEvent::new(
        MouseEventKind::Motion,
        8,
        None,
        7,
        0,
        0,
        0,
        0,
        shortcut,
    );
    assert!(!ev.on_root);
    assert_eq!(ev.subwindow, None);
}
