use multishiva::events::{Event, Key, MouseButton};
use multishiva::input::{
    CursorTracker, EventFilter, RdevInputHandler, ABS_X, BTN_LEFT, BTN_MIDDLE, BTN_RIGHT, EV_ABS,
    EV_KEY, EV_REL, REL_HWHEEL, REL_WHEEL, REL_X, REL_Y,
};

#[test]
fn input_test_input_handler_creation() {
    let _handler = RdevInputHandler::new();
}

#[test]
fn test_kill_switch_chord_detection() {
    let mut handler = RdevInputHandler::new();
    assert!(!handler.has_kill_switch());
    handler.set_kill_switch(vec![Key::ControlLeft, Key::AltLeft, Key::KeyQ]);
    assert!(handler.has_kill_switch());

    assert!(!handler.check_kill_switch(&Key::ControlLeft));
    assert!(!handler.check_kill_switch(&Key::AltLeft));
    assert!(handler.check_kill_switch(&Key::KeyQ));

    // releasing one chord key disarms it
    handler.handle_key_release(&Key::AltLeft);
    assert!(!handler.check_kill_switch(&Key::KeyQ));
    assert!(handler.check_kill_switch(&Key::AltLeft));
}

#[test]
fn test_no_chord_never_fires() {
    let mut handler = RdevInputHandler::new();
    assert!(!handler.check_kill_switch(&Key::ControlLeft));
    assert!(!handler.check_kill_switch(&Key::AltLeft));
}

#[test]
fn test_block_local_flag() {
    let mut handler = RdevInputHandler::new();
    assert!(!handler.is_blocking_local());
    handler.set_block_local(true);
    assert!(handler.is_blocking_local());
}

#[test]
fn test_event_filter() {
    let mut handler = RdevInputHandler::new();
    assert!(!handler.has_event_filter());
    assert!(handler.event_passes_filter(&Event::Heartbeat));

    handler.set_event_filter(EventFilter {
        mouse_moves: true,
        mouse_buttons: true,
        scroll: false,
        keys: false,
        control: false,
    });
    assert!(handler.has_event_filter());
    assert!(handler.event_passes_filter(&Event::MouseMove { x: 1, y: 2 }));
    assert!(handler.event_passes_filter(&Event::MouseButtonPress { button: MouseButton::Left }));
    assert!(!handler.event_passes_filter(&Event::KeyPress { key: Key::KeyA }));
    assert!(!handler.event_passes_filter(&Event::Heartbeat));
}

#[test]
fn test_cursor_tracker_accumulates_relative_motion() {
    let mut t = CursorTracker::new(1920, 1080);
    assert_eq!(t.position(), (960, 540));

    let ev = t.convert_raw_input(EV_REL, REL_X, 5);
    assert_eq!(ev, Some(Event::MouseMove { x: 965, y: 540 }));
    let ev = t.convert_raw_input(EV_REL, REL_Y, -40);
    assert_eq!(ev, Some(Event::MouseMove { x: 965, y: 500 }));

    // motion clamps at the screen border
    let ev = t.convert_raw_input(EV_REL, REL_X, 100000);
    assert_eq!(ev, Some(Event::MouseMove { x: 1920, y: 500 }));
    let ev = t.convert_raw_input(EV_REL, REL_X, -100000);
    assert_eq!(ev, Some(Event::MouseMove { x: 0, y: 500 }));
}

#[test]
fn test_cursor_tracker_absolute_axes() {
    let mut t = CursorTracker::new(1920, 1080);
    let ev = t.convert_raw_input(EV_ABS, ABS_X, 100);
    assert_eq!(ev, Some(Event::MouseMove { x: 100, y: 540 }));
}

#[test]
fn test_raw_buttons_and_wheel() {
    let mut t = CursorTracker::new(1920, 1080);
    assert_eq!(
        t.convert_raw_input(EV_KEY, BTN_LEFT, 1),
        Some(Event::MouseButtonPress { button: MouseButton::Left })
    );
    assert_eq!(
        t.convert_raw_input(EV_KEY, BTN_RIGHT, 0),
        Some(Event::MouseButtonRelease { button: MouseButton::Right })
    );
    assert_eq!(
        t.convert_raw_input(EV_KEY, BTN_MIDDLE, 1),
        Some(Event::MouseButtonPress { button: MouseButton::Middle })
    );
    assert_eq!(
        t.convert_raw_input(EV_REL, REL_WHEEL, -1),
        Some(Event::MouseScroll { delta_x: 0, delta_y: -1 })
    );
    assert_eq!(
        t.convert_raw_input(EV_REL, REL_HWHEEL, 2),
        Some(Event::MouseScroll { delta_x: 2, delta_y: 0 })
    );
}

#[test]
fn test_raw_keys_translate_and_unknown_drop() {
    let mut t = CursorTracker::new(1920, 1080);
    // 30 is the Linux code for the A key
    assert_eq!(
        t.convert_raw_input(EV_KEY, 30, 1),
        Some(Event::KeyPress { key: Key::KeyA })
    );
    assert_eq!(
        t.convert_raw_input(EV_KEY, 30, 0),
        Some(Event::KeyRelease { key: Key::KeyA })
    );
    // 58 is caps lock: outside the canonical set, dropped at the boundary
    assert_eq!(t.convert_raw_input(EV_KEY, 58, 1), None);
    // an unrelated event type is dropped too
    assert_eq!(t.convert_raw_input(99, 0, 1), None);
}

#[test]
fn test_capturing_flag() {
    let mut handler = RdevInputHandler::new();
    assert!(!handler.is_capturing());
    handler.set_capturing(true);
    assert!(handler.is_capturing());
    handler.set_capturing(false);
    assert!(!handler.is_capturing());
}
