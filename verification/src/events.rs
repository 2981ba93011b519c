//! The canonical input-event set exchanged between machines.
//!
//! The set is closed: twenty-six letters, eight modifiers, five special
//! keys, three mouse buttons, and the control events that move focus
//! between machines. Unknown physical keys are dropped at the platform
//! boundary and never reach the wire.

use vstd::prelude::*;

verus! {

/// An input or control event, as it travels between machines.
///
/// Derived equality is for unverified callers and tests; verified code
/// speaks of an event through its view, [`EventV`].
#[derive(Debug, Clone, PartialEq, Eq)]
pub enum Event {
    /// The cursor moved to an absolute position in the sender's screen space.
    MouseMove { x: i32, y: i32 },
    /// A mouse button was clicked (press and release as one event).
    MouseClick { button: MouseButton },
    /// A mouse button went down.
    MouseButtonPress { button: MouseButton },
    /// A mouse button came up.
    MouseButtonRelease { button: MouseButton },
    /// The wheel scrolled by the given amounts.
    MouseScroll { delta_x: i64, delta_y: i64 },
    /// A key went down.
    KeyPress { key: Key },
    /// A key came up.
    KeyRelease { key: Key },
    /// Host to agent: take the input, place the cursor at `(x, y)`.
    FocusGrant { target: String, x: i32, y: i32 },
    /// Agent to host: input ownership is handed back.
    FocusRelease,
    /// Transport-internal liveness pulse.
    Heartbeat,
}

/// The physical mouse buttons the wire protocol knows.
#[derive(Debug, Clone, Copy, PartialEq, Eq, Structural)]
pub enum MouseButton {
    Left,
    Right,
    Middle,
}

/// The closed set of keys the wire protocol knows.
#[derive(Debug, Clone, Copy, PartialEq, Eq, Structural)]
pub enum Key {
    KeyA,
    KeyB,
    KeyC,
    KeyD,
    KeyE,
    KeyF,
    KeyG,
    KeyH,
    KeyI,
    KeyJ,
    KeyK,
    KeyL,
    KeyM,
    KeyN,
    KeyO,
    KeyP,
    KeyQ,
    KeyR,
    KeyS,
    KeyT,
    KeyU,
    KeyV,
    KeyW,
    KeyX,
    KeyY,
    KeyZ,
    ControlLeft,
    ControlRight,
    ShiftLeft,
    ShiftRight,
    AltLeft,
    AltRight,
    MetaLeft,
    MetaRight,
    Escape,
    Return,
    Space,
    Backspace,
    Tab,
}

/// The mathematical model of an [`Event`]: the same variants, with the
/// machine name of a focus grant abstracted to its character sequence.
/// Contracts and the wire-codec specification speak of this type.
pub enum EventV {
    MouseMove { x: int, y: int },
    MouseClick { button: MouseButton },
    MouseButtonPress { button: MouseButton },
    MouseButtonRelease { button: MouseButton },
    MouseScroll { delta_x: int, delta_y: int },
    KeyPress { key: Key },
    KeyRelease { key: Key },
    FocusGrant { target: Seq<char>, x: int, y: int },
    FocusRelease,
    Heartbeat,
}

impl View for Event {
    type V = EventV;

    open spec fn view(&self) -> EventV {
        match self {
            Event::MouseMove { x, y } => EventV::MouseMove { x: *x as int, y: *y as int },
            Event::MouseClick { button } => EventV::MouseClick { button: *button },
            Event::MouseButtonPress { button } => EventV::MouseButtonPress { button: *button },
            Event::MouseButtonRelease { button } => (EventV::MouseButtonRelease {
                button: *button,
            }),
            Event::MouseScroll { delta_x, delta_y } => (EventV::MouseScroll {
                delta_x: *delta_x as int,
                delta_y: *delta_y as int,
            }),
            Event::KeyPress { key } => EventV::KeyPress { key: *key },
            Event::KeyRelease { key } => EventV::KeyRelease { key: *key },
            Event::FocusGrant { target, x, y } => (EventV::FocusGrant {
                target: target@,
                x: *x as int,
                y: *y as int,
            }),
            Event::FocusRelease => EventV::FocusRelease,
            Event::Heartbeat => EventV::Heartbeat,
        }
    }
}

} // verus!
