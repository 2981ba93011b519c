//! The platform-independent part of input handling.
//!
//! The platform backends read devices and inject events outside the
//! core; what lives here is the state they consult: the kill-switch
//! chord over the set of keys currently down, the event filter, the
//! capture and block flags, and the translation of raw Linux input codes
//! — type, code, value triples read from the event devices — into the
//! canonical event set, with relative mouse motion accumulated into an
//! absolute cursor and unknown keys dropped at this boundary.

use vstd::prelude::*;
use crate::agent::spec_clamp;
use crate::events::{Event, EventV, Key, MouseButton};

verus! {

/// Which classes of events a capture filter lets through.
#[derive(Debug, Clone, Copy, PartialEq, Eq, Structural)]
pub struct EventFilter {
    /// Cursor motion.
    pub mouse_moves: bool,
    /// Button presses, releases and clicks.
    pub mouse_buttons: bool,
    /// Wheel motion.
    pub scroll: bool,
    /// Key presses and releases.
    pub keys: bool,
    /// Focus grants, releases and heartbeats.
    pub control: bool,
}

/// Whether the filter lets an event through.
pub open spec fn spec_filter_allows(f: EventFilter, ev: EventV) -> bool {
    match ev {
        EventV::MouseMove { .. } => f.mouse_moves,
        EventV::MouseClick { .. } => f.mouse_buttons,
        EventV::MouseButtonPress { .. } => f.mouse_buttons,
        EventV::MouseButtonRelease { .. } => f.mouse_buttons,
        EventV::MouseScroll { .. } => f.scroll,
        EventV::KeyPress { .. } => f.keys,
        EventV::KeyRelease { .. } => f.keys,
        EventV::FocusGrant { .. } => f.control,
        EventV::FocusRelease => f.control,
        EventV::Heartbeat => f.control,
    }
}

/// The capture-side state every backend shares: flags, the kill-switch
/// chord, the filter, and which keys are down right now.
pub struct RdevInputHandler {
    capturing: bool,
    block_local: bool,
    kill_switch: Option<Vec<Key>>,
    event_filter: Option<EventFilter>,
    pressed_keys: Vec<Key>,
}

impl RdevInputHandler {
    /// The configured chord, if any.
    pub closed spec fn spec_kill_switch(&self) -> Option<Seq<Key>> {
        match self.kill_switch {
            Some(ks) => Some(ks@),
            None => None,
        }
    }

    /// The configured filter, if any.
    pub closed spec fn spec_filter(&self) -> Option<EventFilter> {
        self.event_filter
    }

    /// The keys currently down, in the order they went down.
    pub closed spec fn spec_pressed_seq(&self) -> Seq<Key> {
        self.pressed_keys@
    }

    /// Whether the named key is down.
    pub open spec fn spec_pressed(&self, k: Key) -> bool {
        exists|i: int| 0 <= i < self.spec_pressed_seq().len() && self.spec_pressed_seq()[i] == k
    }

    pub closed spec fn spec_capturing(&self) -> bool {
        self.capturing
    }

    pub closed spec fn spec_blocking(&self) -> bool {
        self.block_local
    }

    /// A fresh handler: not capturing, not blocking, no chord, no
    /// filter, no keys down.
    pub fn new() -> (r: RdevInputHandler)
        ensures
            !r.spec_capturing(),
            !r.spec_blocking(),
            r.spec_kill_switch() is None,
            r.spec_filter() is None,
            forall|k: Key| !r.spec_pressed(k),
    {
        RdevInputHandler {
            capturing: false,
            block_local: false,
            kill_switch: None,
            event_filter: None,
            pressed_keys: Vec::new(),
        }
    }

    /// Configures the chord whose keys, all down together, force focus
    /// home.
    pub fn set_kill_switch(&mut self, keys: Vec<Key>)
        ensures
            final(self).spec_kill_switch() == Some(keys@),
            final(self).spec_filter() == old(self).spec_filter(),
            final(self).spec_capturing() == old(self).spec_capturing(),
            final(self).spec_blocking() == old(self).spec_blocking(),
            final(self).spec_pressed_seq() == old(self).spec_pressed_seq(),
    {
        self.kill_switch = Some(keys);
    }

    /// Whether a chord is configured.
    pub fn has_kill_switch(&self) -> (r: bool)
        ensures
            r == (self.spec_kill_switch() is Some),
    {
        match &self.kill_switch {
            Some(_) => true,
            None => false,
        }
    }

    /// Turns local-input blocking on or off.
    pub fn set_block_local(&mut self, block: bool)
        ensures
            final(self).spec_blocking() == block,
            final(self).spec_kill_switch() == old(self).spec_kill_switch(),
            final(self).spec_filter() == old(self).spec_filter(),
            final(self).spec_capturing() == old(self).spec_capturing(),
            final(self).spec_pressed_seq() == old(self).spec_pressed_seq(),
    {
        self.block_local = block;
    }

    /// Whether local input is being blocked.
    pub fn is_blocking_local(&self) -> (r: bool)
        ensures
            r == self.spec_blocking(),
    {
        self.block_local
    }

    /// Configures which event classes the capture path forwards.
    pub fn set_event_filter(&mut self, filter: EventFilter)
        ensures
            final(self).spec_filter() == Some(filter),
            final(self).spec_kill_switch() == old(self).spec_kill_switch(),
            final(self).spec_capturing() == old(self).spec_capturing(),
            final(self).spec_blocking() == old(self).spec_blocking(),
            final(self).spec_pressed_seq() == old(self).spec_pressed_seq(),
    {
        self.event_filter = Some(filter);
    }

    /// Whether a filter is configured.
    pub fn has_event_filter(&self) -> (r: bool)
        ensures
            r == (self.spec_filter() is Some),
    {
        match &self.event_filter {
            Some(_) => true,
            None => false,
        }
    }

    /// Whether the configured filter lets an event through; everything
    /// passes without one.
    pub fn event_passes_filter(&self, ev: &Event) -> (r: bool)
        ensures
            r == match self.spec_filter() {
                Some(f) => spec_filter_allows(f, ev@),
                None => true,
            },
    {
        match &self.event_filter {
            None => true,
            Some(f) => match ev {
                Event::MouseMove { .. } => f.mouse_moves,
                Event::MouseClick { .. } => f.mouse_buttons,
                Event::MouseButtonPress { .. } => f.mouse_buttons,
                Event::MouseButtonRelease { .. } => f.mouse_buttons,
                Event::MouseScroll { .. } => f.scroll,
                Event::KeyPress { .. } => f.keys,
                Event::KeyRelease { .. } => f.keys,
                Event::FocusGrant { .. } => f.control,
                Event::FocusRelease => f.control,
                Event::Heartbeat => f.control,
            },
        }
    }

    /// Marks capture as started or stopped.
    pub fn set_capturing(&mut self, on: bool)
        ensures
            final(self).spec_capturing() == on,
            final(self).spec_kill_switch() == old(self).spec_kill_switch(),
            final(self).spec_filter() == old(self).spec_filter(),
            final(self).spec_blocking() == old(self).spec_blocking(),
            final(self).spec_pressed_seq() == old(self).spec_pressed_seq(),
    {
        self.capturing = on;
    }

    /// Whether capture is running.
    pub fn is_capturing(&self) -> (r: bool)
        ensures
            r == self.spec_capturing(),
    {
        self.capturing
    }

    /// Records a key going down and answers whether the whole kill
    /// switch chord is now down. The detection never suspends.
    pub fn check_kill_switch(&mut self, key: &Key) -> (r: bool)
        ensures
            final(self).spec_pressed(*key),
            forall|k: Key|
                k != *key ==> #[trigger] final(self).spec_pressed(k) == old(self).spec_pressed(k),
            final(self).spec_kill_switch() == old(self).spec_kill_switch(),
            final(self).spec_filter() == old(self).spec_filter(),
            final(self).spec_capturing() == old(self).spec_capturing(),
            final(self).spec_blocking() == old(self).spec_blocking(),
            r == match old(self).spec_kill_switch() {
                Some(ks) => ks.len() > 0 && forall|i: int|
                    0 <= i < ks.len() ==> final(self).spec_pressed(#[trigger] ks[i]),
                None => false,
            },
    {
        if !self.contains_pressed(key) {
            self.pressed_keys.push(*key);
            proof {
                assert forall|k: Key|
                    k != *key implies #[trigger] self.spec_pressed(k) == old(self).spec_pressed(
                    k,
                ) by {
                    if old(self).spec_pressed(k) {
                        let i = choose|i: int|
                            0 <= i < old(self).spec_pressed_seq().len() && old(
                                self,
                            ).spec_pressed_seq()[i] == k;
                        assert(self.pressed_keys@[i] == k);
                    }
                    if self.spec_pressed(k) {
                        let i = choose|i: int|
                            0 <= i < self.spec_pressed_seq().len() && self.spec_pressed_seq()[i]
                                == k;
                        if i < old(self).pressed_keys@.len() {
                            assert(old(self).pressed_keys@[i] == k);
                        } else {
                            assert(self.pressed_keys@[i] == *key);
                        }
                    }
                }
                assert(self.spec_pressed_seq()[self.spec_pressed_seq().len() - 1] == *key);
            }
        }
        self.chord_down()
    }

    /// Whether a chord is configured and all of its keys are down.
    pub fn chord_down(&self) -> (r: bool)
        ensures
            r == match self.spec_kill_switch() {
                Some(ks) => ks.len() > 0 && forall|i: int|
                    0 <= i < ks.len() ==> self.spec_pressed(#[trigger] ks[i]),
                None => false,
            },
    {
        match &self.kill_switch {
            None => false,
            Some(ks) => {
                let n = ks.len();
                if n == 0 {
                    false
                } else {
                    let mut i: usize = 0;
                    while i < n
                        invariant
                            i <= n,
                            n == ks@.len(),
                            ks@ == self.spec_kill_switch()->Some_0,
                            forall|j: int| 0 <= j < i ==> self.spec_pressed(#[trigger] ks@[j]),
                        decreases n - i,
                    {
                        if !self.contains_pressed(&ks[i]) {
                            return false;
                        }
                        i = i + 1;
                    }
                    true
                }
            }
        }
    }

    /// Records a key coming up: it is no longer down, every other key
    /// keeps its state.
    pub fn handle_key_release(&mut self, key: &Key)
        ensures
            !final(self).spec_pressed(*key),
            forall|k: Key|
                k != *key ==> #[trigger] final(self).spec_pressed(k) == old(self).spec_pressed(k),
            final(self).spec_kill_switch() == old(self).spec_kill_switch(),
            final(self).spec_filter() == old(self).spec_filter(),
            final(self).spec_capturing() == old(self).spec_capturing(),
            final(self).spec_blocking() == old(self).spec_blocking(),
    {
        let n = self.pressed_keys.len();
        let mut kept: Vec<Key> = Vec::new();
        let mut i: usize = 0;
        while i < n
            invariant
                i <= n,
                n == self.pressed_keys@.len(),
                self == old(self),
                forall|j: int|
                    0 <= j < kept@.len() ==> #[trigger] kept@[j] != *key && old(
                        self,
                    ).spec_pressed(kept@[j]),
                forall|j: int|
                    0 <= j < i && (#[trigger] old(self).pressed_keys@[j]) != *key ==> exists|
                        j2: int,
                    |
                        0 <= j2 < kept@.len() && #[trigger] kept@[j2] == old(
                            self,
                        ).pressed_keys@[j],
            decreases n - i,
        {
            let cur = self.pressed_keys[i];
            if !(cur == *key) {
                let ghost kept0 = kept@;
                kept.push(cur);
                proof {
                    assert(kept@.last() == cur);
                    assert(old(self).spec_pressed_seq()[i as int] == cur);
                    assert(old(self).spec_pressed(cur));
                    assert forall|j: int|
                        0 <= j < i + 1 && (#[trigger] old(self).pressed_keys@[j])
                            != *key implies exists|j2: int|
                        0 <= j2 < kept@.len() && #[trigger] kept@[j2] == old(
                            self,
                        ).pressed_keys@[j] by {
                        if j < i as int {
                            let j2 = choose|j2: int|
                                0 <= j2 < kept0.len() && #[trigger] kept0[j2] == old(
                                    self,
                                ).pressed_keys@[j];
                            assert(kept@[j2] == old(self).pressed_keys@[j]);
                        } else {
                            assert(kept@[kept@.len() - 1] == old(self).pressed_keys@[j]);
                        }
                    }
                }
            }
            i = i + 1;
        }
        self.pressed_keys = kept;
        proof {
            assert forall|k: Key|
                k != *key implies #[trigger] self.spec_pressed(k) == old(self).spec_pressed(k) by {
                if old(self).spec_pressed(k) {
                    let j = choose|j: int|
                        0 <= j < old(self).pressed_keys@.len() && old(self).pressed_keys@[j] == k;
                }
            }
        }
    }

    fn contains_pressed(&self, key: &Key) -> (r: bool)
        ensures
            r == self.spec_pressed(*key),
    {
        let n = self.pressed_keys.len();
        let mut i: usize = 0;
        while i < n
            invariant
                i <= n,
                n == self.pressed_keys@.len(),
                forall|j: int| 0 <= j < i ==> self.pressed_keys@[j] != *key,
            decreases n - i,
        {
            if self.pressed_keys[i] == *key {
                proof {
                    assert(self.spec_pressed_seq()[i as int] == *key);
                }
                return true;
            }
            i = i + 1;
        }
        false
    }
}

// ---------------------------------------------------------------------
// Raw Linux input events.
// ---------------------------------------------------------------------

/// Raw event types of the Linux input protocol.
pub const EV_KEY: u16 = 1;

pub const EV_REL: u16 = 2;

pub const EV_ABS: u16 = 3;

/// Relative axis codes.
pub const REL_X: u16 = 0;

pub const REL_Y: u16 = 1;

pub const REL_HWHEEL: u16 = 6;

pub const REL_WHEEL: u16 = 8;

/// Absolute axis codes.
pub const ABS_X: u16 = 0;

pub const ABS_Y: u16 = 1;

/// Button codes.
pub const BTN_LEFT: u16 = 0x110;

pub const BTN_RIGHT: u16 = 0x111;

pub const BTN_MIDDLE: u16 = 0x112;

/// The key of a Linux key code, for the closed set this protocol knows;
/// every other code is dropped at this boundary.
pub open spec fn spec_key_of_code(code: u16) -> Option<Key> {
    if code == 30 {
        Some(Key::KeyA)
    } else if code == 48 {
        Some(Key::KeyB)
    } else if code == 46 {
        Some(Key::KeyC)
    } else if code == 32 {
        Some(Key::KeyD)
    } else if code == 18 {
        Some(Key::KeyE)
    } else if code == 33 {
        Some(Key::KeyF)
    } else if code == 34 {
        Some(Key::KeyG)
    } else if code == 35 {
        Some(Key::KeyH)
    } else if code == 23 {
        Some(Key::KeyI)
    } else if code == 36 {
        Some(Key::KeyJ)
    } else if code == 37 {
        Some(Key::KeyK)
    } else if code == 38 {
        Some(Key::KeyL)
    } else if code == 50 {
        Some(Key::KeyM)
    } else if code == 49 {
        Some(Key::KeyN)
    } else if code == 24 {
        Some(Key::KeyO)
    } else if code == 25 {
        Some(Key::KeyP)
    } else if code == 16 {
        Some(Key::KeyQ)
    } else if code == 19 {
        Some(Key::KeyR)
    } else if code == 31 {
        Some(Key::KeyS)
    } else if code == 20 {
        Some(Key::KeyT)
    } else if code == 22 {
        Some(Key::KeyU)
    } else if code == 47 {
        Some(Key::KeyV)
    } else if code == 17 {
        Some(Key::KeyW)
    } else if code == 45 {
        Some(Key::KeyX)
    } else if code == 21 {
        Some(Key::KeyY)
    } else if code == 44 {
        Some(Key::KeyZ)
    } else if code == 29 {
        Some(Key::ControlLeft)
    } else if code == 97 {
        Some(Key::ControlRight)
    } else if code == 42 {
        Some(Key::ShiftLeft)
    } else if code == 54 {
        Some(Key::ShiftRight)
    } else if code == 56 {
        Some(Key::AltLeft)
    } else if code == 100 {
        Some(Key::AltRight)
    } else if code == 125 {
        Some(Key::MetaLeft)
    } else if code == 126 {
        Some(Key::MetaRight)
    } else if code == 1 {
        Some(Key::Escape)
    } else if code == 28 {
        Some(Key::Return)
    } else if code == 57 {
        Some(Key::Space)
    } else if code == 14 {
        Some(Key::Backspace)
    } else if code == 15 {
        Some(Key::Tab)
    } else {
        None
    }
}

/// Translates a Linux key code; see [`spec_key_of_code`].
pub fn key_of_code(code: u16) -> (r: Option<Key>)
    ensures
        r == spec_key_of_code(code),
{
    if code == 30 {
        Some(Key::KeyA)
    } else if code == 48 {
        Some(Key::KeyB)
    } else if code == 46 {
        Some(Key::KeyC)
    } else if code == 32 {
        Some(Key::KeyD)
    } else if code == 18 {
        Some(Key::KeyE)
    } else if code == 33 {
        Some(Key::KeyF)
    } else if code == 34 {
        Some(Key::KeyG)
    } else if code == 35 {
        Some(Key::KeyH)
    } else if code == 23 {
        Some(Key::KeyI)
    } else if code == 36 {
        Some(Key::KeyJ)
    } else if code == 37 {
        Some(Key::KeyK)
    } else if code == 38 {
        Some(Key::KeyL)
    } else if code == 50 {
        Some(Key::KeyM)
    } else if code == 49 {
        Some(Key::KeyN)
    } else if code == 24 {
        Some(Key::KeyO)
    } else if code == 25 {
        Some(Key::KeyP)
    } else if code == 16 {
        Some(Key::KeyQ)
    } else if code == 19 {
        Some(Key::KeyR)
    } else if code == 31 {
        Some(Key::KeyS)
    } else if code == 20 {
        Some(Key::KeyT)
    } else if code == 22 {
        Some(Key::KeyU)
    } else if code == 47 {
        Some(Key::KeyV)
    } else if code == 17 {
        Some(Key::KeyW)
    } else if code == 45 {
        Some(Key::KeyX)
    } else if code == 21 {
        Some(Key::KeyY)
    } else if code == 44 {
        Some(Key::KeyZ)
    } else if code == 29 {
        Some(Key::ControlLeft)
    } else if code == 97 {
        Some(Key::ControlRight)
    } else if code == 42 {
        Some(Key::ShiftLeft)
    } else if code == 54 {
        Some(Key::ShiftRight)
    } else if code == 56 {
        Some(Key::AltLeft)
    } else if code == 100 {
        Some(Key::AltRight)
    } else if code == 125 {
        Some(Key::MetaLeft)
    } else if code == 126 {
        Some(Key::MetaRight)
    } else if code == 1 {
        Some(Key::Escape)
    } else if code == 28 {
        Some(Key::Return)
    } else if code == 57 {
        Some(Key::Space)
    } else if code == 14 {
        Some(Key::Backspace)
    } else if code == 15 {
        Some(Key::Tab)
    } else {
        None
    }
}

/// Accumulates relative mouse motion into an absolute cursor, clamped to
/// the screen, as the raw device protocol requires.
pub struct CursorTracker {
    x: i32,
    y: i32,
    screen_width: u32,
    screen_height: u32,
}

impl CursorTracker {
    pub closed spec fn spec_pos(&self) -> (int, int) {
        (self.x as int, self.y as int)
    }

    pub closed spec fn spec_screen(&self) -> (int, int) {
        (self.screen_width as int, self.screen_height as int)
    }

    pub open spec fn wf(&self) -> bool {
        &&& self.spec_screen().0 <= i32::MAX
        &&& self.spec_screen().1 <= i32::MAX
        &&& 0 <= self.spec_pos().0 <= self.spec_screen().0
        &&& 0 <= self.spec_pos().1 <= self.spec_screen().1
    }

    /// A tracker starting at the screen's center.
    pub fn new(screen_width: u32, screen_height: u32) -> (r: CursorTracker)
        requires
            screen_width <= i32::MAX,
            screen_height <= i32::MAX,
        ensures
            r.wf(),
            r.spec_screen() == (screen_width as int, screen_height as int),
            r.spec_pos() == (screen_width as int / 2, screen_height as int / 2),
    {
        CursorTracker {
            x: (screen_width / 2) as i32,
            y: (screen_height / 2) as i32,
            screen_width,
            screen_height,
        }
    }

    /// The cursor position the tracker currently holds.
    pub fn position(&self) -> (r: (i32, i32))
        ensures
            r.0 as int == self.spec_pos().0,
            r.1 as int == self.spec_pos().1,
    {
        (self.x, self.y)
    }

    /// Translates one raw device event, given as its type, code and
    /// value. Relative X and Y motion moves the tracked cursor, clamped,
    /// and yields the new absolute position; absolute axes set it
    /// directly; wheel codes become scrolls; key events become button or
    /// key presses and releases by their value, keys outside the
    /// canonical set dropped; anything else is dropped.
    pub fn convert_raw_input(&mut self, type_: u16, code: u16, value: i32) -> (r: Option<Event>)
        requires
            old(self).wf(),
        ensures
            final(self).wf(),
            final(self).spec_screen() == old(self).spec_screen(),
            ({
                let w = old(self).spec_screen().0;
                let h = old(self).spec_screen().1;
                let ox = old(self).spec_pos().0;
                let oy = old(self).spec_pos().1;
                if type_ == EV_REL && code == REL_X {
                    let nx = spec_clamp(ox + value, w);
                    &&& final(self).spec_pos() == (nx, oy)
                    &&& r == Some(Event::MouseMove { x: nx as i32, y: oy as i32 })
                } else if type_ == EV_REL && code == REL_Y {
                    let ny = spec_clamp(oy + value, h);
                    &&& final(self).spec_pos() == (ox, ny)
                    &&& r == Some(Event::MouseMove { x: ox as i32, y: ny as i32 })
                } else if type_ == EV_ABS && code == ABS_X {
                    let nx = spec_clamp(value as int, w);
                    &&& final(self).spec_pos() == (nx, oy)
                    &&& r == Some(Event::MouseMove { x: nx as i32, y: oy as i32 })
                } else if type_ == EV_ABS && code == ABS_Y {
                    let ny = spec_clamp(value as int, h);
                    &&& final(self).spec_pos() == (ox, ny)
                    &&& r == Some(Event::MouseMove { x: ox as i32, y: ny as i32 })
                } else if type_ == EV_REL && code == REL_WHEEL {
                    &&& final(self).spec_pos() == old(self).spec_pos()
                    &&& r == Some(Event::MouseScroll { delta_x: 0i64, delta_y: value as i64 })
                } else if type_ == EV_REL && code == REL_HWHEEL {
                    &&& final(self).spec_pos() == old(self).spec_pos()
                    &&& r == Some(Event::MouseScroll { delta_x: value as i64, delta_y: 0i64 })
                } else if type_ == EV_KEY && (code == BTN_LEFT || code == BTN_RIGHT || code
                    == BTN_MIDDLE) {
                    let button = if code == BTN_LEFT {
                        MouseButton::Left
                    } else if code == BTN_RIGHT {
                        MouseButton::Right
                    } else {
                        MouseButton::Middle
                    };
                    &&& final(self).spec_pos() == old(self).spec_pos()
                    &&& r == if value == 0 {
                        Some(Event::MouseButtonRelease { button })
                    } else {
                        Some(Event::MouseButtonPress { button })
                    }
                } else if type_ == EV_KEY {
                    &&& final(self).spec_pos() == old(self).spec_pos()
                    &&& r == match spec_key_of_code(code) {
                        Some(key) => if value == 0 {
                            Some(Event::KeyRelease { key })
                        } else {
                            Some(Event::KeyPress { key })
                        },
                        None => None::<Event>,
                    }
                } else {
                    &&& final(self).spec_pos() == old(self).spec_pos()
                    &&& r is None
                }
            }),
    {
        if type_ == EV_REL && code == REL_X {
            let nx = clamp_add(self.x, value, self.screen_width);
            self.x = nx;
            Some(Event::MouseMove { x: nx, y: self.y })
        } else if type_ == EV_REL && code == REL_Y {
            let ny = clamp_add(self.y, value, self.screen_height);
            self.y = ny;
            Some(Event::MouseMove { x: self.x, y: ny })
        } else if type_ == EV_ABS && code == ABS_X {
            let nx = clamp_plain(value, self.screen_width);
            self.x = nx;
            Some(Event::MouseMove { x: nx, y: self.y })
        } else if type_ == EV_ABS && code == ABS_Y {
            let ny = clamp_plain(value, self.screen_height);
            self.y = ny;
            Some(Event::MouseMove { x: self.x, y: ny })
        } else if type_ == EV_REL && code == REL_WHEEL {
            Some(Event::MouseScroll { delta_x: 0, delta_y: value as i64 })
        } else if type_ == EV_REL && code == REL_HWHEEL {
            Some(Event::MouseScroll { delta_x: value as i64, delta_y: 0 })
        } else if type_ == EV_KEY && (code == BTN_LEFT || code == BTN_RIGHT || code == BTN_MIDDLE) {
            let button = if code == BTN_LEFT {
                MouseButton::Left
            } else if code == BTN_RIGHT {
                MouseButton::Right
            } else {
                MouseButton::Middle
            };
            if value == 0 {
                Some(Event::MouseButtonRelease { button })
            } else {
                Some(Event::MouseButtonPress { button })
            }
        } else if type_ == EV_KEY {
            match key_of_code(code) {
                Some(key) => if value == 0 {
                    Some(Event::KeyRelease { key })
                } else {
                    Some(Event::KeyPress { key })
                },
                None => None,
            }
        } else {
            None
        }
    }
}

fn clamp_add(base: i32, delta: i32, hi: u32) -> (r: i32)
    requires
        hi <= i32::MAX,
    ensures
        r as int == spec_clamp(base as int + delta as int, hi as int),
{
    let v = (base as i64) + (delta as i64);
    if v < 0 {
        0
    } else if v > (hi as i64) {
        hi as i32
    } else {
        v as i32
    }
}

fn clamp_plain(v: i32, hi: u32) -> (r: i32)
    requires
        hi <= i32::MAX,
    ensures
        r as int == spec_clamp(v as int, hi as int),
{
    if v < 0 {
        0
    } else if (v as i64) > (hi as i64) {
        hi as i32
    } else {
        v
    }
}

} // verus!
