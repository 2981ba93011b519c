//! The agent's side of a focus hand-off.
//!
//! While the agent holds focus it mirrors the host's cursor. Because the
//! two screens differ in size, the host's absolute coordinates are never
//! injected as they stand: the agent keeps the position it last displayed
//! and the absolute position the host last sent, applies the host's
//! motion as a delta, and clamps the result to its own screen. When its
//! own cursor reaches the return edge — the opposite of the edge through
//! which focus arrived — it hands focus back.

use vstd::prelude::*;
use crate::events::{Event, EventV};
use crate::topology::{near_edge, Edge};

verus! {

/// A coordinate clamped to `[0, hi]`.
pub open spec fn spec_clamp(v: int, hi: int) -> int {
    if v < 0 {
        0
    } else if v > hi {
        hi
    } else {
        v
    }
}

/// The edge band an entry position lies in, if any, checked left, right,
/// top, bottom.
pub open spec fn spec_infer_entry_edge(x: int, y: int, w: int, h: int, t: int) -> Option<Edge> {
    if x < t {
        Some(Edge::Left)
    } else if x >= w - t {
        Some(Edge::Right)
    } else if y < t {
        Some(Edge::Top)
    } else if y >= h - t {
        Some(Edge::Bottom)
    } else {
        None
    }
}

/// The edge opposite a given one.
pub open spec fn spec_opposite(e: Edge) -> Edge {
    match e {
        Edge::Left => Edge::Right,
        Edge::Right => Edge::Left,
        Edge::Top => Edge::Bottom,
        Edge::Bottom => Edge::Top,
    }
}

/// The edge whose crossing returns focus to the host: the opposite of
/// the entry edge, or the right edge when the entry point lay in no
/// band.
pub open spec fn spec_return_edge(entry: Option<Edge>) -> Edge {
    match entry {
        Some(e) => spec_opposite(e),
        None => Edge::Right,
    }
}

/// What the agent holds while mirroring the host: its focus flag, the
/// position it last displayed, the absolute position the host last sent,
/// and the screen rectangle it clamps to.
pub struct AgentState {
    has_focus: bool,
    current_x: i32,
    current_y: i32,
    last_host_x: i32,
    last_host_y: i32,
    entry_edge: Option<Edge>,
    screen_width: u32,
    screen_height: u32,
    threshold: u32,
}

impl AgentState {
    /// Whether this agent currently owns the input.
    pub closed spec fn spec_has_focus(&self) -> bool {
        self.has_focus
    }

    /// The position the agent last asked its OS to display.
    pub closed spec fn spec_current(&self) -> (int, int) {
        (self.current_x as int, self.current_y as int)
    }

    /// The absolute position the host last sent, in the host's space.
    pub closed spec fn spec_last_host(&self) -> (int, int) {
        (self.last_host_x as int, self.last_host_y as int)
    }

    /// The edge through which focus arrived, as inferred from the entry
    /// point.
    pub closed spec fn spec_entry_edge(&self) -> Option<Edge> {
        self.entry_edge
    }

    pub closed spec fn spec_screen(&self) -> (int, int) {
        (self.screen_width as int, self.screen_height as int)
    }

    pub closed spec fn spec_threshold(&self) -> int {
        self.threshold as int
    }

    /// The screen fits the signed coordinate space and the threshold
    /// fits the screen.
    pub open spec fn wf(&self) -> bool {
        &&& self.spec_screen().0 <= i32::MAX
        &&& self.spec_screen().1 <= i32::MAX
        &&& 0 <= self.spec_current().0 <= self.spec_screen().0
        &&& 0 <= self.spec_current().1 <= self.spec_screen().1
        &&& self.spec_threshold() < self.spec_screen().0
        &&& self.spec_threshold() < self.spec_screen().1
    }

    /// A fresh agent without focus, cursor at the origin.
    pub fn new(screen_width: u32, screen_height: u32, threshold: u32) -> (r: AgentState)
        requires
            screen_width <= i32::MAX,
            screen_height <= i32::MAX,
            threshold < screen_width,
            threshold < screen_height,
        ensures
            r.wf(),
            !r.spec_has_focus(),
            r.spec_current() == (0int, 0int),
            r.spec_screen() == (screen_width as int, screen_height as int),
            r.spec_threshold() == threshold as int,
    {
        AgentState {
            has_focus: false,
            current_x: 0,
            current_y: 0,
            last_host_x: 0,
            last_host_y: 0,
            entry_edge: None,
            screen_width,
            screen_height,
            threshold,
        }
    }

    /// Feeds one event received from the host; returns the event to
    /// inject into the local OS, if any.
    ///
    /// A focus grant takes the input: the entry point, clamped to this
    /// screen, becomes the displayed position, and a cursor move to it is
    /// injected. A host mouse move while focused advances the displayed
    /// position by the host's delta, clamped; buttons, scrolls and keys
    /// pass through verbatim while focused. Everything is dropped without
    /// focus, and focus releases and heartbeats are never injected.
    pub fn on_host_event(&mut self, ev: &Event) -> (r: Option<Event>)
        requires
            old(self).wf(),
        ensures
            final(self).wf(),
            final(self).spec_screen() == old(self).spec_screen(),
            final(self).spec_threshold() == old(self).spec_threshold(),
            match ev@ {
                EventV::FocusGrant { target: _, x, y } => {
                    let cx = spec_clamp(x, old(self).spec_screen().0);
                    let cy = spec_clamp(y, old(self).spec_screen().1);
                    &&& final(self).spec_has_focus()
                    &&& final(self).spec_current() == (cx, cy)
                    &&& final(self).spec_last_host() == (x, y)
                    &&& final(self).spec_entry_edge() == spec_infer_entry_edge(
                        cx,
                        cy,
                        old(self).spec_screen().0,
                        old(self).spec_screen().1,
                        old(self).spec_threshold(),
                    )
                    &&& match r {
                        Some(inj) => inj@ == (EventV::MouseMove { x: cx, y: cy }),
                        None => false,
                    }
                },
                EventV::MouseMove { x, y } => if old(self).spec_has_focus() {
                    let nx = spec_clamp(
                        old(self).spec_current().0 + x - old(self).spec_last_host().0,
                        old(self).spec_screen().0,
                    );
                    let ny = spec_clamp(
                        old(self).spec_current().1 + y - old(self).spec_last_host().1,
                        old(self).spec_screen().1,
                    );
                    &&& final(self).spec_has_focus()
                    &&& final(self).spec_current() == (nx, ny)
                    &&& final(self).spec_last_host() == (x, y)
                    &&& final(self).spec_entry_edge() == old(self).spec_entry_edge()
                    &&& match r {
                        Some(inj) => inj@ == (EventV::MouseMove { x: nx, y: ny }),
                        None => false,
                    }
                } else {
                    self_unchanged(old(self), final(self)) && r is None
                },
                EventV::FocusRelease => self_unchanged(old(self), final(self)) && r is None,
                EventV::Heartbeat => self_unchanged(old(self), final(self)) && r is None,
                _ => if old(self).spec_has_focus() {
                    self_unchanged(old(self), final(self)) && match r {
                        Some(inj) => inj@ == ev@,
                        None => false,
                    }
                } else {
                    self_unchanged(old(self), final(self)) && r is None
                },
            },
    {
        match ev {
            Event::FocusGrant { target: _, x, y } => {
                let cx = clamp_i32(*x, self.screen_width);
                let cy = clamp_i32(*y, self.screen_height);
                self.has_focus = true;
                self.current_x = cx;
                self.current_y = cy;
                self.last_host_x = *x;
                self.last_host_y = *y;
                self.entry_edge = infer_entry_edge(
                    cx,
                    cy,
                    self.screen_width,
                    self.screen_height,
                    self.threshold,
                );
                Some(Event::MouseMove { x: cx, y: cy })
            }
            Event::MouseMove { x, y } => {
                if self.has_focus {
                    let nx = clamp_i64(
                        (self.current_x as i64) + (*x as i64) - (self.last_host_x as i64),
                        self.screen_width,
                    );
                    let ny = clamp_i64(
                        (self.current_y as i64) + (*y as i64) - (self.last_host_y as i64),
                        self.screen_height,
                    );
                    self.current_x = nx;
                    self.current_y = ny;
                    self.last_host_x = *x;
                    self.last_host_y = *y;
                    Some(Event::MouseMove { x: nx, y: ny })
                } else {
                    None
                }
            }
            Event::MouseClick { button } => {
                if self.has_focus {
                    Some(Event::MouseClick { button: *button })
                } else {
                    None
                }
            }
            Event::MouseButtonPress { button } => {
                if self.has_focus {
                    Some(Event::MouseButtonPress { button: *button })
                } else {
                    None
                }
            }
            Event::MouseButtonRelease { button } => {
                if self.has_focus {
                    Some(Event::MouseButtonRelease { button: *button })
                } else {
                    None
                }
            }
            Event::MouseScroll { delta_x, delta_y } => {
                if self.has_focus {
                    Some(Event::MouseScroll { delta_x: *delta_x, delta_y: *delta_y })
                } else {
                    None
                }
            }
            Event::KeyPress { key } => {
                if self.has_focus {
                    Some(Event::KeyPress { key: *key })
                } else {
                    None
                }
            }
            Event::KeyRelease { key } => {
                if self.has_focus {
                    Some(Event::KeyRelease { key: *key })
                } else {
                    None
                }
            }
            Event::FocusRelease => None,
            Event::Heartbeat => None,
        }
    }

    /// Feeds one locally captured cursor position. When the agent holds
    /// focus and the cursor stands in the return edge's band, focus is
    /// handed back: the flag drops and the caller must send a focus
    /// release to the host. Otherwise nothing changes.
    pub fn on_local_move(&mut self, x: i32, y: i32) -> (r: bool)
        requires
            old(self).wf(),
        ensures
            final(self).wf(),
            final(self).spec_screen() == old(self).spec_screen(),
            final(self).spec_threshold() == old(self).spec_threshold(),
            r == (old(self).spec_has_focus() && near_edge(
                spec_return_edge(old(self).spec_entry_edge()),
                x as int,
                y as int,
                old(self).spec_screen().0,
                old(self).spec_screen().1,
                old(self).spec_threshold(),
            )),
            r ==> !final(self).spec_has_focus() && final(self).spec_current() == old(
                self,
            ).spec_current() && final(self).spec_last_host() == old(self).spec_last_host(),
            !r ==> self_unchanged(old(self), final(self)),
    {
        if !self.has_focus {
            return false;
        }
        let ret = match self.entry_edge {
            Some(e) => opposite(e),
            None => Edge::Right,
        };
        let xi = x as i64;
        let yi = y as i64;
        let w = self.screen_width as i64;
        let h = self.screen_height as i64;
        let t = self.threshold as i64;
        let near = match ret {
            Edge::Right => xi >= w - t,
            Edge::Left => xi < t,
            Edge::Top => yi < t,
            Edge::Bottom => yi >= h - t,
        };
        if near {
            self.has_focus = false;
            true
        } else {
            false
        }
    }

    /// Whether this agent currently owns the input.
    pub fn has_focus(&self) -> (r: bool)
        ensures
            r == self.spec_has_focus(),
    {
        self.has_focus
    }

    /// The position the agent last asked its OS to display.
    pub fn current_position(&self) -> (r: (i32, i32))
        ensures
            r.0 as int == self.spec_current().0,
            r.1 as int == self.spec_current().1,
    {
        (self.current_x, self.current_y)
    }
}

/// Nothing about the agent changed.
pub open spec fn self_unchanged(a: &AgentState, b: &AgentState) -> bool {
    &&& a.spec_has_focus() == b.spec_has_focus()
    &&& a.spec_current() == b.spec_current()
    &&& a.spec_last_host() == b.spec_last_host()
    &&& a.spec_entry_edge() == b.spec_entry_edge()
    &&& a.spec_screen() == b.spec_screen()
    &&& a.spec_threshold() == b.spec_threshold()
}

fn clamp_i32(v: i32, hi: u32) -> (r: i32)
    requires
        hi <= i32::MAX,
    ensures
        r as int == spec_clamp(v as int, hi as int),
{
    if v < 0 {
        0
    } else if (v as i64) > (hi as i64) {
        hi as i32
    } else {
        v
    }
}

fn clamp_i64(v: i64, hi: u32) -> (r: i32)
    requires
        hi <= i32::MAX,
    ensures
        r as int == spec_clamp(v as int, hi as int),
{
    if v < 0 {
        0
    } else if v > (hi as i64) {
        hi as i32
    } else {
        v as i32
    }
}

fn infer_entry_edge(x: i32, y: i32, w: u32, h: u32, t: u32) -> (r: Option<Edge>)
    requires
        w <= i32::MAX,
        h <= i32::MAX,
    ensures
        r == spec_infer_entry_edge(x as int, y as int, w as int, h as int, t as int),
{
    let xi = x as i64;
    let yi = y as i64;
    let wi = w as i64;
    let hi = h as i64;
    let ti = t as i64;
    if xi < ti {
        Some(Edge::Left)
    } else if xi >= wi - ti {
        Some(Edge::Right)
    } else if yi < ti {
        Some(Edge::Top)
    } else if yi >= hi - ti {
        Some(Edge::Bottom)
    } else {
        None
    }
}

fn opposite(e: Edge) -> (r: Edge)
    ensures
        r == spec_opposite(e),
{
    match e {
        Edge::Left => Edge::Right,
        Edge::Right => Edge::Left,
        Edge::Top => Edge::Bottom,
        Edge::Bottom => Edge::Top,
    }
}

} // verus!
