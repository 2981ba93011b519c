//! Who owns the input.
//!
//! [`FocusManager`] keeps the simple record: which machine has focus now,
//! where the cursor was when it got it, and the history of transfers.
//!
//! [`FocusController`] is the host's state machine. It decides, from each
//! locally captured cursor position, whether input ownership crosses to a
//! neighbor: a focus grant and a device grab are issued together on the
//! transition to remote, an ungrab on the way back, never a grant while
//! already remote, and a configured friction time must elapse inside the
//! same edge band — against a monotonic clock the caller supplies —
//! before a crossing commits.

use vstd::prelude::*;
use crate::events::{Event, EventV};
use crate::text::str_eq;
use crate::topology::{Edge, Topology};

verus! {

/// Tracks the machine that currently owns the input, and how it came to.
pub struct FocusManager {
    current_focus: String,
    host_machine: String,
    current_position: (i32, i32),
    focus_history: Vec<String>,
    friction_ms: u64,
}

impl FocusManager {
    /// The machine that has focus now.
    pub closed spec fn spec_current(&self) -> Seq<char> {
        self.current_focus@
    }

    /// The machine the manager was created for; focus returns here.
    pub closed spec fn spec_host(&self) -> Seq<char> {
        self.host_machine@
    }

    /// The cursor position recorded at the last transfer.
    pub closed spec fn spec_position(&self) -> (int, int) {
        (self.current_position.0 as int, self.current_position.1 as int)
    }

    /// Every focus holder so far, oldest first, the initial one included.
    pub closed spec fn spec_history(&self) -> Seq<Seq<char>> {
        self.focus_history@.map_values(|s: String| s@)
    }

    /// The configured friction time in milliseconds.
    pub closed spec fn spec_friction_ms(&self) -> int {
        self.friction_ms as int
    }

    /// A manager whose initial focus holder, and home machine, is
    /// `initial_focus`; the cursor starts at the origin and friction is
    /// off.
    pub fn new(initial_focus: String) -> (r: FocusManager)
        ensures
            r.spec_current() == initial_focus@,
            r.spec_host() == initial_focus@,
            r.spec_position() == (0int, 0int),
            r.spec_history() =~= seq![initial_focus@],
            r.spec_friction_ms() == 0,
    {
        let host = initial_focus.clone();
        let mut history: Vec<String> = Vec::new();
        history.push(initial_focus.clone());
        FocusManager {
            current_focus: initial_focus,
            host_machine: host,
            current_position: (0, 0),
            focus_history: history,
            friction_ms: 0,
        }
    }

    /// Moves focus to `target` at the given cursor position and appends
    /// it to the history; handing focus to the machine that already has
    /// it changes nothing. Any friction wait is the caller's to perform,
    /// against a monotonic clock, before calling.
    pub fn transfer_focus(&mut self, target: String, x: i32, y: i32)
        ensures
            final(self).spec_host() == old(self).spec_host(),
            final(self).spec_friction_ms() == old(self).spec_friction_ms(),
            old(self).spec_current() == target@ ==> {
                &&& final(self).spec_current() == old(self).spec_current()
                &&& final(self).spec_position() == old(self).spec_position()
                &&& final(self).spec_history() == old(self).spec_history()
            },
            old(self).spec_current() != target@ ==> {
                &&& final(self).spec_current() == target@
                &&& final(self).spec_position() == (x as int, y as int)
                &&& final(self).spec_history() == old(self).spec_history().push(target@)
            },
    {
        if str_eq(self.current_focus.as_str(), target.as_str()) {
            return ;
        }
        self.current_focus = target.clone();
        self.current_position = (x, y);
        self.focus_history.push(target);
        proof {
            assert(self.spec_history() =~= old(self).spec_history().push(
                self.current_focus@,
            ));
        }
    }

    /// Returns focus to the home machine, cursor at the origin.
    pub fn return_to_host(&mut self)
        ensures
            final(self).spec_host() == old(self).spec_host(),
            final(self).spec_friction_ms() == old(self).spec_friction_ms(),
            final(self).spec_current() == old(self).spec_host(),
            old(self).spec_current() == old(self).spec_host() ==> {
                &&& final(self).spec_position() == old(self).spec_position()
                &&& final(self).spec_history() == old(self).spec_history()
            },
            old(self).spec_current() != old(self).spec_host() ==> {
                &&& final(self).spec_position() == (0int, 0int)
                &&& final(self).spec_history() == old(self).spec_history().push(
                    old(self).spec_host(),
                )
            },
    {
        let host = self.host_machine.clone();
        self.transfer_focus(host, 0, 0);
    }

    /// The machine that has focus now.
    pub fn current(&self) -> (r: &str)
        ensures
            r@ == self.spec_current(),
    {
        self.current_focus.as_str()
    }

    /// Whether the named machine has focus now.
    pub fn has_focus(&self, machine: &str) -> (r: bool)
        ensures
            r == (self.spec_current() == machine@),
    {
        str_eq(self.current_focus.as_str(), machine)
    }

    /// The cursor position recorded at the last transfer.
    pub fn current_position(&self) -> (r: (i32, i32))
        ensures
            r.0 as int == self.spec_position().0,
            r.1 as int == self.spec_position().1,
    {
        self.current_position
    }

    /// Every focus holder so far, oldest first.
    pub fn focus_history(&self) -> (r: &Vec<String>)
        ensures
            r@.map_values(|s: String| s@) == self.spec_history(),
    {
        &self.focus_history
    }

    /// Sets the friction time in milliseconds; zero means immediate
    /// transfers.
    pub fn set_friction_ms(&mut self, ms: u64)
        ensures
            final(self).spec_friction_ms() == ms as int,
            final(self).spec_current() == old(self).spec_current(),
            final(self).spec_host() == old(self).spec_host(),
            final(self).spec_position() == old(self).spec_position(),
            final(self).spec_history() == old(self).spec_history(),
    {
        self.friction_ms = ms;
    }
}

/// The host's focus state: processing input locally, or forwarding all
/// of it to one remote peer.
#[derive(Debug, Clone)]
pub enum FocusState {
    Local,
    Remote { peer: String, entry_x: i32, entry_y: i32 },
}

/// The model of a [`FocusState`].
pub enum FocusStateV {
    Local,
    Remote { peer: Seq<char>, entry_x: int, entry_y: int },
}

impl View for FocusState {
    type V = FocusStateV;

    open spec fn view(&self) -> FocusStateV {
        match self {
            FocusState::Local => FocusStateV::Local,
            FocusState::Remote { peer, entry_x, entry_y } => (FocusStateV::Remote {
                peer: peer@,
                entry_x: *entry_x as int,
                entry_y: *entry_y as int,
            }),
        }
    }
}

/// What a controller step asks of its caller: at most a grant to send
/// and a grab or ungrab of the local devices. A grant is only ever
/// issued together with a grab.
pub struct FocusActions {
    /// A focus grant to send to the new owner.
    pub grant: Option<Event>,
    /// Stop delivering the physical devices to the local GUI.
    pub grab_devices: bool,
    /// Resume delivering them.
    pub ungrab_devices: bool,
}

impl FocusActions {
    /// A step that asks nothing.
    pub open spec fn is_none(&self) -> bool {
        self.grant is None && !self.grab_devices && !self.ungrab_devices
    }

    /// A step that asks nothing of the caller.
    pub fn none() -> (r: FocusActions)
        ensures
            r.is_none(),
    {
        FocusActions { grant: None, grab_devices: false, ungrab_devices: false }
    }
}

/// Where the cursor enters the neighbor after leaving through an edge:
/// the opposite edge's band, in the host's own coordinate system; the
/// agent clamps to its own screen.
pub open spec fn spec_entry_point(e: Edge, x: int, y: int, w: int, h: int, t: int) -> (int, int) {
    match e {
        Edge::Left => (w - t - 1, y),
        Edge::Right => (t, y),
        Edge::Top => (x, h - t - 1),
        Edge::Bottom => (x, t),
    }
}

/// Whether a crossing commits now: immediately with friction off, else
/// only after the cursor has stayed in the same edge band since `t0`,
/// `friction` milliseconds ago.
pub open spec fn spec_friction_commits(
    pending: Option<(Edge, int)>,
    e: Edge,
    now: int,
    friction: int,
) -> bool {
    friction == 0 || match pending {
        Some((pe, t0)) => pe == e && now - t0 >= friction,
        None => false,
    }
}

/// The host's focus state machine; see the module documentation.
pub struct FocusController {
    state: FocusState,
    self_name: String,
    history: Vec<String>,
    friction_ms: u64,
    pending: Option<(Edge, u64)>,
}

impl FocusController {
    /// Local, or remote with the entry point granted.
    pub closed spec fn spec_state(&self) -> FocusStateV {
        self.state@
    }

    /// The host's own machine name.
    pub closed spec fn spec_self_name(&self) -> Seq<char> {
        self.self_name@
    }

    /// Every focus holder so far, oldest first, the host first of all.
    pub closed spec fn spec_history(&self) -> Seq<Seq<char>> {
        self.history@.map_values(|s: String| s@)
    }

    /// The configured friction time in milliseconds.
    pub closed spec fn spec_friction_ms(&self) -> int {
        self.friction_ms as int
    }

    /// The edge band the cursor currently dwells in, and since when.
    pub closed spec fn spec_pending(&self) -> Option<(Edge, int)> {
        match self.pending {
            Some((e, t0)) => Some((e, t0 as int)),
            None => None,
        }
    }

    /// A controller for the named host, in the local state, with
    /// friction as given.
    pub fn new(self_name: String, friction_ms: u64) -> (r: FocusController)
        ensures
            r.spec_state() is Local,
            r.spec_self_name() == self_name@,
            r.spec_history() =~= seq![self_name@],
            r.spec_friction_ms() == friction_ms as int,
            r.spec_pending() is None,
    {
        let mut history: Vec<String> = Vec::new();
        history.push(self_name.clone());
        FocusController {
            state: FocusState::Local,
            self_name,
            history,
            friction_ms,
            pending: None,
        }
    }

    /// Feeds one locally captured cursor position, with the screen size,
    /// the edge threshold and the present monotonic time.
    ///
    /// While remote, nothing happens: events are the caller's to forward,
    /// and no second grant is ever issued, so re-entering the band of the
    /// same peer is idempotent. While local, a crossing into a configured
    /// edge band commits once friction is satisfied: the state turns
    /// remote, the peer joins the history, and the caller is asked to
    /// send the grant and grab the devices, together.
    pub fn on_local_cursor(
        &mut self,
        x: i32,
        y: i32,
        topo: &Topology,
        screen_width: u32,
        screen_height: u32,
        threshold: u32,
        now_ms: u64,
    ) -> (r: FocusActions)
        requires
            topo.wf(),
            threshold < screen_width,
            threshold < screen_height,
            screen_width <= i32::MAX,
            screen_height <= i32::MAX,
        ensures
            final(self).spec_self_name() == old(self).spec_self_name(),
            final(self).spec_friction_ms() == old(self).spec_friction_ms(),
            old(self).spec_state() is Remote ==> {
                &&& final(self).spec_state() == old(self).spec_state()
                &&& final(self).spec_history() == old(self).spec_history()
                &&& r.is_none()
            },
            old(self).spec_state() is Local ==> {
                let hit = topo.spec_detect_edge(
                    old(self).spec_self_name(),
                    x as int,
                    y as int,
                    screen_width as int,
                    screen_height as int,
                    threshold as int,
                );
                match hit {
                    None => {
                        &&& final(self).spec_state() is Local
                        &&& final(self).spec_history() == old(self).spec_history()
                        &&& final(self).spec_pending() is None
                        &&& r.is_none()
                    },
                    Some(e) => {
                        let p = topo.spec_neighbor(old(self).spec_self_name(), e)->Some_0;
                        let ep = spec_entry_point(
                            e,
                            x as int,
                            y as int,
                            screen_width as int,
                            screen_height as int,
                            threshold as int,
                        );
                        if spec_friction_commits(
                            old(self).spec_pending(),
                            e,
                            now_ms as int,
                            old(self).spec_friction_ms(),
                        ) {
                            &&& final(self).spec_state() == (FocusStateV::Remote {
                                peer: p,
                                entry_x: ep.0,
                                entry_y: ep.1,
                            })
                            &&& final(self).spec_history() == old(self).spec_history().push(p)
                            &&& final(self).spec_pending() is None
                            &&& match r.grant {
                                Some(g) => g@ == (EventV::FocusGrant {
                                    target: p,
                                    x: ep.0,
                                    y: ep.1,
                                }),
                                None => false,
                            }
                            &&& r.grab_devices
                            &&& !r.ungrab_devices
                        } else {
                            &&& final(self).spec_state() is Local
                            &&& final(self).spec_history() == old(self).spec_history()
                            &&& r.is_none()
                            &&& final(self).spec_pending() == Some(
                                (
                                    e,
                                    match old(self).spec_pending() {
                                        Some((pe, t0)) => if pe == e {
                                            t0
                                        } else {
                                            now_ms as int
                                        },
                                        None => now_ms as int,
                                    },
                                ),
                            )
                        }
                    },
                }
            },
    {
        match &self.state {
            FocusState::Remote { .. } => FocusActions::none(),
            FocusState::Local => {
                let name = self.self_name.clone();
                match topo.detect_edge(
                    name.as_str(),
                    x,
                    y,
                    screen_width,
                    screen_height,
                    threshold,
                ) {
                    None => {
                        self.pending = None;
                        FocusActions::none()
                    }
                    Some(e) => {
                        let commits: bool = if self.friction_ms == 0 {
                            true
                        } else {
                            match &self.pending {
                                Some((pe, t0)) => *pe == e && now_ms >= *t0 && now_ms - *t0
                                    >= self.friction_ms,
                                None => false,
                            }
                        };
                        if commits {
                            let peer = match topo.get_neighbor(name.as_str(), &e) {
                                Some(p) => p.clone(),
                                None => {
                                    // unreachable: a detected edge has a neighbor
                                    proof {
                                        assert(false);
                                    }
                                    String::new()
                                }
                            };
                            let (ex, ey) = entry_point(e, x, y, screen_width, screen_height,
                                threshold);
                            self.state = FocusState::Remote {
                                peer: peer.clone(),
                                entry_x: ex,
                                entry_y: ey,
                            };
                            self.history.push(peer.clone());
                            self.pending = None;
                            proof {
                                assert(self.spec_history() =~= old(self).spec_history().push(
                                    peer@,
                                ));
                            }
                            FocusActions {
                                grant: Some(Event::FocusGrant { target: peer, x: ex, y: ey }),
                                grab_devices: true,
                                ungrab_devices: false,
                            }
                        } else {
                            let t0: u64 = match &self.pending {
                                Some((pe, t0)) => if *pe == e {
                                    *t0
                                } else {
                                    now_ms
                                },
                                None => now_ms,
                            };
                            self.pending = Some((e, t0));
                            FocusActions::none()
                        }
                    }
                }
            }
        }
    }

    /// A focus release arrived from the peer that owns the input, or its
    /// connection failed: focus returns home and the devices are
    /// released. While local, or from any other peer, nothing happens.
    pub fn on_focus_release(&mut self, from_peer: &str) -> (r: FocusActions)
        ensures
            final(self).spec_self_name() == old(self).spec_self_name(),
            final(self).spec_friction_ms() == old(self).spec_friction_ms(),
            match old(self).spec_state() {
                FocusStateV::Remote { peer, .. } => if peer == from_peer@ {
                    &&& final(self).spec_state() is Local
                    &&& final(self).spec_history() == old(self).spec_history().push(
                        old(self).spec_self_name(),
                    )
                    &&& r.grant is None
                    &&& !r.grab_devices
                    &&& r.ungrab_devices
                } else {
                    &&& final(self).spec_state() == old(self).spec_state()
                    &&& final(self).spec_history() == old(self).spec_history()
                    &&& r.is_none()
                },
                FocusStateV::Local => {
                    &&& final(self).spec_state() is Local
                    &&& final(self).spec_history() == old(self).spec_history()
                    &&& r.is_none()
                },
            },
    {
        let matches_peer = match &self.state {
            FocusState::Remote { peer, .. } => str_eq(peer.as_str(), from_peer),
            FocusState::Local => false,
        };
        if matches_peer {
            self.state = FocusState::Local;
            self.history.push(self.self_name.clone());
            proof {
                assert(self.spec_history() =~= old(self).spec_history().push(
                    old(self).spec_self_name(),
                ));
            }
            FocusActions { grant: None, grab_devices: false, ungrab_devices: true }
        } else {
            FocusActions::none()
        }
    }

    /// The kill switch: focus comes home unconditionally and the devices
    /// are released, whether or not a release ever arrived. While local
    /// it is a no-op.
    pub fn on_kill_switch(&mut self) -> (r: FocusActions)
        ensures
            final(self).spec_self_name() == old(self).spec_self_name(),
            final(self).spec_friction_ms() == old(self).spec_friction_ms(),
            final(self).spec_state() is Local,
            match old(self).spec_state() {
                FocusStateV::Remote { .. } => {
                    &&& final(self).spec_history() == old(self).spec_history().push(
                        old(self).spec_self_name(),
                    )
                    &&& r.grant is None
                    &&& !r.grab_devices
                    &&& r.ungrab_devices
                },
                FocusStateV::Local => {
                    &&& final(self).spec_history() == old(self).spec_history()
                    &&& r.is_none()
                },
            },
    {
        let was_remote = match &self.state {
            FocusState::Remote { .. } => true,
            FocusState::Local => false,
        };
        if was_remote {
            self.state = FocusState::Local;
            self.history.push(self.self_name.clone());
            proof {
                assert(self.spec_history() =~= old(self).spec_history().push(
                    old(self).spec_self_name(),
                ));
            }
            FocusActions { grant: None, grab_devices: false, ungrab_devices: true }
        } else {
            FocusActions::none()
        }
    }

    /// The present state.
    pub fn state(&self) -> (r: &FocusState)
        ensures
            r@ == self.spec_state(),
    {
        &self.state
    }

    /// Whether input is currently forwarded to a remote peer.
    pub fn is_remote(&self) -> (r: bool)
        ensures
            r == (self.spec_state() is Remote),
    {
        match &self.state {
            FocusState::Remote { .. } => true,
            FocusState::Local => false,
        }
    }
}

/// Computes the entry point; see [`spec_entry_point`].
fn entry_point(e: Edge, x: i32, y: i32, w: u32, h: u32, t: u32) -> (r: (i32, i32))
    requires
        t < w,
        t < h,
        w <= i32::MAX,
        h <= i32::MAX,
    ensures
        (r.0 as int, r.1 as int) == spec_entry_point(e, x as int, y as int, w as int, h as int, t as int),
{
    match e {
        Edge::Left => (((w - t - 1) as i32), y),
        Edge::Right => (t as i32, y),
        Edge::Top => (x, ((h - t - 1) as i32)),
        Edge::Bottom => (x, t as i32),
    }
}

} // verus!
