//! The host's event routing.
//!
//! The host owns the physical devices and the authoritative focus state.
//! Every captured event passes through one decision: while focus is
//! remote, the raw event is forwarded to the focused peer and never
//! processed locally; while focus is local, only cursor moves matter, and
//! only to ask the [`FocusController`] whether the cursor crossed a
//! configured edge. Inbound traffic from agents is control only: a focus
//! release (or a failed connection) returns focus home, everything else
//! inbound is ignored.

use vstd::prelude::*;
use crate::events::{Event, EventV};
use crate::focus::{FocusActions, FocusController, FocusStateV};
use crate::topology::Topology;

verus! {

/// What the host does with one captured event.
#[derive(Debug, Clone, PartialEq, Eq)]
pub enum HostAction {
    /// Forward the event, unchanged, to the focused peer.
    Forward { peer: String, event: Event },
    /// Send this grant to the named peer and grab the local devices,
    /// together.
    Grant { peer: String, grant: Event },
    /// Process locally; nothing crosses the wire.
    Ignore,
}

/// The model of a [`HostAction`].
pub enum HostActionV {
    Forward { peer: Seq<char>, event: EventV },
    Grant { peer: Seq<char>, grant: EventV },
    Ignore,
}

impl View for HostAction {
    type V = HostActionV;

    open spec fn view(&self) -> HostActionV {
        match self {
            HostAction::Forward { peer, event } => (HostActionV::Forward {
                peer: peer@,
                event: event@,
            }),
            HostAction::Grant { peer, grant } => (HostActionV::Grant {
                peer: peer@,
                grant: grant@,
            }),
            HostAction::Ignore => HostActionV::Ignore,
        }
    }
}

/// Routes one captured event. While remote, every event is forwarded
/// verbatim to the focused peer. While local, a cursor move is put to the
/// controller, and a committed crossing comes back as a grant to send —
/// the caller must also grab the devices; every other event is the local
/// OS's business.
pub fn route_captured_event(
    ctrl: &mut FocusController,
    ev: &Event,
    topo: &Topology,
    screen_width: u32,
    screen_height: u32,
    threshold: u32,
    now_ms: u64,
) -> (r: HostAction)
    requires
        topo.wf(),
        threshold < screen_width,
        threshold < screen_height,
        screen_width <= i32::MAX,
        screen_height <= i32::MAX,
    ensures
        final(ctrl).spec_self_name() == old(ctrl).spec_self_name(),
        final(ctrl).spec_friction_ms() == old(ctrl).spec_friction_ms(),
        match old(ctrl).spec_state() {
            FocusStateV::Remote { peer, .. } => {
                &&& final(ctrl).spec_state() == old(ctrl).spec_state()
                &&& final(ctrl).spec_history() == old(ctrl).spec_history()
                &&& r@ == (HostActionV::Forward { peer, event: ev@ })
            },
            FocusStateV::Local => match ev@ {
                EventV::MouseMove { x, y } => {
                    let hit = topo.spec_detect_edge(
                        old(ctrl).spec_self_name(),
                        x,
                        y,
                        screen_width as int,
                        screen_height as int,
                        threshold as int,
                    );
                    match hit {
                        Some(e) => if crate::focus::spec_friction_commits(
                            old(ctrl).spec_pending(),
                            e,
                            now_ms as int,
                            old(ctrl).spec_friction_ms(),
                        ) {
                            let p = topo.spec_neighbor(old(ctrl).spec_self_name(), e)->Some_0;
                            let ep = crate::focus::spec_entry_point(
                                e,
                                x,
                                y,
                                screen_width as int,
                                screen_height as int,
                                threshold as int,
                            );
                            &&& final(ctrl).spec_state() == (FocusStateV::Remote {
                                peer: p,
                                entry_x: ep.0,
                                entry_y: ep.1,
                            })
                            &&& final(ctrl).spec_history() == old(ctrl).spec_history().push(p)
                            &&& r@ == (HostActionV::Grant {
                                peer: p,
                                grant: EventV::FocusGrant { target: p, x: ep.0, y: ep.1 },
                            })
                        } else {
                            &&& final(ctrl).spec_state() is Local
                            &&& final(ctrl).spec_history() == old(ctrl).spec_history()
                            &&& r@ is Ignore
                        },
                        None => {
                            &&& final(ctrl).spec_state() is Local
                            &&& final(ctrl).spec_history() == old(ctrl).spec_history()
                            &&& r@ is Ignore
                        },
                    }
                },
                _ => {
                    &&& final(ctrl).spec_state() == old(ctrl).spec_state()
                    &&& final(ctrl).spec_history() == old(ctrl).spec_history()
                    &&& r@ is Ignore
                },
            },
        },
{
    let remote_peer: Option<String> = match ctrl.state() {
        crate::focus::FocusState::Remote { peer, .. } => Some(peer.clone()),
        crate::focus::FocusState::Local => None,
    };
    match remote_peer {
        Some(peer) => HostAction::Forward { peer, event: clone_event(ev) },
        None => {
            match ev {
                Event::MouseMove { x, y } => {
                    let acts = ctrl.on_local_cursor(
                        *x,
                        *y,
                        topo,
                        screen_width,
                        screen_height,
                        threshold,
                        now_ms,
                    );
                    match acts.grant {
                        Some(grant) => {
                            let peer = match &grant {
                                Event::FocusGrant { target, .. } => target.clone(),
                                _ => {
                                    proof {
                                        assert(false);
                                    }
                                    String::new()
                                }
                            };
                            HostAction::Grant { peer, grant }
                        }
                        None => HostAction::Ignore,
                    }
                }
                _ => HostAction::Ignore,
            }
        }
    }
}

/// Handles one inbound event from a peer. A focus release from the
/// focused peer returns focus home and asks for an ungrab; every other
/// inbound event is control noise the host ignores — the agent-to-host
/// direction carries control, not injection.
pub fn route_inbound_event(ctrl: &mut FocusController, ev: &Event, from_peer: &str) -> (r:
    FocusActions)
    ensures
        final(ctrl).spec_self_name() == old(ctrl).spec_self_name(),
        final(ctrl).spec_friction_ms() == old(ctrl).spec_friction_ms(),
        match ev@ {
            EventV::FocusRelease => match old(ctrl).spec_state() {
                FocusStateV::Remote { peer, .. } => if peer == from_peer@ {
                    &&& final(ctrl).spec_state() is Local
                    &&& final(ctrl).spec_history() == old(ctrl).spec_history().push(
                        old(ctrl).spec_self_name(),
                    )
                    &&& r.grant is None
                    &&& !r.grab_devices
                    &&& r.ungrab_devices
                } else {
                    &&& final(ctrl).spec_state() == old(ctrl).spec_state()
                    &&& final(ctrl).spec_history() == old(ctrl).spec_history()
                    &&& r.is_none()
                },
                FocusStateV::Local => {
                    &&& final(ctrl).spec_state() is Local
                    &&& final(ctrl).spec_history() == old(ctrl).spec_history()
                    &&& r.is_none()
                },
            },
            _ => {
                &&& final(ctrl).spec_state() == old(ctrl).spec_state()
                &&& final(ctrl).spec_history() == old(ctrl).spec_history()
                &&& r.is_none()
            },
        },
{
    match ev {
        Event::FocusRelease => ctrl.on_focus_release(from_peer),
        _ => FocusActions::none(),
    }
}

/// The connection to a peer failed. If that peer held the focus, this is
/// an implicit focus release: focus comes home and the devices are
/// released.
pub fn on_peer_disconnected(ctrl: &mut FocusController, peer: &str) -> (r: FocusActions)
    ensures
        final(ctrl).spec_self_name() == old(ctrl).spec_self_name(),
        final(ctrl).spec_friction_ms() == old(ctrl).spec_friction_ms(),
        match old(ctrl).spec_state() {
            FocusStateV::Remote { peer: p, .. } => if p == peer@ {
                &&& final(ctrl).spec_state() is Local
                &&& final(ctrl).spec_history() == old(ctrl).spec_history().push(
                    old(ctrl).spec_self_name(),
                )
                &&& r.ungrab_devices
            } else {
                &&& final(ctrl).spec_state() == old(ctrl).spec_state()
                &&& final(ctrl).spec_history() == old(ctrl).spec_history()
                &&& r.is_none()
            },
            FocusStateV::Local => {
                &&& final(ctrl).spec_state() is Local
                &&& final(ctrl).spec_history() == old(ctrl).spec_history()
                &&& r.is_none()
            },
        },
{
    ctrl.on_focus_release(peer)
}

/// Rebuilds an event value; forwarding hands the peer exactly what was
/// captured.
pub fn clone_event(ev: &Event) -> (r: Event)
    ensures
        r@ == ev@,
{
    match ev {
        Event::MouseMove { x, y } => Event::MouseMove { x: *x, y: *y },
        Event::MouseClick { button } => Event::MouseClick { button: *button },
        Event::MouseButtonPress { button } => Event::MouseButtonPress { button: *button },
        Event::MouseButtonRelease { button } => Event::MouseButtonRelease { button: *button },
        Event::MouseScroll { delta_x, delta_y } => (Event::MouseScroll {
            delta_x: *delta_x,
            delta_y: *delta_y,
        }),
        Event::KeyPress { key } => Event::KeyPress { key: *key },
        Event::KeyRelease { key } => Event::KeyRelease { key: *key },
        Event::FocusGrant { target, x, y } => (Event::FocusGrant {
            target: target.clone(),
            x: *x,
            y: *y,
        }),
        Event::FocusRelease => Event::FocusRelease,
        Event::Heartbeat => Event::Heartbeat,
    }
}

} // verus!
