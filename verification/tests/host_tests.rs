use multishiva::events::Event;
use multishiva::focus::FocusController;
use multishiva::host::{on_peer_disconnected, route_captured_event, route_inbound_event, HostAction};
use multishiva::topology::{Edge, Position, Topology};

fn host_topology() -> Topology {
    let mut topo = Topology::new();
    topo.add_machine("host".to_string(), Position { x: 0, y: 0 });
    topo.add_edge("host".to_string(), Edge::Right, "agentA".to_string());
    topo
}

#[test]
fn test_route_ignores_local_events_away_from_edges() {
    let topo = host_topology();
    let mut ctrl = FocusController::new("host".to_string(), 0);
    let act = route_captured_event(
        &mut ctrl,
        &Event::MouseMove { x: 900, y: 500 },
        &topo,
        1920,
        1080,
        10,
        0,
    );
    assert_eq!(act, HostAction::Ignore);
    let act = route_captured_event(
        &mut ctrl,
        &Event::KeyPress { key: multishiva::events::Key::KeyA },
        &topo,
        1920,
        1080,
        10,
        0,
    );
    assert_eq!(act, HostAction::Ignore);
}

#[test]
fn test_route_grants_on_edge_then_forwards_everything() {
    let topo = host_topology();
    let mut ctrl = FocusController::new("host".to_string(), 0);
    let act = route_captured_event(
        &mut ctrl,
        &Event::MouseMove { x: 1915, y: 540 },
        &topo,
        1920,
        1080,
        10,
        0,
    );
    match act {
        HostAction::Grant { peer, grant } => {
            assert_eq!(peer, "agentA");
            assert_eq!(
                grant,
                Event::FocusGrant { target: "agentA".to_string(), x: 10, y: 540 }
            );
        }
        other => panic!("expected a grant, got {:?}", other),
    }

    // while remote, every captured event goes to the focused peer verbatim
    let ev = Event::KeyPress { key: multishiva::events::Key::KeyQ };
    let act = route_captured_event(&mut ctrl, &ev, &topo, 1920, 1080, 10, 1);
    assert_eq!(act, HostAction::Forward { peer: "agentA".to_string(), event: ev });
}

#[test]
fn test_route_inbound_release_returns_focus() {
    let topo = host_topology();
    let mut ctrl = FocusController::new("host".to_string(), 0);
    route_captured_event(&mut ctrl, &Event::MouseMove { x: 1915, y: 540 }, &topo, 1920, 1080, 10, 0);
    assert!(ctrl.is_remote());

    // inbound non-control events are ignored by the host
    let acts = route_inbound_event(&mut ctrl, &Event::MouseMove { x: 1, y: 1 }, "agentA");
    assert!(!acts.ungrab_devices);
    assert!(ctrl.is_remote());

    let acts = route_inbound_event(&mut ctrl, &Event::FocusRelease, "agentA");
    assert!(acts.ungrab_devices);
    assert!(!ctrl.is_remote());
}

#[test]
fn test_focused_peer_disconnect_is_implicit_release() {
    let topo = host_topology();
    let mut ctrl = FocusController::new("host".to_string(), 0);
    route_captured_event(&mut ctrl, &Event::MouseMove { x: 1915, y: 540 }, &topo, 1920, 1080, 10, 0);

    let acts = on_peer_disconnected(&mut ctrl, "someone-else");
    assert!(!acts.ungrab_devices && ctrl.is_remote());

    let acts = on_peer_disconnected(&mut ctrl, "agentA");
    assert!(acts.ungrab_devices && !ctrl.is_remote());
}
