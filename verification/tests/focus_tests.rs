use multishiva::events::Event;
use multishiva::focus::{FocusController, FocusManager, FocusState};
use multishiva::topology::{Edge, Position, Topology};

#[test]
fn focus_test_focus_manager_creation() {
    let manager = FocusManager::new("host".to_string());
    assert_eq!(manager.current(), "host");
}

#[test]
fn test_focus_manager_transfer_and_return() {
    let mut manager = FocusManager::new("host".to_string());
    manager.transfer_focus("agent1".to_string(), 100, 200);
    assert_eq!(manager.current(), "agent1");
    assert_eq!(manager.current_position(), (100, 200));
    assert!(manager.has_focus("agent1"));
    assert!(!manager.has_focus("host"));

    // transferring to the current holder changes nothing
    manager.transfer_focus("agent1".to_string(), 7, 7);
    assert_eq!(manager.current_position(), (100, 200));
    assert_eq!(manager.focus_history().len(), 2);

    manager.return_to_host();
    assert_eq!(manager.current(), "host");
    assert_eq!(manager.current_position(), (0, 0));
    let history = manager.focus_history();
    assert_eq!(history[0], "host");
    assert_eq!(history[1], "agent1");
    assert_eq!(history[2], "host");
}

fn host_topology() -> Topology {
    let mut topo = Topology::new();
    topo.add_machine("host".to_string(), Position { x: 0, y: 0 });
    topo.add_edge("host".to_string(), Edge::Right, "agentA".to_string());
    topo
}

#[test]
fn test_controller_edge_handoff_matching_screens() {
    // host screen 1920x1080, right edge mapped, threshold 10:
    // capture ending at (1915, 540) grants focus at the opposite edge
    let topo = host_topology();
    let mut ctrl = FocusController::new("host".to_string(), 0);

    let acts = ctrl.on_local_cursor(900, 540, &topo, 1920, 1080, 10, 0);
    assert!(acts.grant.is_none());
    assert!(!acts.grab_devices);

    let acts = ctrl.on_local_cursor(1915, 540, &topo, 1920, 1080, 10, 1);
    assert_eq!(
        acts.grant,
        Some(Event::FocusGrant { target: "agentA".to_string(), x: 10, y: 540 })
    );
    assert!(acts.grab_devices);
    assert!(!acts.ungrab_devices);
    assert!(ctrl.is_remote());
    match ctrl.state() {
        FocusState::Remote { peer, entry_x, entry_y } => {
            assert_eq!(peer, "agentA");
            assert_eq!((*entry_x, *entry_y), (10, 540));
        }
        FocusState::Local => panic!("the controller must be remote after the grant"),
    }
}

#[test]
fn test_controller_no_second_grant_while_remote() {
    let topo = host_topology();
    let mut ctrl = FocusController::new("host".to_string(), 0);
    let first = ctrl.on_local_cursor(1915, 540, &topo, 1920, 1080, 10, 0);
    assert!(first.grant.is_some() && first.grab_devices);

    // in the same band again: no duplicate grant, no second grab
    let again = ctrl.on_local_cursor(1916, 540, &topo, 1920, 1080, 10, 1);
    assert!(again.grant.is_none());
    assert!(!again.grab_devices && !again.ungrab_devices);
}

#[test]
fn test_controller_release_and_ungrab_together() {
    let topo = host_topology();
    let mut ctrl = FocusController::new("host".to_string(), 0);
    ctrl.on_local_cursor(1915, 540, &topo, 1920, 1080, 10, 0);

    // a release from a different peer is ignored
    let noise = ctrl.on_focus_release("stranger");
    assert!(!noise.ungrab_devices);
    assert!(ctrl.is_remote());

    let back = ctrl.on_focus_release("agentA");
    assert!(back.ungrab_devices);
    assert!(back.grant.is_none() && !back.grab_devices);
    assert!(!ctrl.is_remote());
}

#[test]
fn test_controller_friction_requires_dwelling() {
    let topo = host_topology();
    let mut ctrl = FocusController::new("host".to_string(), 50);

    // entering the band starts the timer; nothing is granted yet
    let acts = ctrl.on_local_cursor(1915, 540, &topo, 1920, 1080, 10, 1000);
    assert!(acts.grant.is_none());
    // still inside the band but before the budget: still nothing
    let acts = ctrl.on_local_cursor(1916, 540, &topo, 1920, 1080, 10, 1040);
    assert!(acts.grant.is_none());
    // the budget has elapsed inside the same band: the crossing commits
    let acts = ctrl.on_local_cursor(1917, 540, &topo, 1920, 1080, 10, 1051);
    assert!(acts.grant.is_some());
    assert!(acts.grab_devices);
}

#[test]
fn test_controller_friction_resets_when_leaving_band() {
    let topo = host_topology();
    let mut ctrl = FocusController::new("host".to_string(), 50);

    ctrl.on_local_cursor(1915, 540, &topo, 1920, 1080, 10, 1000);
    // moving away resets the timer
    ctrl.on_local_cursor(900, 540, &topo, 1920, 1080, 10, 1020);
    // back in the band: the dwell starts over, so this does not commit
    let acts = ctrl.on_local_cursor(1915, 540, &topo, 1920, 1080, 10, 1060);
    assert!(acts.grant.is_none());
}

#[test]
fn test_controller_kill_switch_forces_local() {
    let topo = host_topology();
    let mut ctrl = FocusController::new("host".to_string(), 0);

    // while local it is a no-op
    let idle = ctrl.on_kill_switch();
    assert!(idle.grant.is_none() && !idle.grab_devices && !idle.ungrab_devices);

    ctrl.on_local_cursor(1915, 540, &topo, 1920, 1080, 10, 0);
    assert!(ctrl.is_remote());
    let forced = ctrl.on_kill_switch();
    assert!(forced.ungrab_devices);
    assert!(!ctrl.is_remote());
}
