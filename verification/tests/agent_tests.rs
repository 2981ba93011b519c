use multishiva::agent::AgentState;
use multishiva::events::{Event, Key, MouseButton};

#[test]
fn test_agent_return_handoff() {
    // the agent's screen is 1366x768, threshold 10; the grant places the
    // cursor at (10, 540), host motion arrives as deltas, and the right
    // edge hands focus back
    let mut agent = AgentState::new(1366, 768, 10);
    assert!(!agent.has_focus());

    let inject = agent.on_host_event(&Event::FocusGrant {
        target: "agentA".to_string(),
        x: 10,
        y: 540,
    });
    assert_eq!(inject, Some(Event::MouseMove { x: 10, y: 540 }));
    assert!(agent.has_focus());
    assert_eq!(agent.current_position(), (10, 540));

    // the host cursor advances by one pixel: the agent advances by one too
    let inject = agent.on_host_event(&Event::MouseMove { x: 11, y: 540 });
    assert_eq!(inject, Some(Event::MouseMove { x: 11, y: 540 }));
    assert_eq!(agent.current_position(), (11, 540));

    // the agent's own capture reaches its right edge: focus goes home
    assert!(!agent.on_local_move(900, 540));
    assert!(agent.on_local_move(1360, 540));
    assert!(!agent.has_focus());
}

#[test]
fn test_agent_grant_clamps_to_screen() {
    let mut agent = AgentState::new(1366, 768, 10);
    let inject = agent.on_host_event(&Event::FocusGrant {
        target: "agentA".to_string(),
        x: 1910,
        y: 900,
    });
    assert_eq!(inject, Some(Event::MouseMove { x: 1366, y: 768 }));
    assert_eq!(agent.current_position(), (1366, 768));
}

#[test]
fn test_agent_delta_reconstruction_differing_screens() {
    // deltas, not the host's absolute coordinates, drive the agent cursor
    let mut agent = AgentState::new(800, 600, 10);
    agent.on_host_event(&Event::FocusGrant { target: "a".to_string(), x: 5, y: 300 });
    agent.on_host_event(&Event::MouseMove { x: 25, y: 290 });
    assert_eq!(agent.current_position(), (25, 290));
    agent.on_host_event(&Event::MouseMove { x: 20, y: 295 });
    assert_eq!(agent.current_position(), (20, 295));
    // a huge host jump clamps at the screen, it does not wrap
    agent.on_host_event(&Event::MouseMove { x: 5000, y: 295 });
    assert_eq!(agent.current_position(), (800, 295));
}

#[test]
fn test_agent_passthrough_only_while_focused() {
    let mut agent = AgentState::new(800, 600, 10);
    let press = Event::KeyPress { key: Key::KeyA };
    assert_eq!(agent.on_host_event(&press), None);
    assert_eq!(agent.on_host_event(&Event::MouseMove { x: 1, y: 1 }), None);

    agent.on_host_event(&Event::FocusGrant { target: "a".to_string(), x: 0, y: 0 });
    assert_eq!(agent.on_host_event(&press), Some(press.clone()));
    assert_eq!(
        agent.on_host_event(&Event::MouseButtonPress { button: MouseButton::Left }),
        Some(Event::MouseButtonPress { button: MouseButton::Left })
    );
    assert_eq!(
        agent.on_host_event(&Event::MouseScroll { delta_x: 1, delta_y: -1 }),
        Some(Event::MouseScroll { delta_x: 1, delta_y: -1 })
    );
    // control events are never injected
    assert_eq!(agent.on_host_event(&Event::FocusRelease), None);
    assert_eq!(agent.on_host_event(&Event::Heartbeat), None);
}

#[test]
fn test_agent_return_edge_opposes_entry_edge() {
    // focus arrives near the top edge, so the bottom edge hands it back
    let mut agent = AgentState::new(800, 600, 10);
    agent.on_host_event(&Event::FocusGrant { target: "a".to_string(), x: 400, y: 5 });
    assert!(!agent.on_local_move(400, 5));
    assert!(agent.on_local_move(400, 595));
    assert!(!agent.has_focus());
}
