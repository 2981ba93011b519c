use multishiva::events::Event;
use multishiva::simulation::{SimulationError, SimulationMode, VirtualMachine};

#[test]
fn simulation_test_virtual_machine_creation() {
    let vm = VirtualMachine::new("test".to_string(), 1920, 1080);
    assert_eq!(vm.name(), "test");
    assert_eq!(vm.screen_size(), (1920, 1080));
}

#[test]
fn simulation_test_simulation_mode_creation() {
    let sim = SimulationMode::new();
    assert_eq!(sim.virtual_machine_count(), 0);
}

#[test]
fn test_virtual_machine_cursor_and_bounds() {
    let mut vm = VirtualMachine::new("test-vm".to_string(), 800, 600);
    assert_eq!(vm.cursor_position(), (400, 300));
    vm.set_cursor_position(100, 200);
    assert_eq!(vm.cursor_position(), (100, 200));
    // out-of-bounds positions clamp to the screen rectangle
    vm.set_cursor_position(1000, -5);
    assert_eq!(vm.cursor_position(), (800, 0));
}

#[test]
fn test_virtual_machine_event_recording() {
    let mut vm = VirtualMachine::new("test-vm".to_string(), 1920, 1080);
    vm.inject_event(Event::MouseMove { x: 500, y: 300 });
    vm.inject_event(Event::Heartbeat);
    assert_eq!(vm.cursor_position(), (500, 300));
    assert_eq!(vm.recorded_events().len(), 2);
    assert_eq!(vm.recorded_events()[0], Event::MouseMove { x: 500, y: 300 });
    vm.clear_events();
    assert_eq!(vm.recorded_events().len(), 0);
}

#[test]
fn test_simulation_add_get_remove() {
    let mut sim = SimulationMode::new();
    sim.add_virtual_machine("vm1".to_string(), 1920, 1080);
    sim.add_virtual_machine("vm2".to_string(), 800, 600);
    assert_eq!(sim.virtual_machine_count(), 2);
    assert_eq!(sim.get_virtual_machine("vm1").unwrap().name(), "vm1");
    assert!(sim.get_virtual_machine("nonexistent").is_none());

    if let Some(vm) = sim.get_virtual_machine_mut("vm1") {
        vm.set_cursor_position(1, 2);
    }
    assert_eq!(sim.get_virtual_machine("vm1").unwrap().cursor_position(), (1, 2));

    sim.remove_virtual_machine("vm1");
    assert_eq!(sim.virtual_machine_count(), 1);
    assert!(sim.get_virtual_machine("vm1").is_none());
}

#[test]
fn test_simulation_event_routing_and_statistics() {
    let mut sim = SimulationMode::new();
    sim.add_virtual_machine("vm1".to_string(), 1920, 1080);
    sim.set_network_latency(10);
    assert_eq!(sim.network_latency(), 10);

    sim.send_event_to("vm1", Event::MouseMove { x: 400, y: 500 }).unwrap();
    assert_eq!(
        sim.get_virtual_machine("vm1").unwrap().cursor_position(),
        (400, 500)
    );
    assert_eq!(
        sim.send_event_to("vm2", Event::Heartbeat),
        Err(SimulationError::UnknownMachine)
    );

    let stats = sim.get_statistics();
    assert_eq!(stats.total_events_sent, 1);
    assert_eq!(stats.virtual_machine_count, 1);
}

#[test]
fn test_simulation_replacing_a_machine_resets_it() {
    let mut sim = SimulationMode::new();
    sim.add_virtual_machine("vm1".to_string(), 1920, 1080);
    sim.send_event_to("vm1", Event::Heartbeat).unwrap();
    assert_eq!(sim.get_virtual_machine("vm1").unwrap().recorded_events().len(), 1);

    sim.add_virtual_machine("vm1".to_string(), 800, 600);
    assert_eq!(sim.virtual_machine_count(), 1);
    let vm = sim.get_virtual_machine("vm1").unwrap();
    assert_eq!(vm.screen_size(), (800, 600));
    assert_eq!(vm.recorded_events().len(), 0);
}
