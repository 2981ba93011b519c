use multishiva::topology::{Edge, Position, Topology};

#[test]
fn topology_test_topology_creation() {
    let topology = Topology::new();
    assert_eq!(topology.machine_count(), 0);
}

#[test]
fn test_topology_creation() {
    let topology = Topology::new();
    assert_eq!(topology.machine_count(), 0);
}

#[test]
fn test_topology_add_machine() {
    let mut topology = Topology::new();
    topology.add_machine("desktop".to_string(), Position { x: 0, y: 0 });
    topology.add_machine("laptop".to_string(), Position { x: 1, y: 0 });
    assert_eq!(topology.machine_count(), 2);
}

#[test]
fn test_topology_add_edge() {
    let mut topology = Topology::new();
    topology.add_machine("desktop".to_string(), Position { x: 0, y: 0 });
    topology.add_machine("laptop".to_string(), Position { x: 1, y: 0 });

    topology.add_edge("desktop".to_string(), Edge::Right, "laptop".to_string());

    let neighbor = topology.get_neighbor("desktop", &Edge::Right);
    assert_eq!(neighbor, Some(&"laptop".to_string()));
}

#[test]
fn test_topology_edge_detection_right() {
    let mut topology = Topology::new();
    topology.add_machine("desktop".to_string(), Position { x: 0, y: 0 });
    topology.add_machine("laptop".to_string(), Position { x: 1, y: 0 });
    topology.add_edge("desktop".to_string(), Edge::Right, "laptop".to_string());

    let edge = topology.detect_edge("desktop", 1919, 500, 1920, 1080, 3);
    assert_eq!(edge, Some(Edge::Right));
}

#[test]
fn test_topology_edge_detection_left() {
    let mut topology = Topology::new();
    topology.add_machine("laptop".to_string(), Position { x: 1, y: 0 });
    topology.add_machine("desktop".to_string(), Position { x: 0, y: 0 });
    topology.add_edge("laptop".to_string(), Edge::Left, "desktop".to_string());

    let edge = topology.detect_edge("laptop", 0, 500, 1920, 1080, 3);
    assert_eq!(edge, Some(Edge::Left));
}

#[test]
fn test_topology_edge_detection_top() {
    let mut topology = Topology::new();
    topology.add_machine("main".to_string(), Position { x: 0, y: 0 });
    topology.add_machine("top".to_string(), Position { x: 0, y: -1 });
    topology.add_edge("main".to_string(), Edge::Top, "top".to_string());

    let edge = topology.detect_edge("main", 500, 0, 1920, 1080, 3);
    assert_eq!(edge, Some(Edge::Top));
}

#[test]
fn test_topology_edge_detection_bottom() {
    let mut topology = Topology::new();
    topology.add_machine("main".to_string(), Position { x: 0, y: 0 });
    topology.add_machine("bottom".to_string(), Position { x: 0, y: 1 });
    topology.add_edge("main".to_string(), Edge::Bottom, "bottom".to_string());

    let edge = topology.detect_edge("main", 500, 1079, 1920, 1080, 3);
    assert_eq!(edge, Some(Edge::Bottom));
}

#[test]
fn test_topology_no_edge_detected_middle() {
    let mut topology = Topology::new();
    topology.add_machine("desktop".to_string(), Position { x: 0, y: 0 });

    let edge = topology.detect_edge("desktop", 960, 540, 1920, 1080, 3);
    assert!(edge.is_none());
}

#[test]
fn test_topology_edge_threshold() {
    let mut topology = Topology::new();
    topology.add_machine("desktop".to_string(), Position { x: 0, y: 0 });
    topology.add_machine("laptop".to_string(), Position { x: 1, y: 0 });
    topology.add_edge("desktop".to_string(), Edge::Right, "laptop".to_string());

    let edge = topology.detect_edge("desktop", 1916, 500, 1920, 1080, 3);
    assert!(edge.is_none());

    let edge = topology.detect_edge("desktop", 1917, 500, 1920, 1080, 3);
    assert_eq!(edge, Some(Edge::Right));
}

#[test]
fn test_topology_no_neighbor_configured() {
    let mut topology = Topology::new();
    topology.add_machine("desktop".to_string(), Position { x: 0, y: 0 });

    let edge = topology.detect_edge("desktop", 1919, 500, 1920, 1080, 3);
    assert!(edge.is_none());
}

#[test]
fn test_topology_calculate_relative_position() {
    let topology = Topology::new();

    let (rel_x, rel_y) = topology.calculate_relative_position(1919, 500, 1920, 1080);
    assert_eq!(rel_x, 0);
    assert_eq!(rel_y, 500);
}

#[test]
fn test_topology_corner_prefers_horizontal() {
    let mut topology = Topology::new();
    topology.add_machine("main".to_string(), Position { x: 0, y: 0 });
    topology.add_edge("main".to_string(), Edge::Right, "east".to_string());
    topology.add_edge("main".to_string(), Edge::Bottom, "south".to_string());

    // the bottom-right corner qualifies for both; the horizontal edge wins
    let edge = topology.detect_edge("main", 1919, 1079, 1920, 1080, 10);
    assert_eq!(edge, Some(Edge::Right));
}

#[test]
fn test_topology_replace_edge_neighbor() {
    let mut topology = Topology::new();
    topology.add_machine("main".to_string(), Position { x: 0, y: 0 });
    topology.add_edge("main".to_string(), Edge::Right, "first".to_string());
    topology.add_edge("main".to_string(), Edge::Right, "second".to_string());
    assert_eq!(
        topology.get_neighbor("main", &Edge::Right),
        Some(&"second".to_string())
    );
}
