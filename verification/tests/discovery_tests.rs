use multishiva::discovery::{u16_to_string, PeerInfo, PeerRegistry, SERVICE_TYPE};

#[test]
fn test_service_type_constant() {
    assert_eq!(SERVICE_TYPE, "_multishiva._tcp.local.");
}

#[test]
fn test_peer_full_address() {
    let peer = PeerInfo::new("agent1".to_string(), "192.168.1.100".to_string(), 53421);
    assert_eq!(peer.name, "agent1");
    assert_eq!(peer.port, 53421);
    assert!(peer.psk_hash.is_none());
    assert_eq!(peer.full_address(), "192.168.1.100:53421");
}

#[test]
fn test_decimal_rendering() {
    assert_eq!(u16_to_string(0), "0");
    assert_eq!(u16_to_string(7), "7");
    assert_eq!(u16_to_string(53421), "53421");
    assert_eq!(u16_to_string(u16::MAX), "65535");
}

#[test]
fn test_registry_tracks_peers() {
    let mut reg = PeerRegistry::new("test-host".to_string());
    assert_eq!(reg.get_peers().len(), 0);
    assert!(!reg.has_peer("agent1"));
    assert!(reg.get_peer("agent1").is_none());

    reg.apply_resolved(PeerInfo::new(
        "agent1".to_string(),
        "192.168.1.100".to_string(),
        53421,
    ));
    assert_eq!(reg.get_peers().len(), 1);
    assert!(reg.has_peer("agent1"));
    assert!(reg.get_peer("agent1").is_some());

    reg.clear_peers();
    assert_eq!(reg.get_peers().len(), 0);
}

#[test]
fn test_registry_filters_self_and_replaces() {
    let mut reg = PeerRegistry::new("me".to_string());
    reg.apply_resolved(PeerInfo::new("me".to_string(), "127.0.0.1".to_string(), 1));
    assert_eq!(reg.get_peers().len(), 0);

    reg.apply_resolved(PeerInfo::new("peer".to_string(), "10.0.0.1".to_string(), 1));
    reg.apply_resolved(PeerInfo::new("peer".to_string(), "10.0.0.2".to_string(), 2));
    assert_eq!(reg.get_peers().len(), 1);
    assert_eq!(reg.get_peer("peer").unwrap().address, "10.0.0.2");
}

#[test]
fn test_registry_removal_and_bootstrap_choice() {
    let mut reg = PeerRegistry::new("me".to_string());
    assert!(reg.first_peer().is_none());

    reg.apply_resolved(PeerInfo::new("a".to_string(), "10.0.0.1".to_string(), 1));
    reg.apply_resolved(PeerInfo::new("b".to_string(), "10.0.0.2".to_string(), 2));
    assert_eq!(reg.first_peer().unwrap().name, "a");

    reg.apply_removed("a");
    assert!(!reg.has_peer("a"));
    assert_eq!(reg.first_peer().unwrap().name, "b");
    reg.apply_removed("b");
    // an empty directory is the bootstrap failure case: no host to dial
    assert!(reg.first_peer().is_none());
}
