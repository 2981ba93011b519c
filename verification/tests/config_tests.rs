use multishiva::config::{build_topology, Config, ConfigError, ConfigMode, TlsConfig, CONFIG_VERSION};
use multishiva::topology::Edge;

#[test]
fn test_config_structure() {
    let config = Config::default();
    assert_eq!(config.version, CONFIG_VERSION);
    assert_eq!(config.self_name, "multishiva");
    assert_eq!(config.mode, ConfigMode::Host);
    assert_eq!(config.port, 53421);
    assert!(config.host_address.is_none());
}

#[test]
fn test_config_default_version() {
    let config = Config::default();
    assert_eq!(config.version, 1);
}

#[test]
fn test_config_default_values() {
    let config = Config::default();
    assert_eq!(config.port, 53421);
    assert!(matches!(config.mode, ConfigMode::Host));
}

#[test]
fn test_config_validate_empty_name() {
    let config = Config {
        self_name: String::new(),
        tls: TlsConfig {
            psk: "test-psk".to_string(),
        },
        ..Default::default()
    };
    assert!(config.validate().is_err());
}

#[test]
fn test_config_validate_empty_psk() {
    let config = Config {
        self_name: "test".to_string(),
        tls: TlsConfig { psk: String::new() },
        ..Default::default()
    };
    assert!(config.validate().is_err());
}

#[test]
fn test_config_validate_zero_port() {
    let config = Config {
        self_name: "test".to_string(),
        tls: TlsConfig {
            psk: "test-psk".to_string(),
        },
        port: 0,
        ..Default::default()
    };
    assert!(config.validate().is_err());
}

#[test]
fn test_config_validate_agent_without_host() {
    // agent mode without a host address is valid: discovery finds one
    let config = Config {
        self_name: "test".to_string(),
        tls: TlsConfig {
            psk: "test-psk".to_string(),
        },
        mode: ConfigMode::Agent,
        host_address: None,
        ..Default::default()
    };
    assert!(config.validate().is_ok());
}

#[test]
fn test_config_validate_valid() {
    let config = Config {
        self_name: "test".to_string(),
        tls: TlsConfig {
            psk: "test-psk".to_string(),
        },
        ..Default::default()
    };
    assert!(config.validate().is_ok());
}

#[test]
fn test_config_validate_error_kinds() {
    let mut config = Config::default();
    config.self_name = String::new();
    assert_eq!(config.validate(), Err(ConfigError::EmptyName));
    config.self_name = "host".to_string();
    assert_eq!(config.validate(), Err(ConfigError::EmptyPsk));
    config.tls.psk = "secret".to_string();
    config.port = 0;
    assert_eq!(config.validate(), Err(ConfigError::ZeroPort));
    config.port = 53421;
    assert_eq!(config.validate(), Ok(()));
}

#[test]
fn test_build_topology_from_edges() {
    let mut config = Config::default();
    config.self_name = "host".to_string();
    config.edges.push(("right".to_string(), "agent1".to_string()));
    config.edges.push(("sideways".to_string(), "ignored".to_string()));
    config.edges.push(("top".to_string(), "agent2".to_string()));

    let topo = build_topology(&config);
    assert_eq!(topo.machine_count(), 1);
    assert_eq!(
        topo.get_neighbor("host", &Edge::Right),
        Some(&"agent1".to_string())
    );
    assert_eq!(
        topo.get_neighbor("host", &Edge::Top),
        Some(&"agent2".to_string())
    );
    assert_eq!(topo.get_neighbor("host", &Edge::Left), None);
    assert_eq!(topo.get_neighbor("host", &Edge::Bottom), None);
}

#[test]
fn test_config_behavior_defaults() {
    let config = Config::default();
    assert_eq!(config.edge_threshold_px(), 10);
    assert_eq!(config.friction_ms(), 0);
}
