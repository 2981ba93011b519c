use multishiva::cli::{Args, Mode};

#[test]
fn test_args_validation_gui_and_simulate_conflict() {
    let args = Args {
        mode: None,
        config: None,
        gui: true,
        simulate: true,
        host: None,
    };
    assert!(args.validate().is_err());
}

#[test]
fn test_args_validation_mode_and_gui_conflict() {
    let args = Args {
        mode: Some(Mode::Host),
        config: None,
        gui: true,
        simulate: false,
        host: None,
    };
    assert!(args.validate().is_err());
}

#[test]
fn test_args_validation_valid_host_mode() {
    let args = Args {
        mode: Some(Mode::Host),
        config: Some("config.yml".to_string()),
        gui: false,
        simulate: false,
        host: None,
    };
    assert!(args.validate().is_ok());
}

#[test]
fn test_args_validation_valid_agent_mode() {
    let args = Args {
        mode: Some(Mode::Agent),
        config: Some("config.yml".to_string()),
        gui: false,
        simulate: false,
        host: None,
    };
    assert!(args.validate().is_ok());
}

#[test]
fn test_args_validation_valid_simulate_mode() {
    let args = Args {
        mode: None,
        config: None,
        gui: false,
        simulate: true,
        host: None,
    };
    assert!(args.validate().is_ok());
}

#[test]
fn test_args_validation_valid_gui_mode() {
    let args = Args {
        mode: None,
        config: None,
        gui: true,
        simulate: false,
        host: None,
    };
    assert!(args.validate().is_ok());
}

#[test]
fn test_mode_equality() {
    assert_eq!(Mode::Host, Mode::Host);
    assert_eq!(Mode::Agent, Mode::Agent);
    assert_ne!(Mode::Host, Mode::Agent);
}
