use multishiva::logging::{LogConfig, LogLevel};

#[test]
fn test_log_level_display() {
    assert_eq!(LogLevel::Error.as_str(), "error");
    assert_eq!(LogLevel::Warn.as_str(), "warn");
    assert_eq!(LogLevel::Info.as_str(), "info");
    assert_eq!(LogLevel::Debug.as_str(), "debug");
    assert_eq!(LogLevel::Trace.as_str(), "trace");
}

#[test]
fn test_default_log_config() {
    let config = LogConfig::default();
    assert_eq!(config.level, LogLevel::Info);
    assert!(config.enable_file);
    assert!(config.enable_console);
    assert!(config.log_dir.is_none());
    assert!(config.filter.is_none());
}

#[test]
fn test_init_logging_console_only() {
    let config = LogConfig {
        level: LogLevel::Debug,
        enable_file: false,
        enable_console: true,
        log_dir: None,
        filter: None,
    };

    assert_eq!(config.level, LogLevel::Debug);
    assert!(!config.enable_file);
    assert!(config.enable_console);
}
