use http2amcp::config::{Config, LogLevel, DEFAULT_PORT, DEFAULT_SERVER_PORT};

#[test]
fn default_config() {
    let config = Config::default();
    assert_eq!(config.host, "localhost");
    assert_eq!(config.port, 5250);
    assert_eq!(config.server_port, 9731);
    assert_eq!(config.log_level, "info");
    assert_eq!(DEFAULT_PORT, 5250);
    assert_eq!(DEFAULT_SERVER_PORT, 9731);
    assert_eq!(config.level(), LogLevel::Info);
}

#[test]
fn lower_case_names_of_levels() {
    assert_eq!(LogLevel::from_lowercase("trace"), LogLevel::Trace);
    assert_eq!(LogLevel::from_lowercase("debug"), LogLevel::Debug);
    assert_eq!(LogLevel::from_lowercase("info"), LogLevel::Info);
    assert_eq!(LogLevel::from_lowercase("warn"), LogLevel::Warn);
    assert_eq!(LogLevel::from_lowercase("warning"), LogLevel::Warn);
    assert_eq!(LogLevel::from_lowercase("error"), LogLevel::Error);
}

#[test]
fn unknown_names_stand_for_info() {
    for name in ["", "off", "verbose", "Trace", "DEBUG", " debug", "debug ", "warnings", "err"] {
        assert_eq!(LogLevel::from_lowercase(name), LogLevel::Info, "{:?}", name);
    }
}

#[test]
fn names_of_levels_in_any_case() {
    assert_eq!(LogLevel::from_name("TRACE"), LogLevel::Trace);
    assert_eq!(LogLevel::from_name("Debug"), LogLevel::Debug);
    assert_eq!(LogLevel::from_name("debug"), LogLevel::Debug);
    assert_eq!(LogLevel::from_name("WaRn"), LogLevel::Warn);
    assert_eq!(LogLevel::from_name("WARNING"), LogLevel::Warn);
    assert_eq!(LogLevel::from_name("Error"), LogLevel::Error);
    assert_eq!(LogLevel::from_name("INFO"), LogLevel::Info);
    assert_eq!(LogLevel::from_name("nonsense"), LogLevel::Info);
    assert_eq!(LogLevel::from_name(""), LogLevel::Info);
}

#[test]
fn config_level_reads_log_level() {
    let config = Config {
        host: "10.0.0.7".to_string(),
        port: 5251,
        server_port: 8080,
        log_level: "DEBUG".to_string(),
    };
    assert_eq!(config.level(), LogLevel::Debug);
    let config = Config { log_level: "loud".to_string(), ..config };
    assert_eq!(config.level(), LogLevel::Info);
    assert_eq!(config.host, "10.0.0.7");
    assert_eq!(config.port, 5251);
    assert_eq!(config.server_port, 8080);
}
