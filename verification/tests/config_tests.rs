use tf2_server_relay::config::Config;
use tf2_server_relay::error::RelayError;

#[test]
fn test_default_config() {
    let config = Config::default();
    assert_eq!(config.server.bind_address, "0.0.0.0:27050");
    assert_eq!(config.server.max_servers, 4);
    assert!(config.relay.broadcast_chat);
}

#[test]
fn test_config_validation() {
    let mut config = Config::default();
    assert!(config.validate().is_ok());

    config.server.max_servers = 5;
    assert!(config.validate().is_err());
}

#[test]
fn config_defaults_of_every_section() {
    let config = Config::default();
    assert_eq!(config.server.connection_timeout_ms, 5000);
    assert_eq!(config.server.heartbeat_interval_ms, 1000);
    assert_eq!(config.sync.position_sync_rate_hz, 20);
    assert_eq!(config.logging.level, "info");
    assert_eq!(config.tui.max_event_history, 1000);
    assert!(config.relay.enable_cross_healing);
}

fn message_of(r: Result<(), RelayError>) -> String {
    match r {
        Err(RelayError::Config(m)) => m,
        other => panic!("expected a configuration error, got {:?}", other),
    }
}

#[test]
fn config_rejects_zero_servers() {
    let mut config = Config::default();
    config.server.max_servers = 0;
    assert_eq!(message_of(config.validate()), "max_servers must be between 1 and 4, got 0");
}

#[test]
fn config_rejects_unknown_log_level() {
    let mut config = Config::default();
    config.logging.level = "loud".to_string();
    assert_eq!(
        message_of(config.validate()),
        "Invalid log level 'loud', must be one of: [\"trace\", \"debug\", \"info\", \"warn\", \"error\"]"
    );
}

#[test]
fn config_rejects_zero_sync_rate() {
    let mut config = Config::default();
    config.sync.position_sync_rate_hz = 0;
    assert!(matches!(config.validate(), Err(RelayError::Config(_))));
}
