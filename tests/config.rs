use sensors_to_mqtt::cli::Cli;
use sensors_to_mqtt::config::{AppConfig, FilterConfig};
use sensors_to_mqtt::error::{AppError, ConfigError};

fn field_of(r: Result<(), AppError>) -> String {
    match r {
        Err(AppError::Config(ConfigError::InvalidValue { field, .. })) => field,
        other => panic!("unexpected result {:?}", other),
    }
}

#[test]
fn test_default_config() {
    let config = AppConfig::default();
    assert_eq!(config.mqtt.host, "localhost");
    assert_eq!(config.mqtt.port, 1883);
    assert_eq!(config.service.update_interval_ms, 10);
}

#[test]
fn test_validate_invalid_qos() {
    let mut config = AppConfig::default();
    config.mqtt.qos = 3;
    assert!(config.validate().is_err());
}

#[test]
fn test_validate_zero_update_interval() {
    let mut config = AppConfig::default();
    config.service.update_interval_ms = 0;
    assert!(config.validate().is_err());
}

#[test]
fn test_validate_empty_base_topic() {
    let mut config = AppConfig::default();
    config.mqtt.base_topic = String::new();
    assert!(config.validate().is_err());
}

#[test]
fn default_config_is_valid() {
    assert_eq!(AppConfig::default().validate(), Ok(()));
}

#[test]
fn validation_names_the_first_bad_field() {
    let mut config = AppConfig::default();
    config.mqtt.port = 0;
    config.mqtt.qos = -1;
    assert_eq!(field_of(config.validate()), "mqtt.port");
    config.mqtt.port = 1883;
    assert_eq!(field_of(config.validate()), "mqtt.qos");
    config.mqtt.qos = 2;
    config.mqtt.base_topic = String::new();
    assert_eq!(field_of(config.validate()), "mqtt.base_topic");
    config.service.update_interval_ms = 0;
    assert_eq!(field_of(config.validate()), "service.update_interval_ms");
}

#[test]
fn cli_overrides_replace_only_given_values() {
    let mut config = AppConfig::default();
    let mut cli = Cli::default();
    cli.update_interval_ms = Some(50);
    cli.mqtt_port = Some(8883);
    config.apply_cli_overrides(&cli);
    assert_eq!(config.service.update_interval_ms, 50);
    assert_eq!(config.mqtt.port, 8883);
    assert_eq!(config.mqtt.host, "localhost");
    cli.mqtt_host = Some("broker".to_string());
    config.apply_cli_overrides(&cli);
    assert_eq!(config.mqtt.host, "broker");
}

#[test]
fn default_filter_parameters() {
    let c = FilterConfig::default();
    assert_eq!(c.process_noise, 10);
    assert_eq!(c.measurement_noise, 50_000);
    assert_eq!(c.dead_zone, 5_000);
    assert!(c.is_valid());
    let bad = FilterConfig { measurement_noise: 0, ..c };
    assert!(!bad.is_valid());
}
