use sensors_to_mqtt::cli::{Cli, LogLevel, RunMode};

#[test]
fn test_log_level_conversion() {
    assert_eq!(LogLevel::Info.to_filter_string(), "info");
    assert_eq!(LogLevel::Debug.to_filter_string(), "debug");
    assert_eq!(LogLevel::Error.to_filter_string(), "error");
}

#[test]
fn test_default_values() {
    let cli = Cli::default();
    assert_eq!(cli.mode, RunMode::Interactive);
    assert_eq!(cli.config, "config.yaml");
    assert_eq!(cli.log_level, LogLevel::Info);
    assert_eq!(cli.no_mqtt, false);
}

#[test]
fn log_level_names_cover_every_level() {
    assert_eq!(LogLevel::Trace.to_filter_string(), "trace");
    assert_eq!(LogLevel::Warn.to_filter_string(), "warn");
}
