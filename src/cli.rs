//! Command-line options, as plain values.
use vstd::prelude::*;

verus! {

/// How the program runs.
#[derive(Debug, Clone, Copy, PartialEq, Eq)]
pub enum RunMode {
    /// Interactive terminal interface.
    Interactive,
    /// Background service, logs only.
    Daemon,
}

/// Verbosity of the log.
#[derive(Debug, Clone, Copy, PartialEq, Eq)]
pub enum LogLevel {
    Trace,
    Debug,
    Info,
    Warn,
    Error,
}

/// Name of a log level as a logger filter understands it.
pub open spec fn spec_filter_string(l: LogLevel) -> Seq<char> {
    match l {
        LogLevel::Trace => "trace"@,
        LogLevel::Debug => "debug"@,
        LogLevel::Info => "info"@,
        LogLevel::Warn => "warn"@,
        LogLevel::Error => "error"@,
    }
}

impl LogLevel {
    /// The level's name as a logger filter understands it.
    pub fn to_filter_string(&self) -> (s: &'static str)
        ensures
            s@ == spec_filter_string(*self),
    {
        match self {
            LogLevel::Trace => "trace",
            LogLevel::Debug => "debug",
            LogLevel::Info => "info",
            LogLevel::Warn => "warn",
            LogLevel::Error => "error",
        }
    }
}

/// Options given on the command line.
#[derive(Debug, Clone)]
pub struct Cli {
    pub mode: RunMode,
    /// Path of the configuration file.
    pub config: String,
    pub log_level: LogLevel,
    /// Update interval in milliseconds, overriding the configuration file.
    pub update_interval_ms: Option<u64>,
    /// Read sensors without publishing.
    pub no_mqtt: bool,
    /// Broker host, overriding the configuration file.
    pub mqtt_host: Option<String>,
    /// Broker port, overriding the configuration file.
    pub mqtt_port: Option<u16>,
}

impl Default for Cli {
    /// The options when none is given.
    fn default() -> (c: Cli)
        ensures
            c.mode == RunMode::Interactive,
            c.config@ == "config.yaml"@,
            c.log_level == LogLevel::Info,
            c.update_interval_ms is None,
            !c.no_mqtt,
            c.mqtt_host is None,
            c.mqtt_port is None,
    {
        Cli {
            mode: RunMode::Interactive,
            config: String::from_str("config.yaml"),
            log_level: LogLevel::Info,
            update_interval_ms: None,
            no_mqtt: false,
            mqtt_host: None,
            mqtt_port: None,
        }
    }
}

} // verus!
