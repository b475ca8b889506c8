//! Configuration records.
use vstd::prelude::*;
use crate::cli::Cli;
use crate::error::{AppError, ConfigError};
use crate::kalman::MAX_NOISE;

verus! {

/// Parameters of a filter, in micro-units.
#[derive(Debug, Clone, Copy, PartialEq, Eq)]
pub struct FilterConfig {
    pub process_noise: i64,
    pub measurement_noise: i64,
    pub dead_zone: i64,
}

impl FilterConfig {
    /// Parameters with which a filter can be made.
    pub open spec fn valid(&self) -> bool {
        &&& 0 <= self.process_noise <= MAX_NOISE
        &&& 0 < self.measurement_noise <= MAX_NOISE
        &&& 0 <= self.dead_zone
    }

    /// Whether the parameters are valid.
    pub fn is_valid(&self) -> (b: bool)
        ensures
            b == self.valid(),
    {
        0 <= self.process_noise && self.process_noise <= MAX_NOISE && 0 < self.measurement_noise
            && self.measurement_noise <= MAX_NOISE && 0 <= self.dead_zone
    }
}

impl Default for FilterConfig {
    /// Process noise 0.00001, measurement noise 0.05, dead zone 0.005.
    fn default() -> (c: FilterConfig)
        ensures
            c == (FilterConfig { process_noise: 10, measurement_noise: 50_000, dead_zone: 5_000 }),
    {
        FilterConfig { process_noise: 10, measurement_noise: 50_000, dead_zone: 5_000 }
    }
}

} // verus!

verus! {

/// Service runtime configuration.
#[derive(Debug, Clone)]
pub struct ServiceConfig {
    pub run_mode: String,
    pub update_interval_ms: u64,
    pub auto_reconnect: bool,
    pub max_reconnect_attempts: u32,
    pub reconnect_delay_ms: u64,
    pub max_reconnect_delay_ms: u64,
}

/// Logging configuration.
#[derive(Debug, Clone)]
pub struct LoggingConfig {
    pub level: String,
    pub file: Option<String>,
    pub colored: bool,
}

/// Broker configuration.
#[derive(Debug, Clone)]
pub struct MqttConfig {
    pub host: String,
    pub port: u16,
    pub base_topic: String,
    pub client_id: String,
    pub keep_alive_secs: u64,
    pub clean_session: bool,
    pub qos: i32,
    pub username: Option<String>,
    pub password: Option<String>,
}

/// Top-level configuration.
#[derive(Debug, Clone)]
pub struct AppConfig {
    pub service: ServiceConfig,
    pub logging: LoggingConfig,
    pub mqtt: MqttConfig,
}

pub fn default_run_mode() -> (s: String)
    ensures
        s@ == "interactive"@,
{
    String::from_str("interactive")
}

pub fn default_update_interval() -> (v: u64)
    ensures
        v == 10,
{
    10
}

pub fn default_true() -> (b: bool)
    ensures
        b,
{
    true
}

pub fn default_reconnect_delay() -> (v: u64)
    ensures
        v == 1000,
{
    1000
}

pub fn default_max_reconnect_delay() -> (v: u64)
    ensures
        v == 60000,
{
    60000
}

pub fn default_log_level() -> (s: String)
    ensures
        s@ == "info"@,
{
    String::from_str("info")
}

pub fn default_client_id() -> (s: String)
    ensures
        s@ == "sensors-to-mqtt"@,
{
    String::from_str("sensors-to-mqtt")
}

pub fn default_keep_alive() -> (v: u64)
    ensures
        v == 20,
{
    20
}

pub fn default_qos() -> (v: i32)
    ensures
        v == 1,
{
    1
}

impl Default for ServiceConfig {
    fn default() -> (c: ServiceConfig)
        ensures
            c.run_mode@ == "interactive"@,
            c.update_interval_ms == 10,
            c.auto_reconnect,
            c.max_reconnect_attempts == 0,
            c.reconnect_delay_ms == 1000,
            c.max_reconnect_delay_ms == 60000,
    {
        ServiceConfig {
            run_mode: default_run_mode(),
            update_interval_ms: default_update_interval(),
            auto_reconnect: true,
            max_reconnect_attempts: 0,
            reconnect_delay_ms: default_reconnect_delay(),
            max_reconnect_delay_ms: default_max_reconnect_delay(),
        }
    }
}

impl Default for LoggingConfig {
    fn default() -> (c: LoggingConfig)
        ensures
            c.level@ == "info"@,
            c.file is None,
            c.colored,
    {
        LoggingConfig { level: default_log_level(), file: None, colored: true }
    }
}

impl Default for MqttConfig {
    fn default() -> (c: MqttConfig)
        ensures
            c.host@ == "localhost"@,
            c.port == 1883,
            c.base_topic@ == "/GOLF86/SENSORS"@,
            c.client_id@ == "sensors-to-mqtt"@,
            c.keep_alive_secs == 20,
            c.clean_session,
            c.qos == 1,
            c.username is None,
            c.password is None,
    {
        MqttConfig {
            host: String::from_str("localhost"),
            port: 1883,
            base_topic: String::from_str("/GOLF86/SENSORS"),
            client_id: default_client_id(),
            keep_alive_secs: default_keep_alive(),
            clean_session: true,
            qos: default_qos(),
            username: None,
            password: None,
        }
    }
}

impl Default for AppConfig {
    fn default() -> (c: AppConfig)
        ensures
            c.service.run_mode@ == "interactive"@,
            c.service.update_interval_ms == 10,
            c.service.reconnect_delay_ms == 1000,
            c.logging.level@ == "info"@,
            c.mqtt.host@ == "localhost"@,
            c.mqtt.port == 1883,
            c.mqtt.base_topic@ == "/GOLF86/SENSORS"@,
            c.mqtt.qos == 1,
    {
        AppConfig {
            service: ServiceConfig::default(),
            logging: LoggingConfig::default(),
            mqtt: MqttConfig::default(),
        }
    }
}

/// The field named by a validation error; empty for any other error.
pub open spec fn invalid_field(e: AppError) -> Seq<char> {
    match e {
        AppError::Config(ConfigError::InvalidValue { field, message }) => field@,
        _ => Seq::empty(),
    }
}

fn invalid(field: &str, message: &str) -> (e: AppError)
    ensures
        invalid_field(e) == field@,
{
    AppError::Config(
        ConfigError::InvalidValue { field: field.to_string(), message: message.to_string() },
    )
}

impl AppConfig {
    /// Whether the configuration is usable.
    pub open spec fn valid(&self) -> bool {
        &&& self.service.update_interval_ms > 0
        &&& self.mqtt.port > 0
        &&& 0 <= self.mqtt.qos <= 2
        &&& self.mqtt.base_topic@.len() > 0
    }

    /// Checks the configuration. The first violated rule, in the order
    /// update interval, port, quality of service, base topic, names the field
    /// of the error.
    pub fn validate(&self) -> (r: Result<(), AppError>)
        ensures
            r is Ok <==> self.valid(),
            self.service.update_interval_ms == 0 ==> invalid_field(r->Err_0)
                == "service.update_interval_ms"@,
            self.service.update_interval_ms > 0 && self.mqtt.port == 0 ==> invalid_field(r->Err_0)
                == "mqtt.port"@,
            self.service.update_interval_ms > 0 && self.mqtt.port > 0 && !(0 <= self.mqtt.qos <= 2)
                ==> invalid_field(r->Err_0) == "mqtt.qos"@,
            self.service.update_interval_ms > 0 && self.mqtt.port > 0 && 0 <= self.mqtt.qos <= 2
                && self.mqtt.base_topic@.len() == 0 ==> invalid_field(r->Err_0)
                == "mqtt.base_topic"@,
    {
        if self.service.update_interval_ms == 0 {
            return Err(invalid("service.update_interval_ms", "must be greater than 0"));
        }
        if self.mqtt.port == 0 {
            return Err(invalid("mqtt.port", "must be greater than 0"));
        }
        if self.mqtt.qos < 0 || self.mqtt.qos > 2 {
            return Err(invalid("mqtt.qos", "must be 0, 1, or 2"));
        }
        if self.mqtt.base_topic.as_str().is_empty() {
            return Err(invalid("mqtt.base_topic", "cannot be empty"));
        }
        Ok(())
    }

    /// Replaces the update interval, broker host and broker port by those
    /// given on the command line, where given.
    pub fn apply_cli_overrides(&mut self, cli: &Cli)
        ensures
            *final(self) == (AppConfig {
                service: ServiceConfig {
                    update_interval_ms: match cli.update_interval_ms {
                        Some(v) => v,
                        None => old(self).service.update_interval_ms,
                    },
                    ..old(self).service
                },
                mqtt: MqttConfig {
                    host: match cli.mqtt_host {
                        Some(h) => h,
                        None => old(self).mqtt.host,
                    },
                    port: match cli.mqtt_port {
                        Some(p) => p,
                        None => old(self).mqtt.port,
                    },
                    ..old(self).mqtt
                },
                ..*old(self)
            }),
    {
        if let Some(interval) = cli.update_interval_ms {
            self.service.update_interval_ms = interval;
        }
        if let Some(host) = &cli.mqtt_host {
            self.mqtt.host = host.clone();
        }
        if let Some(port) = cli.mqtt_port {
            self.mqtt.port = port;
        }
    }
}

} // verus!
