//! Error kinds of the library. Each variant carries a human-readable detail.
use vstd::prelude::*;

verus! {

/// Errors related to sensor operations.
#[derive(Debug, PartialEq, Eq)]
pub enum SensorError {
    I2cError(String),
    InitializationError(String),
    CalibrationError(String),
    ConfigError(String),
    ReadError(String),
    UnsupportedDriver(String),
}

/// Errors related to the message broker.
#[derive(Debug, PartialEq, Eq)]
pub enum MqttError {
    ConnectionError(String),
    PublishError(String),
    SubscriptionError(String),
    DisconnectionError(String),
    ConfigError(String),
}

/// Errors related to the application configuration.
#[derive(Debug, PartialEq, Eq)]
pub enum ConfigError {
    ReadError(String),
    ParseError(String),
    ValidationError(String),
    MissingField(String),
    InvalidValue { field: String, message: String },
}

/// Errors related to the terminal interface.
#[derive(Debug, PartialEq, Eq)]
pub enum UiError {
    InitializationError(String),
    RenderError(String),
    InputError(String),
}

/// Errors related to running the service.
#[derive(Debug, PartialEq, Eq)]
pub enum ServiceError {
    InitializationError(String),
    RuntimeError(String),
    SignalError(String),
}

/// Any error of the application.
#[derive(Debug, PartialEq, Eq)]
pub enum AppError {
    Sensor(SensorError),
    Mqtt(MqttError),
    Config(ConfigError),
    Ui(UiError),
    Service(ServiceError),
    Io(String),
    Other(String),
}

} // verus!
