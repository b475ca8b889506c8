//! What the library hands to a publisher: topic names, and the sink
//! interface a publisher implements.
use vstd::prelude::*;
use crate::error::AppError;
use crate::sensors::SensorData;

verus! {

/// The three topics of a device.
#[derive(Debug, Clone, Copy, PartialEq, Eq)]
pub enum Topic {
    /// Identification and configuration.
    Info,
    /// Every filtered value.
    Filtered,
    /// Angles, G-forces and rates.
    Derived,
}

/// Last segment of a topic.
pub open spec fn spec_topic_suffix(t: Topic) -> Seq<char> {
    match t {
        Topic::Info => "INFO"@,
        Topic::Filtered => "FILTERED"@,
        Topic::Derived => "DERIVED"@,
    }
}

/// Topic `<base>/IMU/<name>/<suffix>`.
pub open spec fn spec_topic(base: Seq<char>, name: Seq<char>, t: Topic) -> Seq<char> {
    base + "/IMU/"@ + name + "/"@ + spec_topic_suffix(t)
}

fn topic_suffix(t: Topic) -> (s: &'static str)
    ensures
        s@ == spec_topic_suffix(t),
{
    match t {
        Topic::Info => "INFO",
        Topic::Filtered => "FILTERED",
        Topic::Derived => "DERIVED",
    }
}

/// The topic of kind `t` for device `name` under `base`.
pub fn topic(base: &str, name: &str, t: Topic) -> (s: String)
    ensures
        s@ == spec_topic(base@, name@, t),
{
    let s = base.to_string();
    let s = s.concat("/IMU/");
    let s = s.concat(name);
    let s = s.concat("/");
    s.concat(topic_suffix(t))
}

/// A sink for samples. It decides for itself how it delivers them.
pub trait Publisher {
    /// Delivers one sample of the device `sensor_name`.
    fn publish(&self, sensor_name: &str, data: &SensorData) -> Result<(), AppError>;

    /// Whether the sink can deliver now.
    fn is_connected(&self) -> bool;

    /// Tries to restore the sink's connection.
    fn reconnect(&self) -> Result<(), AppError>;
}

/// A sink that drops every sample, for running without a broker.
#[derive(Debug, Clone, Copy)]
pub struct NoOpPublisher;

impl Publisher for NoOpPublisher {
    fn publish(&self, _sensor_name: &str, _data: &SensorData) -> Result<(), AppError> {
        Ok(())
    }

    fn is_connected(&self) -> bool {
        true
    }

    fn reconnect(&self) -> Result<(), AppError> {
        Ok(())
    }
}

} // verus!
