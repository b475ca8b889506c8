//! Values that flow from a sensor to its consumers.
use vstd::prelude::*;
use crate::bus::I2CConfig;

verus! {

/// Three axis values in micro-units.
#[derive(Debug, Clone, Copy, PartialEq, Eq)]
pub struct Vec3 {
    pub x: i64,
    pub y: i64,
    pub z: i64,
}

/// One six-axis reading of raw sensor counts: accelerometer, then gyroscope.
#[derive(Debug, Clone, Copy, PartialEq, Eq)]
pub struct RawReading {
    pub ax: i16,
    pub ay: i16,
    pub az: i16,
    pub gx: i16,
    pub gy: i16,
    pub gz: i16,
}

impl RawReading {
    /// Axis `j` in the order accel X, Y, Z, gyro X, Y, Z.
    pub open spec fn axis(&self, j: int) -> int {
        if j == 0 {
            self.ax as int
        } else if j == 1 {
            self.ay as int
        } else if j == 2 {
            self.az as int
        } else if j == 3 {
            self.gx as int
        } else if j == 4 {
            self.gy as int
        } else {
            self.gz as int
        }
    }
}

/// The two tangents behind the attitude angles: the lean angle is
/// `atan(lean_num / lean_den)` and the bank angle `atan(bank_num / bank_den)`.
/// Both denominators are non-negative.
#[derive(Debug, Clone, Copy, PartialEq, Eq)]
pub struct Tilt {
    pub lean_num: i64,
    pub lean_den: i64,
    pub bank_num: i64,
    pub bank_den: i64,
}

/// One sample of a device.
#[derive(Debug, Clone, Copy, PartialEq, Eq)]
pub struct SensorData {
    /// Wall-clock time of the reading, in milliseconds since the Unix epoch.
    pub timestamp_ms: i64,
    /// Sample rate of the device, in Hz.
    pub sample_rate: u16,
    /// Filtered calibrated accelerations, in micro-g.
    pub accel_raw: Vec3,
    /// Filtered linear accelerations, in micro-g.
    pub accel: Vec3,
    /// Filtered angular rates, in micro-degrees per second.
    pub gyro: Vec3,
    /// Attitude, absent when all filtered calibrated accelerations are zero.
    pub tilt: Option<Tilt>,
}

} // verus!

verus! {

/// Keys of the keyed view of a sample.
#[derive(Debug, Clone, Copy, PartialEq, Eq)]
pub enum SampleKey {
    AccelRawX,
    AccelRawY,
    AccelRawZ,
    AccelX,
    AccelY,
    AccelZ,
    GForceX,
    GForceY,
    GForceZ,
    GyroX,
    GyroY,
    GyroZ,
    RollRate,
    PitchRate,
    YawRate,
    LeanAngle,
    BankAngle,
}

impl SampleKey {
    /// The key as it is published.
    pub open spec fn spec_name(&self) -> Seq<char> {
        match self {
            SampleKey::AccelRawX => "accel_raw_x"@,
            SampleKey::AccelRawY => "accel_raw_y"@,
            SampleKey::AccelRawZ => "accel_raw_z"@,
            SampleKey::AccelX => "accel_x"@,
            SampleKey::AccelY => "accel_y"@,
            SampleKey::AccelZ => "accel_z"@,
            SampleKey::GForceX => "g_force_x"@,
            SampleKey::GForceY => "g_force_y"@,
            SampleKey::GForceZ => "g_force_z"@,
            SampleKey::GyroX => "gyro_x"@,
            SampleKey::GyroY => "gyro_y"@,
            SampleKey::GyroZ => "gyro_z"@,
            SampleKey::RollRate => "roll_rate"@,
            SampleKey::PitchRate => "pitch_rate"@,
            SampleKey::YawRate => "yaw_rate"@,
            SampleKey::LeanAngle => "lean_angle"@,
            SampleKey::BankAngle => "bank_angle"@,
        }
    }

    /// The key as it is published.
    pub fn name(&self) -> (s: &'static str)
        ensures
            s@ == self.spec_name(),
    {
        match self {
            SampleKey::AccelRawX => "accel_raw_x",
            SampleKey::AccelRawY => "accel_raw_y",
            SampleKey::AccelRawZ => "accel_raw_z",
            SampleKey::AccelX => "accel_x",
            SampleKey::AccelY => "accel_y",
            SampleKey::AccelZ => "accel_z",
            SampleKey::GForceX => "g_force_x",
            SampleKey::GForceY => "g_force_y",
            SampleKey::GForceZ => "g_force_z",
            SampleKey::GyroX => "gyro_x",
            SampleKey::GyroY => "gyro_y",
            SampleKey::GyroZ => "gyro_z",
            SampleKey::RollRate => "roll_rate",
            SampleKey::PitchRate => "pitch_rate",
            SampleKey::YawRate => "yaw_rate",
            SampleKey::LeanAngle => "lean_angle",
            SampleKey::BankAngle => "bank_angle",
        }
    }

    /// Whether the key belongs to the derived topic: the angles, the
    /// G-forces and the named rates.
    pub open spec fn spec_is_derived(&self) -> bool {
        match self {
            SampleKey::GForceX | SampleKey::GForceY | SampleKey::GForceZ | SampleKey::RollRate
            | SampleKey::PitchRate | SampleKey::YawRate | SampleKey::LeanAngle
            | SampleKey::BankAngle => true,
            _ => false,
        }
    }

    pub fn is_derived(&self) -> (b: bool)
        ensures
            b == self.spec_is_derived(),
    {
        match self {
            SampleKey::GForceX | SampleKey::GForceY | SampleKey::GForceZ | SampleKey::RollRate
            | SampleKey::PitchRate | SampleKey::YawRate | SampleKey::LeanAngle
            | SampleKey::BankAngle => true,
            _ => false,
        }
    }
}

impl SensorData {
    /// The integer-valued entries of the sample, in publication order. The
    /// G-forces repeat the linear accelerations and the named rates repeat
    /// the gyroscope axes.
    pub open spec fn entry_seq(&self) -> Seq<(SampleKey, i64)> {
        seq![
            (SampleKey::AccelRawX, self.accel_raw.x),
            (SampleKey::AccelRawY, self.accel_raw.y),
            (SampleKey::AccelRawZ, self.accel_raw.z),
            (SampleKey::AccelX, self.accel.x),
            (SampleKey::GForceX, self.accel.x),
            (SampleKey::AccelY, self.accel.y),
            (SampleKey::GForceY, self.accel.y),
            (SampleKey::AccelZ, self.accel.z),
            (SampleKey::GForceZ, self.accel.z),
            (SampleKey::GyroX, self.gyro.x),
            (SampleKey::RollRate, self.gyro.x),
            (SampleKey::GyroY, self.gyro.y),
            (SampleKey::PitchRate, self.gyro.y),
            (SampleKey::GyroZ, self.gyro.z),
            (SampleKey::YawRate, self.gyro.z),
        ]
    }

    /// Every key present in the sample: the integer-valued keys, then the two
    /// angle keys when the attitude is known.
    pub open spec fn key_seq(&self) -> Seq<SampleKey> {
        let fixed = self.entry_seq().map_values(|e: (SampleKey, i64)| e.0);
        if self.tilt is Some {
            fixed + seq![SampleKey::LeanAngle, SampleKey::BankAngle]
        } else {
            fixed
        }
    }

    /// The integer-valued entries, in publication order.
    pub fn entries(&self) -> (r: Vec<(SampleKey, i64)>)
        ensures
            r@ == self.entry_seq(),
    {
        let mut r: Vec<(SampleKey, i64)> = Vec::new();
        r.push((SampleKey::AccelRawX, self.accel_raw.x));
        r.push((SampleKey::AccelRawY, self.accel_raw.y));
        r.push((SampleKey::AccelRawZ, self.accel_raw.z));
        r.push((SampleKey::AccelX, self.accel.x));
        r.push((SampleKey::GForceX, self.accel.x));
        r.push((SampleKey::AccelY, self.accel.y));
        r.push((SampleKey::GForceY, self.accel.y));
        r.push((SampleKey::AccelZ, self.accel.z));
        r.push((SampleKey::GForceZ, self.accel.z));
        r.push((SampleKey::GyroX, self.gyro.x));
        r.push((SampleKey::RollRate, self.gyro.x));
        r.push((SampleKey::GyroY, self.gyro.y));
        r.push((SampleKey::PitchRate, self.gyro.y));
        r.push((SampleKey::GyroZ, self.gyro.z));
        r.push((SampleKey::YawRate, self.gyro.z));
        assert(r@ =~= self.entry_seq());
        r
    }

    /// The integer-valued entries whose keys belong to the derived topic, in
    /// publication order.
    pub fn derived_entries(&self) -> (r: Vec<(SampleKey, i64)>)
        ensures
            r@ == self.entry_seq().filter(|e: (SampleKey, i64)| e.0.spec_is_derived()),
    {
        let all = self.entries();
        let mut r: Vec<(SampleKey, i64)> = Vec::new();
        let mut i: usize = 0;
        while i < all.len()
            invariant
                all@ == self.entry_seq(),
                i <= all@.len(),
                r@ == all@.take(i as int).filter(|e: (SampleKey, i64)| e.0.spec_is_derived()),
            decreases all@.len() - i,
        {
            let e = all[i];
            proof {
                let p = all@.take(i + 1);
                assert(p.drop_last() =~= all@.take(i as int));
                assert(p.last() == e);
                reveal(Seq::filter);
            }
            if e.0.is_derived() {
                r.push(e);
            }
            i = i + 1;
        }
        assert(all@.take(all@.len() as int) =~= all@);
        r
    }
}

} // verus!

verus! {

/// A raw reading and the wall-clock time it was taken, in milliseconds since
/// the Unix epoch.
#[derive(Debug, Clone, Copy, PartialEq, Eq)]
pub struct TimedReading {
    pub raw: RawReading,
    pub timestamp_ms: i64,
}

} // verus!

verus! {

/// Sensors to bring up, as configured.
#[derive(Debug)]
pub struct SensorConfig {
    pub sensors: Vec<SensorType>,
}

/// Kinds of sensor groups.
#[derive(Debug)]
pub enum SensorType {
    /// Devices on an I²C channel.
    I2C(I2CConfig),
}

} // verus!
