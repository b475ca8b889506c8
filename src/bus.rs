//! A group of chips sharing one I²C channel, in declared order.
use vstd::prelude::*;
use crate::error::SensorError;
use crate::mpu6500::{
    settings_valid, spec_accel_bank, spec_uniform_bank, zero_calibration, MPU6500, MPU6500Settings,
};

verus! {

/// Devices of one channel as configured.
#[derive(Debug)]
pub struct I2CConfig {
    /// Channel identifier, such as a device path.
    pub bus: String,
    pub devices: Vec<I2CDevice>,
}

/// One configured device. Its settings are given as the driver's settings
/// record, or as the reason they could not be read.
#[derive(Debug)]
pub struct I2CDevice {
    pub name: String,
    pub address: u16,
    pub driver: String,
    pub enabled: bool,
    pub settings: Result<MPU6500Settings, String>,
}

/// The chips of one channel, in declared order.
#[derive(Debug)]
pub struct I2CBus {
    pub bus: String,
    pub devices: Vec<MPU6500>,
}

/// Whether a driver name is one this library knows.
pub open spec fn spec_supported(driver: Seq<char>) -> bool {
    driver == "mpu6500"@
}

/// Whether a driver name is one this library knows.
pub fn is_supported_driver(driver: &String) -> (b: bool)
    ensures
        b == spec_supported(driver@),
{
    let known = String::from_str("mpu6500");
    *driver == known
}

/// The chip that a supported entry with usable settings becomes.
pub open spec fn spec_device(d: I2CDevice, s: MPU6500Settings) -> MPU6500 {
    MPU6500 {
        address: d.address,
        name: d.name,
        enabled: d.enabled,
        settings: s,
        calibration: zero_calibration(),
        accel_filters: spec_accel_bank(s.accel_filter, s.accel_z_filter),
        linear_filters: spec_accel_bank(s.accel_filter, s.accel_z_filter),
        gyro_filters: spec_uniform_bank(s.gyro_filter),
    }
}

/// The chips that entries `ds` become, in order, skipping unknown drivers;
/// none when a known driver's settings are missing or unusable.
pub open spec fn spec_devices(ds: Seq<I2CDevice>) -> Option<Seq<MPU6500>>
    decreases ds.len(),
{
    if ds.len() == 0 {
        Some(Seq::empty())
    } else {
        match spec_devices(ds.drop_last()) {
            None => None,
            Some(prev) => {
                let d = ds.last();
                if !spec_supported(d.driver@) {
                    Some(prev)
                } else {
                    match d.settings {
                        Ok(s) => if settings_valid(s) {
                            Some(prev.push(spec_device(d, s)))
                        } else {
                            None
                        },
                        Err(_) => None,
                    }
                }
            },
        }
    }
}

impl I2CBus {
    pub open spec fn wf(&self) -> bool {
        forall|i: int| 0 <= i < self.devices@.len() ==> #[trigger] self.devices@[i].wf()
    }

    /// Makes the chips of a channel in declared order. Entries with an
    /// unknown driver are skipped; a known one whose settings are missing or
    /// unusable fails the whole channel.
    pub fn new(config: I2CConfig) -> (res: Result<I2CBus, SensorError>)
        ensures
            res is Ok <==> spec_devices(config.devices@) is Some,
            res matches Ok(b) ==> b.wf() && b.bus == config.bus && b.devices@
                == spec_devices(config.devices@)->Some_0,
    {
        let mut devices: Vec<MPU6500> = Vec::new();
        let mut i: usize = 0;
        while i < config.devices.len()
            invariant
                i <= config.devices@.len(),
                spec_devices(config.devices@.take(i as int)) == Some(devices@),
                forall|j: int| 0 <= j < devices@.len() ==> #[trigger] devices@[j].wf(),
            decreases config.devices@.len() - i,
        {
            let entry = &config.devices[i];
            proof {
                assert(config.devices@.take(i + 1).drop_last() =~= config.devices@.take(i as int));
            }
            if is_supported_driver(&entry.driver) {
                match &entry.settings {
                    Ok(s) => {
                        match MPU6500::new(entry.name.clone(), entry.address, entry.enabled, *s) {
                            Ok(d) => {
                                devices.push(d);
                            },
                            Err(e) => {
                                proof {
                                    lemma_devices_fail(config.devices@, i as int + 1);
                                }
                                return Err(e);
                            },
                        }
                    },
                    Err(msg) => {
                        proof {
                            lemma_devices_fail(config.devices@, i as int + 1);
                        }
                        return Err(SensorError::ConfigError(msg.clone()));
                    },
                }
            }
            i = i + 1;
        }
        proof {
            assert(config.devices@.take(config.devices@.len() as int) =~= config.devices@);
        }
        Ok(I2CBus { bus: config.bus, devices })
    }
}

/// Once a prefix fails, the whole sequence fails.
proof fn lemma_devices_fail(ds: Seq<I2CDevice>, n: int)
    requires
        0 <= n <= ds.len(),
        spec_devices(ds.take(n)) is None,
    ensures
        spec_devices(ds) is None,
    decreases ds.len() - n,
{
    if n < ds.len() {
        assert(ds.take(n + 1).drop_last() =~= ds.take(n));
        lemma_devices_fail(ds, n + 1);
    } else {
        assert(ds.take(n) =~= ds);
    }
}

} // verus!
