use sensors_to_mqtt::bus::{I2CBus, I2CConfig, I2CDevice};
use sensors_to_mqtt::config::{AppConfig, FilterConfig};
use sensors_to_mqtt::error::{AppError, SensorError};
use sensors_to_mqtt::mpu6500::MPU6500Settings;
use sensors_to_mqtt::sensors::{RawReading, SensorConfig, SensorType, TimedReading};
use sensors_to_mqtt::service::{remaining_ms, ReconnectThrottle, RunMode, SensorService};

fn settings() -> MPU6500Settings {
    MPU6500Settings {
        accel_range: 16,
        gyro_range: 2000,
        sample_rate: 100,
        accel_filter: FilterConfig::default(),
        accel_z_filter: FilterConfig::default(),
        gyro_filter: FilterConfig::default(),
    }
}

fn entry(name: &str, driver: &str, enabled: bool) -> I2CDevice {
    I2CDevice {
        name: name.to_string(),
        address: 0x68,
        driver: driver.to_string(),
        enabled,
        settings: Ok(settings()),
    }
}

fn timed(t: i64) -> Option<TimedReading> {
    Some(TimedReading { raw: RawReading { ax: 0, ay: 0, az: 2048, gx: 0, gy: 0, gz: 0 }, timestamp_ms: t })
}

#[test]
fn test_run_mode() {
    assert_eq!(RunMode::Interactive, RunMode::Interactive);
    assert_ne!(RunMode::Interactive, RunMode::Daemon);
}

#[test]
fn unknown_drivers_are_skipped() {
    let bus = I2CBus::new(I2CConfig {
        bus: "/dev/i2c-1".to_string(),
        devices: vec![entry("a", "mpu6500", true), entry("b", "bmp280", true), entry("c", "mpu6500", false)],
    })
    .unwrap();
    let names: Vec<&str> = bus.devices.iter().map(|d| d.get_name()).collect();
    assert_eq!(names, vec!["a", "c"]);
    assert!(!bus.devices[1].is_enabled());
}

#[test]
fn unreadable_settings_fail_the_bus() {
    let mut bad = entry("a", "mpu6500", true);
    bad.settings = Err("missing field `accel_range`".to_string());
    let r = I2CBus::new(I2CConfig { bus: "/dev/i2c-1".to_string(), devices: vec![bad] });
    assert!(matches!(r, Err(SensorError::ConfigError(_))));
    let mut ignored = entry("b", "other", true);
    ignored.settings = Err("not ours".to_string());
    let r = I2CBus::new(I2CConfig { bus: "/dev/i2c-1".to_string(), devices: vec![ignored] });
    assert_eq!(r.unwrap().devices.len(), 0);
}

fn service() -> SensorService {
    let sensors = SensorConfig {
        sensors: vec![
            SensorType::I2C(I2CConfig {
                bus: "/dev/i2c-1".to_string(),
                devices: vec![entry("a", "mpu6500", true), entry("b", "mpu6500", false), entry("c", "mpu6500", true)],
            }),
            SensorType::I2C(I2CConfig {
                bus: "/dev/i2c-2".to_string(),
                devices: vec![entry("d", "mpu6500", true), entry("e", "mpu6500", true)],
            }),
        ],
    };
    SensorService::new(AppConfig::default(), sensors).unwrap()
}

#[test]
fn samples_follow_bus_then_device_order() {
    let mut s = service();
    assert_eq!(s.get_sensor_names(), vec!["a", "b", "c", "d", "e"]);
    let readings = vec![vec![timed(1), timed(2), timed(3)], vec![None, timed(5)]];
    let out = s.read_sensors(&readings);
    let names: Vec<&str> = out.iter().map(|(n, _)| n.as_str()).collect();
    assert_eq!(names, vec!["a", "c", "e"]);
    let times: Vec<i64> = out.iter().map(|(_, d)| d.timestamp_ms).collect();
    assert_eq!(times, vec![1, 3, 5]);
    assert!(!s.sensor_buses[0].devices[1].accel_filters.x.is_initialized());
    assert!(!s.sensor_buses[1].devices[0].accel_filters.x.is_initialized());
    assert!(s.sensor_buses[1].devices[1].accel_filters.x.is_initialized());
}

#[test]
fn missing_readings_yield_nothing() {
    let mut s = service();
    let out = s.read_sensors(&vec![vec![timed(1)]]);
    assert_eq!(out.len(), 1);
    assert_eq!(out[0].0, "a");
}

#[test]
fn find_sensor_by_name() {
    let mut s = service();
    assert_eq!(s.find_sensor(&"d".to_string()), Some((1, 0)));
    assert_eq!(s.find_sensor(&"zz".to_string()), None);
    let (b, d) = s.find_sensor(&"c".to_string()).unwrap();
    s.sensor_buses[b].devices[d].set_enabled(false);
    let out = s.read_sensors(&vec![vec![timed(1), timed(2), timed(3)]]);
    assert_eq!(out.len(), 1);
}

#[test]
fn service_fails_on_bad_bus() {
    let mut bad = entry("a", "mpu6500", true);
    bad.settings = Err("bad".to_string());
    let sensors = SensorConfig {
        sensors: vec![SensorType::I2C(I2CConfig { bus: "/dev/i2c-1".to_string(), devices: vec![bad] })],
    };
    let r = SensorService::new(AppConfig::default(), sensors);
    assert!(matches!(r, Err(AppError::Sensor(SensorError::ConfigError(_)))));
}

#[test]
fn reconnect_gating() {
    let mut gate = ReconnectThrottle::new(1000, 0);
    let mut attempts = Vec::new();
    let mut t = 0u64;
    while t <= 3500 {
        if gate.at_loop_head(t, false) {
            attempts.push(t);
        }
        t += 100;
    }
    assert_eq!(attempts, vec![1000, 2000, 3000]);
    let mut connected = ReconnectThrottle::new(1000, 0);
    assert!(!connected.at_loop_head(5000, true));
    assert!(connected.at_loop_head(5000, false));
    assert!(!connected.at_loop_head(5999, false));
    assert!(connected.at_loop_head(6000, false));
}

#[test]
fn sleep_is_clamped_at_zero() {
    assert_eq!(remaining_ms(100, 30), 70);
    assert_eq!(remaining_ms(100, 100), 0);
    assert_eq!(remaining_ms(100, 250), 0);
}
