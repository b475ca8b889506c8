use sensors_to_mqtt::config::FilterConfig;
use sensors_to_mqtt::error::SensorError;
use sensors_to_mqtt::fixed::isqrt;
use sensors_to_mqtt::mpu6500::{
    accel_config, decode_axis, gyro_config, rate_divider, remove_gravity, tilt, MPU6500,
    MPU6500Settings, CALIBRATION_SAMPLES,
};
use sensors_to_mqtt::sensors::{RawReading, SampleKey, Tilt, Vec3};

fn settings(accel_range: u16, gyro_range: u16, sample_rate: u16) -> MPU6500Settings {
    MPU6500Settings {
        accel_range,
        gyro_range,
        sample_rate,
        accel_filter: FilterConfig::default(),
        accel_z_filter: FilterConfig::default(),
        gyro_filter: FilterConfig::default(),
    }
}

fn device(s: MPU6500Settings) -> MPU6500 {
    MPU6500::new("imu".to_string(), 0x68, true, s).unwrap()
}

fn reading(ax: i16, ay: i16, az: i16, gx: i16, gy: i16, gz: i16) -> RawReading {
    RawReading { ax, ay, az, gx, gy, gz }
}

fn angle_deg(num: i64, den: i64) -> f64 {
    (num as f64).atan2(den as f64).to_degrees()
}

#[test]
fn range_configuration_bytes() {
    let d = device(settings(8, 1000, 100));
    let w = d.init_writes();
    assert!(w.contains(&(0x1C, 0x10)));
    assert!(w.contains(&(0x1B, 0x10)));
    assert_eq!(w, vec![(0x6B, 0x00), (0x19, 9), (0x1C, 0x10), (0x1B, 0x10)]);
}

#[test]
fn sample_rate_divider_written() {
    let d = device(settings(16, 2000, 100));
    assert!(d.init_writes().contains(&(0x19, 9)));
    assert_eq!(rate_divider(1000), 0);
    assert_eq!(rate_divider(1), 231);
    assert_eq!(rate_divider(2000), 255);
}

#[test]
fn unknown_ranges_default_to_widest() {
    assert_eq!(accel_config(3), 0x18);
    assert_eq!(gyro_config(42), 0x18);
    assert_eq!(accel_config(2), 0x00);
    assert_eq!(gyro_config(500), 0x08);
}

#[test]
fn zero_sample_rate_is_refused() {
    let r = MPU6500::new("imu".to_string(), 0x68, true, settings(16, 2000, 0));
    assert!(matches!(r, Err(SensorError::ConfigError(_))));
}

#[test]
fn invalid_filter_parameters_are_refused() {
    let mut s = settings(16, 2000, 100);
    s.gyro_filter.measurement_noise = 0;
    let r = MPU6500::new("imu".to_string(), 0x68, true, s);
    assert!(matches!(r, Err(SensorError::ConfigError(_))));
}

#[test]
fn z_filter_is_tightened() {
    let d = device(settings(16, 2000, 100));
    assert_eq!(d.accel_filters.z.q, 5);
    assert_eq!(d.accel_filters.z.r, 35_000);
    assert_eq!(d.accel_filters.z.dead_zone, 2_500);
    assert_eq!(d.accel_filters.x.r, 50_000);
    assert_eq!(d.linear_filters.z.r, 35_000);
}

#[test]
fn z_bias_at_rest_sixteen_g() {
    let mut d = device(settings(16, 2000, 100));
    let mut samples = Vec::new();
    for i in 0..CALIBRATION_SAMPLES {
        let az = if i % 2 == 0 { 2100 } else { 2101 };
        samples.push(reading(10, -20, az, 3, -4, 7));
    }
    assert_eq!(d.calibrate(&samples), Ok(()));
    assert_eq!(d.calibration.accel_offsets, Vec3 { x: 10, y: -20, z: 2100 - 2048 });
    assert_eq!(d.calibration.gyro_offsets, Vec3 { x: 3, y: -4, z: 7 });
}

#[test]
fn calibration_needs_the_full_count() {
    let mut d = device(settings(16, 2000, 100));
    let samples = vec![reading(0, 0, 2048, 0, 0, 0); CALIBRATION_SAMPLES - 1];
    assert!(matches!(d.calibrate(&samples), Err(SensorError::CalibrationError(_))));
    assert_eq!(d.calibration.accel_offsets, Vec3 { x: 0, y: 0, z: 0 });
}

#[test]
fn calibration_zero_at_rest() {
    for range in [2u16, 4, 8, 16] {
        let mut d = device(settings(range, 250, 100));
        let still = reading(123, -456, 789, -11, 22, -33);
        assert_eq!(d.calibrate(&vec![still; CALIBRATION_SAMPLES]), Ok(()));
        for t in 0..5 {
            let s = d.read(&still, t);
            assert_eq!(s.accel_raw, Vec3 { x: 0, y: 0, z: 1_000_000 });
            assert_eq!(s.accel, Vec3 { x: 0, y: 0, z: 1_000_000 });
            assert_eq!(s.gyro, Vec3 { x: 0, y: 0, z: 0 });
        }
    }
}

#[test]
fn recalibration_resets_filters() {
    let mut d = device(settings(16, 2000, 100));
    d.read(&reading(2048, 0, 0, 0, 0, 0), 1);
    assert!(d.accel_filters.x.is_initialized());
    d.reset_filters();
    assert!(!d.accel_filters.x.is_initialized());
    assert!(!d.gyro_filters.z.is_initialized());
    assert!(!d.linear_filters.y.is_initialized());
    assert_eq!(d.calibrate(&vec![reading(0, 0, 2048, 0, 0, 0); CALIBRATION_SAMPLES]), Ok(()));
    assert_eq!(d.calibration.accel_offsets, Vec3 { x: 0, y: 0, z: 0 });
}

#[test]
fn first_read_scales_raw_counts() {
    let mut d = device(settings(16, 2000, 100));
    let s = d.read(&reading(2048, -1024, 0, 164, -82, 0), 42);
    assert_eq!(s.timestamp_ms, 42);
    assert_eq!(s.sample_rate, 100);
    assert_eq!(s.accel_raw, Vec3 { x: 1_000_000, y: -500_000, z: 0 });
    assert_eq!(s.gyro, Vec3 { x: 10_000_000, y: -5_000_000, z: 0 });
    let mut e = device(settings(2, 250, 100));
    let s = e.read(&reading(16384, 0, 0, 1312, 0, 0), 0);
    assert_eq!(s.accel_raw.x, 1_000_000);
    assert_eq!(s.gyro.x, 10_000_000);
}

#[test]
fn gravity_decomposition_keeps_z() {
    let lin = remove_gravity(Vec3 { x: 3_000_000, y: 4_000_000, z: 0 });
    assert_eq!(lin, Vec3 { x: 2_400_000, y: 3_200_000, z: 0 });
    let lin = remove_gravity(Vec3 { x: 0, y: 0, z: 1_000_000 });
    assert_eq!(lin, Vec3 { x: 0, y: 0, z: 1_000_000 });
    let lin = remove_gravity(Vec3 { x: 0, y: 0, z: 0 });
    assert_eq!(lin, Vec3 { x: 0, y: 0, z: 0 });
}

#[test]
fn level_angles() {
    let t = tilt(Vec3 { x: 0, y: 0, z: 1_000_000 }).unwrap();
    assert_eq!(t, Tilt { lean_num: 0, lean_den: 1_000_000, bank_num: 0, bank_den: 1_000_000 });
    assert!(angle_deg(t.lean_num, t.lean_den).abs() < 1e-9);
    assert!(angle_deg(t.bank_num, t.bank_den).abs() < 1e-9);
}

#[test]
fn tilted_angles() {
    let t = tilt(Vec3 { x: 3_000_000, y: 1_000_000, z: -4_000_000 }).unwrap();
    assert_eq!(t, Tilt { lean_num: 1_000_000, lean_den: 5_000_000, bank_num: 3_000_000, bank_den: 4_000_000 });
    let lean = angle_deg(t.lean_num, t.lean_den);
    let bank = angle_deg(t.bank_num, t.bank_den);
    assert!(lean > -90.0 && lean < 90.0 && bank > -90.0 && bank < 90.0);
    assert!((bank - 36.8698976).abs() < 1e-6);
}

#[test]
fn no_angles_when_all_zero() {
    assert_eq!(tilt(Vec3 { x: 0, y: 0, z: 0 }), None);
    let mut d = device(settings(16, 2000, 100));
    let s = d.read(&reading(0, 0, 0, 5, 5, 5), 0);
    assert_eq!(s.tilt, None);
}

#[test]
fn schema_is_stable_across_reads() {
    let mut d = device(settings(16, 2000, 100));
    let a = d.read(&reading(100, 2000, 1900, 1, 2, 3), 0);
    let b = d.read(&reading(-300, 1800, 2100, -4, 5, -6), 10);
    let keys = |s: &sensors_to_mqtt::sensors::SensorData| -> Vec<SampleKey> {
        s.entries().iter().map(|e| e.0).collect()
    };
    assert_eq!(keys(&a), keys(&b));
    assert_eq!(keys(&a).len(), 15);
    assert!(a.tilt.is_some() && b.tilt.is_some());
}

#[test]
fn derived_entries_are_angles_forces_and_rates() {
    let mut d = device(settings(16, 2000, 100));
    let s = d.read(&reading(100, 200, 2048, 10, 20, 30), 0);
    let keys: Vec<SampleKey> = s.derived_entries().iter().map(|e| e.0).collect();
    assert_eq!(
        keys,
        vec![
            SampleKey::GForceX,
            SampleKey::GForceY,
            SampleKey::GForceZ,
            SampleKey::RollRate,
            SampleKey::PitchRate,
            SampleKey::YawRate
        ]
    );
    let names: Vec<&str> = s.derived_entries().iter().map(|e| e.0.name()).collect();
    for n in names {
        assert!(n.contains("angle") || n.contains("g_force") || n.contains("rate"));
    }
    assert_eq!(s.derived_entries()[3].1, s.gyro.x);
    assert_eq!(s.derived_entries()[0].1, s.accel.x);
}

#[test]
fn big_endian_axis_decoding() {
    assert_eq!(decode_axis(0xFF, 0xFE), -2);
    assert_eq!(decode_axis(0x7F, 0xFF), 32767);
    assert_eq!(decode_axis(0x80, 0x00), -32768);
    assert_eq!(decode_axis(0x01, 0x02), 258);
}

#[test]
fn integer_square_root() {
    assert_eq!(isqrt(0), 0);
    assert_eq!(isqrt(15), 3);
    assert_eq!(isqrt(16), 4);
    assert_eq!(isqrt(1_000_000_000_000_000_000_000_000), 1_000_000_000_000);
}
