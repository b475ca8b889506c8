//! Driver logic for one MPU-6500-class chip: bring-up, calibration, scaling,
//! gravity decomposition, filtering and attitude.
//!
//! The bus transactions themselves are performed by the caller: this module
//! says what to write and computes from what was read.
use vstd::prelude::*;
use crate::config::FilterConfig;
use crate::error::SensorError;
use crate::fixed::{
    abs, div_trunc, isqrt, lemma_root_dominates, lemma_trunc_div_bounds, root, trunc_div, SCALE,
};
use crate::kalman::{lemma_next_wf, KalmanFilter1D, MAX_MEASUREMENT};
use crate::sensors::{RawReading, SampleKey, SensorData, Tilt, Vec3};

verus! {

/// Power management register; writing zero wakes the chip.
pub const PWR_MGMT_1: u8 = 0x6B;
/// Sample-rate divider register.
pub const SMPLRT_DIV: u8 = 0x19;
/// Accelerometer range register.
pub const ACCEL_CONFIG: u8 = 0x1C;
/// Gyroscope range register.
pub const GYRO_CONFIG: u8 = 0x1B;
pub const ACCEL_XOUT_H: u8 = 0x3B;
pub const ACCEL_YOUT_H: u8 = 0x3D;
pub const ACCEL_ZOUT_H: u8 = 0x3F;
pub const GYRO_XOUT_H: u8 = 0x43;
pub const GYRO_YOUT_H: u8 = 0x45;
pub const GYRO_ZOUT_H: u8 = 0x47;

/// Number of readings averaged by a calibration.
pub const CALIBRATION_SAMPLES: usize = 300;

/// Settings of one chip.
#[derive(Debug, Clone, Copy, PartialEq, Eq)]
pub struct MPU6500Settings {
    /// Accelerometer full scale in g: 2, 4, 8 or 16 (anything else means 16).
    pub accel_range: u16,
    /// Gyroscope full scale in degrees per second: 250, 500, 1000 or 2000
    /// (anything else means 2000).
    pub gyro_range: u16,
    /// Sample rate in Hz.
    pub sample_rate: u16,
    pub accel_filter: FilterConfig,
    pub accel_z_filter: FilterConfig,
    pub gyro_filter: FilterConfig,
}

/// Accelerometer configuration byte for a range in g.
pub open spec fn spec_accel_config(range: u16) -> u8 {
    if range == 16 {
        0x18
    } else if range == 8 {
        0x10
    } else if range == 4 {
        0x08
    } else if range == 2 {
        0x00
    } else {
        0x18
    }
}

/// Gyroscope configuration byte for a range in degrees per second.
pub open spec fn spec_gyro_config(range: u16) -> u8 {
    if range == 2000 {
        0x18
    } else if range == 1000 {
        0x10
    } else if range == 500 {
        0x08
    } else if range == 250 {
        0x00
    } else {
        0x18
    }
}

/// Raw counts per g for an accelerometer range; also the raw count of 1 g.
pub open spec fn spec_accel_counts(range: u16) -> i64 {
    if range == 16 {
        2048
    } else if range == 8 {
        4096
    } else if range == 4 {
        8192
    } else if range == 2 {
        16384
    } else {
        2048
    }
}

/// Raw counts per ten degrees per second for a gyroscope range.
pub open spec fn spec_gyro_counts_x10(range: u16) -> i64 {
    if range == 2000 {
        164
    } else if range == 1000 {
        328
    } else if range == 500 {
        656
    } else if range == 250 {
        1312
    } else {
        164
    }
}

/// Sample-rate divider: `1000 / rate - 1`, truncated to a byte.
pub open spec fn spec_rate_divider(rate: u16) -> u8 {
    ((1000int / (rate as int) - 1) % 256) as u8
}

/// Accelerometer configuration byte for a range in g.
pub fn accel_config(range: u16) -> (b: u8)
    ensures
        b == spec_accel_config(range),
{
    match range {
        16 => 0x18,
        8 => 0x10,
        4 => 0x08,
        2 => 0x00,
        _ => 0x18,
    }
}

/// Gyroscope configuration byte for a range in degrees per second.
pub fn gyro_config(range: u16) -> (b: u8)
    ensures
        b == spec_gyro_config(range),
{
    match range {
        2000 => 0x18,
        1000 => 0x10,
        500 => 0x08,
        250 => 0x00,
        _ => 0x18,
    }
}

/// Raw counts per g for an accelerometer range.
pub fn accel_counts(range: u16) -> (c: i64)
    ensures
        c == spec_accel_counts(range),
{
    match range {
        16 => 2048,
        8 => 4096,
        4 => 8192,
        2 => 16384,
        _ => 2048,
    }
}

/// Raw counts per ten degrees per second for a gyroscope range.
pub fn gyro_counts_x10(range: u16) -> (c: i64)
    ensures
        c == spec_gyro_counts_x10(range),
{
    match range {
        2000 => 164,
        1000 => 328,
        500 => 656,
        250 => 1312,
        _ => 164,
    }
}

/// Sample-rate divider for a rate in Hz.
pub fn rate_divider(rate: u16) -> (d: u8)
    requires
        rate > 0,
    ensures
        d == spec_rate_divider(rate),
{
    let q: u16 = 1000 / rate;
    if q == 0 {
        255
    } else {
        ((q - 1) % 256) as u8
    }
}

/// The signed 16-bit value of a big-endian byte pair.
pub open spec fn spec_be_i16(hi: u8, lo: u8) -> int {
    let u = hi as int * 256 + lo as int;
    if u >= 32768 {
        u - 65536
    } else {
        u
    }
}

/// Decodes a big-endian signed 16-bit register pair.
pub fn decode_axis(hi: u8, lo: u8) -> (v: i16)
    ensures
        v as int == spec_be_i16(hi, lo),
{
    let u: i32 = hi as i32 * 256 + lo as i32;
    if u >= 32768 {
        (u - 65536) as i16
    } else {
        u as i16
    }
}

/// High-byte register of axis `j`, in the order accel X, Y, Z, gyro X, Y, Z.
pub open spec fn spec_axis_register(j: int) -> u8 {
    if j == 0 {
        ACCEL_XOUT_H
    } else if j == 1 {
        ACCEL_YOUT_H
    } else if j == 2 {
        ACCEL_ZOUT_H
    } else if j == 3 {
        GYRO_XOUT_H
    } else if j == 4 {
        GYRO_YOUT_H
    } else {
        GYRO_ZOUT_H
    }
}

/// High-byte register of axis `j`; two bytes are read from it.
pub fn axis_register(j: usize) -> (reg: u8)
    requires
        j < 6,
    ensures
        reg == spec_axis_register(j as int),
{
    match j {
        0 => ACCEL_XOUT_H,
        1 => ACCEL_YOUT_H,
        2 => ACCEL_ZOUT_H,
        3 => GYRO_XOUT_H,
        4 => GYRO_YOUT_H,
        _ => GYRO_ZOUT_H,
    }
}

/// The register writes of bring-up, in order, as (register, value) pairs.
pub open spec fn spec_init_writes(s: MPU6500Settings) -> Seq<(u8, u8)> {
    seq![
        (PWR_MGMT_1, 0u8),
        (SMPLRT_DIV, spec_rate_divider(s.sample_rate)),
        (ACCEL_CONFIG, spec_accel_config(s.accel_range)),
        (GYRO_CONFIG, spec_gyro_config(s.gyro_range)),
    ]
}

} // verus!

verus! {

/// Parameters of the Z accelerometer filter: process noise halved,
/// measurement noise times 0.7 (rounded up, so it stays positive), dead zone
/// halved.
pub open spec fn spec_z_tightened(c: FilterConfig) -> FilterConfig {
    FilterConfig {
        process_noise: (c.process_noise / 2) as i64,
        measurement_noise: ((7 * c.measurement_noise + 9) / 10) as i64,
        dead_zone: (c.dead_zone / 2) as i64,
    }
}

/// Parameters of the Z accelerometer filter derived from `c`.
pub fn z_tightened(c: FilterConfig) -> (t: FilterConfig)
    requires
        c.valid(),
    ensures
        t == spec_z_tightened(c),
        t.valid(),
{
    FilterConfig {
        process_noise: c.process_noise / 2,
        measurement_noise: (7 * c.measurement_noise + 9) / 10,
        dead_zone: c.dead_zone / 2,
    }
}

/// A fresh filter for parameters `c`.
pub open spec fn spec_filter_for(c: FilterConfig) -> KalmanFilter1D {
    crate::kalman::fresh(c.process_noise, c.measurement_noise, c.dead_zone)
}

/// A fresh filter for parameters `c`.
pub fn filter_for(c: FilterConfig) -> (f: KalmanFilter1D)
    requires
        c.valid(),
    ensures
        f == spec_filter_for(c),
        f.wf(),
{
    KalmanFilter1D::new(c.process_noise, c.measurement_noise).with_dead_zone(c.dead_zone)
}

/// Three filters, one per axis.
#[derive(Debug, Clone, Copy)]
pub struct FilterBank {
    pub x: KalmanFilter1D,
    pub y: KalmanFilter1D,
    pub z: KalmanFilter1D,
}

impl FilterBank {
    pub open spec fn wf(&self) -> bool {
        self.x.wf() && self.y.wf() && self.z.wf()
    }

    /// Outputs of the three filters for measurements `v`.
    pub open spec fn output(&self, v: Vec3) -> Vec3 {
        Vec3 { x: self.x.output(v.x), y: self.y.output(v.y), z: self.z.output(v.z) }
    }

    /// The bank after measurements `v`.
    pub open spec fn next(&self, v: Vec3) -> FilterBank {
        FilterBank { x: self.x.next(v.x), y: self.y.next(v.y), z: self.z.next(v.z) }
    }

    /// The bank after a reset.
    pub open spec fn cleared(&self) -> FilterBank {
        FilterBank { x: self.x.cleared(), y: self.y.cleared(), z: self.z.cleared() }
    }

    /// Feeds one measurement to each axis.
    pub fn update(&mut self, v: Vec3) -> (out: Vec3)
        requires
            old(self).wf(),
            abs(v.x as int) <= MAX_MEASUREMENT,
            abs(v.y as int) <= MAX_MEASUREMENT,
            abs(v.z as int) <= MAX_MEASUREMENT,
        ensures
            final(self).wf(),
            *final(self) == old(self).next(v),
            out == old(self).output(v),
    {
        let x = self.x.update(v.x);
        let y = self.y.update(v.y);
        let z = self.z.update(v.z);
        Vec3 { x, y, z }
    }

    /// Resets the three filters.
    pub fn reset(&mut self)
        requires
            old(self).wf(),
        ensures
            final(self).wf(),
            *final(self) == old(self).cleared(),
    {
        self.x.reset();
        self.y.reset();
        self.z.reset();
    }
}

/// Bank for the accelerometer: X and Y from `xy`, Z from `z` tightened.
pub open spec fn spec_accel_bank(xy: FilterConfig, z: FilterConfig) -> FilterBank {
    FilterBank {
        x: spec_filter_for(xy),
        y: spec_filter_for(xy),
        z: spec_filter_for(spec_z_tightened(z)),
    }
}

/// Bank with the same parameters on every axis.
pub open spec fn spec_uniform_bank(c: FilterConfig) -> FilterBank {
    FilterBank { x: spec_filter_for(c), y: spec_filter_for(c), z: spec_filter_for(c) }
}

/// Zero offsets of one chip, in raw counts.
#[derive(Debug, Clone, Copy, PartialEq, Eq)]
pub struct CalibrationData {
    pub accel_offsets: Vec3,
    pub gyro_offsets: Vec3,
}

/// Largest magnitude of an offset that a calibration can produce.
pub const MAX_OFFSET: i64 = 65536;

impl CalibrationData {
    pub open spec fn wf(&self) -> bool {
        &&& abs(self.accel_offsets.x as int) <= MAX_OFFSET
        &&& abs(self.accel_offsets.y as int) <= MAX_OFFSET
        &&& abs(self.accel_offsets.z as int) <= MAX_OFFSET
        &&& abs(self.gyro_offsets.x as int) <= MAX_OFFSET
        &&& abs(self.gyro_offsets.y as int) <= MAX_OFFSET
        &&& abs(self.gyro_offsets.z as int) <= MAX_OFFSET
    }
}

/// All offsets zero.
pub open spec fn zero_calibration() -> CalibrationData {
    CalibrationData {
        accel_offsets: Vec3 { x: 0, y: 0, z: 0 },
        gyro_offsets: Vec3 { x: 0, y: 0, z: 0 },
    }
}

/// One MPU-6500 chip: its identity, settings, offsets and filter state.
#[derive(Debug)]
pub struct MPU6500 {
    /// 7-bit bus address.
    pub address: u16,
    pub name: String,
    pub enabled: bool,
    pub settings: MPU6500Settings,
    pub calibration: CalibrationData,
    /// Filters over calibrated accelerations, the inputs of the attitude.
    pub accel_filters: FilterBank,
    /// Filters over gravity-free accelerations, reported as G-forces.
    pub linear_filters: FilterBank,
    pub gyro_filters: FilterBank,
}

/// Whether settings are usable: a positive sample rate and valid filter
/// parameters.
pub open spec fn settings_valid(s: MPU6500Settings) -> bool {
    &&& s.sample_rate > 0
    &&& s.accel_filter.valid()
    &&& s.accel_z_filter.valid()
    &&& s.gyro_filter.valid()
}

impl MPU6500 {
    pub open spec fn wf(&self) -> bool {
        &&& settings_valid(self.settings)
        &&& self.calibration.wf()
        &&& self.accel_filters.wf()
        &&& self.linear_filters.wf()
        &&& self.gyro_filters.wf()
    }

    /// A chip with zero offsets and fresh filters. Fails with a configuration
    /// error when the settings are not usable.
    pub fn new(name: String, address: u16, enabled: bool, settings: MPU6500Settings) -> (res:
        Result<MPU6500, SensorError>)
        ensures
            settings_valid(settings) <==> res is Ok,
            res is Err ==> res->Err_0 is ConfigError,
            res matches Ok(d) ==> d.wf() && d == (MPU6500 {
                address,
                name,
                enabled,
                settings,
                calibration: zero_calibration(),
                accel_filters: spec_accel_bank(settings.accel_filter, settings.accel_z_filter),
                linear_filters: spec_accel_bank(settings.accel_filter, settings.accel_z_filter),
                gyro_filters: spec_uniform_bank(settings.gyro_filter),
            }),
    {
        if settings.sample_rate == 0 {
            return Err(SensorError::ConfigError(String::from_str("sample_rate must be greater than 0")));
        }
        if !settings.accel_filter.is_valid() || !settings.accel_z_filter.is_valid()
            || !settings.gyro_filter.is_valid() {
            return Err(SensorError::ConfigError(String::from_str("invalid filter parameters")));
        }
        let xy = filter_for(settings.accel_filter);
        let z = filter_for(z_tightened(settings.accel_z_filter));
        let g = filter_for(settings.gyro_filter);
        Ok(MPU6500 {
            address,
            name,
            enabled,
            settings,
            calibration: CalibrationData {
                accel_offsets: Vec3 { x: 0, y: 0, z: 0 },
                gyro_offsets: Vec3 { x: 0, y: 0, z: 0 },
            },
            accel_filters: FilterBank { x: xy, y: xy, z },
            linear_filters: FilterBank { x: xy, y: xy, z },
            gyro_filters: FilterBank { x: g, y: g, z: g },
        })
    }

    /// The register writes that bring the chip up, in order.
    pub fn init_writes(&self) -> (w: Vec<(u8, u8)>)
        requires
            self.wf(),
        ensures
            w@ == spec_init_writes(self.settings),
    {
        let mut w: Vec<(u8, u8)> = Vec::new();
        w.push((PWR_MGMT_1, 0u8));
        w.push((SMPLRT_DIV, rate_divider(self.settings.sample_rate)));
        w.push((ACCEL_CONFIG, accel_config(self.settings.accel_range)));
        w.push((GYRO_CONFIG, gyro_config(self.settings.gyro_range)));
        assert(w@ =~= spec_init_writes(self.settings));
        w
    }

    pub fn get_name(&self) -> (n: &str)
        ensures
            n@ == self.name@,
    {
        self.name.as_str()
    }

    pub fn is_enabled(&self) -> (b: bool)
        ensures
            b == self.enabled,
    {
        self.enabled
    }

    pub fn set_enabled(&mut self, enabled: bool)
        ensures
            *final(self) == (MPU6500 { enabled, ..*old(self) }),
    {
        self.enabled = enabled;
    }
}

} // verus!

verus! {

/// Sum of axis `j` over the readings of `s`.
pub open spec fn column_total(s: Seq<RawReading>, j: int) -> int
    decreases s.len(),
{
    if s.len() == 0 {
        0
    } else {
        column_total(s.drop_last(), j) + s.last().axis(j)
    }
}

/// Mean of axis `j` over the readings of `s`, rounded toward zero.
pub open spec fn column_mean(s: Seq<RawReading>, j: int) -> int {
    trunc_div(column_total(s, j), CALIBRATION_SAMPLES as int)
}

/// Offsets that a calibration on readings `s` produces: the mean of each
/// column, with the raw count of 1 g taken from the Z accelerometer offset.
pub open spec fn spec_calibration(s: Seq<RawReading>, accel_range: u16) -> CalibrationData {
    CalibrationData {
        accel_offsets: Vec3 {
            x: column_mean(s, 0) as i64,
            y: column_mean(s, 1) as i64,
            z: (column_mean(s, 2) - spec_accel_counts(accel_range)) as i64,
        },
        gyro_offsets: Vec3 {
            x: column_mean(s, 3) as i64,
            y: column_mean(s, 4) as i64,
            z: column_mean(s, 5) as i64,
        },
    }
}

proof fn lemma_column_bounds(s: Seq<RawReading>, j: int)
    ensures
        -32768 * s.len() <= column_total(s, j) <= 32767 * s.len(),
    decreases s.len(),
{
    if s.len() > 0 {
        lemma_column_bounds(s.drop_last(), j);
    }
}

proof fn lemma_mean_bounds(s: Seq<RawReading>, j: int)
    requires
        s.len() == CALIBRATION_SAMPLES,
    ensures
        -32768 <= column_mean(s, j) <= 32767,
{
    lemma_column_bounds(s, j);
    let t = column_total(s, j);
    lemma_trunc_div_bounds(t, 300);
}

/// Measurement `raw` with offset removed, times `num`, divided by `den`.
pub open spec fn scaled(raw: int, offset: int, num: int, den: int) -> int {
    trunc_div((raw - offset) * num, den)
}

fn scale_axis(raw: i16, offset: i64, num: i64, den: i64) -> (v: i64)
    requires
        abs(offset as int) <= MAX_OFFSET,
        0 < num <= 10 * SCALE,
        0 < den,
    ensures
        v == scaled(raw as int, offset as int, num as int, den as int),
        den * abs(v as int) <= abs((raw - offset) * num),
{
    let d: i128 = raw as i128 - offset as i128;
    assert(abs((d * num) as int) <= 98304 * 10 * SCALE) by (nonlinear_arith)
        requires -98304 <= d <= 98304, 0 < num <= 10 * SCALE;
    let a: i128 = d * num as i128;
    proof {
        lemma_trunc_div_bounds(a as int, den as int);
        let t = trunc_div(a as int, den as int);
        if a < 0 {
            assert(den * abs(t) == -(den * t)) by (nonlinear_arith)
                requires t <= 0;
        } else {
            assert(den * abs(t) == den * t) by (nonlinear_arith)
                requires t >= 0;
        }
    }
    let v = div_trunc(a, den as i128);
    v as i64
}

/// Gravity decomposition: the gravity estimate is the acceleration scaled to
/// unit length, and it is removed from X and Y; Z keeps its gravity.
pub open spec fn gravity_free(a: Vec3) -> Vec3 {
    let m = root(a.x * a.x + a.y * a.y + a.z * a.z);
    if m == 0 {
        a
    } else {
        Vec3 {
            x: (a.x - trunc_div(a.x * SCALE, m)) as i64,
            y: (a.y - trunc_div(a.y * SCALE, m)) as i64,
            z: a.z,
        }
    }
}

/// Largest magnitude of a calibrated acceleration, in micro-g.
pub const MAX_ACCEL: i64 = 1_000_000_000;

proof fn lemma_unit_share(v: int, m: int)
    requires
        abs(v) <= m,
        m > 0,
    ensures
        abs(trunc_div(v * SCALE, m)) <= SCALE,
{
    let s = SCALE as int;
    let t = trunc_div(v * s, m);
    lemma_trunc_div_bounds(v * s, m);
    if v >= 0 {
        assert(m * t <= m * s) by (nonlinear_arith)
            requires m * t <= v * s, v <= m, s > 0, t >= 0;
        assert(t <= s) by (nonlinear_arith)
            requires m * t <= m * s, m > 0;
    } else {
        assert(m * t >= -(m * s)) by (nonlinear_arith)
            requires m * t >= v * s, -v <= m, s > 0;
        assert(t >= -s) by (nonlinear_arith)
            requires m * t >= -(m * s), m > 0;
    }
}

/// Removes the gravity estimate from a calibrated acceleration.
pub fn remove_gravity(a: Vec3) -> (lin: Vec3)
    requires
        abs(a.x as int) <= MAX_ACCEL,
        abs(a.y as int) <= MAX_ACCEL,
        abs(a.z as int) <= MAX_ACCEL,
    ensures
        lin == gravity_free(a),
        abs(lin.x as int) <= MAX_ACCEL + SCALE,
        abs(lin.y as int) <= MAX_ACCEL + SCALE,
        abs(lin.z as int) <= MAX_ACCEL,
{
    let x = a.x as i128;
    let y = a.y as i128;
    let z = a.z as i128;
    assert(x * x <= 1_000_000_000_000_000_000 && y * y <= 1_000_000_000_000_000_000 && z * z
        <= 1_000_000_000_000_000_000) by (nonlinear_arith)
        requires abs(x as int) <= MAX_ACCEL, abs(y as int) <= MAX_ACCEL, abs(z as int) <= MAX_ACCEL;
    assert(x * x >= 0 && y * y >= 0 && z * z >= 0) by (nonlinear_arith);
    let n: i128 = x * x + y * y + z * z;
    let m = isqrt(n as u128);
    if m == 0 {
        return a;
    }
    let ghost mi = m as int;
    proof {
        lemma_root_dominates(x as int, (y * y + z * z) as int);
        lemma_root_dominates(y as int, (x * x + z * z) as int);
        assert(x * x + (y * y + z * z) == n);
        assert(y * y + (x * x + z * z) == n);
        lemma_unit_share(x as int, mi);
        lemma_unit_share(y as int, mi);
    }
    assert(mi <= MAX_ACCEL * 2) by (nonlinear_arith)
        requires mi * mi <= n, n <= 3_000_000_000_000_000_000, mi >= 0;
    let s: i128 = SCALE as i128;
    let gx = div_trunc(x * s, m as i128);
    let gy = div_trunc(y * s, m as i128);
    Vec3 { x: (x - gx) as i64, y: (y - gy) as i64, z: a.z }
}

/// The attitude tangents of filtered calibrated accelerations `a`; none when
/// all three are zero.
pub open spec fn tilt_of(a: Vec3) -> Option<Tilt> {
    if a.x == 0 && a.y == 0 && a.z == 0 {
        None
    } else {
        Some(
            Tilt {
                lean_num: a.y,
                lean_den: root(a.x * a.x + a.z * a.z) as i64,
                bank_num: a.x,
                bank_den: abs(a.z as int) as i64,
            },
        )
    }
}

/// Computes the attitude tangents of filtered calibrated accelerations.
pub fn tilt(a: Vec3) -> (t: Option<Tilt>)
    requires
        abs(a.x as int) <= 3 * MAX_MEASUREMENT,
        abs(a.y as int) <= 3 * MAX_MEASUREMENT,
        abs(a.z as int) <= 3 * MAX_MEASUREMENT,
    ensures
        t == tilt_of(a),
{
    if a.x == 0 && a.y == 0 && a.z == 0 {
        return None;
    }
    let x = a.x as i128;
    let z = a.z as i128;
    assert(0 <= x * x <= 9_000_000_000_000_000_000_000_000 && 0 <= z * z
        <= 9_000_000_000_000_000_000_000_000) by (nonlinear_arith)
        requires abs(x as int) <= 3 * MAX_MEASUREMENT, abs(z as int) <= 3 * MAX_MEASUREMENT;
    let n: i128 = x * x + z * z;
    let d = isqrt(n as u128);
    assert(d <= 5_000_000_000_000) by (nonlinear_arith)
        requires d * d <= n, n <= 18_000_000_000_000_000_000_000_000, d >= 0;
    let bank_den: i64 = if a.z < 0 { -a.z } else { a.z };
    Some(Tilt { lean_num: a.y, lean_den: d as i64, bank_num: a.x, bank_den })
}

impl MPU6500 {
    /// Calibrated accelerations of a reading, in micro-g.
    pub open spec fn accel_g(&self, raw: RawReading) -> Vec3 {
        let c = spec_accel_counts(self.settings.accel_range) as int;
        let o = self.calibration.accel_offsets;
        Vec3 {
            x: scaled(raw.ax as int, o.x as int, SCALE as int, c) as i64,
            y: scaled(raw.ay as int, o.y as int, SCALE as int, c) as i64,
            z: scaled(raw.az as int, o.z as int, SCALE as int, c) as i64,
        }
    }

    /// Calibrated angular rates of a reading, in micro-degrees per second.
    pub open spec fn gyro_dps(&self, raw: RawReading) -> Vec3 {
        let c = spec_gyro_counts_x10(self.settings.gyro_range) as int;
        let o = self.calibration.gyro_offsets;
        Vec3 {
            x: scaled(raw.gx as int, o.x as int, 10 * SCALE, c) as i64,
            y: scaled(raw.gy as int, o.y as int, 10 * SCALE, c) as i64,
            z: scaled(raw.gz as int, o.z as int, 10 * SCALE, c) as i64,
        }
    }

    /// The sample that `read(raw, timestamp_ms)` returns.
    pub open spec fn sample_of(&self, raw: RawReading, timestamp_ms: i64) -> SensorData {
        let a = self.accel_g(raw);
        let filtered = self.accel_filters.output(a);
        SensorData {
            timestamp_ms,
            sample_rate: self.settings.sample_rate,
            accel_raw: filtered,
            accel: self.linear_filters.output(gravity_free(a)),
            gyro: self.gyro_filters.output(self.gyro_dps(raw)),
            tilt: tilt_of(filtered),
        }
    }

    /// The chip after `read(raw, _)`: every filter has taken its measurement.
    pub open spec fn after_read(&self, raw: RawReading) -> MPU6500 {
        let a = self.accel_g(raw);
        MPU6500 {
            accel_filters: self.accel_filters.next(a),
            linear_filters: self.linear_filters.next(gravity_free(a)),
            gyro_filters: self.gyro_filters.next(self.gyro_dps(raw)),
            ..*self
        }
    }

    /// Replaces the offsets with those of readings taken at rest. Fails, and
    /// changes nothing, unless exactly `CALIBRATION_SAMPLES` readings are given.
    pub fn calibrate(&mut self, samples: &Vec<RawReading>) -> (res: Result<(), SensorError>)
        requires
            old(self).wf(),
        ensures
            final(self).wf(),
            res is Ok <==> samples@.len() == CALIBRATION_SAMPLES,
            res is Err ==> res->Err_0 is CalibrationError && *final(self) == *old(self),
            res is Ok ==> *final(self) == (MPU6500 {
                calibration: spec_calibration(samples@, old(self).settings.accel_range),
                ..*old(self)
            }),
    {
        if samples.len() != CALIBRATION_SAMPLES {
            return Err(
                SensorError::CalibrationError(String::from_str("wrong number of calibration readings")),
            );
        }
        let mut sum_0: i64 = 0;
        let mut sum_1: i64 = 0;
        let mut sum_2: i64 = 0;
        let mut sum_3: i64 = 0;
        let mut sum_4: i64 = 0;
        let mut sum_5: i64 = 0;
        let mut i: usize = 0;
        while i < samples.len()
            invariant
                samples@.len() == CALIBRATION_SAMPLES,
                i <= samples@.len(),
                sum_0 == column_total(samples@.take(i as int), 0),
                sum_1 == column_total(samples@.take(i as int), 1),
                sum_2 == column_total(samples@.take(i as int), 2),
                sum_3 == column_total(samples@.take(i as int), 3),
                sum_4 == column_total(samples@.take(i as int), 4),
                sum_5 == column_total(samples@.take(i as int), 5),
            decreases samples@.len() - i,
        {
            let r = samples[i];
            proof {
                let t = samples@.take(i as int);
                assert(samples@.take(i + 1).drop_last() =~= t);
                assert(samples@.take(i + 1).last() == r);
                lemma_column_bounds(t, 0);
                lemma_column_bounds(t, 1);
                lemma_column_bounds(t, 2);
                lemma_column_bounds(t, 3);
                lemma_column_bounds(t, 4);
                lemma_column_bounds(t, 5);
            }
            sum_0 = sum_0 + r.ax as i64;
            sum_1 = sum_1 + r.ay as i64;
            sum_2 = sum_2 + r.az as i64;
            sum_3 = sum_3 + r.gx as i64;
            sum_4 = sum_4 + r.gy as i64;
            sum_5 = sum_5 + r.gz as i64;
            i = i + 1;
        }
        proof {
            assert(samples@.take(300) =~= samples@);
            lemma_mean_bounds(samples@, 0);
            lemma_mean_bounds(samples@, 1);
            lemma_mean_bounds(samples@, 2);
            lemma_mean_bounds(samples@, 3);
            lemma_mean_bounds(samples@, 4);
            lemma_mean_bounds(samples@, 5);
        }
        let n: i128 = 300;
        let one_g = accel_counts(self.settings.accel_range);
        self.calibration = CalibrationData {
            accel_offsets: Vec3 {
                x: div_trunc(sum_0 as i128, n) as i64,
                y: div_trunc(sum_1 as i128, n) as i64,
                z: div_trunc(sum_2 as i128, n) as i64 - one_g,
            },
            gyro_offsets: Vec3 {
                x: div_trunc(sum_3 as i128, n) as i64,
                y: div_trunc(sum_4 as i128, n) as i64,
                z: div_trunc(sum_5 as i128, n) as i64,
            },
        };
        Ok(())
    }

    /// Turns one raw reading into a sample: scales it, removes gravity,
    /// updates the three filter banks and derives the attitude.
    pub fn read(&mut self, raw: &RawReading, timestamp_ms: i64) -> (data: SensorData)
        requires
            old(self).wf(),
        ensures
            final(self).wf(),
            *final(self) == old(self).after_read(*raw),
            data == old(self).sample_of(*raw, timestamp_ms),
    {
        let ac = accel_counts(self.settings.accel_range);
        let gc = gyro_counts_x10(self.settings.gyro_range);
        let ao = self.calibration.accel_offsets;
        let go = self.calibration.gyro_offsets;
        let a = Vec3 {
            x: scale_axis(raw.ax, ao.x, SCALE, ac),
            y: scale_axis(raw.ay, ao.y, SCALE, ac),
            z: scale_axis(raw.az, ao.z, SCALE, ac),
        };
        proof {
            lemma_accel_bound(raw.ax as int, ao.x as int, ac as int, a.x as int);
            lemma_accel_bound(raw.ay as int, ao.y as int, ac as int, a.y as int);
            lemma_accel_bound(raw.az as int, ao.z as int, ac as int, a.z as int);
        }
        let g = Vec3 {
            x: scale_axis(raw.gx, go.x, 10 * SCALE, gc),
            y: scale_axis(raw.gy, go.y, 10 * SCALE, gc),
            z: scale_axis(raw.gz, go.z, 10 * SCALE, gc),
        };
        proof {
            lemma_gyro_bound(raw.gx as int, go.x as int, gc as int, g.x as int);
            lemma_gyro_bound(raw.gy as int, go.y as int, gc as int, g.y as int);
            lemma_gyro_bound(raw.gz as int, go.z as int, gc as int, g.z as int);
        }
        let lin = remove_gravity(a);
        let ghost old_bank = self.accel_filters;
        let filtered = self.accel_filters.update(a);
        proof {
            lemma_next_wf(old_bank.x, a.x);
            lemma_next_wf(old_bank.y, a.y);
            lemma_next_wf(old_bank.z, a.z);
        }
        let linear = self.linear_filters.update(lin);
        let rates = self.gyro_filters.update(g);
        let t = tilt(filtered);
        SensorData {
            timestamp_ms,
            sample_rate: self.settings.sample_rate,
            accel_raw: filtered,
            accel: linear,
            gyro: rates,
            tilt: t,
        }
    }

    /// Returns every filter to its state before the first measurement. The
    /// caller then takes fresh readings at rest and passes them to `calibrate`.
    pub fn reset_filters(&mut self)
        requires
            old(self).wf(),
        ensures
            final(self).wf(),
            *final(self) == (MPU6500 {
                accel_filters: old(self).accel_filters.cleared(),
                linear_filters: old(self).linear_filters.cleared(),
                gyro_filters: old(self).gyro_filters.cleared(),
                ..*old(self)
            }),
    {
        self.accel_filters.reset();
        self.linear_filters.reset();
        self.gyro_filters.reset();
    }
}

proof fn lemma_accel_bound(raw: int, offset: int, c: int, v: int)
    requires
        -32768 <= raw <= 32767,
        abs(offset) <= MAX_OFFSET,
        c >= 2048,
        c * abs(v) <= abs((raw - offset) * SCALE),
    ensures
        abs(v) <= MAX_ACCEL,
{
    assert(abs((raw - offset) * SCALE) <= 98304 * SCALE) by (nonlinear_arith)
        requires -98304 <= raw - offset <= 98304;
    assert(2048 * abs(v) <= c * abs(v)) by (nonlinear_arith)
        requires c >= 2048;
}

proof fn lemma_gyro_bound(raw: int, offset: int, c: int, v: int)
    requires
        -32768 <= raw <= 32767,
        abs(offset) <= MAX_OFFSET,
        c >= 1,
        c * abs(v) <= abs((raw - offset) * (10 * SCALE)),
    ensures
        abs(v) <= MAX_MEASUREMENT,
{
    assert(abs((raw - offset) * (10 * SCALE)) <= 98304 * 10 * SCALE) by (nonlinear_arith)
        requires -98304 <= raw - offset <= 98304;
    assert(abs(v) <= c * abs(v)) by (nonlinear_arith)
        requires c >= 1;
}

} // verus!

verus! {

proof fn lemma_constant_total(s: Seq<RawReading>, c: RawReading, j: int)
    requires
        forall|i: int| 0 <= i < s.len() ==> #[trigger] s[i] == c,
    ensures
        column_total(s, j) == s.len() * c.axis(j),
    decreases s.len(),
{
    if s.len() > 0 {
        lemma_constant_total(s.drop_last(), c, j);
        assert(s.last() == s[s.len() - 1]);
        let n = s.len() as int;
        let v = c.axis(j);
        assert((n - 1) * v + v == n * v) by (nonlinear_arith);
    }
}

proof fn lemma_constant_mean(s: Seq<RawReading>, c: RawReading, j: int)
    requires
        s.len() == CALIBRATION_SAMPLES,
        forall|i: int| 0 <= i < s.len() ==> #[trigger] s[i] == c,
    ensures
        column_mean(s, j) == c.axis(j),
{
    lemma_constant_total(s, c, j);
    let v = c.axis(j);
    if v >= 0 {
        assert((300 * v) / 300 == v) by (nonlinear_arith);
    } else {
        assert((300 * -v) / 300 == -v) by (nonlinear_arith);
        assert(-(300 * v) == 300 * -v);
    }
}

/// Readings of a filter bank in which every filter is either fresh or
/// settled on the value it is about to be fed.
spec fn bank_at_rest(b: FilterBank, v: Vec3) -> bool {
    &&& b.wf()
    &&& (!b.x.initialized || (b.x.x == v.x && b.x.last_output == v.x))
    &&& (!b.y.initialized || (b.y.x == v.y && b.y.last_output == v.y))
    &&& (!b.z.initialized || (b.z.x == v.z && b.z.last_output == v.z))
}

proof fn lemma_filter_at_rest(f: KalmanFilter1D, m: i64)
    requires
        f.wf(),
        abs(m as int) <= MAX_MEASUREMENT,
        !f.initialized || (f.x == m && f.last_output == m),
    ensures
        f.output(m) == m,
        f.next(m).initialized && f.next(m).x == m && f.next(m).last_output == m,
        f.next(m).wf(),
{
    lemma_next_wf(f, m);
    if f.initialized {
        assert(f.alpha(m as int) * 0 == 0);
        assert(trunc_div(0, SCALE as int) == 0);
    }
}

proof fn lemma_bank_at_rest(b: FilterBank, v: Vec3)
    requires
        bank_at_rest(b, v),
        abs(v.x as int) <= MAX_MEASUREMENT,
        abs(v.y as int) <= MAX_MEASUREMENT,
        abs(v.z as int) <= MAX_MEASUREMENT,
    ensures
        b.output(v) == v,
        bank_at_rest(b.next(v), v),
{
    lemma_filter_at_rest(b.x, v.x);
    lemma_filter_at_rest(b.y, v.y);
    lemma_filter_at_rest(b.z, v.z);
}

/// The chip after `n` reads of the same raw reading.
pub open spec fn reads_of(d: MPU6500, raw: RawReading, n: nat) -> MPU6500
    decreases n,
{
    if n == 0 {
        d
    } else {
        reads_of(d, raw, (n - 1) as nat).after_read(raw)
    }
}

/// One g in micro-g, straight down the Z axis.
pub open spec fn level() -> Vec3 {
    Vec3 { x: 0, y: 0, z: SCALE }
}

/// No motion.
pub open spec fn still() -> Vec3 {
    Vec3 { x: 0, y: 0, z: 0 }
}

/// Calibrating a chip with fresh filters on a constant reading makes every
/// later read of that same reading report no rotation and exactly 1 g
/// straight down: the filtered calibrated and linear accelerations are
/// `(0, 0, 1 g)` (the Z axis keeps gravity) and the filtered rates are zero.
pub proof fn lemma_calibration_at_rest(d: MPU6500, c: RawReading, s: Seq<RawReading>, n: nat, ts: i64)
    requires
        d.wf(),
        !d.accel_filters.x.initialized && !d.accel_filters.y.initialized
            && !d.accel_filters.z.initialized,
        !d.linear_filters.x.initialized && !d.linear_filters.y.initialized
            && !d.linear_filters.z.initialized,
        !d.gyro_filters.x.initialized && !d.gyro_filters.y.initialized
            && !d.gyro_filters.z.initialized,
        s.len() == CALIBRATION_SAMPLES,
        forall|i: int| 0 <= i < s.len() ==> #[trigger] s[i] == c,
    ensures
        ({
            let cal = MPU6500 { calibration: spec_calibration(s, d.settings.accel_range), ..d };
            let sample = reads_of(cal, c, n).sample_of(c, ts);
            &&& cal.accel_g(c) == level()
            &&& cal.gyro_dps(c) == still()
            &&& sample.accel_raw == level()
            &&& sample.accel == level()
            &&& sample.gyro == still()
        }),
{
    let cal = MPU6500 { calibration: spec_calibration(s, d.settings.accel_range), ..d };
    let k = spec_accel_counts(d.settings.accel_range) as int;
    let kg = spec_gyro_counts_x10(d.settings.gyro_range) as int;
    let sc = SCALE as int;
    lemma_constant_mean(s, c, 0);
    lemma_constant_mean(s, c, 1);
    lemma_constant_mean(s, c, 2);
    lemma_constant_mean(s, c, 3);
    lemma_constant_mean(s, c, 4);
    lemma_constant_mean(s, c, 5);
    assert(cal.calibration.wf());
    assert(scaled(c.az as int, cal.calibration.accel_offsets.z as int, sc, k) == sc) by {
        assert((k * sc) / k == sc) by (nonlinear_arith)
            requires k > 0;
    }
    assert(cal.accel_g(c) == level());
    assert(cal.gyro_dps(c) == still());
    assert(gravity_free(level()) == level()) by {
        assert(0 * 0 + 0 * 0 + sc * sc == sc * sc);
        assert((sc + 1) * (sc + 1) > sc * sc) by (nonlinear_arith)
            requires sc > 0;
        crate::fixed::lemma_root_unique(sc * sc, sc);
        assert(trunc_div(0 * sc, sc) == 0);
    }
    lemma_reads_at_rest(cal, c, n);
    let r = reads_of(cal, c, n);
    lemma_bank_at_rest(r.accel_filters, level());
    lemma_bank_at_rest(r.linear_filters, level());
    lemma_bank_at_rest(r.gyro_filters, still());
}

proof fn lemma_reads_at_rest(cal: MPU6500, c: RawReading, n: nat)
    requires
        cal.wf(),
        cal.accel_g(c) == level(),
        cal.gyro_dps(c) == still(),
        gravity_free(level()) == level(),
        bank_at_rest(cal.accel_filters, level()),
        bank_at_rest(cal.linear_filters, level()),
        bank_at_rest(cal.gyro_filters, still()),
    ensures
        ({
            let r = reads_of(cal, c, n);
            &&& r.wf()
            &&& r.calibration == cal.calibration
            &&& r.settings == cal.settings
            &&& bank_at_rest(r.accel_filters, level())
            &&& bank_at_rest(r.linear_filters, level())
            &&& bank_at_rest(r.gyro_filters, still())
        }),
    decreases n,
{
    if n > 0 {
        lemma_reads_at_rest(cal, c, (n - 1) as nat);
        let p = reads_of(cal, c, (n - 1) as nat);
        assert(p.accel_g(c) == level());
        assert(p.gyro_dps(c) == still());
        lemma_bank_at_rest(p.accel_filters, level());
        lemma_bank_at_rest(p.linear_filters, level());
        lemma_bank_at_rest(p.gyro_filters, still());
    }
}

/// Every sample of a chip carries the same keys, so long as its filtered
/// calibrated accelerations are not all exactly zero (when they are, the
/// attitude and its two keys are left out).
pub proof fn lemma_schema_stable(
    d1: MPU6500,
    r1: RawReading,
    t1: i64,
    d2: MPU6500,
    r2: RawReading,
    t2: i64,
)
    requires
        d1.sample_of(r1, t1).accel_raw != still(),
        d2.sample_of(r2, t2).accel_raw != still(),
    ensures
        d1.sample_of(r1, t1).key_seq() == d2.sample_of(r2, t2).key_seq(),
{
    let sum_1 = d1.sample_of(r1, t1);
    let sum_2 = d2.sample_of(r2, t2);
    assert(sum_1.entry_seq().map_values(|e: (SampleKey, i64)| e.0) =~= sum_2.entry_seq().map_values(
        |e: (SampleKey, i64)| e.0,
    ));
}

} // verus!

verus! {

/// The attitude tangents have non-negative denominators, positive as soon as
/// the acceleration has an X or Z component (lean) or a Z component (bank):
/// then each angle, the arctangent of a finite ratio, lies strictly between
/// -90 and 90 degrees.
pub proof fn lemma_tilt_denominators(a: Vec3)
    requires
        abs(a.x as int) <= 3 * MAX_MEASUREMENT,
        abs(a.z as int) <= 3 * MAX_MEASUREMENT,
        tilt_of(a) is Some,
    ensures
        tilt_of(a)->Some_0.lean_den >= 0,
        tilt_of(a)->Some_0.bank_den >= 0,
        (a.x != 0 || a.z != 0) ==> tilt_of(a)->Some_0.lean_den > 0,
        a.z != 0 ==> tilt_of(a)->Some_0.bank_den > 0,
{
    let x = a.x as int;
    let z = a.z as int;
    assert(z * z >= 0) by (nonlinear_arith);
    assert(x * x >= 0) by (nonlinear_arith);
    assert(x * x + z * z <= 18_000_000_000_000_000_000_000_000) by (nonlinear_arith)
        requires abs(x) <= 3 * MAX_MEASUREMENT, abs(z) <= 3 * MAX_MEASUREMENT;
    lemma_root_dominates(x, z * z);
    let d = root(x * x + z * z);
    crate::fixed::lemma_root_exists(x * x + z * z);
    assert(d <= 5_000_000_000_000) by (nonlinear_arith)
        requires d * d <= x * x + z * z, x * x + z * z <= 18_000_000_000_000_000_000_000_000, d >= 0;
    if z != 0 {
        assert(z * z > 0) by (nonlinear_arith)
            requires z != 0;
    }
}

} // verus!
