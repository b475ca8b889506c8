//! Acquisition and signal conditioning for MPU-6500-class inertial sensors.
//!
//! Physical quantities are carried as fixed-point integers in micro-units
//! (one unit is `fixed::SCALE`), so every computation of the pipeline is exact
//! integer arithmetic whose behaviour the contracts state.
use vstd::prelude::*;

pub mod fixed;
pub mod input;
pub mod bus;
pub mod cli;
pub mod config;
pub mod error;
pub mod kalman;
pub mod mpu6500;
pub mod publisher;
pub mod sensors;
pub mod service;
pub mod ui;

verus! {

} // verus!
