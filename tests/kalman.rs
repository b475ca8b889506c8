use sensors_to_mqtt::kalman::KalmanFilter1D;

fn micro(v: f64) -> i64 {
    (v * 1_000_000.0).round() as i64
}

#[test]
fn test_initial_measurement() {
    let mut filter = KalmanFilter1D::new(micro(0.1), micro(0.1));
    let measurement = micro(10.0);
    let result = filter.update(measurement);
    assert_eq!(result, measurement);
}

#[test]
fn test_noise_reduction() {
    let mut filter = KalmanFilter1D::new(micro(0.1), micro(1.0));
    filter.update(micro(10.0));
    let noisy_measurement = micro(15.0);
    let filtered = filter.update(noisy_measurement);
    assert!(filtered > micro(10.0) && filtered < noisy_measurement);
}

#[test]
fn test_reset() {
    let mut filter = KalmanFilter1D::new(micro(0.1), micro(0.1));
    filter.update(micro(10.0));
    filter.reset();
    assert_eq!(filter.get_estimate(), 0);
    assert!(!filter.initialized);
}

#[test]
fn test_dead_zone() {
    let mut filter = KalmanFilter1D::new(micro(0.1), micro(0.1)).with_dead_zone(micro(0.1));
    filter.update(micro(1.0));
    let result = filter.update(micro(1.05));
    assert_eq!(result, micro(1.0));
    let result = filter.update(micro(1.2));
    assert!(result > micro(1.0));
}

#[test]
fn smoothing_with_zero_dead_zone() {
    let mut filter = KalmanFilter1D::new(micro(0.1), micro(1.0)).with_dead_zone(0);
    assert_eq!(filter.update(micro(10.0)), micro(10.0));
    let second = filter.update(micro(15.0));
    assert!(second > micro(10.0) && second < micro(15.0));
}

#[test]
fn first_update_is_identity_for_any_parameters() {
    for (q, r, dz) in [(0, 1, 0), (10, 50_000, 5_000), (1_000_000, 3_000_000, 2_000_000)] {
        for m in [-7_000_000_000i64, -1, 0, 1, 123_456_789] {
            let mut f = KalmanFilter1D::new(q, r).with_dead_zone(dz);
            assert_eq!(f.update(m), m);
            assert_eq!(f.get_estimate(), m);
            assert!(f.is_initialized());
        }
    }
}

#[test]
fn dead_zone_holds_output_while_inputs_stay_close() {
    let mut f = KalmanFilter1D::new(micro(0.1), micro(0.1)).with_dead_zone(micro(0.2));
    assert_eq!(f.update(micro(2.0)), micro(2.0));
    for m in [2.1, 1.9, 2.15, 1.85, 2.05, 1.95] {
        assert_eq!(f.update(micro(m)), micro(2.0));
    }
}

#[test]
fn covariance_stays_within_bounds() {
    let r = micro(0.5);
    let mut f = KalmanFilter1D::new(micro(0.3), r).with_dead_zone(0);
    f.update(0);
    for i in 0..200i64 {
        f.update(if i % 2 == 0 { micro(5.0) } else { micro(-5.0) });
        assert!(10 * f.p >= r && f.p <= 10 * r);
    }
    let mut g = KalmanFilter1D::new(0, r).with_dead_zone(0);
    g.update(0);
    for _ in 0..200 {
        g.update(micro(1.0));
        assert!(10 * g.p >= r && g.p <= 10 * r);
    }
}

#[test]
fn reset_then_update_returns_the_measurement() {
    let mut f = KalmanFilter1D::new(micro(0.1), micro(0.1));
    f.update(micro(3.0));
    f.update(micro(4.0));
    f.reset();
    assert_eq!(f.get_estimate(), 0);
    assert!(!f.is_initialized());
    assert_eq!(f.update(micro(-2.5)), micro(-2.5));
    assert_eq!(f.get_estimate(), micro(-2.5));
}

#[test]
fn large_step_uses_faster_gain() {
    // p = 1.0 + 0.1, k = 1.1 / 2.1; a step of 3 units takes alpha = 1.5 k.
    let mut f = KalmanFilter1D::new(micro(0.1), micro(1.0)).with_dead_zone(0);
    f.update(0);
    assert_eq!(f.update(micro(3.0)), 2_357_139);
    assert_eq!(f.k, 523_809);
}
