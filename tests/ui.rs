use sensors_to_mqtt::sensors::{SensorData, Vec3};
use sensors_to_mqtt::ui::{App, SensorHistory, MAX_HISTORY_SIZE};

fn sample(t: i64, x: i64, y: i64, z: i64) -> SensorData {
    let zero = Vec3 { x: 0, y: 0, z: 0 };
    SensorData { timestamp_ms: t, sample_rate: 100, accel_raw: zero, accel: Vec3 { x, y, z }, gyro: zero, tilt: None }
}

fn names() -> Vec<String> {
    vec!["a".to_string(), "b".to_string(), "c".to_string()]
}

#[test]
fn selection_wraps_both_ways() {
    let mut app = App::new(names());
    assert_eq!(app.get_selected_sensor_name(), Some("a"));
    app.prev_sensor();
    assert_eq!(app.selected_sensor, 2);
    app.next_sensor();
    assert_eq!(app.selected_sensor, 0);
    app.next_sensor();
    assert_eq!(app.get_selected_sensor_name(), Some("b"));
    let mut empty = App::new(Vec::new());
    empty.next_sensor();
    empty.prev_sensor();
    assert_eq!(empty.selected_sensor, 0);
    assert_eq!(empty.get_selected_sensor_name(), None);
}

#[test]
fn toggling_reports_in_status() {
    let mut app = App::new(names());
    assert_eq!(app.status_message.as_deref(), Some("Application started"));
    app.next_sensor();
    app.toggle_selected_sensor();
    assert_eq!(app.sensor_enabled, vec![true, false, true]);
    assert_eq!(app.status_message.as_deref(), Some("Sensor b disabled"));
    app.toggle_selected_sensor();
    assert_eq!(app.status_message.as_deref(), Some("Sensor b enabled"));
    app.toggle_measuring();
    assert!(!app.is_measuring);
    assert_eq!(app.status_message.as_deref(), Some("Measurement paused"));
    app.toggle_help();
    assert!(app.show_help);
    app.set_error("boom".to_string());
    app.clear_error();
    assert_eq!(app.error_message, None);
}

#[test]
fn hidden_devices_keep_no_history() {
    let mut app = App::new(names());
    app.toggle_selected_sensor();
    app.update_sensor_data(&"a".to_string(), sample(1, 1, 2, 3));
    app.update_sensor_data(&"b".to_string(), sample(2, 4, 5, 6));
    app.update_sensor_data(&"zz".to_string(), sample(3, 7, 8, 9));
    assert_eq!(app.current_data[0].unwrap().timestamp_ms, 1);
    assert_eq!(app.sensor_history[0].g_force_x.len(), 0);
    assert_eq!(app.sensor_history[1].g_force_x, vec![4]);
    assert!(app.current_data[2].is_none());
    app.clear_charts();
    assert_eq!(app.sensor_history[1].g_force_x.len(), 0);
    assert_eq!(app.status_message.as_deref(), Some("Charts cleared"));
}

#[test]
fn history_is_bounded_and_keeps_newest() {
    let mut h = SensorHistory::new();
    for i in 0..(MAX_HISTORY_SIZE as i64 + 5) {
        h.add_data(&sample(i, i, -i, 0));
    }
    assert_eq!(h.g_force_x.len(), MAX_HISTORY_SIZE);
    assert_eq!(h.timestamps[0], 5);
    assert_eq!(*h.g_force_x.last().unwrap(), MAX_HISTORY_SIZE as i64 + 4);
}

#[test]
fn history_statistics() {
    let mut h = SensorHistory::new();
    assert_eq!(h.get_stats().g_force_x, (0, 0, 0));
    h.add_data(&sample(0, 3_000_000, 0, -1));
    h.add_data(&sample(1, -1_000_000, 4_000_000, -2));
    h.add_data(&sample(2, 1_000_001, 0, -4));
    let s = h.get_stats();
    assert_eq!(s.g_force_x, (-1_000_000, 3_000_000, 1_000_000));
    assert_eq!(s.g_force_z, (-4, -1, -2));
    assert_eq!(s.max_magnitude, 4_123_105);
    h.clear();
    assert_eq!(h.get_stats().max_magnitude, 0);
}
