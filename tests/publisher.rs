use sensors_to_mqtt::input::{map_key_to_action, InputAction, Key, KeyPress};
use sensors_to_mqtt::publisher::{topic, NoOpPublisher, Publisher, Topic};
use sensors_to_mqtt::sensors::{SensorData, Vec3};

fn press(key: Key) -> KeyPress {
    KeyPress { key, ctrl: false }
}

#[test]
fn test_noop_publisher() {
    let publisher = NoOpPublisher;
    let zero = Vec3 { x: 0, y: 0, z: 0 };
    let data = SensorData { timestamp_ms: 0, sample_rate: 100, accel_raw: zero, accel: zero, gyro: zero, tilt: None };
    assert!(publisher.publish("test", &data).is_ok());
    assert!(publisher.is_connected());
    assert!(publisher.reconnect().is_ok());
}

#[test]
fn topic_layout() {
    assert_eq!(topic("/GOLF86/SENSORS", "imu1", Topic::Info), "/GOLF86/SENSORS/IMU/imu1/INFO");
    assert_eq!(topic("base", "x", Topic::Filtered), "base/IMU/x/FILTERED");
    assert_eq!(topic("base", "x", Topic::Derived), "base/IMU/x/DERIVED");
}

#[test]
fn test_quit_actions() {
    assert_eq!(map_key_to_action(press(Key::Char('q'))), InputAction::Quit);
    assert_eq!(map_key_to_action(press(Key::Esc)), InputAction::Quit);
}

#[test]
fn test_navigation() {
    assert_eq!(map_key_to_action(press(Key::Up)), InputAction::PrevSensor);
    assert_eq!(map_key_to_action(press(Key::Down)), InputAction::NextSensor);
}

#[test]
fn control_c_quits_and_plain_c_clears() {
    assert_eq!(map_key_to_action(KeyPress { key: Key::Char('c'), ctrl: true }), InputAction::Quit);
    assert_eq!(map_key_to_action(press(Key::Char('c'))), InputAction::ClearCharts);
    assert_eq!(map_key_to_action(press(Key::F(1))), InputAction::ToggleHelp);
    assert_eq!(map_key_to_action(press(Key::F(2))), InputAction::NoAction);
    assert_eq!(map_key_to_action(press(Key::Enter)), InputAction::ToggleSensor);
    assert_eq!(map_key_to_action(press(Key::Char(' '))), InputAction::ToggleMeasurement);
}
