use fpv::command::{Command, DroneMode};
use fpv::input::{Key, KeyState};

#[test]
fn test_throttle_up() {
    let mut cmd = Command::new();

    cmd.throttle = 127;
    cmd.update_array();
    assert_eq!(cmd.as_array[3], 254);
}

#[test]
fn test_throttle_down() {
    let mut cmd = Command::new();

    cmd.throttle = -127;
    cmd.update_array();
    assert_eq!(cmd.as_array[3], 0);
}

#[test]
fn new_command_is_at_rest() {
    let cmd = Command::new();
    assert_eq!(cmd.pitch, 0);
    assert_eq!(cmd.yaw, 0);
    assert_eq!(cmd.roll, 0);
    assert_eq!(cmd.throttle, 0);
    assert_eq!(cmd.mode, DroneMode::Normal);
    assert_eq!(cmd.as_array, [0u8; 8]);
}

#[test]
fn packet_of_centred_command() {
    let mut cmd = Command::new();
    cmd.update_array();
    // 127 ^ 127 ^ 127 ^ 127 ^ 0 == 0
    assert_eq!(cmd.as_array, [0x66, 127, 127, 127, 127, 0, 0, 0x99]);
}

#[test]
fn packet_layout_and_checksum() {
    let mut cmd = Command::new();
    cmd.roll = 10;
    cmd.pitch = -20;
    cmd.throttle = 127;
    cmd.yaw = -127;
    cmd.mode = DroneMode::Landing;
    cmd.update_array();
    let roll = 137u8;
    let pitch = 107u8;
    let throttle = 254u8;
    let yaw = 0u8;
    let mode = 2u8;
    assert_eq!(
        cmd.as_array,
        [0x66, roll, pitch, throttle, yaw, mode, roll ^ pitch ^ throttle ^ yaw ^ mode, 0x99]
    );
    let b = cmd.as_array;
    assert_eq!(b[1] ^ b[2] ^ b[3] ^ b[4] ^ b[5] ^ b[6], 0);
    // the axes and the mode are not touched
    assert_eq!(cmd.roll, 10);
    assert_eq!(cmd.mode, DroneMode::Landing);
}

#[test]
fn axis_wraps_at_minus_128() {
    let mut cmd = Command::new();
    cmd.yaw = -128;
    cmd.update_array();
    assert_eq!(cmd.as_array[4], 255);
}

#[test]
fn took_off_goes_out_as_normal() {
    let mut cmd = Command::new();
    cmd.mode = DroneMode::TookOff;
    cmd.update_array();
    assert_eq!(cmd.as_array[5], 0);
    cmd.mode = DroneMode::Abort;
    cmd.update_array();
    assert_eq!(cmd.as_array[5], 4);
    cmd.mode = DroneMode::TakingOff;
    cmd.update_array();
    assert_eq!(cmd.as_array[5], 1);
}

#[test]
fn update_array_twice_is_the_same() {
    let mut cmd = Command::new();
    cmd.pitch = 55;
    cmd.update_array();
    let first = cmd.as_array;
    cmd.update_array();
    assert_eq!(cmd.as_array, first);
}

#[test]
fn toggle_mode_transitions() {
    let mut cmd = Command::new();
    cmd.toggle_mode(false);
    assert_eq!(cmd.mode, DroneMode::Normal);
    cmd.toggle_mode(true);
    assert_eq!(cmd.mode, DroneMode::TakingOff);
    cmd.toggle_mode(true);
    assert_eq!(cmd.mode, DroneMode::TakingOff);
    cmd.toggle_mode(false);
    assert_eq!(cmd.mode, DroneMode::TookOff);
    cmd.toggle_mode(false);
    assert_eq!(cmd.mode, DroneMode::TookOff);
    cmd.toggle_mode(true);
    assert_eq!(cmd.mode, DroneMode::Landing);
    cmd.toggle_mode(true);
    assert_eq!(cmd.mode, DroneMode::Landing);
    cmd.toggle_mode(false);
    assert_eq!(cmd.mode, DroneMode::Normal);
}

#[test]
fn abort_is_left_by_a_press() {
    let mut cmd = Command::new();
    cmd.mode = DroneMode::Abort;
    cmd.toggle_mode(false);
    assert_eq!(cmd.mode, DroneMode::Abort);
    cmd.toggle_mode(true);
    assert_eq!(cmd.mode, DroneMode::Normal);
    // a second press is a new press from Normal
    cmd.toggle_mode(true);
    assert_eq!(cmd.mode, DroneMode::TakingOff);
}

#[test]
fn key_stroke_takes_off_and_lands() {
    let mut cmd = Command::new();
    cmd.apply_key(KeyState::Pressed, Key::Space);
    cmd.apply_key(KeyState::Released, Key::Space);
    assert_eq!(cmd.mode, DroneMode::TookOff);
    cmd.apply_key(KeyState::Pressed, Key::Space);
    cmd.apply_key(KeyState::Released, Key::Space);
    assert_eq!(cmd.mode, DroneMode::Normal);
}

#[test]
fn stick_keys() {
    let mut cmd = Command::new();
    cmd.apply_key(KeyState::Pressed, Key::Up);
    assert_eq!(cmd.throttle, 127);
    cmd.apply_key(KeyState::Pressed, Key::Down);
    assert_eq!(cmd.throttle, -127);
    cmd.apply_key(KeyState::Released, Key::Down);
    assert_eq!(cmd.throttle, 0);
    cmd.apply_key(KeyState::Pressed, Key::Right);
    assert_eq!(cmd.yaw, 127);
    cmd.apply_key(KeyState::Pressed, Key::Left);
    assert_eq!(cmd.yaw, -127);
    cmd.apply_key(KeyState::Pressed, Key::W);
    assert_eq!(cmd.pitch, 127);
    cmd.apply_key(KeyState::Pressed, Key::S);
    assert_eq!(cmd.pitch, -127);
    cmd.apply_key(KeyState::Pressed, Key::D);
    assert_eq!(cmd.roll, 127);
    cmd.apply_key(KeyState::Pressed, Key::A);
    assert_eq!(cmd.roll, -127);
    cmd.apply_key(KeyState::Released, Key::A);
    assert_eq!(cmd.roll, 0);
    assert_eq!(cmd.yaw, -127);
    assert_eq!(cmd.mode, DroneMode::Normal);
}

#[test]
fn escape_aborts_and_other_keys_do_nothing() {
    let mut cmd = Command::new();
    cmd.throttle = 50;
    cmd.mode = DroneMode::TookOff;
    cmd.apply_key(KeyState::Pressed, Key::Other(77));
    cmd.apply_key(KeyState::Pressed, Key::Key0);
    assert_eq!(cmd.throttle, 50);
    assert_eq!(cmd.mode, DroneMode::TookOff);
    cmd.apply_key(KeyState::Released, Key::Escape);
    assert_eq!(cmd.mode, DroneMode::Abort);
    assert_eq!(cmd.throttle, 50);
}

#[test]
fn describe_command() {
    let mut cmd = Command::new();
    assert_eq!(cmd.describe(), "throttle: 0, yaw: 0, pitch: 0, roll: 0, mode: Normal");
    cmd.throttle = 127;
    cmd.yaw = -128;
    cmd.pitch = -7;
    cmd.roll = 42;
    cmd.mode = DroneMode::TookOff;
    assert_eq!(cmd.describe(), "throttle: 127, yaw: -128, pitch: -7, roll: 42, mode: TookOff");
    cmd.mode = DroneMode::TakingOff;
    assert!(cmd.describe().ends_with("mode: TakingOff"));
    cmd.mode = DroneMode::Landing;
    assert!(cmd.describe().ends_with("mode: Landing"));
    cmd.mode = DroneMode::Abort;
    assert!(cmd.describe().ends_with("mode: Abort"));
}
