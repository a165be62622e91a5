use fpv::command::{Command, DroneMode};
use fpv::input::{close_requested, Key, KeyState, WindowInput};
use fpv::is_tcp_path;
use fpv::keyboard::Keyboard;
use fpv::network::CommandListener;
use fpv::video::{StreamRelay, VideoListener, CONTROL_PACKET_LEN};
use fpv::window_manager::WindowManager;

fn key_event(state: KeyState, key: Key) -> WindowInput {
    WindowInput::Keyboard { state, key: Some(key) }
}

#[test]
fn keyboard_applies_events_in_order() {
    let mut keyboard = Keyboard::new();
    let mut cmd = Command::new();
    let events = vec![
        key_event(KeyState::Pressed, Key::Up),
        WindowInput::Other,
        key_event(KeyState::Pressed, Key::Space),
        key_event(KeyState::Pressed, Key::Left),
        key_event(KeyState::Released, Key::Space),
    ];
    keyboard.get_pressed_keys(&mut cmd, &events);
    assert_eq!(cmd.throttle, 127);
    assert_eq!(cmd.yaw, -127);
    assert_eq!(cmd.mode, DroneMode::TookOff);
    assert!(!keyboard.closed());
}

#[test]
fn keyboard_ignores_escape_and_notes_close() {
    let mut keyboard = Keyboard::new();
    let mut cmd = Command::new();
    let events = vec![key_event(KeyState::Pressed, Key::Escape), WindowInput::Closed];
    keyboard.get_pressed_keys(&mut cmd, &events);
    assert_eq!(cmd.mode, DroneMode::Normal);
    assert!(keyboard.closed());
    keyboard.get_pressed_keys(&mut cmd, &vec![]);
    assert!(keyboard.closed());
}

#[test]
fn window_manager_tracks_held_keys() {
    let mut wm = WindowManager::new();
    assert_eq!(wm.update_pressed_keys(&vec![key_event(KeyState::Pressed, Key::W)]), Some(vec![Key::W]));
    assert_eq!(
        wm.update_pressed_keys(&vec![key_event(KeyState::Pressed, Key::Up)]),
        Some(vec![Key::W, Key::Up])
    );
    // a key already held is not listed twice
    assert_eq!(
        wm.update_pressed_keys(&vec![key_event(KeyState::Pressed, Key::W)]),
        Some(vec![Key::W, Key::Up])
    );
    assert_eq!(wm.update_pressed_keys(&vec![key_event(KeyState::Released, Key::W)]), Some(vec![Key::Up]));
    // releasing a key that is not held changes nothing
    assert_eq!(wm.update_pressed_keys(&vec![key_event(KeyState::Released, Key::A)]), Some(vec![Key::Up]));
}

#[test]
fn window_manager_last_key_event_decides() {
    let mut wm = WindowManager::new();
    let events = vec![
        key_event(KeyState::Pressed, Key::A),
        key_event(KeyState::Pressed, Key::D),
        WindowInput::Other,
    ];
    assert_eq!(wm.update_pressed_keys(&events), Some(vec![Key::D]));
    // no key event: counts as Key0 coming up, and the list is sent again
    assert_eq!(wm.update_pressed_keys(&vec![]), Some(vec![Key::D]));
    // a key event without a key: nothing changes, nothing is sent
    let unknown = vec![key_event(KeyState::Released, Key::D), WindowInput::Keyboard { state: KeyState::Pressed, key: None }];
    assert_eq!(wm.update_pressed_keys(&unknown), None);
    assert_eq!(wm.update_pressed_keys(&vec![WindowInput::Other]), Some(vec![Key::D]));
}

#[test]
fn window_manager_press_release_restores() {
    let mut wm = WindowManager::new();
    wm.update_pressed_keys(&vec![key_event(KeyState::Pressed, Key::Other(5))]);
    wm.update_pressed_keys(&vec![key_event(KeyState::Pressed, Key::S)]);
    wm.update_pressed_keys(&vec![key_event(KeyState::Released, Key::S)]);
    assert_eq!(wm.update_pressed_keys(&vec![WindowInput::Other]), Some(vec![Key::Other(5)]));
    assert!(!wm.closed());
    wm.update_pressed_keys(&vec![WindowInput::Closed]);
    assert!(wm.closed());
}

#[test]
fn close_requests() {
    assert!(!close_requested(&vec![]));
    assert!(!close_requested(&vec![WindowInput::Other, key_event(KeyState::Pressed, Key::Up)]));
    assert!(close_requested(&vec![WindowInput::Other, WindowInput::Closed]));
}

#[test]
fn stream_relay_filters_chunks() {
    let mut relay = StreamRelay::new();
    assert_eq!(relay.on_read(None), None);
    assert_eq!(relay.on_read(Some(0)), None);
    assert_eq!(relay.on_read(Some(CONTROL_PACKET_LEN)), None);
    assert_eq!(relay.on_read(Some(8192)), Some(8192));
    // a failed read passes on the last chunk again
    assert_eq!(relay.on_read(None), Some(8192));
    assert_eq!(relay.on_read(Some(105)), Some(105));
    assert_eq!(relay.on_read(Some(107)), Some(107));
}

#[test]
fn tcp_paths() {
    assert!(is_tcp_path("tcp://127.0.0.1:8889?listen"));
    assert!(is_tcp_path("tcp:"));
    assert!(!is_tcp_path("tcp"));
    assert!(!is_tcp_path("udp://1.2.3.4:5"));
    assert!(!is_tcp_path("/tmp/video.h264"));
    assert!(!is_tcp_path(""));
}

fn no_change(_cmd: &mut Command) {}

fn no_frame(_data: &mut [u8], _width: u32, _height: u32) {}

#[test]
fn listeners_keep_their_callbacks() {
    let listener = CommandListener::new(no_change as fn(&mut Command));
    let mut cmd = Command::new();
    (listener.callback)(&mut cmd);
    assert_eq!(cmd.throttle, 0);
    let doubler = CommandListener::new(|c: &mut Command| c.pitch = 12);
    (doubler.callback)(&mut cmd);
    assert_eq!(cmd.pitch, 12);
    let video = VideoListener::new(no_frame as fn(&mut [u8], u32, u32));
    let mut pixels = [1u8, 2, 3];
    (video.callback)(&mut pixels, 1, 1);
    assert_eq!(pixels, [1, 2, 3]);
}
