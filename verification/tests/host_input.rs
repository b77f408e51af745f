use autowc::control::KeyState;
use autowc::host_input::{
    host_button_code, passes_while_blocked, xorg_mouse_to_libinput, DeviceCapability,
    HostKeyTracker, HostMouseButton, HostVirtualDevice,
};

#[test]
fn tracks_held_host_keys_per_window() {
    let mut tracker = HostKeyTracker::new();
    tracker.record(1, 30, KeyState::Pressed);
    tracker.record(1, 30, KeyState::Pressed);
    tracker.record(1, 42, KeyState::Pressed);
    tracker.record(2, 30, KeyState::Pressed);
    assert!(tracker.is_pressed(1, 30));
    assert!(tracker.is_pressed(2, 30));
    tracker.record(1, 30, KeyState::Released);
    assert!(!tracker.is_pressed(1, 30));
    assert!(tracker.is_pressed(1, 42));
    assert!(tracker.is_pressed(2, 30));
}

#[test]
fn releases_held_keys_once_in_increasing_order() {
    let mut tracker = HostKeyTracker::new();
    for key in [57, 29, 42, 29] {
        tracker.record(3, key, KeyState::Pressed);
    }
    tracker.record(4, 1, KeyState::Pressed);
    assert_eq!(tracker.release_window(3), vec![29, 42, 57]);
    assert!(!tracker.is_pressed(3, 29));
    assert!(tracker.is_pressed(4, 1));
    assert!(tracker.release_window(3).is_empty());
}

#[test]
fn only_releases_of_held_keys_pass_while_blocked() {
    let mut tracker = HostKeyTracker::new();
    tracker.record(1, 30, KeyState::Pressed);
    assert!(passes_while_blocked(&tracker, 1, 30, KeyState::Released));
    assert!(!passes_while_blocked(&tracker, 1, 30, KeyState::Pressed));
    assert!(!passes_while_blocked(&tracker, 1, 31, KeyState::Released));
    assert!(!passes_while_blocked(&tracker, 2, 30, KeyState::Released));
}

#[test]
fn maps_host_mouse_buttons_to_linux_codes() {
    assert_eq!(host_button_code(HostMouseButton::Left, false), 0x110);
    assert_eq!(host_button_code(HostMouseButton::Right, true), 0x111);
    assert_eq!(host_button_code(HostMouseButton::Middle, false), 0x112);
    assert_eq!(host_button_code(HostMouseButton::Forward, false), 0x115);
    assert_eq!(host_button_code(HostMouseButton::Back, true), 0x116);
    assert_eq!(host_button_code(HostMouseButton::Other(0x117), false), 0x117);
    assert_eq!(host_button_code(HostMouseButton::Other(2), true), 0x112);
    assert_eq!(host_button_code(HostMouseButton::Other(9), true), 0x114);
    assert_eq!(xorg_mouse_to_libinput(0), 0);
    assert_eq!(xorg_mouse_to_libinput(1), 0x110);
    assert_eq!(xorg_mouse_to_libinput(3), 0x111);
    assert_eq!(xorg_mouse_to_libinput(8), 0x113);
}

#[test]
fn host_device_is_a_keyboard_and_a_pointer() {
    let device = HostVirtualDevice;
    assert_eq!(device.id(), "host-winit");
    assert_eq!(device.name(), "host winit virtual input");
    assert!(device.has_capability(DeviceCapability::Keyboard));
    assert!(device.has_capability(DeviceCapability::Pointer));
    assert!(!device.has_capability(DeviceCapability::Touch));
    assert!(!device.has_capability(DeviceCapability::Switch));
}

#[test]
fn counts_host_keys_down_without_going_negative() {
    assert_eq!(autowc::host_input::update_key_count(0, KeyState::Pressed), 1);
    assert_eq!(autowc::host_input::update_key_count(2, KeyState::Released), 1);
    assert_eq!(autowc::host_input::update_key_count(0, KeyState::Released), 0);
}
