use device_envoy_core::button::{PressDuration, PressedTo};

#[test]
fn pressed_to_ground_maps_low_to_pressed() {
    assert!(PressedTo::Ground.is_pressed(false));
    assert!(!PressedTo::Ground.is_pressed(true));
}

#[test]
fn pressed_to_voltage_maps_high_to_pressed() {
    assert!(!PressedTo::Voltage.is_pressed(false));
    assert!(PressedTo::Voltage.is_pressed(true));
}

#[test]
fn pressed_is_high_only_for_voltage_wiring() {
    assert!(PressedTo::Voltage.pressed_is_high());
    assert!(!PressedTo::Ground.pressed_is_high());
    assert_ne!(PressDuration::Short, PressDuration::Long);
}
