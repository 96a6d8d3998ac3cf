use device_envoy_core::servo::{animation_end, step_write, AnimationEnd, AtEnd};
use device_envoy_core::capabilities::{Capability, CapabilitySet};
use device_envoy_core::char_lcd::{CharLcdDriver, message_line_break};
use device_envoy_core::clock::{
    UnixSeconds, h12_from_hms, scale_elapsed_microseconds, scaled_interval_microseconds,
    unix_micros_for_seconds, utc_seconds_and_micros,
};
use device_envoy_core::lcd_text::{
    LcdTextDriver, LcdTextError, LcdTextFrame, byte_nibbles, cursor_command, nibble_strobe_bytes,
    render_lcd_text_frame,
};
use device_envoy_core::led::{LedLevel, OnLevel, pin_is_high};
use device_envoy_core::led_strip::{Current, Gamma, generate_combo_table};
use device_envoy_core::rfid::{RfidEvent, card_detected};
use device_envoy_core::servo::{combine, linear};
use device_envoy_core::time_sync::{TimeSyncEvent, ntp_request, parse_ntp_response, time_sync_event};
use device_envoy_core::touch::{
    CalibrationCorner, EnsureCalibrationSettings, VERIFY_TIMEOUT_FRAMES,
    calibration_corner_center, calibration_corner_for_index,
};
use device_envoy_core::wifi_auto::{
    WifiAutoPersistedState, WifiCredentials, WifiStartMode, should_enter_captive_portal,
};

#[test]
fn capability_sets_hold_what_was_added() {
    let set = CapabilitySet::empty().with(Capability::Wifi).with(Capability::I2s);
    assert!(set.contains(Capability::Wifi));
    assert!(set.contains(Capability::I2s));
    assert!(!set.contains(Capability::Rmt));
    assert!(!CapabilitySet::empty().contains(Capability::ExtendedGpio));
}

#[test]
fn ntp_seconds_convert_to_unix_seconds() {
    assert_eq!(UnixSeconds::from_ntp_seconds(2_208_988_800), Some(UnixSeconds(0)));
    assert_eq!(UnixSeconds::from_ntp_seconds(3_913_056_000), Some(UnixSeconds(1_704_067_200)));
    assert_eq!(UnixSeconds::from_ntp_seconds(2_208_988_799), None);
    assert_eq!(UnixSeconds(42).as_i64(), 42);
}

#[test]
fn clock_speed_scaling() {
    assert_eq!(scaled_interval_microseconds(1000, 1_000_000), 1_000_000);
    assert_eq!(scaled_interval_microseconds(1000, 2_000_000), 500_000);
    assert_eq!(scale_elapsed_microseconds(1_000_000, 2_000_000), 2_000_000);
    assert_eq!(scale_elapsed_microseconds(3, 500_000), 1);
    assert_eq!(utc_seconds_and_micros(1_500_000, 250_000), (1, 750_000));
    assert_eq!(utc_seconds_and_micros(-1_500_000, 0), (-1, -500_000));
    assert_eq!(unix_micros_for_seconds(UnixSeconds(2)), Some(2_000_000));
    assert_eq!(unix_micros_for_seconds(UnixSeconds(i64::MAX)), None);
}

#[test]
fn twelve_hour_clock() {
    assert_eq!(h12_from_hms(0, 5, 6), (12, 5, 6));
    assert_eq!(h12_from_hms(12, 0, 0), (12, 0, 0));
    assert_eq!(h12_from_hms(13, 59, 59), (1, 59, 59));
    assert_eq!(h12_from_hms(9, 1, 2), (9, 1, 2));
}

#[test]
fn lcd_frames_render_lines() {
    let frame: LcdTextFrame<32> = render_lcd_text_frame::<16, 2, 32>("Hi\nthere");
    assert_eq!(frame.width, 16);
    assert_eq!(frame.height, 2);
    assert_eq!(frame.cell(0, 0), b'H');
    assert_eq!(frame.cell(0, 1), b'i');
    assert_eq!(frame.cell(0, 2), b' ');
    assert_eq!(frame.cell(1, 0), b't');
    assert_eq!(frame.cell(1, 4), b'e');
    let clipped: LcdTextFrame<4> = render_lcd_text_frame::<2, 2, 4>("abc\né\nzz");
    assert_eq!(clipped.cells, [b'a', b'b', b'?', b' ']);
    let blank: LcdTextFrame<8> = LcdTextFrame::new_blank(2, 2);
    assert_eq!(blank.cells, [b' '; 8]);
    let rows: LcdTextFrame<6> = LcdTextFrame::from_rows([[1, 2], [3, 4]]);
    assert_eq!(rows.cells, [1, 2, 3, 4, b' ', b' ']);
}

#[test]
fn lcd_protocol_bytes() {
    assert_eq!(nibble_strobe_bytes(0x3, false), (0x3C, 0x38));
    assert_eq!(nibble_strobe_bytes(0x4, true), (0x4D, 0x49));
    assert_eq!(byte_nibbles(0x28), (0x2, 0x8));
    assert_eq!(cursor_command(0, 0), Ok(0x80));
    assert_eq!(cursor_command(1, 3), Ok(0xC3));
    assert_eq!(cursor_command(3, 19), Ok(0xE7));
    assert_eq!(cursor_command(4, 0), Err(LcdTextError::RowOutOfBounds { row: 4 }));
    let mut driver = LcdTextDriver::new(0x27);
    driver.set_address(0x3F);
    assert_eq!(driver.address(), 0x3F);
    assert_eq!(CharLcdDriver::new_default().address(), 0x27);
    assert_eq!(CharLcdDriver::cursor_command(1, 0), 0xC0);
    assert_eq!(CharLcdDriver::cursor_command(7, 0), 0x80);
    assert_eq!(message_line_break("ab\ncd"), Some(2));
    assert_eq!(message_line_break("abcd"), None);
}

#[test]
fn led_levels() {
    assert!(pin_is_high(LedLevel::On, OnLevel::High));
    assert!(!pin_is_high(LedLevel::On, OnLevel::Low));
    assert!(pin_is_high(LedLevel::Off, OnLevel::Low));
    assert_eq!(LedLevel::default(), LedLevel::Off);
    assert_eq!(OnLevel::default(), OnLevel::High);
}

#[test]
fn led_strip_brightness() {
    let table = generate_combo_table(Gamma::Linear, 128);
    assert_eq!(table[255], 128);
    assert_eq!(table[100], 50);
    let srgb = generate_combo_table(Gamma::Srgb, 255);
    assert_eq!(srgb[0], 0);
    assert_eq!(srgb[255], 255);
    assert_eq!(srgb[128], 56);
    assert_eq!(Current::Milliamps(250).max_brightness(1000), 63);
    assert_eq!(Current::Milliamps(5000).max_brightness(1000), 255);
    assert_eq!(Current::Unlimited.max_brightness(1), 255);
    assert_eq!(Current::default(), Current::Milliamps(250));
    assert_eq!(Gamma::default(), Gamma::Srgb);
}

#[test]
fn rfid_uids_are_zero_padded() {
    assert_eq!(
        card_detected(&[1, 2, 3, 4]),
        RfidEvent::CardDetected { uid: [1, 2, 3, 4, 0, 0, 0, 0, 0, 0] }
    );
}

#[test]
fn servo_sweeps() {
    let steps: [(u16, u64); 5] = linear(0, 180, 1_000_000);
    assert_eq!(steps, [(0, 200_000), (45, 200_000), (90, 200_000), (135, 200_000), (180, 200_000)]);
    let down: [(u16, u64); 3] = linear(90, 0, 900);
    assert_eq!(down, [(90, 300), (45, 300), (0, 300)]);
    let single: [(u16, u64); 1] = linear(30, 60, 10);
    assert_eq!(single, [(30, 10)]);
    let both: [(u16, u64); 4] = combine(down, single);
    assert_eq!(both, [(90, 300), (45, 300), (0, 300), (30, 10)]);
}

#[test]
fn ntp_replies() {
    let request = ntp_request();
    assert_eq!(request[0], 0x1B);
    assert!(request[1..].iter().all(|byte| *byte == 0));
    let mut response = [0u8; 48];
    response[40..44].copy_from_slice(&3_913_056_000u32.to_be_bytes());
    assert_eq!(parse_ntp_response(&response, 48), Ok(UnixSeconds(1_704_067_200)));
    assert!(parse_ntp_response(&response, 47).is_err());
    assert!(parse_ntp_response(&[0u8; 48], 48).is_err());
    assert!(matches!(time_sync_event(Ok(UnixSeconds(5))), TimeSyncEvent::Synced(UnixSeconds(5))));
    assert!(matches!(time_sync_event(Err("x")), TimeSyncEvent::Failed("x")));
}

#[test]
fn calibration_targets() {
    assert_eq!(calibration_corner_for_index(0), Some(CalibrationCorner::UpperLeft));
    assert_eq!(calibration_corner_for_index(3), Some(CalibrationCorner::LowerLeft));
    assert_eq!(calibration_corner_for_index(4), None);
    let center = calibration_corner_center(CalibrationCorner::LowerRight);
    assert_eq!((center.x, center.y), (279, 199));
    assert_eq!(EnsureCalibrationSettings::new(5).verify_timeout_frames(), 5);
    assert_eq!(
        EnsureCalibrationSettings::default_settings().verify_timeout_frames(),
        VERIFY_TIMEOUT_FRAMES
    );
    assert_eq!(VERIFY_TIMEOUT_FRAMES, 100);
}

#[test]
fn captive_portal_fallback() {
    assert!(!should_enter_captive_portal(WifiStartMode::Client, false, true, true));
    assert!(should_enter_captive_portal(WifiStartMode::CaptivePortal, false, true, true));
    assert!(should_enter_captive_portal(WifiStartMode::Client, true, true, true));
    assert!(should_enter_captive_portal(WifiStartMode::Client, false, false, true));
    assert!(should_enter_captive_portal(WifiStartMode::Client, false, true, false));
    let credentials = WifiCredentials::new("demo-net", "password123");
    assert_eq!(credentials.ssid.as_str(), "demo-net");
    assert_eq!(credentials.password.as_str(), "password123");
    assert_eq!(credentials.clone(), credentials);
    let state = WifiAutoPersistedState::default();
    assert!(state.wifi_credentials.is_none());
    assert_eq!(state.wifi_start_mode, WifiStartMode::Client);
}

#[test]
fn servo_animation_steps_and_ends() {
    assert_eq!(step_write(90, 90), None);
    assert_eq!(step_write(90, 45), Some(45));
    assert_eq!(animation_end(AtEnd::Loop), AnimationEnd::Repeat);
    assert_eq!(animation_end(AtEnd::Hold), AnimationEnd::Wait);
    assert_eq!(animation_end(AtEnd::Relax), AnimationEnd::RelaxThenWait);
}

#[test]
fn unix_seconds_order_by_their_seconds() {
    assert!(UnixSeconds(3) < UnixSeconds(5));
    assert!(UnixSeconds(-7) <= UnixSeconds(-7));
    assert!(UnixSeconds(10) > UnixSeconds(-10));
    assert_eq!(UnixSeconds(4).partial_cmp(&UnixSeconds(4)), Some(core::cmp::Ordering::Equal));
}

#[test]
fn adding_capabilities_twice_or_in_either_order_gives_the_same_set() {
    let set = CapabilitySet::empty().with(Capability::Wifi);
    assert_eq!(set.with(Capability::Wifi), set);
    assert_eq!(set.with(Capability::I2s).with(Capability::Rmt), set.with(Capability::Rmt).with(Capability::I2s));
    assert!(!CapabilitySet::empty().contains(Capability::Rmt));
}
