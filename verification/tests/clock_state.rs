use device_envoy_core::clock::micros_until_boundary;
use device_envoy_core::clock::micros_since_last_sync;
use device_envoy_core::button::{PressDuration, PressPhase};
use device_envoy_core::clock::{ClockState, UnixSeconds, SPEED_SCALE_PPM};

#[test]
fn unset_clock_reads_the_epoch() {
    let clock = ClockState::new(-300, 1_000);
    assert_eq!(clock.now_utc(5_000_000), (0, 0));
    assert_eq!(clock.speed_scaled_ppm, SPEED_SCALE_PPM);
}

#[test]
fn set_clock_advances_with_real_time() {
    let mut clock = ClockState::new(0, 1_000);
    clock.set_utc_time(UnixSeconds(1_700_000_000), 2_000_000);
    assert_eq!(clock.now_utc(2_000_000), (1_700_000_000, 0));
    assert_eq!(clock.now_utc(3_500_250), (1_700_000_001, 500_250));
}

#[test]
fn faster_clock_scales_elapsed_time() {
    let mut clock = ClockState::new(0, 1_000);
    clock.set_utc_time(UnixSeconds(100), 1_000);
    clock.set_speed(2 * SPEED_SCALE_PPM, 1_000);
    assert_eq!(clock.now_utc(1_001_000), (102, 0));
}

#[test]
fn returning_to_real_speed_resumes_real_time() {
    let mut clock = ClockState::new(0, 1_000);
    clock.set_utc_time(UnixSeconds(100), 1_000);
    clock.set_speed(10 * SPEED_SCALE_PPM, 1_000);
    // Ten times faster for one real second reads ten seconds later...
    assert_eq!(clock.now_utc(1_001_000), (110, 0));
    // ...but back at real speed the clock reads real time again.
    clock.set_speed(SPEED_SCALE_PPM, 1_001_000);
    assert_eq!(clock.now_utc(2_001_000), (102, 0));
}

#[test]
fn offset_and_interval_are_stored() {
    let mut clock = ClockState::new(0, 1_000);
    clock.set_offset_minutes(60);
    clock.set_tick_interval_ms(0);
    assert_eq!(clock.offset_minutes, 60);
    assert_eq!(clock.tick_interval_ms, 0);
}

#[test]
fn press_is_measured_from_a_stable_release() {
    let phase = PressPhase::start();
    assert!(!phase.awaited_pressed());
    // Still held from before: keep waiting for a release.
    assert_eq!(phase.after_debounce(true), (PressPhase::AwaitRelease, None));
    let (phase, _) = phase.after_debounce(false);
    assert_eq!(phase, PressPhase::AwaitPress);
    assert!(phase.awaited_pressed());
    // A bounce does not start the press.
    assert_eq!(phase.after_debounce(false), (PressPhase::AwaitPress, None));
    let (phase, _) = phase.after_debounce(true);
    assert!(phase.times_long_press());
    assert_eq!(phase.after_debounce(false), (PressPhase::Timing, Some(PressDuration::Short)));
    assert_eq!(phase.long_press_elapsed(), Some(PressDuration::Long));
    assert_eq!(PressPhase::AwaitPress.long_press_elapsed(), None);
}

#[test]
fn ticks_wait_for_the_next_interval_boundary() {
    assert_eq!(micros_until_boundary(2_500_000, 1_000_000), 500_000);
    assert_eq!(micros_until_boundary(3_000_000, 1_000_000), 1_000_000);
    assert_eq!(micros_until_boundary(0, 7), 7);
}

#[test]
fn time_since_sync_is_zero_before_the_first_sync() {
    assert_eq!(micros_since_last_sync(0, 123_456), 0);
    assert_eq!(micros_since_last_sync(1_000, 4_500), 3_500);
}
