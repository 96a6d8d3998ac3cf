use device_envoy_core::clock::browser_time_of_day;
use device_envoy_core::orientation::Orientation;
use device_envoy_core::web_supervisor::{
    orientation_is_inverted, Command, Notice, NoticeSeverity, PageInfo, RunFollowUp, SupervisorState, TimeOfDayOutOfRange,
};

#[test]
fn notices_come_out_oldest_first() {
    let mut state = SupervisorState::new(Orientation::Landscape);
    assert!(state.take_notice().is_none());
    assert_eq!(state.finish_run(Command::ResetWifi), RunFollowUp::ResetWifiThenRestart);
    assert_eq!(state.finish_run(Command::CalibrationNotNeeded), RunFollowUp::Restart);
    state.fatal("application failed".to_string());
    let first = state.take_notice().unwrap();
    assert_eq!(first.id(), "wifi-simulated");
    assert_eq!(first.severity(), NoticeSeverity::Info);
    assert_eq!(first.detail(), None);
    assert_eq!(state.take_notice().unwrap().id(), "calibration-not-needed");
    let fatal = state.take_notice().unwrap();
    assert_eq!(fatal.id(), "runtime-error");
    assert_eq!(fatal.severity(), NoticeSeverity::Fatal);
    assert_eq!(fatal.detail().as_deref(), Some("application failed"));
    assert!(state.take_notice().is_none());
}

#[test]
fn commands_decide_what_follows_a_run() {
    let mut state = SupervisorState::new(Orientation::Landscape);
    assert_eq!(state.finish_run(Command::Restart), RunFollowUp::Restart);
    assert_eq!(state.finish_run(Command::Stop), RunFollowUp::Stop);
    assert_eq!(
        state.finish_run(Command::Reorientate(Orientation::PortraitInverted)),
        RunFollowUp::SaveOrientation(Orientation::PortraitInverted)
    );
    assert!(state.take_notice().is_none());
    state.set_orientation(Orientation::PortraitInverted);
    assert_eq!(state.orientation(), Orientation::PortraitInverted);
    assert!(state.orientation_is_inverted());
}

#[test]
fn controls_are_gated_by_run_and_stop() {
    let mut state = SupervisorState::new(Orientation::LandscapeInverted);
    assert!(state.control_enabled());
    assert!(state.orientation_is_inverted());
    assert!(state.release_control());
    assert!(!state.control_enabled());
    assert!(!state.orientation_is_inverted());
    assert!(!state.release_control());
    state.attach_control();
    assert!(state.control_enabled());
    state.stop();
    assert!(state.is_stopped());
    assert!(!state.control_enabled());
}

#[test]
fn clock_time_of_day_must_lie_within_a_day() {
    let mut state = SupervisorState::new(Orientation::Landscape);
    assert_eq!(state.set_clock_time_of_day(12 * 60 * 60), Ok(()));
    assert_eq!(state.clock_time_of_day(), Some(43_200));
    assert_eq!(state.set_clock_time_of_day(86_400), Err(TimeOfDayOutOfRange));
    assert_eq!(state.clock_time_of_day(), Some(43_200));
    state.use_live_clock();
    assert_eq!(state.clock_time_of_day(), None);
    assert!(!state.clock_control_is_visible());
    state.show_clock_control();
    assert!(state.clock_control_is_visible());
}

#[test]
fn page_info_is_returned_as_strings() {
    let page = PageInfo::new(
        "Counter",
        "A touch-controlled counter",
        "The same application logic used by the hardware builds.",
        "Touch the display; BOOT resets.",
        "https://example.invalid/counter.rs",
    );
    assert_eq!(page.page_title(), "Counter");
    assert_eq!(page.page_preview(), page.preview);
    assert_eq!(page.page_description(), page.description);
    assert_eq!(page.page_controls(), page.controls);
    assert!(page.page_core_code_url().ends_with("counter.rs"));
    assert_eq!(Notice::info("x").id(), "x");
}

#[test]
fn browser_clock_replaces_the_time_of_day() {
    assert_eq!(browser_time_of_day(None), None);
    assert_eq!(browser_time_of_day(Some(3_661)), Some((1, 1, 1)));
    assert_eq!(browser_time_of_day(Some(86_399)), Some((23, 59, 59)));
    // Hour 24 is no time of day: the live clock is kept.
    assert_eq!(browser_time_of_day(Some(86_400)), None);
    // The hour is narrowed to a byte, so 256 hours reads as midnight.
    assert_eq!(browser_time_of_day(Some(256 * 3_600)), Some((0, 0, 0)));
}

#[test]
fn only_the_two_inverted_orientations_are_inverted() {
    assert!(!orientation_is_inverted(Orientation::Landscape));
    assert!(!orientation_is_inverted(Orientation::Portrait));
    assert!(orientation_is_inverted(Orientation::LandscapeInverted));
    assert!(orientation_is_inverted(Orientation::PortraitInverted));
}
