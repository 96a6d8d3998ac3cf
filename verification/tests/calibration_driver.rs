use device_envoy_core::calibration_driver::{
    shapes_need_redraw, CalibrationCapture, CalibrationDriverState, CalibrationMessage,
    CalibrationShape, EnsureCalibrationOutcome, IdleAction, VerifyOutcome,
    CAPTURE_ACK_FRAME_COUNT,
};
use device_envoy_core::touch::{CalibrationCorner, REJECTED_FRAME_COUNT};

type Config = [f32; 6];
type State = CalibrationDriverState<Config, f32>;

const CANDIDATE: Config = [1.0, 0.0, 0.0, 0.0, 1.0, 0.0];

#[test]
fn captured_corner_is_acknowledged_for_a_few_frames() {
    let mut state = State::start();
    assert!(state.accepts_touches());
    let restart =
        state.on_capture(CalibrationCapture::PointCaptured(CalibrationCorner::UpperLeft), 100);
    assert!(!restart);
    assert!(!state.accepts_touches());
    let (shape, message) = state.screen(Some(CalibrationCorner::UpperRight));
    assert_eq!(
        shape,
        CalibrationShape::ShowCaptured {
            calibration_corner: CalibrationCorner::UpperLeft,
            next_corner: Some(CalibrationCorner::UpperRight),
        }
    );
    assert!(matches!(message, CalibrationMessage::CornerCaptured));
    for _ in 0..CAPTURE_ACK_FRAME_COUNT - 1 {
        assert_eq!(state.advance_after_idle(), IdleAction::Nothing);
        assert!(matches!(state, CalibrationDriverState::ShowCaptured { .. }));
    }
    assert_eq!(state.advance_after_idle(), IdleAction::Nothing);
    assert!(matches!(state, CalibrationDriverState::Capturing));
    assert_eq!(state.advance_after_idle(), IdleAction::FeedFlow);
}

#[test]
fn validated_candidate_is_confirmed_by_a_hit() {
    let mut state = State::start();
    assert!(!state.on_capture(CalibrationCapture::Validated(CANDIDATE), 3));
    assert!(state.paces_frames());
    let (shape, message) = state.screen(None);
    assert_eq!(shape, CalibrationShape::Verifying);
    assert!(matches!(message, CalibrationMessage::TapCenter));
    assert_eq!(state.advance_after_idle(), IdleAction::FeedRelease);
    match state.on_verify_tap(true) {
        VerifyOutcome::Confirmed(config) => assert_eq!(config, CANDIDATE),
        VerifyOutcome::Rejected => panic!("a hit confirms"),
    }
}

#[test]
fn missed_tap_rejects_the_candidate() {
    let mut state = State::start();
    state.on_capture(CalibrationCapture::Validated(CANDIDATE), 3);
    assert!(matches!(state.on_verify_tap(false), VerifyOutcome::Rejected));
    match state {
        CalibrationDriverState::ShowRejected { worst_residual_pixels, frames_remaining } => {
            assert_eq!(worst_residual_pixels, None);
            assert_eq!(frames_remaining, REJECTED_FRAME_COUNT);
        }
        _ => panic!("a miss shows the rejection"),
    }
}

#[test]
fn confirmation_times_out() {
    let mut state = State::start();
    state.on_capture(CalibrationCapture::Validated(CANDIDATE), 2);
    assert_eq!(state.advance_after_idle(), IdleAction::FeedRelease);
    assert_eq!(state.advance_after_idle(), IdleAction::FeedReleaseAndRestartFlow);
    assert!(matches!(
        state,
        CalibrationDriverState::ShowRejected { worst_residual_pixels: None, .. }
    ));
}

#[test]
fn rejected_solves_restart_the_flow() {
    let mut state = State::start();
    assert!(state.on_capture(CalibrationCapture::ResidualTooLarge(14.5), 100));
    let (shape, message) = state.screen(Some(CalibrationCorner::UpperLeft));
    assert_eq!(shape, CalibrationShape::ShowRejected(Some(CalibrationCorner::UpperLeft)));
    assert!(matches!(message, CalibrationMessage::TryAgain(Some(residual)) if residual == 14.5));

    let mut state = State::start();
    assert!(state.on_capture(CalibrationCapture::DegenerateGeometry, 100));
    assert!(matches!(state.screen(None).1, CalibrationMessage::TryAgain(None)));
    for _ in 0..REJECTED_FRAME_COUNT {
        state.advance_after_idle();
    }
    assert!(matches!(state, CalibrationDriverState::Capturing));
}

#[test]
fn recalibration_button_returns_to_capturing() {
    let mut state = State::start();
    state.on_capture(CalibrationCapture::Validated(CANDIDATE), 100);
    state.restart();
    assert!(matches!(state, CalibrationDriverState::Capturing));
    assert!(matches!(state.screen(None).1, CalibrationMessage::TapTarget));
}

#[test]
fn shapes_redraw_only_on_change() {
    let shape = CalibrationShape::Capturing(Some(CalibrationCorner::LowerLeft));
    assert!(shapes_need_redraw(None, shape));
    assert!(!shapes_need_redraw(Some(shape), shape));
    assert!(shapes_need_redraw(Some(shape), CalibrationShape::Verifying));
}

#[test]
fn outcome_reports_how_calibration_was_obtained() {
    let loaded = EnsureCalibrationOutcome::Loaded(CANDIDATE);
    assert_eq!(loaded.calibration_config(), CANDIDATE);
    assert!(!loaded.was_saved());
    assert!(EnsureCalibrationOutcome::Saved(CANDIDATE).was_saved());
}
