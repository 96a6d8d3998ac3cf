//! The decisions of the four-tap touch calibration screen.
//!
//! The calibration loop reads raw touches, feeds them to the tap-capture flow,
//! redraws the screen and, once the user confirms a candidate by tapping the
//! center target, saves it. This module holds the loop's state and every
//! decision it takes: how a captured corner, a rejected solve, a confirmation
//! tap or an idle frame change the state, what the loop must do to the flow,
//! and what the screen shows. The affine solve and the hit test compute on
//! floating point and stay with the caller, which hands their outcomes in as
//! `Config` and `Residual` values and a `bool`.

use vstd::prelude::*;
use crate::touch::{CalibrationCorner, REJECTED_FRAME_COUNT};

verus! {

/// Frames a captured corner stays acknowledged on screen.
pub const CAPTURE_ACK_FRAME_COUNT: usize = 8;

/// Raw touch events read per drawn frame at most.
pub const MAX_RAW_EVENTS_PER_FRAME: usize = 64;

/// Result of ensuring calibration at startup.
#[derive(Clone, Copy, Debug)]
pub enum EnsureCalibrationOutcome<Config> {
    /// A stored calibration was found.
    Loaded(Config),
    /// A new calibration was captured, confirmed and saved.
    Saved(Config),
}

impl<Config: Copy> EnsureCalibrationOutcome<Config> {
    /// The calibration, however it was obtained.
    #[must_use]
    pub fn calibration_config(self) -> (config: Config)
        ensures
            config == match self {
                EnsureCalibrationOutcome::Loaded(config) => config,
                EnsureCalibrationOutcome::Saved(config) => config,
            },
    {
        match self {
            EnsureCalibrationOutcome::Loaded(config) => config,
            EnsureCalibrationOutcome::Saved(config) => config,
        }
    }

    /// Whether the calibration was newly saved.
    #[must_use]
    pub fn was_saved(self) -> (saved: bool)
        ensures
            saved == self is Saved,
    {
        match self {
            EnsureCalibrationOutcome::Loaded(_) => false,
            EnsureCalibrationOutcome::Saved(_) => true,
        }
    }
}

/// What the calibration screen is doing.
#[derive(Clone, Copy, Debug)]
pub enum CalibrationDriverState<Config, Residual> {
    /// Waiting for the next corner tap.
    Capturing,
    /// Acknowledging a captured corner for a few frames.
    ShowCaptured { calibration_corner: CalibrationCorner, frames_remaining: usize },
    /// Showing that the taps were rejected for a few frames.
    ShowRejected { worst_residual_pixels: Option<Residual>, frames_remaining: usize },
    /// Waiting for the confirmation tap on the center target.
    Verifying { candidate_config: Config, polls_remaining: usize },
}

/// What the tap-capture flow made of a raw touch while capturing.
#[derive(Clone, Copy, Debug)]
pub enum CalibrationCapture<Config, Residual> {
    /// A corner was captured and more remain.
    PointCaptured(CalibrationCorner),
    /// All four corners were captured and solve to this candidate.
    Validated(Config),
    /// All four corners were captured but fit no calibration well: the worst
    /// corner misses by this much.
    ResidualTooLarge(Residual),
    /// All four corners were captured but lie too close to a line.
    DegenerateGeometry,
}

/// What a confirmation tap led to.
#[derive(Clone, Copy, Debug)]
pub enum VerifyOutcome<Config> {
    /// The tap hit the target: save this calibration and finish.
    Confirmed(Config),
    /// The tap missed: the taps start over.
    Rejected,
}

/// What an idle frame asks of the caller.
#[derive(Clone, Copy, Debug, PartialEq, Eq)]
pub enum IdleAction {
    /// Nothing beyond redrawing.
    Nothing,
    /// Tell the tap-capture flow that no touch is down.
    FeedFlow,
    /// Tell the confirmation-tap capture that no touch is down.
    FeedRelease,
    /// Tell the confirmation-tap capture that no touch is down, then restart
    /// the tap-capture flow: the confirmation timed out.
    FeedReleaseAndRestartFlow,
}

/// The shapes on the calibration screen; the screen's shapes are redrawn
/// only when this changes.
#[derive(Clone, Copy, Debug, PartialEq, Eq, Structural)]
pub enum CalibrationShape {
    /// The target of the next corner, if any.
    Capturing(Option<CalibrationCorner>),
    /// The acknowledged corner's dot and the next corner's target.
    ShowCaptured { calibration_corner: CalibrationCorner, next_corner: Option<CalibrationCorner> },
    /// The rejected target of the next corner, if any.
    ShowRejected(Option<CalibrationCorner>),
    /// The center target.
    Verifying,
}

/// The instruction under the shapes.
#[derive(Clone, Copy, Debug)]
pub enum CalibrationMessage<Residual> {
    /// "Tap target, then lift".
    TapTarget,
    /// "Corner captured".
    CornerCaptured,
    /// "Try again", with the worst residual in pixels when one is known.
    TryAgain(Option<Residual>),
    /// "Tap center to save".
    TapCenter,
}

/// A frame count after one idle frame: one less, but never below zero.
pub open spec fn count_down(frames: usize) -> usize {
    if frames > 0 { (frames - 1) as usize } else { 0 }
}

impl<Config: Copy, Residual: Copy> CalibrationDriverState<Config, Residual> {
    /// The state the loop starts in.
    pub fn start() -> (state: Self)
        ensures
            state is Capturing,
    {
        CalibrationDriverState::Capturing
    }

    /// Pressing the recalibration button returns to capturing; the caller
    /// restarts the tap-capture flow.
    pub fn restart(&mut self)
        ensures
            *final(self) is Capturing,
    {
        *self = CalibrationDriverState::Capturing;
    }

    /// Whether raw touches are passed on in this state: while capturing
    /// and while verifying. The acknowledgement and rejection screens
    /// drop them.
    pub fn accepts_touches(&self) -> (accepts: bool)
        ensures
            accepts == (*self is Capturing || *self is Verifying),
    {
        match self {
            CalibrationDriverState::Capturing | CalibrationDriverState::Verifying { .. } => true,
            _ => false,
        }
    }

    /// Whether the loop waits between frames in this state (only while
    /// verifying, so the timeout is real time).
    pub fn paces_frames(&self) -> (paces: bool)
        ensures
            paces == *self is Verifying,
    {
        match self {
            CalibrationDriverState::Verifying { .. } => true,
            _ => false,
        }
    }

    /// Takes in what the tap-capture flow reported while capturing, and
    /// returns whether the caller must restart the flow.
    ///
    /// A captured corner is acknowledged; a validated candidate is put up
    /// for confirmation with `verify_timeout_frames` polls; a rejected solve
    /// restarts the taps and shows the rejection.
    pub fn on_capture(
        &mut self,
        capture: CalibrationCapture<Config, Residual>,
        verify_timeout_frames: usize,
    ) -> (restart_flow: bool)
        requires
            (*old(self) is Capturing),
        ensures
            match capture {
                CalibrationCapture::PointCaptured(corner) => !restart_flow && *final(self)
                    == CalibrationDriverState::<Config, Residual>::ShowCaptured {
                    calibration_corner: corner,
                    frames_remaining: CAPTURE_ACK_FRAME_COUNT,
                },
                CalibrationCapture::Validated(config) => !restart_flow && *final(self)
                    == CalibrationDriverState::<Config, Residual>::Verifying {
                    candidate_config: config,
                    polls_remaining: verify_timeout_frames,
                },
                CalibrationCapture::ResidualTooLarge(residual) => restart_flow && *final(self)
                    == CalibrationDriverState::<Config, Residual>::ShowRejected {
                    worst_residual_pixels: Some(residual),
                    frames_remaining: REJECTED_FRAME_COUNT,
                },
                CalibrationCapture::DegenerateGeometry => restart_flow && *final(self)
                    == CalibrationDriverState::<Config, Residual>::ShowRejected {
                    worst_residual_pixels: None,
                    frames_remaining: REJECTED_FRAME_COUNT,
                },
            },
    {
        match capture {
            CalibrationCapture::PointCaptured(calibration_corner) => {
                *self = CalibrationDriverState::ShowCaptured {
                    calibration_corner,
                    frames_remaining: CAPTURE_ACK_FRAME_COUNT,
                };
                false
            },
            CalibrationCapture::Validated(candidate_config) => {
                *self = CalibrationDriverState::Verifying {
                    candidate_config,
                    polls_remaining: verify_timeout_frames,
                };
                false
            },
            CalibrationCapture::ResidualTooLarge(residual) => {
                *self = CalibrationDriverState::ShowRejected {
                    worst_residual_pixels: Some(residual),
                    frames_remaining: REJECTED_FRAME_COUNT,
                };
                true
            },
            CalibrationCapture::DegenerateGeometry => {
                *self = CalibrationDriverState::ShowRejected {
                    worst_residual_pixels: None,
                    frames_remaining: REJECTED_FRAME_COUNT,
                };
                true
            },
        }
    }

    /// Takes in a confirmation tap while verifying: on the target it
    /// confirms the candidate and leaves the state as it is; off the target
    /// the caller restarts the flow and the rejection is shown.
    pub fn on_verify_tap(&mut self, hit: bool) -> (outcome: VerifyOutcome<Config>)
        requires
            (*old(self) is Verifying),
        ensures
            hit ==> *final(self) == *old(self) && outcome == VerifyOutcome::Confirmed(
                old(self)->candidate_config,
            ),
            !hit ==> (outcome is Rejected) && *final(self) == (
            CalibrationDriverState::<Config, Residual>::ShowRejected {
                worst_residual_pixels: None,
                frames_remaining: REJECTED_FRAME_COUNT,
            }),
    {
        let candidate = match self {
            CalibrationDriverState::Verifying { candidate_config, .. } => *candidate_config,
            _ => {
                proof {
                    assert(false);
                }
                return VerifyOutcome::Rejected;
            },
        };
        if hit {
            VerifyOutcome::Confirmed(candidate)
        } else {
            *self = CalibrationDriverState::ShowRejected {
                worst_residual_pixels: None,
                frames_remaining: REJECTED_FRAME_COUNT,
            };
            VerifyOutcome::Rejected
        }
    }

    /// Advances the state after a frame in which no touch was down.
    ///
    /// Capturing, the flow is told of the idle frame. The acknowledgement
    /// and rejection screens count down and return to capturing at zero.
    /// Verifying, the confirmation capture is told of the idle frame and
    /// the polls count down; at zero the candidate is rejected.
    pub fn advance_after_idle(&mut self) -> (action: IdleAction)
        ensures
            match *old(self) {
                CalibrationDriverState::Capturing => action == IdleAction::FeedFlow && *final(self)
                    == *old(self),
                CalibrationDriverState::ShowCaptured { calibration_corner, frames_remaining } => {
                    &&& action == IdleAction::Nothing
                    &&& count_down(frames_remaining) == 0 ==> *final(self) is Capturing
                    &&& count_down(frames_remaining) > 0 ==> *final(self)
                        == CalibrationDriverState::<Config, Residual>::ShowCaptured {
                        calibration_corner,
                        frames_remaining: count_down(frames_remaining),
                    }
                },
                CalibrationDriverState::ShowRejected { worst_residual_pixels, frames_remaining } => {
                    &&& action == IdleAction::Nothing
                    &&& count_down(frames_remaining) == 0 ==> *final(self) is Capturing
                    &&& count_down(frames_remaining) > 0 ==> *final(self)
                        == CalibrationDriverState::<Config, Residual>::ShowRejected {
                        worst_residual_pixels,
                        frames_remaining: count_down(frames_remaining),
                    }
                },
                CalibrationDriverState::Verifying { candidate_config, polls_remaining } => {
                    &&& count_down(polls_remaining) == 0 ==> action
                        == IdleAction::FeedReleaseAndRestartFlow && *final(self)
                        == CalibrationDriverState::<Config, Residual>::ShowRejected {
                        worst_residual_pixels: None,
                        frames_remaining: REJECTED_FRAME_COUNT,
                    }
                    &&& count_down(polls_remaining) > 0 ==> action == IdleAction::FeedRelease
                        && *final(self) == CalibrationDriverState::<Config, Residual>::Verifying {
                        candidate_config,
                        polls_remaining: count_down(polls_remaining),
                    }
                },
            },
    {
        match *self {
            CalibrationDriverState::Capturing => IdleAction::FeedFlow,
            CalibrationDriverState::ShowCaptured { calibration_corner, frames_remaining } => {
                let remaining = if frames_remaining > 0 {
                    frames_remaining - 1
                } else {
                    0
                };
                if remaining == 0 {
                    *self = CalibrationDriverState::Capturing;
                } else {
                    *self = CalibrationDriverState::ShowCaptured {
                        calibration_corner,
                        frames_remaining: remaining,
                    };
                }
                IdleAction::Nothing
            },
            CalibrationDriverState::ShowRejected { worst_residual_pixels, frames_remaining } => {
                let remaining = if frames_remaining > 0 {
                    frames_remaining - 1
                } else {
                    0
                };
                if remaining == 0 {
                    *self = CalibrationDriverState::Capturing;
                } else {
                    *self = CalibrationDriverState::ShowRejected {
                        worst_residual_pixels,
                        frames_remaining: remaining,
                    };
                }
                IdleAction::Nothing
            },
            CalibrationDriverState::Verifying { candidate_config, polls_remaining } => {
                let remaining = if polls_remaining > 0 {
                    polls_remaining - 1
                } else {
                    0
                };
                if remaining == 0 {
                    *self = CalibrationDriverState::ShowRejected {
                        worst_residual_pixels: None,
                        frames_remaining: REJECTED_FRAME_COUNT,
                    };
                    IdleAction::FeedReleaseAndRestartFlow
                } else {
                    *self = CalibrationDriverState::Verifying {
                        candidate_config,
                        polls_remaining: remaining,
                    };
                    IdleAction::FeedRelease
                }
            },
        }
    }

    /// What the screen shows in this state, given the corner the flow
    /// expects next.
    pub fn screen(&self, next_corner: Option<CalibrationCorner>) -> (screen: (
        CalibrationShape,
        CalibrationMessage<Residual>,
    ))
        ensures
            match *self {
                CalibrationDriverState::Capturing => screen.0 == CalibrationShape::Capturing(
                    next_corner,
                ) && screen.1 is TapTarget,
                CalibrationDriverState::ShowCaptured { calibration_corner, .. } => screen.0
                    == CalibrationShape::ShowCaptured { calibration_corner, next_corner }
                    && screen.1 is CornerCaptured,
                CalibrationDriverState::ShowRejected { worst_residual_pixels, .. } => screen.0
                    == CalibrationShape::ShowRejected(next_corner) && screen.1
                    == CalibrationMessage::TryAgain(worst_residual_pixels),
                CalibrationDriverState::Verifying { .. } => screen.0 == CalibrationShape::Verifying
                    && screen.1 is TapCenter,
            },
    {
        match *self {
            CalibrationDriverState::Capturing => (
                CalibrationShape::Capturing(next_corner),
                CalibrationMessage::TapTarget,
            ),
            CalibrationDriverState::ShowCaptured { calibration_corner, .. } => (
                CalibrationShape::ShowCaptured { calibration_corner, next_corner },
                CalibrationMessage::CornerCaptured,
            ),
            CalibrationDriverState::ShowRejected { worst_residual_pixels, .. } => (
                CalibrationShape::ShowRejected(next_corner),
                CalibrationMessage::TryAgain(worst_residual_pixels),
            ),
            CalibrationDriverState::Verifying { .. } => (
                CalibrationShape::Verifying,
                CalibrationMessage::TapCenter,
            ),
        }
    }
}

/// Whether the screen's shapes must be drawn again: when nothing was drawn
/// yet or the shapes changed.
pub fn shapes_need_redraw(last: Option<CalibrationShape>, current: CalibrationShape) -> (redraw:
    bool)
    ensures
        redraw == (last != Some(current)),
{
    match last {
        Some(last) => last != current,
        None => true,
    }
}

} // verus!
