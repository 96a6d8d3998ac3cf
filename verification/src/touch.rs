//! Touch-panel events, the four-tap calibration targets and the settings of
//! the calibration flow.

use vstd::prelude::*;

use crate::orientation::{Point, SCREEN_HEIGHT, SCREEN_WIDTH};

verus! {

/// An uncalibrated touch-controller event read by a platform implementation.
#[derive(Clone, Copy, Debug, PartialEq, Eq)]
pub enum RawTouchEvent {
    /// A new touch contact.
    Down {
        /// Raw controller X sample.
        raw_x: u16,
        /// Raw controller Y sample.
        raw_y: u16,
    },
    /// Movement for an existing touch contact.
    Move {
        /// Raw controller X sample.
        raw_x: u16,
        /// Raw controller Y sample.
        raw_y: u16,
    },
    /// The touch contact was released.
    Up,
}

/// Distance, in pixels, of the calibration crosses from the screen edges.
pub const CALIBRATION_CROSS_MARGIN: i32 = 40;

/// Seconds the verification step waits for a tap.
pub const VERIFY_TIMEOUT_SECONDS: usize = 10;

/// Frames per second at which the calibration flow redraws.
pub const CALIBRATION_DRAW_FRAMES_PER_SECOND: usize = 10;

/// Frames the verification step waits for a tap.
pub const VERIFY_TIMEOUT_FRAMES: usize = VERIFY_TIMEOUT_SECONDS * CALIBRATION_DRAW_FRAMES_PER_SECOND;

/// Frames a rejected calibration stays on screen.
pub const REJECTED_FRAME_COUNT: usize = 30;

/// The four calibration targets, in tap order.
#[derive(Clone, Copy, Debug, PartialEq, Eq, Structural)]
pub enum CalibrationCorner {
    UpperLeft,
    UpperRight,
    LowerRight,
    LowerLeft,
}

/// The corner tapped at step `index` of the four-tap flow, if any.
pub open spec fn corner_for_index(index: int) -> Option<CalibrationCorner> {
    if index == 0 {
        Some(CalibrationCorner::UpperLeft)
    } else if index == 1 {
        Some(CalibrationCorner::UpperRight)
    } else if index == 2 {
        Some(CalibrationCorner::LowerRight)
    } else if index == 3 {
        Some(CalibrationCorner::LowerLeft)
    } else {
        None
    }
}

/// Returns the corner tapped at step `calibration_index` of the four-tap
/// flow, or `None` past the fourth.
#[must_use]
pub fn calibration_corner_for_index(calibration_index: usize) -> (corner: Option<CalibrationCorner>)
    ensures
        corner == corner_for_index(calibration_index as int),
{
    match calibration_index {
        0 => Some(CalibrationCorner::UpperLeft),
        1 => Some(CalibrationCorner::UpperRight),
        2 => Some(CalibrationCorner::LowerRight),
        3 => Some(CalibrationCorner::LowerLeft),
        _ => None,
    }
}

/// The centre of the calibration cross at a corner: inset by the margin from
/// the two screen edges that meet there.
pub open spec fn corner_center(corner: CalibrationCorner) -> (int, int) {
    let right = SCREEN_WIDTH as int - 1 - CALIBRATION_CROSS_MARGIN;
    let bottom = SCREEN_HEIGHT as int - 1 - CALIBRATION_CROSS_MARGIN;
    match corner {
        CalibrationCorner::UpperLeft => (CALIBRATION_CROSS_MARGIN as int, CALIBRATION_CROSS_MARGIN as int),
        CalibrationCorner::UpperRight => (right, CALIBRATION_CROSS_MARGIN as int),
        CalibrationCorner::LowerRight => (right, bottom),
        CalibrationCorner::LowerLeft => (CALIBRATION_CROSS_MARGIN as int, bottom),
    }
}

/// Returns the centre of the calibration cross at `calibration_corner`.
#[must_use]
pub fn calibration_corner_center(calibration_corner: CalibrationCorner) -> (center: Point)
    ensures
        (center.x as int, center.y as int) == corner_center(calibration_corner),
{
    let width = SCREEN_WIDTH as i32;
    let height = SCREEN_HEIGHT as i32;
    match calibration_corner {
        CalibrationCorner::UpperLeft => Point::new(CALIBRATION_CROSS_MARGIN, CALIBRATION_CROSS_MARGIN),
        CalibrationCorner::UpperRight => Point::new(
            width - 1 - CALIBRATION_CROSS_MARGIN,
            CALIBRATION_CROSS_MARGIN,
        ),
        CalibrationCorner::LowerRight => Point::new(
            width - 1 - CALIBRATION_CROSS_MARGIN,
            height - 1 - CALIBRATION_CROSS_MARGIN,
        ),
        CalibrationCorner::LowerLeft => Point::new(
            CALIBRATION_CROSS_MARGIN,
            height - 1 - CALIBRATION_CROSS_MARGIN,
        ),
    }
}

/// Error from the shared calibration driver.
#[derive(Debug)]
pub enum EnsureCalibrationError<DeviceError, FlashError> {
    Device(DeviceError),
    Flash(FlashError),
}

/// Tunable frame-budget settings for the shared calibration flow.
#[derive(Clone, Copy, Debug)]
pub struct EnsureCalibrationSettings {
    verify_timeout_frames: usize,
}

impl EnsureCalibrationSettings {
    #[verifier::type_invariant]
    closed spec fn inv(self) -> bool {
        self.verify_timeout_frames > 0
    }

    /// The verification frame budget.
    pub closed spec fn spec_verify_timeout_frames(self) -> usize {
        self.verify_timeout_frames
    }

    /// The default settings: a ten-second verification budget.
    pub fn default_settings() -> (settings: Self)
        ensures
            settings.spec_verify_timeout_frames() == VERIFY_TIMEOUT_FRAMES,
    {
        Self { verify_timeout_frames: VERIFY_TIMEOUT_FRAMES }
    }

    /// Creates settings with a verification budget of `verify_timeout_frames`
    /// frames, which must be non-zero.
    #[must_use]
    pub fn new(verify_timeout_frames: usize) -> (settings: Self)
        requires
            verify_timeout_frames > 0,
        ensures
            settings.spec_verify_timeout_frames() == verify_timeout_frames,
    {
        Self { verify_timeout_frames }
    }

    /// Returns the verification frame budget; it is never zero.
    #[must_use]
    pub fn verify_timeout_frames(self) -> (frames: usize)
        ensures
            frames == self.spec_verify_timeout_frames(),
            frames > 0,
    {
        proof {
            use_type_invariant(&self);
        }
        self.verify_timeout_frames
    }
}

} // verus!
