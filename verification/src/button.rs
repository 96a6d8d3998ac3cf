//! How a push button is wired, and how long it was pressed.

use vstd::prelude::*;

verus! {

/// Describes if the button connects to voltage or ground when pressed.
#[derive(Clone, Copy, Debug, Eq, Hash, Ord, PartialEq, PartialOrd)]
pub enum PressedTo {
    /// Button connects pin to voltage (3.3V) when pressed; the pin reads
    /// high when pressed.
    Voltage,
    /// Button connects pin to ground (GND) when pressed; the pin reads low
    /// when pressed.
    Ground,
}

impl PressedTo {
    /// Returns `true` when a high input level means "pressed".
    #[must_use]
    pub fn pressed_is_high(self) -> (high: bool)
        ensures
            high == (self is Voltage),
    {
        match self {
            PressedTo::Voltage => true,
            PressedTo::Ground => false,
        }
    }

    /// Evaluates whether the button is pressed for a sampled logic level.
    #[must_use]
    pub fn is_pressed(self, level_is_high: bool) -> (pressed: bool)
        ensures
            pressed == (level_is_high == (self is Voltage)),
    {
        if self.pressed_is_high() {
            level_is_high
        } else {
            !level_is_high
        }
    }
}

/// Duration of a button press (short or long).
#[derive(Clone, Copy, Debug, Eq, Hash, Ord, PartialEq, PartialOrd, Structural)]
pub enum PressDuration {
    /// Button was held for less than the long-press threshold (500 ms).
    Short,
    /// Button was held for at least the long-press threshold (500 ms).
    Long,
}


/// Milliseconds a level must hold before it counts.
pub const BUTTON_DEBOUNCE_DELAY_MS: u64 = 10;

/// Milliseconds a press must last to count as long.
pub const LONG_PRESS_DURATION_MS: u64 = 500;

/// Where the measurement of one press stands. A press is measured from a
/// stable release: the button must first be seen released, then pressed,
/// and the press is long unless a stable release follows within the
/// long-press duration.
#[derive(Clone, Copy, Debug, Eq, PartialEq)]
pub enum PressPhase {
    /// Waiting for a stable release before the press.
    AwaitRelease,
    /// Waiting for a stable press.
    AwaitPress,
    /// Timing the press: waiting for a stable release, racing the
    /// long-press timer.
    Timing,
}

impl PressPhase {
    /// The phase a measurement starts in.
    pub fn start() -> (phase: Self)
        ensures
            phase == PressPhase::AwaitRelease,
    {
        PressPhase::AwaitRelease
    }

    /// The level the loop waits for before debouncing: pressed while
    /// awaiting the press, released otherwise.
    pub fn awaited_pressed(self) -> (pressed: bool)
        ensures
            pressed == (self == PressPhase::AwaitPress),
    {
        match self {
            PressPhase::AwaitPress => true,
            _ => false,
        }
    }

    /// Whether the long-press timer runs in this phase.
    pub fn times_long_press(self) -> (timing: bool)
        ensures
            timing == (self == PressPhase::Timing),
    {
        match self {
            PressPhase::Timing => true,
            _ => false,
        }
    }

    /// Takes in the level read after the debounce delay: a level that held
    /// moves the measurement on (a release while timing ends it as a short
    /// press); a bounce keeps the phase.
    pub fn after_debounce(self, pressed: bool) -> (next: (Self, Option<PressDuration>))
        ensures
            match self {
                PressPhase::AwaitRelease => next == if pressed {
                    (PressPhase::AwaitRelease, None::<PressDuration>)
                } else {
                    (PressPhase::AwaitPress, None::<PressDuration>)
                },
                PressPhase::AwaitPress => next == if pressed {
                    (PressPhase::Timing, None::<PressDuration>)
                } else {
                    (PressPhase::AwaitPress, None::<PressDuration>)
                },
                PressPhase::Timing => next == if pressed {
                    (PressPhase::Timing, None::<PressDuration>)
                } else {
                    (PressPhase::Timing, Some(PressDuration::Short))
                },
            },
    {
        match self {
            PressPhase::AwaitRelease => if pressed {
                (PressPhase::AwaitRelease, None)
            } else {
                (PressPhase::AwaitPress, None)
            },
            PressPhase::AwaitPress => if pressed {
                (PressPhase::Timing, None)
            } else {
                (PressPhase::AwaitPress, None)
            },
            PressPhase::Timing => if pressed {
                (PressPhase::Timing, None)
            } else {
                (PressPhase::Timing, Some(PressDuration::Short))
            },
        }
    }

    /// The long-press timer expired: while timing, the press is long.
    pub fn long_press_elapsed(self) -> (outcome: Option<PressDuration>)
        ensures
            outcome == if self == PressPhase::Timing {
                Some(PressDuration::Long)
            } else {
                None::<PressDuration>
            },
    {
        match self {
            PressPhase::Timing => Some(PressDuration::Long),
            _ => None,
        }
    }
}

} // verus!
