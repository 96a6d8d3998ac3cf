//! A single digital LED: its level, and which pin level lights it.

use vstd::prelude::*;

verus! {

/// Whether the LED is lit.
#[derive(Clone, Copy, Debug, Eq, Hash, Ord, PartialEq, PartialOrd)]
pub enum LedLevel {
    On,
    Off,
}

impl Default for LedLevel {
    fn default() -> (level: Self)
        ensures
            level == LedLevel::Off,
    {
        LedLevel::Off
    }
}

/// Which pin level lights the LED.
#[derive(Clone, Copy, Debug, Eq, Hash, Ord, PartialEq, PartialOrd)]
pub enum OnLevel {
    High,
    Low,
}

impl Default for OnLevel {
    fn default() -> (level: Self)
        ensures
            level == OnLevel::High,
    {
        OnLevel::High
    }
}

/// The pin level that shows `led_level` on an LED lit by `on_level`.
pub fn pin_is_high(led_level: LedLevel, on_level: OnLevel) -> (high: bool)
    ensures
        high == ((led_level is On) == (on_level is High)),
{
    match (led_level, on_level) {
        (LedLevel::On, OnLevel::High) | (LedLevel::Off, OnLevel::Low) => true,
        _ => false,
    }
}

/// A single LED a platform drives.
pub trait Led {
    /// Sets the LED's level.
    fn set_level(&self, led_level: LedLevel);

    /// Turns the LED on.
    fn on(&self) {
        self.set_level(LedLevel::On);
    }

    /// Turns the LED off.
    fn off(&self) {
        self.set_level(LedLevel::Off);
    }
}

} // verus!
