//! Timekeeping arithmetic: Unix timestamps, scaled clock speed, and the
//! 12-hour display of a local time.

use vstd::prelude::*;

use crate::audio_player::div_toward_zero;

verus! {

/// Units-safe wrapper for Unix timestamps (seconds since 1970-01-01 00:00:00 UTC).
#[derive(Copy, Clone, Eq, PartialEq, Ord, Debug)]
pub struct UnixSeconds(pub i64);

/// Seconds from the NTP epoch (1900-01-01) to the Unix epoch (1970-01-01).
pub const NTP_TO_UNIX_SECONDS: i64 = 2_208_988_800;

impl UnixSeconds {
    /// Get the underlying `i64` value.
    #[must_use]
    pub fn as_i64(self) -> (seconds: i64)
        ensures
            seconds == self.0,
    {
        self.0
    }

    /// Convert NTP seconds (since 1900-01-01) to Unix seconds (since
    /// 1970-01-01); `None` for instants before the Unix epoch.
    #[must_use]
    pub fn from_ntp_seconds(ntp: u32) -> (unix: Option<Self>)
        ensures
            ntp >= NTP_TO_UNIX_SECONDS ==> unix == Some(UnixSeconds((ntp - NTP_TO_UNIX_SECONDS) as i64)),
            ntp < NTP_TO_UNIX_SECONDS ==> unix is None,
    {
        let seconds = (ntp as i64) - NTP_TO_UNIX_SECONDS;
        if seconds >= 0 {
            Some(Self(seconds))
        } else {
            None
        }
    }
}

/// Maximum absolute offset minutes supported by a UTC offset (< 24 h).
pub const MAX_OFFSET_MINUTES: i32 = (24 * 60) - 1;

/// Fixed-point scale factor for speed multiplier (parts per million).
pub const SPEED_SCALE_PPM: u64 = 1_000_000;

/// The real-time length of a tick interval of `interval_ms` when the clock
/// runs at `speed_scaled_ppm` millionths of real speed, in microseconds.
pub open spec fn scaled_interval(interval_ms: int, speed_scaled_ppm: int) -> int {
    (interval_ms * 1000 * SPEED_SCALE_PPM) / speed_scaled_ppm
}

/// The clock time that passes in `elapsed_ticks` real microseconds at
/// `speed_scaled_ppm` millionths of real speed.
pub open spec fn scaled_elapsed(elapsed_ticks: int, speed_scaled_ppm: int) -> int {
    (elapsed_ticks * speed_scaled_ppm) / SPEED_SCALE_PPM as int
}

/// Returns the real time between ticks of `interval_ms` clock
/// milliseconds at the given speed, in microseconds.
pub fn scaled_interval_microseconds(interval_ms: u64, speed_scaled_ppm: u64) -> (micros: u64)
    requires
        interval_ms > 0,
        speed_scaled_ppm > 0,
        interval_ms * 1000 <= u64::MAX,
        scaled_interval(interval_ms as int, speed_scaled_ppm as int) <= u64::MAX,
        scaled_interval(interval_ms as int, speed_scaled_ppm as int) > 0,
    ensures
        micros == scaled_interval(interval_ms as int, speed_scaled_ppm as int),
{
    let interval_micros = interval_ms * 1_000;
    assert(interval_micros as u128 * 1_000_000u128 <= 0xffff_ffff_ffff_ffffu128 * 1_000_000u128)
        by (nonlinear_arith)
        requires
            interval_micros <= 0xffff_ffff_ffff_ffffu64,
    ;
    let scaled = (interval_micros as u128) * (SPEED_SCALE_PPM as u128) / (speed_scaled_ppm as u128);
    scaled as u64
}

/// Returns the clock microseconds that pass in `elapsed_ticks` real
/// microseconds at the given speed.
pub fn scale_elapsed_microseconds(elapsed_ticks: u64, speed_scaled_ppm: u64) -> (micros: i64)
    requires
        speed_scaled_ppm > 0,
        scaled_elapsed(elapsed_ticks as int, speed_scaled_ppm as int) <= i64::MAX,
    ensures
        micros == scaled_elapsed(elapsed_ticks as int, speed_scaled_ppm as int),
{
    assert(elapsed_ticks as u128 * speed_scaled_ppm as u128 <= 0xffff_ffff_ffff_ffffu128
        * 0xffff_ffff_ffff_ffffu128) by (nonlinear_arith)
        requires
            elapsed_ticks <= 0xffff_ffff_ffff_ffffu64,
            speed_scaled_ppm <= 0xffff_ffff_ffff_ffffu64,
    ;
    let scaled = (elapsed_ticks as u128) * (speed_scaled_ppm as u128) / (SPEED_SCALE_PPM as u128);
    scaled as i64
}

/// Splits the UTC instant `base_unix_micros + scaled_elapsed_micros` (in
/// microseconds) into whole seconds and the microseconds past them, both
/// rounded toward zero.
pub fn utc_seconds_and_micros(base_unix_micros: i64, scaled_elapsed_micros: i64) -> (parts: (
    i64,
    i64,
))
    ensures
        parts.0 == div_toward_zero(base_unix_micros + scaled_elapsed_micros, 1_000_000),
        parts.1 == base_unix_micros + scaled_elapsed_micros - 1_000_000 * div_toward_zero(
            base_unix_micros + scaled_elapsed_micros,
            1_000_000,
        ),
{
    let utc_micros = base_unix_micros as i128 + scaled_elapsed_micros as i128;
    let utc_seconds = utc_micros / 1_000_000;
    let utc_remainder_micros = utc_micros % 1_000_000;
    assert(-0x1_0000_0000_0000 <= utc_seconds <= 0x1_0000_0000_0000) by (nonlinear_arith)
        requires
            utc_seconds == div_toward_zero(utc_micros as int, 1_000_000),
            -0x1_0000_0000_0000_0000 <= utc_micros <= 0x1_0000_0000_0000_0000,
    ;
    (utc_seconds as i64, utc_remainder_micros as i64)
}

/// The Unix time of `unix_seconds` in microseconds, or `None` when it does
/// not fit in an `i64`.
pub fn unix_micros_for_seconds(unix_seconds: UnixSeconds) -> (micros: Option<i64>)
    ensures
        i64::MIN <= unix_seconds.0 * 1_000_000 <= i64::MAX ==> micros == Some(
            (unix_seconds.0 * 1_000_000) as i64,
        ),
        !(i64::MIN <= unix_seconds.0 * 1_000_000 <= i64::MAX) ==> micros is None,
{
    unix_seconds.0.checked_mul(1_000_000)
}

/// The 12-hour clock reading of a 24-hour hour: midnight and noon are 12.
pub open spec fn hour_12(hour_24: int) -> int {
    if hour_24 == 0 {
        12
    } else if hour_24 <= 12 {
        hour_24
    } else {
        hour_24 - 12
    }
}

/// Converts a 24-hour hour, minute and second to the 12-hour reading.
pub fn h12_from_hms(hour_24: u8, minute: u8, second: u8) -> (reading: (u8, u8, u8))
    requires
        hour_24 < 24,
    ensures
        reading.0 == hour_12(hour_24 as int),
        1 <= reading.0 <= 12,
        reading.1 == minute,
        reading.2 == second,
{
    let hour_12 = match hour_24 {
        0 => 12,
        1..=12 => hour_24,
        _ => hour_24 - 12,
    };
    (hour_12, minute, second)
}

/// `time::Time::from_hms`, told apart by success: it builds a time of day
/// exactly when the hour lies in `0..24` and the minute and second in
/// `0..60`, and reports a component out of range otherwise.
#[verifier::external_body]
fn time_components_valid(hour: u8, minute: u8, second: u8) -> (valid: bool)
    ensures
        valid == (hour < 24 && minute < 60 && second < 60),
{
    time::Time::from_hms(hour, minute, second).is_ok()
}

/// Hour, minute and second of a count of seconds after midnight, each
/// narrowed to a byte as the browser clock narrows them.
pub open spec fn hms_of_day(seconds_of_day: u32) -> (u8, u8, u8) {
    (
        (seconds_of_day / 3600) as u8,
        ((seconds_of_day % 3600) / 60) as u8,
        (seconds_of_day % 60) as u8,
    )
}

/// The wall-clock time the browser clock shows in place of the live local
/// time: none when no simulated time of day is set, or when its hour does
/// not name a valid time (the live time is kept then).
pub fn browser_time_of_day(seconds_of_day: Option<u32>) -> (hms: Option<(u8, u8, u8)>)
    ensures
        match seconds_of_day {
            None => hms is None,
            Some(seconds) => if hms_of_day(seconds).0 < 24 {
                hms == Some(hms_of_day(seconds))
            } else {
                hms is None
            },
        },
{
    let seconds = match seconds_of_day {
        Some(seconds) => seconds,
        None => return None,
    };
    let hour = (seconds / 3600) as u8;
    let minute = ((seconds % 3600) / 60) as u8;
    let second = (seconds % 60) as u8;
    if time_components_valid(hour, minute, second) {
        Some((hour, minute, second))
    } else {
        None
    }
}


/// The clock's state: the UTC time (in microseconds) at a base instant,
/// the base instant (in real microsecond ticks), the speed in millionths
/// of real speed, the UTC offset in minutes and the tick interval in
/// milliseconds (`0` for no periodic ticks). A base UTC time of `0` means
/// the time was never set.
#[derive(Clone, Copy, Debug, PartialEq, Eq)]
pub struct ClockState {
    pub base_unix_micros: i64,
    pub base_instant_ticks: u64,
    pub speed_scaled_ppm: u64,
    pub offset_minutes: i32,
    pub tick_interval_ms: u64,
}

/// The UTC time, in microseconds, a clock state reads at real instant
/// `now_ticks`: the base time plus the elapsed real time scaled by the
/// speed, or the epoch while the time is unset.
pub open spec fn clock_utc_micros(state: ClockState, now_ticks: int) -> int {
    if state.base_unix_micros == 0 {
        0
    } else {
        state.base_unix_micros + scaled_elapsed(
            now_ticks - state.base_instant_ticks,
            state.speed_scaled_ppm as int,
        )
    }
}

/// Whether the clock can be read at `now_ticks`: an offset within a day, a
/// positive speed, and, once the time is set, a base instant that is set
/// and not after `now_ticks`, with the reading fitting an `i64`.
pub open spec fn clock_readable(state: ClockState, now_ticks: int) -> bool {
    &&& -MAX_OFFSET_MINUTES <= state.offset_minutes <= MAX_OFFSET_MINUTES
    &&& state.speed_scaled_ppm > 0
    &&& state.base_unix_micros != 0 ==> {
        &&& 0 < state.base_instant_ticks <= now_ticks
        &&& scaled_elapsed(now_ticks - state.base_instant_ticks, state.speed_scaled_ppm as int)
            <= i64::MAX
    }
}

/// The state after the speed changes at real instant `now_ticks`: a set
/// time is first brought forward by the real time elapsed since the base,
/// so the base stays real time; the base instant moves to `now_ticks`.
pub open spec fn clock_with_speed(state: ClockState, speed_scaled_ppm: u64, now_ticks: u64) -> ClockState {
    ClockState {
        base_unix_micros: if state.base_unix_micros != 0 {
            (state.base_unix_micros + (now_ticks - state.base_instant_ticks)) as i64
        } else {
            0
        },
        base_instant_ticks: now_ticks,
        speed_scaled_ppm,
        ..state
    }
}

impl ClockState {
    /// A clock whose time is not set yet, running at real speed.
    pub fn new(offset_minutes: i32, tick_interval_ms: u64) -> (state: Self)
        requires
            -MAX_OFFSET_MINUTES <= offset_minutes <= MAX_OFFSET_MINUTES,
        ensures
            state == (ClockState {
                base_unix_micros: 0,
                base_instant_ticks: 0,
                speed_scaled_ppm: SPEED_SCALE_PPM,
                offset_minutes,
                tick_interval_ms,
            }),
    {
        ClockState {
            base_unix_micros: 0,
            base_instant_ticks: 0,
            speed_scaled_ppm: SPEED_SCALE_PPM,
            offset_minutes,
            tick_interval_ms,
        }
    }

    /// The UTC time at real instant `now_ticks`, as whole seconds and the
    /// microseconds past them (both rounded toward zero); the epoch while
    /// the time is unset.
    pub fn now_utc(&self, now_ticks: u64) -> (parts: (i64, i64))
        requires
            clock_readable(*self, now_ticks as int),
        ensures
            parts.0 == div_toward_zero(clock_utc_micros(*self, now_ticks as int), 1_000_000),
            parts.1 == clock_utc_micros(*self, now_ticks as int) - 1_000_000 * div_toward_zero(
                clock_utc_micros(*self, now_ticks as int),
                1_000_000,
            ),
    {
        if self.base_unix_micros == 0 {
            return (0, 0);
        }
        let elapsed_ticks = now_ticks - self.base_instant_ticks;
        let scaled_elapsed_micros = scale_elapsed_microseconds(elapsed_ticks, self.speed_scaled_ppm);
        utc_seconds_and_micros(self.base_unix_micros, scaled_elapsed_micros)
    }

    /// Sets the current UTC time at real instant `now_ticks`.
    pub fn set_utc_time(&mut self, unix_seconds: UnixSeconds, now_ticks: u64)
        requires
            i64::MIN <= unix_seconds.0 * 1_000_000 <= i64::MAX,
        ensures
            *final(self) == (ClockState {
                base_unix_micros: (unix_seconds.0 * 1_000_000) as i64,
                base_instant_ticks: now_ticks,
                ..*old(self)
            }),
    {
        let unix_micros = unix_seconds.0 * 1_000_000;
        self.base_unix_micros = unix_micros;
        self.base_instant_ticks = now_ticks;
    }

    /// Changes the UTC offset used for local time.
    pub fn set_offset_minutes(&mut self, minutes: i32)
        requires
            -MAX_OFFSET_MINUTES <= minutes <= MAX_OFFSET_MINUTES,
        ensures
            *final(self) == (ClockState { offset_minutes: minutes, ..*old(self) }),
    {
        self.offset_minutes = minutes;
    }

    /// Sets the tick interval in milliseconds; `0` disables periodic ticks.
    pub fn set_tick_interval_ms(&mut self, tick_interval_ms: u64)
        ensures
            *final(self) == (ClockState { tick_interval_ms, ..*old(self) }),
    {
        self.tick_interval_ms = tick_interval_ms;
    }

    /// Changes the speed, in millionths of real speed, at real instant
    /// `now_ticks`.
    pub fn set_speed(&mut self, speed_scaled_ppm: u64, now_ticks: u64)
        requires
            speed_scaled_ppm > 0,
            old(self).base_unix_micros != 0 ==> {
                &&& 0 < old(self).base_instant_ticks <= now_ticks
                &&& now_ticks - old(self).base_instant_ticks <= i64::MAX
                &&& i64::MIN <= old(self).base_unix_micros + (now_ticks
                    - old(self).base_instant_ticks) <= i64::MAX
            },
        ensures
            *final(self) == clock_with_speed(*old(self), speed_scaled_ppm, now_ticks),
    {
        if self.base_unix_micros != 0 {
            let elapsed_real_micros = (now_ticks - self.base_instant_ticks) as i64;
            self.base_unix_micros = self.base_unix_micros + elapsed_real_micros;
        }
        self.base_instant_ticks = now_ticks;
        self.speed_scaled_ppm = speed_scaled_ppm;
    }
}

/// Returning the clock to real speed resumes the correct clock: from the
/// moment the speed is set back to one, the clock reads what a clock that
/// always ran at real speed from the same base reads.
pub proof fn law_real_speed_resumes_real_time(
    state: ClockState,
    change_ticks: u64,
    read_ticks: u64,
)
    requires
        state.base_unix_micros != 0,
        state.base_instant_ticks <= change_ticks <= read_ticks,
        i64::MIN <= state.base_unix_micros + (change_ticks - state.base_instant_ticks) <= i64::MAX,
        state.base_unix_micros + (change_ticks - state.base_instant_ticks) != 0,
    ensures
        clock_utc_micros(clock_with_speed(state, SPEED_SCALE_PPM, change_ticks), read_ticks as int)
            == state.base_unix_micros + (read_ticks - state.base_instant_ticks),
{
    let elapsed = read_ticks - change_ticks;
    assert(scaled_elapsed(elapsed, SPEED_SCALE_PPM as int) == elapsed) by (nonlinear_arith)
        requires
            elapsed >= 0,
    ;
}


/// Real microseconds from `now_ticks` to the next multiple of
/// `interval_micros`: a full interval when `now_ticks` is on a boundary.
pub fn micros_until_boundary(now_ticks: u64, interval_micros: u64) -> (micros: u64)
    requires
        interval_micros > 0,
    ensures
        micros == interval_micros - now_ticks % interval_micros,
        0 < micros <= interval_micros,
{
    interval_micros - (now_ticks % interval_micros)
}

/// Real microseconds since the last successful sync at `last_sync_ticks`,
/// or zero before the first sync (recorded as `0`).
pub fn micros_since_last_sync(last_sync_ticks: u64, now_ticks: u64) -> (micros: u64)
    requires
        last_sync_ticks != 0 ==> last_sync_ticks <= now_ticks,
    ensures
        micros == if last_sync_ticks == 0 {
            0
        } else {
            (now_ticks - last_sync_ticks) as u64
        },
{
    if last_sync_ticks == 0 {
        return 0;
    }
    now_ticks - last_sync_ticks
}

} // verus!
