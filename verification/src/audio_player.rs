//! Platform-independent audio clip types and sample arithmetic: volume and
//! gain, PCM clips, IMA ADPCM encoding and decoding, resampling, tone
//! synthesis and ADPCM WAV header parsing.

use vstd::prelude::*;

use crate::duration::{Duration, NANOS_PER_SEC};

verus! {

pub const I16_ABS_MAX_I64: i64 = 32768;

pub const ADPCM_ENCODE_BLOCK_ALIGN: usize = 256;

/// Narrowband telephony sample rate.
pub const NARROWBAND_8000_HZ: u32 = 8_000;

/// Wideband voice sample rate.
pub const VOICE_16000_HZ: u32 = 16_000;

/// Common low-memory voice/music sample rate.
pub const VOICE_22050_HZ: u32 = 22_050;

/// Compact-disc sample rate.
pub const CD_44100_HZ: u32 = 44_100;

/// Pro-audio sample rate.
pub const PRO_48000_HZ: u32 = 48_000;

// ---------------------------------------------------------------------------
// Arithmetic specifications
// ---------------------------------------------------------------------------

/// Integer division rounding toward zero (as Rust's `/` on signed integers).
pub open spec fn div_toward_zero(a: int, b: int) -> int {
    if a >= 0 {
        a / b
    } else {
        -((-a) / b)
    }
}

/// Saturation to the `i16` range.
pub open spec fn clamp_i16(value: int) -> int {
    if value > i16::MAX {
        i16::MAX as int
    } else if value < i16::MIN {
        i16::MIN as int
    } else {
        value
    }
}

/// A sample scaled by a Q15 linear factor where full scale (`32767`) is
/// exact unity, saturated to `i16`.
pub open spec fn scaled_sample(sample: int, linear: int) -> int {
    if linear == 0 {
        0
    } else {
        clamp_i16(div_toward_zero(sample * (linear + 1), 32768))
    }
}

/// Percentage of full scale, clamped to 100%, as a Q15 value.
pub open spec fn volume_from_percent(percent: int) -> int {
    let p = if percent > 100 { 100 } else { percent };
    (p * 32767) / 100
}

/// The percentage behind each step of the "goes to 11" volume scale.
pub open spec fn spinal_tap_percent(step: int) -> int {
    if step <= 0 {
        0
    } else if step == 1 {
        1
    } else if step == 2 {
        3
    } else if step == 3 {
        6
    } else if step == 4 {
        13
    } else if step == 5 {
        25
    } else if step == 6 {
        35
    } else if step == 7 {
        50
    } else if step == 8 {
        71
    } else if step == 9 {
        89
    } else {
        100
    }
}

/// Q15 fixed-point multipliers for one dB of amplitude down and up.
pub const DB_STEP_DOWN_Q15: i32 = 29_205;

pub const DB_STEP_UP_Q15: i32 = 36_781;

/// The Q15 scale after `steps` one-dB steps of `step_q15`, rounding each step.
pub open spec fn db_scale_q15(step_q15: int, steps: nat) -> int
    decreases steps,
{
    if steps == 0 {
        32768
    } else {
        (db_scale_q15(step_q15, (steps - 1) as nat) * step_q15 + 16384) / 32768
    }
}

/// The linear gain for a dB setting after clamping it to `-96..=12`.
pub open spec fn gain_from_db(db: int) -> int {
    let db = if db > 12 {
        12
    } else if db < -96 {
        -96
    } else {
        db
    };
    if db == 0 {
        32767
    } else {
        let step = if db > 0 { DB_STEP_UP_Q15 as int } else { DB_STEP_DOWN_Q15 as int };
        let steps = if db > 0 { db } else { -db };
        let g = (32767 * db_scale_q15(step, steps as nat) + 16384) / 32768;
        if g > i32::MAX { i32::MAX as int } else { g }
    }
}

// ---------------------------------------------------------------------------
// Volume and gain
// ---------------------------------------------------------------------------

/// Absolute playback loudness setting for the whole player, as a Q15 value
/// where `32767` is full scale.
#[derive(Clone, Copy, Debug, PartialEq, Eq)]
pub struct Volume(i16);

impl Volume {
    /// The Q15 value of this volume.
    pub closed spec fn spec_value(self) -> int {
        self.0 as int
    }

    /// Silence.
    pub fn mute() -> (volume: Self)
        ensures
            volume.spec_value() == 0,
    {
        Self(0)
    }

    /// Maximum playback volume.
    pub fn max() -> (volume: Self)
        ensures
            volume.spec_value() == i16::MAX,
    {
        Self(i16::MAX)
    }

    /// Creates a volume from a percentage of full scale; values above `100`
    /// are clamped to `100`.
    #[must_use]
    pub fn percent(percent: u8) -> (volume: Self)
        ensures
            volume.spec_value() == volume_from_percent(percent as int),
    {
        let percent = if percent > 100 { 100 } else { percent };
        let value_i32 = (percent as i32 * i16::MAX as i32) / 100;
        Self(value_i32 as i16)
    }

    /// Creates a "goes to 11" demo volume: `0..=11` maps to `0..=100%` on a
    /// roughly logarithmic curve; values above `11` clamp to `11`.
    #[must_use]
    pub fn spinal_tap(spinal_tap: u8) -> (volume: Self)
        ensures
            volume.spec_value() == volume_from_percent(spinal_tap_percent(spinal_tap as int)),
    {
        let spinal_tap = if spinal_tap > 11 { 11 } else { spinal_tap };
        let percent = match spinal_tap {
            0 => 0,
            1 => 1,
            2 => 3,
            3 => 6,
            4 => 13,
            5 => 25,
            6 => 35,
            7 => 50,
            8 => 71,
            9 => 89,
            10 => 100,
            11 => 100,
            _ => 100,
        };
        Self::percent(percent)
    }

    #[must_use]
    pub(crate) fn to_i16(self) -> (value: i16)
        ensures
            value == self.spec_value(),
    {
        self.0
    }

    #[must_use]
    pub(crate) fn from_i16(value_i16: i16) -> (volume: Self)
        ensures
            volume.spec_value() == value_i16,
    {
        Self(value_i16)
    }
}

/// Relative loudness adjustment for audio clips, as a Q15 linear factor
/// where `32767` is unity.
#[derive(Clone, Copy, Debug, PartialEq, Eq)]
pub struct Gain(i32);

impl Gain {
    /// The Q15 linear factor of this gain.
    pub closed spec fn spec_linear(self) -> int {
        self.0 as int
    }

    /// Silence.
    pub fn mute() -> (gain: Self)
        ensures
            gain.spec_linear() == 0,
    {
        Self(0)
    }

    /// Creates a gain from a percentage; `100` is unity and larger values boost.
    #[must_use]
    pub fn percent(percent: u16) -> (gain: Self)
        ensures
            gain.spec_linear() == (percent * 32767) / 100,
    {
        let value_i32 = (percent as i32 * i16::MAX as i32) / 100;
        Self(value_i32)
    }

    /// Creates a gain from dB: `db` is clamped to `-96..=12` and applied in
    /// rounded one-dB fixed-point steps.
    #[must_use]
    pub fn db(db: i8) -> (gain: Self)
        ensures
            gain.spec_linear() == gain_from_db(db as int),
    {
        let db_upper_limit: i8 = 12;
        let db_lower_limit: i8 = -96;
        let db = if db > db_upper_limit {
            db_upper_limit
        } else if db < db_lower_limit {
            db_lower_limit
        } else {
            db
        };

        if db == 0 {
            return Self::percent(100);
        }

        let one_q15: i64 = 32_768;
        let round_q15: i64 = 16_384;
        let step_q15: i64 = if db > 0 {
            DB_STEP_UP_Q15 as i64
        } else {
            DB_STEP_DOWN_Q15 as i64
        };
        let db_steps_u8: u8 = if db > 0 { db as u8 } else { (-db) as u8 };
        let mut scale_q15: i64 = one_q15;
        let mut step_index = 0_u8;
        proof {
            lemma_db_scale_up_values();
        }
        while step_index < db_steps_u8
            invariant
                step_index <= db_steps_u8,
                db_steps_u8 <= 96,
                db > 0 ==> db_steps_u8 <= 12 && step_q15 == DB_STEP_UP_Q15,
                db < 0 ==> step_q15 == DB_STEP_DOWN_Q15,
                one_q15 == 32768,
                round_q15 == 16384,
                db != 0,
                scale_q15 == db_scale_q15(step_q15 as int, step_index as nat),
                0 < scale_q15 <= 131076,
                forall|k: nat| k <= 12 ==> #[trigger] db_scale_q15(DB_STEP_UP_Q15 as int, k) <= 131076,
            decreases db_steps_u8 - step_index,
        {
            proof {
                lemma_db_scale_down_bound(step_index as nat);
                lemma_db_scale_down_bound((step_index + 1) as nat);
                assert(db > 0 ==> db_scale_q15(DB_STEP_UP_Q15 as int, (step_index + 1) as nat) <= 131076);
                assert(0 < scale_q15 * step_q15 <= 131076 * 36781) by (nonlinear_arith)
                    requires
                        0 < scale_q15 <= 131076,
                        0 < step_q15 <= 36781,
                ;
            }
            scale_q15 = (scale_q15 * step_q15 + round_q15) / one_q15;
            step_index += 1;
        }

        proof {
            assert(0 < 32767 * scale_q15 <= 32767 * 131076) by (nonlinear_arith)
                requires
                    0 < scale_q15 <= 131076,
            ;
        }
        let gain_i64 = (i16::MAX as i64 * scale_q15 + round_q15) / one_q15;
        let gain_i32 = if gain_i64 > i32::MAX as i64 {
            i32::MAX
        } else {
            gain_i64 as i32
        };
        Self(gain_i32)
    }

    #[must_use]
    pub(crate) fn linear(self) -> (linear: i32)
        ensures
            linear == self.spec_linear(),
    {
        self.0
    }
}

proof fn lemma_db_scale_up_values()
    ensures
        db_scale_q15(DB_STEP_UP_Q15 as int, 0) == 32768,
        db_scale_q15(DB_STEP_UP_Q15 as int, 1) == 36781,
        db_scale_q15(DB_STEP_UP_Q15 as int, 2) == 41285,
        db_scale_q15(DB_STEP_UP_Q15 as int, 3) == 46341,
        db_scale_q15(DB_STEP_UP_Q15 as int, 4) == 52016,
        db_scale_q15(DB_STEP_UP_Q15 as int, 5) == 58386,
        db_scale_q15(DB_STEP_UP_Q15 as int, 6) == 65536,
        db_scale_q15(DB_STEP_UP_Q15 as int, 7) == 73562,
        db_scale_q15(DB_STEP_UP_Q15 as int, 8) == 82571,
        db_scale_q15(DB_STEP_UP_Q15 as int, 9) == 92683,
        db_scale_q15(DB_STEP_UP_Q15 as int, 10) == 104034,
        db_scale_q15(DB_STEP_UP_Q15 as int, 11) == 116775,
        db_scale_q15(DB_STEP_UP_Q15 as int, 12) == 131076,
        forall|k: nat| k <= 12 ==> #[trigger] db_scale_q15(DB_STEP_UP_Q15 as int, k) <= 131076,
{
    reveal_with_fuel(db_scale_q15, 2);
    assert(db_scale_q15(DB_STEP_UP_Q15 as int, 1) == 36781);
    assert(db_scale_q15(DB_STEP_UP_Q15 as int, 2) == 41285);
    assert(db_scale_q15(DB_STEP_UP_Q15 as int, 3) == 46341);
    assert(db_scale_q15(DB_STEP_UP_Q15 as int, 4) == 52016);
    assert(db_scale_q15(DB_STEP_UP_Q15 as int, 5) == 58386);
    assert(db_scale_q15(DB_STEP_UP_Q15 as int, 6) == 65536);
    assert(db_scale_q15(DB_STEP_UP_Q15 as int, 7) == 73562);
    assert(db_scale_q15(DB_STEP_UP_Q15 as int, 8) == 82571);
    assert(db_scale_q15(DB_STEP_UP_Q15 as int, 9) == 92683);
    assert(db_scale_q15(DB_STEP_UP_Q15 as int, 10) == 104034);
    assert(db_scale_q15(DB_STEP_UP_Q15 as int, 11) == 116775);
    assert(db_scale_q15(DB_STEP_UP_Q15 as int, 12) == 131076);
    assert forall|k: nat| k <= 12 implies #[trigger] db_scale_q15(DB_STEP_UP_Q15 as int, k) <= 131076 by {
        assert(k == 0 || k == 1 || k == 2 || k == 3 || k == 4 || k == 5 || k == 6 || k == 7 || k == 8
            || k == 9 || k == 10 || k == 11 || k == 12);
    }
}

proof fn lemma_db_scale_down_bound(steps: nat)
    ensures
        0 < db_scale_q15(DB_STEP_DOWN_Q15 as int, steps) <= 32768,
    decreases steps,
{
    if steps > 0 {
        lemma_db_scale_down_bound((steps - 1) as nat);
        let prev = db_scale_q15(DB_STEP_DOWN_Q15 as int, (steps - 1) as nat);
        assert(0 < (prev * 29205 + 16384) / 32768 <= 32768) by (nonlinear_arith)
            requires
                0 < prev <= 32768,
        ;
    }
}

/// More down-steps never raise the scale.
proof fn lemma_db_scale_down_monotone(fewer: nat, more: nat)
    requires
        fewer <= more,
    ensures
        db_scale_q15(DB_STEP_DOWN_Q15 as int, more) <= db_scale_q15(DB_STEP_DOWN_Q15 as int, fewer),
    decreases more,
{
    if more > fewer {
        lemma_db_scale_down_monotone(fewer, (more - 1) as nat);
        lemma_db_scale_down_bound((more - 1) as nat);
        let prev = db_scale_q15(DB_STEP_DOWN_Q15 as int, (more - 1) as nat);
        assert((prev * 29205 + 16384) / 32768 <= prev) by (nonlinear_arith)
            requires
                0 < prev,
        ;
    }
}

/// The Q15 gain of a scale grows with the scale.
proof fn lemma_gain_of_scale_ordered(smaller: int, larger: int)
    requires
        smaller <= larger,
    ensures
        (32767 * smaller + 16384) / 32768 <= (32767 * larger + 16384) / 32768,
{
    vstd::arithmetic::div_mod::lemma_div_is_ordered(
        32767 * smaller + 16384,
        32767 * larger + 16384,
        32768,
    );
}

/// Gains from dB settings: a setting outside `-96..=12` acts as the nearest
/// limit, 0 dB is unity (`Gain::percent(100)`), every gain is positive, a
/// higher setting never gives a smaller gain, and exactly the positive
/// settings boost above unity.
pub proof fn law_db_gain(d1: i8, d2: i8)
    ensures
        gain_from_db(d1 as int) == gain_from_db(if d1 > 12 {
            12
        } else if d1 < -96 {
            -96
        } else {
            d1 as int
        }),
        gain_from_db(0) == (100 * 32767) / 100,
        gain_from_db(d1 as int) > 0,
        d1 <= d2 ==> gain_from_db(d1 as int) <= gain_from_db(d2 as int),
        gain_from_db(d1 as int) > 32767 <==> d1 > 0,
{
    lemma_db_scale_up_values();
    assert forall|d: int| -128 <= d <= 127 implies {
        &&& 0 < #[trigger] gain_from_db(d)
        &&& (gain_from_db(d) > 32767 <==> d > 0)
        &&& (d < 0 ==> gain_from_db(d) <= 29204)
        &&& (d > 0 ==> gain_from_db(d) >= 36780)
    } by {
        let c = if d > 12 {
            12
        } else if d < -96 {
            -96
        } else {
            d
        };
        if c < 0 {
            let steps = (-c) as nat;
            lemma_db_scale_down_bound(steps);
            lemma_db_scale_down_monotone(1, steps);
            reveal_with_fuel(db_scale_q15, 2);
            let scale = db_scale_q15(DB_STEP_DOWN_Q15 as int, steps);
            lemma_gain_of_scale_ordered(scale, 29205);
            assert(0 < (32767 * scale + 16384) / 32768) by (nonlinear_arith)
                requires
                    0 < scale,
            ;
        } else if c > 0 {
            let scale = db_scale_q15(DB_STEP_UP_Q15 as int, c as nat);
            assert(scale >= 36781);
            lemma_gain_of_scale_ordered(36781, scale);
            assert(scale <= 131076);
        }
    }
    if d1 <= d2 {
        let c1 = if d1 > 12 {
            12
        } else if d1 < -96 {
            -96
        } else {
            d1 as int
        };
        let c2 = if d2 > 12 {
            12
        } else if d2 < -96 {
            -96
        } else {
            d2 as int
        };
        assert(gain_from_db(d1 as int) > 0);
        assert(gain_from_db(d2 as int) > 0);
        if c1 < 0 && c2 < 0 {
            lemma_db_scale_down_monotone((-c2) as nat, (-c1) as nat);
            lemma_gain_of_scale_ordered(
                db_scale_q15(DB_STEP_DOWN_Q15 as int, (-c1) as nat),
                db_scale_q15(DB_STEP_DOWN_Q15 as int, (-c2) as nat),
            );
        } else if c1 > 0 && c2 > 0 {
            assert(db_scale_q15(DB_STEP_UP_Q15 as int, c1 as nat) <= db_scale_q15(
                DB_STEP_UP_Q15 as int,
                c2 as nat,
            ));
            lemma_gain_of_scale_ordered(
                db_scale_q15(DB_STEP_UP_Q15 as int, c1 as nat),
                db_scale_q15(DB_STEP_UP_Q15 as int, c2 as nat),
            );
        }
    }
}


// ---------------------------------------------------------------------------
// Sample arithmetic
// ---------------------------------------------------------------------------

/// The number of samples that fill `secs` seconds plus `nanos` nanoseconds at
/// `rate` samples per second, rounding the sub-second part down.
pub open spec fn samples_in(secs: int, nanos: int, rate: int) -> int {
    secs * rate + (nanos * rate) / (NANOS_PER_SEC as int)
}

/// The number of samples that fill `duration` at `sample_rate_hz`.
#[must_use]
pub fn __samples_for_duration(duration: Duration, sample_rate_hz: u32) -> (sample_count: usize)
    requires
        sample_rate_hz > 0,
        samples_in(
            duration.spec_secs() as int,
            duration.spec_subsec_nanos() as int,
            sample_rate_hz as int,
        ) <= usize::MAX,
        duration.spec_secs() * sample_rate_hz <= u64::MAX,
    ensures
        sample_count == samples_in(
            duration.spec_secs() as int,
            duration.spec_subsec_nanos() as int,
            sample_rate_hz as int,
        ),
{
    let sample_rate_hz_u64 = sample_rate_hz as u64;
    let secs = duration.as_secs();
    let nanos = duration.subsec_nanos();
    proof {
        assert(nanos as u64 * sample_rate_hz_u64 <= 1_000_000_000u64 * 0xffff_ffffu64) by (nonlinear_arith)
            requires
                nanos < 1_000_000_000,
                sample_rate_hz_u64 <= 0xffff_ffff,
        ;
    }
    let samples_from_seconds_u64 = secs * sample_rate_hz_u64;
    let samples_from_subsec_nanos_u64 = (nanos as u64 * sample_rate_hz_u64) / 1_000_000_000_u64;
    let total_samples_u64 = samples_from_seconds_u64 + samples_from_subsec_nanos_u64;
    total_samples_u64 as usize
}

/// The duration of `sample_count` samples at `sample_rate_hz`, with the
/// sub-second part rounded down to whole nanoseconds.
pub fn duration_for_sample_count(sample_count: usize, sample_rate_hz: u32) -> (duration: Duration)
    requires
        sample_rate_hz > 0,
    ensures
        duration.spec_secs() == (sample_count as int) / (sample_rate_hz as int),
        duration.spec_subsec_nanos() == ((sample_count as int % sample_rate_hz as int)
            * NANOS_PER_SEC) / (sample_rate_hz as int),
{
    let sample_rate_hz_usize = sample_rate_hz as usize;
    let whole_seconds = sample_count / sample_rate_hz_usize;
    let subsecond_sample_count = sample_count % sample_rate_hz_usize;
    proof {
        assert((subsecond_sample_count as u64) * 1_000_000_000_u64 <= 0xffff_ffffu64 * 1_000_000_000u64) by (nonlinear_arith)
            requires
                subsecond_sample_count < sample_rate_hz,
        ;
        assert(((subsecond_sample_count as int) * 1_000_000_000int) / (sample_rate_hz as int) < 1_000_000_000) by (nonlinear_arith)
            requires
                subsecond_sample_count < sample_rate_hz,
                sample_rate_hz > 0,
        ;
    }
    let subsecond_nanos = ((subsecond_sample_count as u64) * 1_000_000_000_u64)
        / sample_rate_hz as u64;
    Duration::new(whole_seconds as u64, subsecond_nanos as u32)
}

/// The sample count that keeps the duration of `source_sample_count` samples
/// when moving from the source rate to the destination rate, rounded to nearest.
pub open spec fn resampled_count(source_count: int, source_rate: int, destination_rate: int) -> int {
    (source_count * destination_rate + source_rate / 2) / source_rate
}

#[must_use]
pub fn __resampled_sample_count(
    source_sample_count: usize,
    source_sample_rate_hz: u32,
    destination_sample_rate_hz: u32,
) -> (destination_sample_count: usize)
    requires
        source_sample_count > 0,
        source_sample_rate_hz > 0,
        destination_sample_rate_hz > 0,
        source_sample_count * destination_sample_rate_hz + source_sample_rate_hz / 2 <= u64::MAX,
        resampled_count(
            source_sample_count as int,
            source_sample_rate_hz as int,
            destination_sample_rate_hz as int,
        ) > 0,
        resampled_count(
            source_sample_count as int,
            source_sample_rate_hz as int,
            destination_sample_rate_hz as int,
        ) <= usize::MAX,
    ensures
        destination_sample_count == resampled_count(
            source_sample_count as int,
            source_sample_rate_hz as int,
            destination_sample_rate_hz as int,
        ),
{
    let destination_sample_count = ((source_sample_count as u64
        * destination_sample_rate_hz as u64) + (source_sample_rate_hz as u64 / 2))
        / source_sample_rate_hz as u64;
    destination_sample_count as usize
}

/// Integer sine of a 32-bit phase (a full turn is `2^32`) by the Bhaskara
/// approximation on each half cycle, in Q15 and saturated to `i16`.
pub open spec fn sine_from_phase(phase: int) -> int {
    let half_cycle = 0x8000_0000int;
    let half = if phase < half_cycle { phase } else { phase - half_cycle };
    let sign = if phase < half_cycle { 1int } else { -1int };
    let product = (half * (half_cycle - half)) / half_cycle;
    let denominator = 5 * half_cycle - 4 * product;
    let sine_q31 = ((16 * product * half_cycle) % 0x1_0000_0000_0000_0000int) / denominator;
    clamp_i16((sine_q31 * sign) / 0x1_0000)
}

fn sine_sample_from_phase(phase_u32: u32) -> (sample: i16)
    ensures
        sample == sine_from_phase(phase_u32 as int),
{
    let half_cycle_u64 = 1_u64 << 31;
    let one_q31_u64 = 1_u64 << 31;
    assert(1u64 << 31 == 0x8000_0000u64) by (bit_vector);
    let phase_u64 = phase_u32 as u64;
    let (half_phase_u64, sign_i64) = if phase_u64 < half_cycle_u64 {
        (phase_u64, 1_i64)
    } else {
        (phase_u64 - half_cycle_u64, -1_i64)
    };

    // Bhaskara approximation on a normalized half-cycle:
    // sin(pi * t) ~= 16 t (1 - t) / (5 - 4 t (1 - t)), for t in [0, 1].
    assert(half_phase_u64 * (one_q31_u64 - half_phase_u64) <= 0x1000_0000_0000_0000u64) by (nonlinear_arith)
        requires
            half_phase_u64 < 0x8000_0000,
            one_q31_u64 == 0x8000_0000,
    {
        let d = 0x8000_0000int - 2 * half_phase_u64;
        assert(d * d >= 0);
        assert(4 * (half_phase_u64 * (0x8000_0000int - half_phase_u64)) == 0x8000_0000int * 0x8000_0000int - d * d);
    }
    let full_product_u64 = half_phase_u64 * (one_q31_u64 - half_phase_u64);
    let product_q31_u64 = full_product_u64 >> 31;
    assert(product_q31_u64 == full_product_u64 / 0x8000_0000u64) by (bit_vector)
        requires
            product_q31_u64 == full_product_u64 >> 31,
    ;
    assert(product_q31_u64 <= 0x2000_0000);
    let denominator_q31_u64 = 5 * one_q31_u64 - 4 * product_q31_u64;
    let scaled_product_u64 = 16 * product_q31_u64;
    let shifted_u64 = scaled_product_u64 << 31;
    assert(shifted_u64 == (scaled_product_u64 as int * 0x8000_0000int) % 0x1_0000_0000_0000_0000int) by (bit_vector)
        requires
            shifted_u64 == scaled_product_u64 << 31,
    ;
    let sine_q31_u64 = shifted_u64 / denominator_q31_u64;
    assert(sine_q31_u64 <= 0xffff_ffffu64) by (nonlinear_arith)
        requires
            sine_q31_u64 == shifted_u64 / denominator_q31_u64,
            denominator_q31_u64 >= 0x2_0000_0000u64,
    ;

    let signed_i64 = sine_q31_u64 as i64 * sign_i64;
    let sample_i64 = signed_i64 >> 16;
    assert(sample_i64 == signed_i64 / 0x1_0000) by (bit_vector)
        requires
            sample_i64 == signed_i64 >> 16,
    ;
    clamp_i64_to_i16(sample_i64)
}

/// Scales a sample by a Q15 linear factor (full scale `32767` is exact
/// unity), saturating to `i16`.
#[inline]
pub fn scale_sample_with_linear(sample_i16: i16, linear_i32: i32) -> (scaled: i16)
    ensures
        scaled == scaled_sample(sample_i16 as int, linear_i32 as int),
{
    if linear_i32 == 0 {
        return 0;
    }
    // Use signed full-scale magnitude (32768) so i16::MIN is handled correctly.
    // Full-scale linear is 32767, so add one to map it to exact unity gain.
    let unity_scaled_linear_i64 = linear_i32 as i64 + 1;
    assert(-0x8000_0000_0000 <= sample_i16 * unity_scaled_linear_i64 <= 0x8000_0000_0000) by (nonlinear_arith)
        requires
            -0x8000 <= sample_i16 <= 0x7fff,
            -0x8000_0000 < unity_scaled_linear_i64 <= 0x8000_0000,
    ;
    let scaled_i64 = (sample_i16 as i64 * unity_scaled_linear_i64) / I16_ABS_MAX_I64;
    clamp_i64_to_i16(scaled_i64)
}

/// Scales a sample by a player volume.
#[inline]
pub fn scale_sample_with_volume(sample_i16: i16, volume: Volume) -> (scaled: i16)
    ensures
        scaled == scaled_sample(sample_i16 as int, volume.spec_value()),
{
    scale_sample_with_linear(sample_i16, volume.to_i16() as i32)
}

/// A Q15 linear factor scaled by a player volume.
pub open spec fn scaled_linear(linear: int, volume: int) -> int {
    if volume == 0 || linear == 0 {
        0
    } else {
        div_toward_zero(linear * (volume + 1), 32768)
    }
}

#[inline]
pub(crate) fn scale_linear(linear_i32: i32, volume: Volume) -> (scaled: i32)
    ensures
        scaled == scaled_linear(linear_i32 as int, volume.spec_value()),
{
    if volume.to_i16() == 0 || linear_i32 == 0 {
        return 0;
    }
    let unity_scaled_volume_i64 = volume.to_i16() as i64 + 1;
    assert(-0x8000_0000 * 0x8000 <= linear_i32 * unity_scaled_volume_i64 <= 0x7fff_ffff * 0x8000) by (nonlinear_arith)
        requires
            -0x8000_0000 <= linear_i32 <= 0x7fff_ffff,
            -0x7fff <= unity_scaled_volume_i64 <= 0x8000,
    ;
    let product = linear_i32 as i64 * unity_scaled_volume_i64;
    let quotient = product / I16_ABS_MAX_I64;
    assert(-0x8000_0000 <= div_toward_zero(product as int, 32768) <= 0x7fff_ffff) by (nonlinear_arith)
        requires
            -0x8000_0000 * 0x8000 <= product <= 0x7fff_ffff * 0x8000,
    ;
    quotient as i32
}

#[inline]
fn clamp_i64_to_i16(value_i64: i64) -> (clamped: i16)
    ensures
        clamped == clamp_i16(value_i64 as int),
{
    if value_i64 > i16::MAX as i64 {
        i16::MAX
    } else if value_i64 < i16::MIN as i64 {
        i16::MIN
    } else {
        value_i64 as i16
    }
}

/// The 16-bit two's-complement pattern of a sample.
pub open spec fn sample_bits(sample: int) -> int {
    if sample < 0 { sample + 0x1_0000 } else { sample }
}

/// Packs a mono sample into a stereo I2S frame word: the sample's 16-bit
/// pattern in both halves.
proof fn lemma_sample_bits(sample: i16)
    ensures
        (sample as u16) == sample_bits(sample as int),
{
    assert((sample as u16) == (if sample < 0 { sample + 0x1_0000 } else { sample as int }))
        by (bit_vector);
}

#[inline]
pub fn stereo_sample(sample: i16) -> (word: u32)
    ensures
        word == sample_bits(sample as int) * 0x1_0000 + sample_bits(sample as int),
{
    let sample_bits16 = sample as u16;
    proof {
        lemma_sample_bits(sample);
    }
    let sample_bits32 = sample_bits16 as u32;
    let word = (sample_bits32 << 16) | sample_bits32;
    assert(word == sample_bits32 * 0x1_0000 + sample_bits32) by (bit_vector)
        requires
            word == (sample_bits32 << 16) | sample_bits32,
            sample_bits32 <= 0xffff,
    ;
    word
}

/// The little-endian `u16` in two bytes.
pub open spec fn le_u16(low: u8, high: u8) -> int {
    low + 0x100 * high
}

/// The little-endian `i16` (two's complement) in two bytes.
pub open spec fn le_i16(low: u8, high: u8) -> int {
    let unsigned = le_u16(low, high);
    if unsigned >= 0x8000 { unsigned - 0x1_0000 } else { unsigned }
}

/// The little-endian `u32` in four bytes.
pub open spec fn le_u32(b0: u8, b1: u8, b2: u8, b3: u8) -> int {
    b0 + 0x100 * b1 + 0x1_0000 * b2 + 0x100_0000 * b3
}

fn i16_from_le(low: u8, high: u8) -> (value: i16)
    ensures
        value == le_i16(low, high),
{
    let unsigned = (low as u16) | ((high as u16) << 8);
    proof {
        crate::bits::lemma_u16_from_le_bytes(low, high);
    }
    let value = unsigned as i16;
    assert(value == (if unsigned >= 0x8000 { unsigned - 0x1_0000 } else { unsigned as int })) by (bit_vector)
        requires
            value == unsigned as i16,
    ;
    value
}

#[inline]
fn read_i16_le(bytes: &[u8], byte_offset: usize) -> (value: Option<i16>)
    ensures
        byte_offset + 2 <= bytes@.len() ==> value == Some(
            le_i16(bytes@[byte_offset as int], bytes@[byte_offset + 1]) as i16,
        ),
        byte_offset + 2 > bytes@.len() ==> value is None,
{
    let byte_len = bytes.len();
    let end_offset = byte_offset.checked_add(2)?;
    if end_offset > byte_len {
        return None;
    }
    Some(i16_from_le(bytes[byte_offset], bytes[byte_offset + 1]))
}

// ---------------------------------------------------------------------------
// IMA ADPCM
// ---------------------------------------------------------------------------

pub const ADPCM_INDEX_TABLE: [i32; 16] = [-1, -1, -1, -1, 2, 4, 6, 8, -1, -1, -1, -1, 2, 4, 6, 8];

pub const ADPCM_STEP_TABLE: [i32; 89] = [
    7, 8, 9, 10, 11, 12, 13, 14, 16, 17, 19, 21, 23, 25, 28, 31, 34, 37, 41, 45, 50, 55, 60, 66,
    73, 80, 88, 97, 107, 118, 130, 143, 157, 173, 190, 209, 230, 253, 279, 307, 337, 371, 408, 449,
    494, 544, 598, 658, 724, 796, 876, 963, 1060, 1166, 1282, 1411, 1552, 1707, 1878, 2066, 2272,
    2499, 2749, 3024, 3327, 3660, 4026, 4428, 4871, 5358, 5894, 6484, 7132, 7845, 8630, 9493,
    10442, 11487, 12635, 13899, 15289, 16818, 18500, 20350, 22385, 24623, 27086, 29794, 32767,
];

/// The quantizer step size at a step index.
pub open spec fn adpcm_step(step_index: int) -> int {
    ADPCM_STEP_TABLE@[step_index] as int
}

/// The magnitude a 4-bit code stands for at a step size: bits 0..2 add a
/// quarter, a half and the whole step to a base of an eighth.
pub open spec fn adpcm_delta(code: int, step: int) -> int {
    step / 8 + (if code % 2 == 1 { step / 4 } else { 0 }) + (if (code / 2) % 2 == 1 {
        step / 2
    } else {
        0
    }) + (if (code / 4) % 2 == 1 { step } else { 0 })
}

/// The decoder state after one code: the predicted sample (saturated to
/// `i16`) and the step index (adapted by the index table, kept in `0..=88`).
pub open spec fn adpcm_decode_step(code: int, predictor: int, step_index: int) -> (int, int) {
    let delta = adpcm_delta(code, adpcm_step(step_index));
    let moved = if (code / 8) % 2 == 1 { predictor - delta } else { predictor + delta };
    let next_index = step_index + ADPCM_INDEX_TABLE@[code] as int;
    (clamp_i16(moved), if next_index < 0 { 0 } else if next_index > 88 { 88 } else { next_index })
}

/// The code the encoder picks to move `predictor` toward `target`: the sign
/// bit, then greedily the whole, the half and the quarter step.
pub open spec fn adpcm_encode_code(target: int, predictor: int, step_index: int) -> int {
    let step = adpcm_step(step_index);
    let diff0 = target - predictor;
    let sign = if diff0 < 0 { 8int } else { 0int };
    let d0 = if diff0 < 0 { -diff0 } else { diff0 };
    let b2 = d0 >= step;
    let d1 = if b2 { d0 - step } else { d0 };
    let b1 = d1 >= step / 2;
    let d2 = if b1 { d1 - step / 2 } else { d1 };
    let b0 = d2 >= step / 4;
    sign + (if b2 { 4int } else { 0 }) + (if b1 { 2int } else { 0 }) + (if b0 { 1int } else { 0 })
}

/// Encoding moves the prediction toward the input: the code's sign bit
/// (`8`) is set exactly when the target lies below the prediction, the
/// decoded prediction moves to the target's side (never away from it), and
/// it ends no farther from the target than it was, or within an eighth of
/// the step.
pub proof fn law_adpcm_encoding_moves_toward_target(target: int, predictor: int, step_index: int)
    requires
        i16::MIN <= target <= i16::MAX,
        adpcm_state_ok(predictor, step_index),
    ensures
        ({
            let code = adpcm_encode_code(target, predictor, step_index);
            let decoded = adpcm_decode_step(code, predictor, step_index).0;
            let before = if target < predictor { predictor - target } else { target - predictor };
            let after = if target < decoded { decoded - target } else { target - decoded };
            &&& 0 <= code < 16
            &&& (code >= 8 <==> target < predictor)
            &&& (target < predictor ==> decoded <= predictor)
            &&& (target >= predictor ==> decoded >= predictor)
            &&& (after <= before || after <= adpcm_step(step_index) / 8)
        }),
{
    assert(forall|i: int| 0 <= i <= 88 ==> 0 < #[trigger] ADPCM_STEP_TABLE@[i] <= 32767);
    let step = adpcm_step(step_index);
    assert(0 < step <= 32767);
    let diff0 = target - predictor;
    let d0 = if diff0 < 0 { -diff0 } else { diff0 };
    let b2 = d0 >= step;
    let d1 = if b2 { d0 - step } else { d0 };
    let b1 = d1 >= step / 2;
    let d2 = if b1 { d1 - step / 2 } else { d1 };
    let b0 = d2 >= step / 4;
    let rest = if b0 { d2 - step / 4 } else { d2 };
    let sign = if diff0 < 0 { 8int } else { 0int };
    let code = adpcm_encode_code(target, predictor, step_index);
    let low = (if b2 { 4int } else { 0 }) + (if b1 { 2int } else { 0 }) + (if b0 { 1int } else { 0 });
    assert(code == sign + low);
    assert(code % 2 == (if b0 { 1int } else { 0 }));
    assert((code / 2) % 2 == (if b1 { 1int } else { 0 }));
    assert((code / 4) % 2 == (if b2 { 1int } else { 0 }));
    assert((code / 8) % 2 == (if diff0 < 0 { 1int } else { 0 }));
    let delta = adpcm_delta(code, step);
    assert(delta == step / 8 + (if b0 { step / 4 } else { 0 }) + (if b1 { step / 2 } else { 0 }) + (if b2 {
        step
    } else {
        0
    }));
    assert(d0 == delta - step / 8 + rest);
    assert(0 <= rest);
}

/// `predictor` lies within the `i16` range and `step_index` within the table.
pub open spec fn adpcm_state_ok(predictor: int, step_index: int) -> bool {
    i16::MIN <= predictor <= i16::MAX && 0 <= step_index <= 88
}

pub(crate) proof fn lemma_adpcm_delta_bounds(code: int, step_index: int)
    requires
        0 <= code < 16,
        0 <= step_index <= 88,
    ensures
        0 <= adpcm_step(step_index) <= 32767,
        0 <= adpcm_delta(code, adpcm_step(step_index)) <= 61436,
{
    assert(forall|i: int| 0 <= i <= 88 ==> 0 <= #[trigger] ADPCM_STEP_TABLE@[i] <= 32767);
}

fn adpcm_step_at(step_index: i32) -> (step: i32)
    requires
        0 <= step_index <= 88,
    ensures
        step == adpcm_step(step_index as int),
        0 < step <= 32767,
{
    proof {
        assert(forall|i: int| 0 <= i <= 88 ==> 0 < #[trigger] ADPCM_STEP_TABLE@[i] <= 32767);
    }
    ADPCM_STEP_TABLE[step_index as usize]
}

fn adapt_step_index(step_index: &mut i32, code: u8)
    requires
        0 <= *old(step_index) <= 88,
        code < 16,
    ensures
        *final(step_index) == adpcm_decode_step(code as int, 0, *old(step_index) as int).1,
        0 <= *final(step_index) <= 88,
{
    *step_index += ADPCM_INDEX_TABLE[code as usize];
    if *step_index < 0 {
        *step_index = 0;
    } else if *step_index > 88 {
        *step_index = 88;
    }
}

fn saturate_predictor(predictor: &mut i32)
    ensures
        *final(predictor) == clamp_i16(*old(predictor) as int),
{
    if *predictor < i16::MIN as i32 {
        *predictor = i16::MIN as i32;
    } else if *predictor > i16::MAX as i32 {
        *predictor = i16::MAX as i32;
    }
}

proof fn lemma_step_shifts(step: i32)
    requires
        step > 0,
    ensures
        step >> 3 == step / 8,
        step >> 2 == step / 4,
        step >> 1 == step / 2,
{
    assert(step >> 3 == step / 8 && step >> 2 == step / 4 && step >> 1 == step / 2) by (bit_vector)
        requires
            step > 0,
    ;
}

proof fn lemma_code_bits(code: u8)
    requires
        code < 16,
    ensures
        ((code & 0x01) != 0) == (code as int % 2 == 1),
        ((code & 0x02) != 0) == ((code as int / 2) % 2 == 1),
        ((code & 0x04) != 0) == ((code as int / 4) % 2 == 1),
        ((code & 0x08) != 0) == ((code as int / 8) % 2 == 1),
{
    assert(((code & 0x01) != 0) == (code % 2 == 1) && ((code & 0x02) != 0) == ((code / 2) % 2
        == 1) && ((code & 0x04) != 0) == ((code / 4) % 2 == 1) && ((code & 0x08) != 0) == ((code
        / 8) % 2 == 1)) by (bit_vector)
        requires
            code < 16,
    ;
}

/// Decodes one 4-bit IMA ADPCM code, updating the decoder state, and returns
/// the new predicted sample.
pub fn decode_adpcm_nibble_const(
    adpcm_nibble: u8,
    predictor_i32: &mut i32,
    step_index_i32: &mut i32,
) -> (sample: i16)
    requires
        adpcm_nibble < 16,
        0 <= *old(step_index_i32) <= 88,
        (adpcm_nibble & 0x08) != 0 ==> *old(predictor_i32) - adpcm_delta(
            adpcm_nibble as int,
            adpcm_step(*old(step_index_i32) as int),
        ) >= i32::MIN,
        (adpcm_nibble & 0x08) == 0 ==> *old(predictor_i32) + adpcm_delta(
            adpcm_nibble as int,
            adpcm_step(*old(step_index_i32) as int),
        ) <= i32::MAX,
    ensures
        (*final(predictor_i32) as int, *final(step_index_i32) as int) == adpcm_decode_step(
            adpcm_nibble as int,
            *old(predictor_i32) as int,
            *old(step_index_i32) as int,
        ),
        sample == *final(predictor_i32),
        adpcm_state_ok(*final(predictor_i32) as int, *final(step_index_i32) as int),
{
    proof {
        lemma_code_bits(adpcm_nibble);
        lemma_adpcm_delta_bounds(adpcm_nibble as int, *step_index_i32 as int);
    }
    let step = adpcm_step_at(*step_index_i32);
    proof {
        lemma_step_shifts(step);
    }
    let mut delta = step >> 3;

    if (adpcm_nibble & 0x01) != 0 {
        delta += step >> 2;
    }
    if (adpcm_nibble & 0x02) != 0 {
        delta += step >> 1;
    }
    if (adpcm_nibble & 0x04) != 0 {
        delta += step;
    }
    assert(delta == adpcm_delta(adpcm_nibble as int, step as int));

    if (adpcm_nibble & 0x08) != 0 {
        *predictor_i32 -= delta;
    } else {
        *predictor_i32 += delta;
    }

    saturate_predictor(predictor_i32);
    adapt_step_index(step_index_i32, adpcm_nibble);

    *predictor_i32 as i16
}

fn encode_adpcm_nibble(
    target_sample_i32: i32,
    predictor_i32: &mut i32,
    step_index_i32: &mut i32,
) -> (code: u8)
    requires
        i16::MIN <= target_sample_i32 <= i16::MAX,
        adpcm_state_ok(*old(predictor_i32) as int, *old(step_index_i32) as int),
    ensures
        code < 16,
        code == adpcm_encode_code(
            target_sample_i32 as int,
            *old(predictor_i32) as int,
            *old(step_index_i32) as int,
        ),
        (*final(predictor_i32) as int, *final(step_index_i32) as int) == adpcm_decode_step(
            code as int,
            *old(predictor_i32) as int,
            *old(step_index_i32) as int,
        ),
        adpcm_state_ok(*final(predictor_i32) as int, *final(step_index_i32) as int),
{
    proof {
        lemma_adpcm_delta_bounds(0, *step_index_i32 as int);
    }
    let step = adpcm_step_at(*step_index_i32);
    let ghost target = target_sample_i32 as int;
    let ghost start = *predictor_i32 as int;
    let mut diff = target_sample_i32 - *predictor_i32;
    let mut adpcm_nibble = 0_u8;
    if diff < 0 {
        proof {
            crate::bits::lemma_set_clear_bit(0, 8);
        }
        adpcm_nibble |= 0x08;
        diff = -diff;
    }
    let ghost sign = if target - start < 0 { 8int } else { 0int };
    let ghost d0 = if target - start < 0 { start - target } else { target - start };
    assert(adpcm_nibble == sign && diff == d0);

    proof {
        lemma_step_shifts(step);
    }
    let mut delta = step >> 3;
    let half = step >> 1;
    let quarter = step >> 2;
    let ghost b2 = d0 >= step;
    if diff >= step {
        proof {
            crate::bits::lemma_set_clear_bit(adpcm_nibble, 4);
        }
        adpcm_nibble |= 0x04;
        diff -= step;
        delta += step;
    }
    let ghost d1 = if b2 { d0 - step } else { d0 };
    let ghost b1 = d1 >= step / 2;
    if diff >= half {
        proof {
            crate::bits::lemma_set_clear_bit(adpcm_nibble, 2);
        }
        adpcm_nibble |= 0x02;
        diff -= half;
        delta += half;
    }
    let ghost d2 = if b1 { d1 - step / 2 } else { d1 };
    let ghost b0 = d2 >= step / 4;
    if diff >= quarter {
        proof {
            crate::bits::lemma_set_clear_bit(adpcm_nibble, 1);
        }
        adpcm_nibble |= 0x01;
        delta += quarter;
    }
    proof {
        lemma_code_bits(adpcm_nibble);
        assert(adpcm_nibble == adpcm_encode_code(target, start, *step_index_i32 as int));
        assert(delta == adpcm_delta(adpcm_nibble as int, step as int));
    }

    if (adpcm_nibble & 0x08) != 0 {
        *predictor_i32 -= delta;
    } else {
        *predictor_i32 += delta;
    }

    saturate_predictor(predictor_i32);
    adapt_step_index(step_index_i32, adpcm_nibble);

    adpcm_nibble
}

// ---------------------------------------------------------------------------
// PCM clips
// ---------------------------------------------------------------------------

/// Uncompressed (PCM) audio clip data at a fixed sample rate.
pub struct PcmClip<const SAMPLE_RATE_HZ: u32, T> {
    samples: T,
}

/// Fixed-size storage for uncompressed (PCM) audio clip data.
pub type PcmClipBuf<const SAMPLE_RATE_HZ: u32, const SAMPLE_COUNT: usize> = PcmClip<
    SAMPLE_RATE_HZ,
    [i16; SAMPLE_COUNT],
>;

impl<const SAMPLE_RATE_HZ: u32, T> PcmClip<SAMPLE_RATE_HZ, T> {
    /// The sample data.
    pub closed spec fn spec_samples(&self) -> T {
        self.samples
    }

    /// Returns a reference to the raw PCM sample data.
    #[must_use]
    pub fn samples(&self) -> (samples: &T)
        ensures
            *samples == self.spec_samples(),
    {
        &self.samples
    }
}

/// The attack/release envelope factor (Q15) at sample `i` of a clip of `n`
/// samples: a linear ramp up over the first `attack` samples and down over
/// the last `release` samples, full scale elsewhere.
pub open spec fn envelope_sample(sample: int, i: int, n: int, attack: int, release: int) -> int {
    if i < attack {
        scaled_sample(sample, (i * 32767) / attack)
    } else if i >= n - release {
        scaled_sample(sample, ((release - (i - (n - release))) * 32767) / release)
    } else {
        sample
    }
}

/// Linear interpolation of the source at position `i * source_rate /
/// target_rate`, rounded half away from zero and saturated; positions at or
/// beyond the last source sample hold that sample.
pub open spec fn resampled_sample(
    source: Seq<i16>,
    i: int,
    source_rate: int,
    target_rate: int,
) -> int {
    let position = i * source_rate;
    let index = position / target_rate;
    let fraction = position % target_rate;
    if index + 1 >= source.len() {
        source[source.len() - 1] as int
    } else if fraction == 0 {
        source[index] as int
    } else {
        let left = source[index] as int;
        let numerator = (source[index + 1] - left) * fraction;
        let rounded = if numerator >= 0 {
            div_toward_zero(numerator + target_rate / 2, target_rate)
        } else {
            div_toward_zero(numerator - target_rate / 2, target_rate)
        };
        clamp_i16(left + rounded)
    }
}

impl<const SAMPLE_RATE_HZ: u32, const SAMPLE_COUNT: usize> PcmClip<SAMPLE_RATE_HZ, [i16; SAMPLE_COUNT]> {
    /// Returns a new clip with linear sample gain applied; products saturate
    /// to the `i16` range.
    #[must_use]
    pub fn with_gain(self, gain: Gain) -> (gained: Self)
        requires
            SAMPLE_RATE_HZ > 0,
        ensures
            forall|i: int|
                0 <= i < SAMPLE_COUNT ==> #[trigger] gained.spec_samples()@[i] == scaled_sample(
                    self.spec_samples()@[i] as int,
                    gain.spec_linear(),
                ),
    {
        let mut scaled_samples = [0_i16; SAMPLE_COUNT];
        let mut sample_index = 0_usize;
        while sample_index < SAMPLE_COUNT
            invariant
                sample_index <= SAMPLE_COUNT,
                forall|i: int|
                    0 <= i < sample_index ==> #[trigger] scaled_samples@[i] == scaled_sample(
                        self.samples@[i] as int,
                        gain.spec_linear(),
                    ),
            decreases SAMPLE_COUNT - sample_index,
        {
            scaled_samples[sample_index] = scale_sample_with_linear(
                self.samples[sample_index],
                gain.linear(),
            );
            sample_index += 1;
        }
        Self { samples: scaled_samples }
    }

    /// Returns this clip with a linear attack and release envelope.
    #[must_use]
    pub(crate) fn with_attack_release(self, attack: Duration, release: Duration) -> (shaped: Self)
        requires
            SAMPLE_RATE_HZ > 0,
            attack.spec_secs() * SAMPLE_RATE_HZ <= u64::MAX,
            release.spec_secs() * SAMPLE_RATE_HZ <= u64::MAX,
            samples_in(
                attack.spec_secs() as int,
                attack.spec_subsec_nanos() as int,
                SAMPLE_RATE_HZ as int,
            ) + samples_in(
                release.spec_secs() as int,
                release.spec_subsec_nanos() as int,
                SAMPLE_RATE_HZ as int,
            ) <= SAMPLE_COUNT,
            samples_in(
                attack.spec_secs() as int,
                attack.spec_subsec_nanos() as int,
                SAMPLE_RATE_HZ as int,
            ) * 32767 <= i32::MAX,
            samples_in(
                release.spec_secs() as int,
                release.spec_subsec_nanos() as int,
                SAMPLE_RATE_HZ as int,
            ) * 32767 <= i32::MAX,
        ensures
            forall|i: int|
                0 <= i < SAMPLE_COUNT ==> #[trigger] shaped.spec_samples()@[i] == envelope_sample(
                    self.spec_samples()@[i] as int,
                    i,
                    SAMPLE_COUNT as int,
                    samples_in(
                        attack.spec_secs() as int,
                        attack.spec_subsec_nanos() as int,
                        SAMPLE_RATE_HZ as int,
                    ),
                    samples_in(
                        release.spec_secs() as int,
                        release.spec_subsec_nanos() as int,
                        SAMPLE_RATE_HZ as int,
                    ),
                ),
    {
        proof {
            lemma_samples_in_nonneg(attack.spec_secs() as int, attack.spec_subsec_nanos() as int, SAMPLE_RATE_HZ as int);
            lemma_samples_in_nonneg(release.spec_secs() as int, release.spec_subsec_nanos() as int, SAMPLE_RATE_HZ as int);
        }
        let attack_sample_count = __samples_for_duration(attack, SAMPLE_RATE_HZ);
        let release_sample_count = __samples_for_duration(release, SAMPLE_RATE_HZ);
        self.with_attack_release_sample_count(attack_sample_count, release_sample_count)
    }

    #[must_use]
    fn with_attack_release_sample_count(
        self,
        attack_sample_count: usize,
        release_sample_count: usize,
    ) -> (shaped: Self)
        requires
            attack_sample_count + release_sample_count <= SAMPLE_COUNT,
            attack_sample_count * 32767 <= i32::MAX,
            release_sample_count * 32767 <= i32::MAX,
        ensures
            forall|i: int|
                0 <= i < SAMPLE_COUNT ==> #[trigger] shaped.spec_samples()@[i] == envelope_sample(
                    self.spec_samples()@[i] as int,
                    i,
                    SAMPLE_COUNT as int,
                    attack_sample_count as int,
                    release_sample_count as int,
                ),
    {
        let mut shaped_samples = self.samples;

        if attack_sample_count > 0 {
            let attack_sample_count_i32 = attack_sample_count as i32;
            let mut sample_index = 0usize;
            while sample_index < attack_sample_count
                invariant
                    sample_index <= attack_sample_count,
                    attack_sample_count + release_sample_count <= SAMPLE_COUNT,
                    attack_sample_count * 32767 <= i32::MAX,
                    attack_sample_count_i32 == attack_sample_count,
                    attack_sample_count > 0,
                    forall|i: int|
                        0 <= i < sample_index ==> #[trigger] shaped_samples@[i] == scaled_sample(
                            self.samples@[i] as int,
                            (i * 32767) / attack_sample_count as int,
                        ),
                    forall|i: int|
                        sample_index <= i < SAMPLE_COUNT ==> #[trigger] shaped_samples@[i]
                            == self.samples@[i],
                decreases attack_sample_count - sample_index,
            {
                let envelope_numerator_i32 = sample_index as i32;
                assert(envelope_numerator_i32 * 32767 <= i32::MAX) by (nonlinear_arith)
                    requires
                        envelope_numerator_i32 < attack_sample_count,
                        attack_sample_count * 32767 <= i32::MAX,
                        envelope_numerator_i32 >= 0,
                ;
                shaped_samples[sample_index] = scale_sample_with_linear(
                    shaped_samples[sample_index],
                    (envelope_numerator_i32 * i16::MAX as i32) / attack_sample_count_i32,
                );
                sample_index += 1;
            }
        }

        let ghost after_attack = shaped_samples;
        if release_sample_count > 0 {
            let release_sample_count_i32 = release_sample_count as i32;
            let release_start_index = SAMPLE_COUNT - release_sample_count;
            let mut release_index = 0usize;
            while release_index < release_sample_count
                invariant
                    release_index <= release_sample_count,
                    release_start_index == SAMPLE_COUNT - release_sample_count,
                    attack_sample_count + release_sample_count <= SAMPLE_COUNT,
                    release_sample_count * 32767 <= i32::MAX,
                    release_sample_count_i32 == release_sample_count,
                    release_sample_count > 0,
                    forall|i: int|
                        release_start_index <= i < release_start_index + release_index
                            ==> #[trigger] shaped_samples@[i] == scaled_sample(
                            after_attack@[i] as int,
                            ((release_sample_count - (i - release_start_index)) * 32767)
                                / release_sample_count as int,
                        ),
                    forall|i: int|
                        0 <= i < release_start_index + release_index ==> i < release_start_index
                            ==> #[trigger] shaped_samples@[i] == after_attack@[i],
                    forall|i: int|
                        release_start_index + release_index <= i < SAMPLE_COUNT
                            ==> #[trigger] shaped_samples@[i] == after_attack@[i],
                decreases release_sample_count - release_index,
            {
                let sample_index = release_start_index + release_index;
                let envelope_numerator_i32 = (release_sample_count - release_index) as i32;
                assert(envelope_numerator_i32 * 32767 <= i32::MAX) by (nonlinear_arith)
                    requires
                        envelope_numerator_i32 <= release_sample_count,
                        release_sample_count * 32767 <= i32::MAX,
                        envelope_numerator_i32 >= 0,
                ;
                shaped_samples[sample_index] = scale_sample_with_linear(
                    shaped_samples[sample_index],
                    (envelope_numerator_i32 * i16::MAX as i32) / release_sample_count_i32,
                );
                release_index += 1;
            }
        }

        Self { samples: shaped_samples }
    }
}

proof fn lemma_samples_in_nonneg(secs: int, nanos: int, rate: int)
    requires
        secs >= 0,
        nanos >= 0,
        rate >= 0,
    ensures
        samples_in(secs, nanos, rate) >= secs * rate >= 0,
{
    assert(secs * rate >= 0 && nanos * rate >= 0) by (nonlinear_arith)
        requires
            secs >= 0,
            nanos >= 0,
            rate >= 0,
    ;
}

// ---------------------------------------------------------------------------
// Little-endian readers
// ---------------------------------------------------------------------------

fn read_u16_le_const(bytes: &[u8], byte_offset: usize) -> (value: u16)
    requires
        byte_offset + 2 <= bytes@.len(),
    ensures
        value == le_u16(bytes@[byte_offset as int], bytes@[byte_offset + 1]),
{
    let low = bytes[byte_offset];
    let high = bytes[byte_offset + 1];
    let value = (low as u16) | ((high as u16) << 8);
    proof {
        crate::bits::lemma_u16_from_le_bytes(low, high);
    }
    value
}

pub(crate) fn read_i16_le_const(bytes: &[u8], byte_offset: usize) -> (value: i16)
    requires
        byte_offset + 2 <= bytes@.len(),
    ensures
        value == le_i16(bytes@[byte_offset as int], bytes@[byte_offset + 1]),
{
    i16_from_le(bytes[byte_offset], bytes[byte_offset + 1])
}

fn read_u32_le_const(bytes: &[u8], byte_offset: usize) -> (value: u32)
    requires
        byte_offset + 4 <= bytes@.len(),
    ensures
        value == le_u32(
            bytes@[byte_offset as int],
            bytes@[byte_offset + 1],
            bytes@[byte_offset + 2],
            bytes@[byte_offset + 3],
        ),
{
    let b0 = bytes[byte_offset];
    let b1 = bytes[byte_offset + 1];
    let b2 = bytes[byte_offset + 2];
    let b3 = bytes[byte_offset + 3];
    let value = (b0 as u32) | ((b1 as u32) << 8) | ((b2 as u32) << 16) | ((b3 as u32) << 24);
    proof {
        crate::bits::lemma_u32_from_le_bytes(b0, b1, b2, b3);
    }
    value
}

// ---------------------------------------------------------------------------
// ADPCM clips
// ---------------------------------------------------------------------------

/// End-of-sequence behavior for playback.
pub enum AtEnd {
    /// Repeat the full clip sequence forever.
    Loop,
    /// Stop after one full clip sequence pass.
    Stop,
}

/// Compressed (mono 4-bit IMA ADPCM) audio clip data at a fixed sample rate.
///
/// The data is a sequence of `block_align`-byte blocks. Each block starts
/// with a 4-byte header (the first sample, little-endian, then the step
/// index and a reserved byte) followed by packed 4-bit codes, low nibble
/// first.
pub struct AdpcmClip<const SAMPLE_RATE_HZ: u32, T> {
    block_align: u16,
    samples_per_block: u16,
    pcm_sample_count: u32,
    data: T,
}

/// Fixed-size storage for compressed (ADPCM) clip data.
pub type AdpcmClipBuf<const SAMPLE_RATE_HZ: u32, const DATA_LEN: usize> = AdpcmClip<
    SAMPLE_RATE_HZ,
    [u8; DATA_LEN],
>;

impl<const SAMPLE_RATE_HZ: u32, T> AdpcmClip<SAMPLE_RATE_HZ, T> {
    /// The block size in bytes.
    pub closed spec fn spec_block_align(&self) -> int {
        self.block_align as int
    }

    /// The declared number of decoded samples per block.
    pub closed spec fn spec_samples_per_block(&self) -> int {
        self.samples_per_block as int
    }

    /// The number of PCM samples the clip decodes to.
    pub closed spec fn spec_pcm_sample_count(&self) -> int {
        self.pcm_sample_count as int
    }

    /// The raw ADPCM bytes.
    pub closed spec fn spec_data(&self) -> T {
        self.data
    }

    /// Returns the ADPCM block size in bytes.
    #[must_use]
    pub fn block_align(&self) -> (block_align: u16)
        ensures
            block_align == self.spec_block_align(),
    {
        self.block_align
    }

    /// Returns the number of decoded samples per ADPCM block.
    #[must_use]
    pub fn samples_per_block(&self) -> (samples_per_block: u16)
        ensures
            samples_per_block == self.spec_samples_per_block(),
    {
        self.samples_per_block
    }

    /// Returns the decoded PCM sample count represented by this ADPCM clip.
    #[must_use]
    pub fn pcm_sample_count(&self) -> (pcm_sample_count: usize)
        ensures
            pcm_sample_count == self.spec_pcm_sample_count(),
    {
        self.pcm_sample_count as usize
    }

    /// Returns a reference to the raw ADPCM byte data.
    #[must_use]
    pub fn data(&self) -> (data: &T)
        ensures
            *data == self.spec_data(),
    {
        &self.data
    }
}

/// The smaller of two integers.
pub open spec fn min_int(a: int, b: int) -> int {
    if a < b { a } else { b }
}

/// How many samples one block decodes to: the header sample plus two per
/// payload byte, capped at the declared samples per block.
pub open spec fn adpcm_samples_in_block(block_align: int, samples_per_block: int) -> int {
    min_int(samples_per_block, 2 * block_align - 7)
}

/// The `k`-th 4-bit code of the block starting at `block_start`.
pub open spec fn adpcm_nibble_at(data: Seq<u8>, block_start: int, k: int) -> int {
    let byte = data[block_start + 4 + k / 2] as int;
    if k % 2 == 0 { byte % 16 } else { byte / 16 }
}

/// The decoder state (predictor, step index) of the block starting at
/// `block_start` once `decoded` samples (the header sample included) have
/// been produced.
pub open spec fn adpcm_block_state(data: Seq<u8>, block_start: int, decoded: nat) -> (int, int)
    decreases decoded,
{
    if decoded <= 1 {
        (le_i16(data[block_start], data[block_start + 1]), data[block_start + 2] as int)
    } else {
        let previous = adpcm_block_state(data, block_start, (decoded - 1) as nat);
        adpcm_decode_step(adpcm_nibble_at(data, block_start, decoded - 2), previous.0, previous.1)
    }
}

/// Every block header that decoding `sample_count` samples reaches holds a
/// step index within the table.
pub open spec fn adpcm_headers_ok(
    data: Seq<u8>,
    block_align: int,
    samples_per_block: int,
    sample_count: int,
) -> bool {
    forall|block: int|
        0 <= block && (block + 1) * block_align <= data.len() && block * adpcm_samples_in_block(
            block_align,
            samples_per_block,
        ) < sample_count ==> #[trigger] data[block * block_align + 2] <= 88
}

/// Decoded sample `i` of an ADPCM stream: blocks are decoded one after the
/// other; a sample beyond the last whole block is silence.
pub open spec fn adpcm_decoded_sample(
    data: Seq<u8>,
    block_align: int,
    samples_per_block: int,
    i: int,
) -> int {
    let per_block = adpcm_samples_in_block(block_align, samples_per_block);
    let block = i / per_block;
    if (block + 1) * block_align <= data.len() {
        adpcm_block_state(data, block * block_align, (i % per_block + 1) as nat).0
    } else {
        0
    }
}

pub(crate) proof fn lemma_block_state_step(data: Seq<u8>, block_start: int, decoded: nat)
    requires
        decoded >= 1,
    ensures
        adpcm_block_state(data, block_start, decoded + 1) == adpcm_decode_step(
            adpcm_nibble_at(data, block_start, decoded - 1),
            adpcm_block_state(data, block_start, decoded).0,
            adpcm_block_state(data, block_start, decoded).1,
        ),
{
}

impl<const SAMPLE_RATE_HZ: u32, const DATA_LEN: usize> AdpcmClip<SAMPLE_RATE_HZ, [u8; DATA_LEN]> {
    /// The clip's layout is consistent: a positive rate, blocks of at least 5
    /// bytes that tile the data, and no more samples than the blocks hold.
    pub closed spec fn wf(&self) -> bool {
        &&& SAMPLE_RATE_HZ > 0
        &&& self.block_align >= 5
        &&& self.samples_per_block > 0
        &&& DATA_LEN as int % self.block_align as int == 0
        &&& self.pcm_sample_count <= (DATA_LEN as int / self.block_align as int)
            * self.samples_per_block
    }

    /// Creates a fixed-size ADPCM clip.
    #[must_use]
    pub(crate) fn new(
        block_align: u16,
        samples_per_block: u16,
        pcm_sample_count: usize,
        data: [u8; DATA_LEN],
    ) -> (clip: Self)
        requires
            SAMPLE_RATE_HZ > 0,
            block_align >= 5,
            samples_per_block > 0,
            DATA_LEN as int % block_align as int == 0,
            pcm_sample_count <= (DATA_LEN as int / block_align as int) * samples_per_block,
            pcm_sample_count <= u32::MAX,
        ensures
            clip.wf(),
            clip.spec_block_align() == block_align,
            clip.spec_samples_per_block() == samples_per_block,
            clip.spec_pcm_sample_count() == pcm_sample_count,
            clip.spec_data() == data,
    {
        Self { block_align, samples_per_block, pcm_sample_count: pcm_sample_count as u32, data }
    }

    /// Returns the uncompressed (PCM) version of this clip.
    ///
    /// `SAMPLE_COUNT` must equal the clip's decoded sample count.
    #[must_use]
    pub fn with_pcm<const SAMPLE_COUNT: usize>(&self) -> (pcm: PcmClipBuf<
        SAMPLE_RATE_HZ,
        SAMPLE_COUNT,
    >)
        requires
            self.wf(),
            SAMPLE_COUNT == self.spec_pcm_sample_count(),
            adpcm_headers_ok(
                self.spec_data()@,
                self.spec_block_align(),
                self.spec_samples_per_block(),
                SAMPLE_COUNT as int,
            ),
        ensures
            forall|i: int|
                0 <= i < SAMPLE_COUNT ==> #[trigger] pcm.spec_samples()@[i] == adpcm_decoded_sample(
                    self.spec_data()@,
                    self.spec_block_align(),
                    self.spec_samples_per_block(),
                    i,
                ),
    {
        let block_align = self.block_align as usize;
        let samples_per_block = self.samples_per_block as usize;
        let ghost data = self.data@;
        let ghost ba = block_align as int;
        let ghost spb = samples_per_block as int;
        let ghost per_block = adpcm_samples_in_block(ba, spb);
        let ghost block_count = DATA_LEN as int / ba;

        let mut samples = [0_i16; SAMPLE_COUNT];
        if SAMPLE_COUNT == 0 {
            return PcmClip { samples };
        }
        proof {
            vstd::arithmetic::div_mod::lemma_fundamental_div_mod(DATA_LEN as int, ba);
        }

        let mut sample_index = 0usize;
        let mut remaining_sample_count = SAMPLE_COUNT;
        let mut block_start = 0usize;
        let ghost mut block: int = 0;
        while block_start < DATA_LEN && remaining_sample_count > 0
            invariant
                self.wf(),
                block_align == self.block_align,
                samples_per_block == self.samples_per_block,
                data == self.data@,
                ba == block_align,
                spb == samples_per_block,
                per_block == adpcm_samples_in_block(ba, spb),
                block_count == DATA_LEN as int / ba,
                DATA_LEN == block_count * ba,
                SAMPLE_COUNT == self.pcm_sample_count,
                adpcm_headers_ok(data, ba, spb, SAMPLE_COUNT as int),
                0 <= block <= block_count,
                block_start == block * ba,
                sample_index == min_int(block * per_block, SAMPLE_COUNT as int),
                remaining_sample_count == SAMPLE_COUNT - sample_index,
                forall|i: int|
                    0 <= i < sample_index ==> #[trigger] samples@[i] == adpcm_decoded_sample(
                        data,
                        ba,
                        spb,
                        i,
                    ),
                forall|i: int| sample_index <= i < SAMPLE_COUNT ==> #[trigger] samples@[i] == 0,
            decreases DATA_LEN - block_start,
        {
            proof {
                assert(block < block_count) by (nonlinear_arith)
                    requires
                        block * ba < block_count * ba,
                        ba > 0,
                ;
                assert((block + 1) * ba <= DATA_LEN) by (nonlinear_arith)
                    requires
                        block + 1 <= block_count,
                        DATA_LEN == block_count * ba,
                        ba > 0,
                ;
                assert(block * per_block < SAMPLE_COUNT);
                assert(data[block * ba + 2] <= 88);
                assert(block_start + ba <= DATA_LEN) by (nonlinear_arith)
                    requires
                        (block + 1) * ba <= DATA_LEN,
                        block_start == block * ba,
                ;
            }
            let ghost base = sample_index as int;
            let data_slice = self.data.as_slice();
            proof {
                broadcast use vstd::array::group_array_axioms;
                assert(data_slice@ == data);
            }
            let mut predictor_i32 = read_i16_le_const(data_slice, block_start) as i32;
            let mut step_index_i32 = self.data[block_start + 2] as i32;

            samples[sample_index] = predictor_i32 as i16;
            sample_index += 1;
            remaining_sample_count -= 1;
            let mut decoded_in_block = 1usize;

            let mut adpcm_byte_offset = block_start + 4;
            let adpcm_block_end = block_start + block_align;
            while adpcm_byte_offset < adpcm_block_end && remaining_sample_count > 0
                invariant
                    self.wf(),
                    block_align == self.block_align,
                    samples_per_block == self.samples_per_block,
                    data == self.data@,
                    ba == block_align,
                    spb == samples_per_block,
                    per_block == adpcm_samples_in_block(ba, spb),
                    SAMPLE_COUNT == self.pcm_sample_count,
                    block_start == block * ba,
                    adpcm_block_end == block_start + ba,
                    adpcm_block_end <= DATA_LEN,
                    block_start + 4 <= adpcm_byte_offset <= adpcm_block_end,
                    base == block * per_block,
                    0 <= base < SAMPLE_COUNT,
                    decoded_in_block == min_int(
                        min_int(1 + 2 * (adpcm_byte_offset - block_start - 4), spb),
                        SAMPLE_COUNT - base,
                    ),
                    sample_index == base + decoded_in_block,
                    remaining_sample_count == SAMPLE_COUNT - sample_index,
                    (predictor_i32 as int, step_index_i32 as int) == adpcm_block_state(
                        data,
                        block_start as int,
                        decoded_in_block as nat,
                    ),
                    adpcm_state_ok(predictor_i32 as int, step_index_i32 as int),
                    forall|i: int|
                        0 <= i < base ==> #[trigger] samples@[i] == adpcm_decoded_sample(
                            data,
                            ba,
                            spb,
                            i,
                        ),
                    forall|i: int|
                        base <= i < sample_index ==> #[trigger] samples@[i] == adpcm_block_state(
                            data,
                            block_start as int,
                            (i - base + 1) as nat,
                        ).0,
                    forall|i: int|
                        sample_index <= i < SAMPLE_COUNT ==> #[trigger] samples@[i] == 0,
                decreases adpcm_block_end - adpcm_byte_offset,
            {
                let adpcm_byte = self.data[adpcm_byte_offset];
                let adpcm_nibble_low = adpcm_byte & 0x0F;
                let adpcm_nibble_high = adpcm_byte >> 4;
                proof {
                    crate::bits::lemma_nibbles(adpcm_byte);
                }
                let ghost k = adpcm_byte_offset - block_start - 4;

                if decoded_in_block < samples_per_block && remaining_sample_count > 0 {
                    proof {
                        lemma_adpcm_delta_bounds(adpcm_nibble_low as int, step_index_i32 as int);
                        assert(decoded_in_block == 1 + 2 * k);
                        assert(adpcm_nibble_at(data, block_start as int, 2 * k) == adpcm_nibble_low);
                    }
                    let decoded_sample = decode_adpcm_nibble_const(
                        adpcm_nibble_low,
                        &mut predictor_i32,
                        &mut step_index_i32,
                    );
                    samples[sample_index] = decoded_sample;
                    proof {
                        lemma_block_state_step(data, block_start as int, decoded_in_block as nat);
                        assert(samples@[sample_index as int] == adpcm_block_state(
                            data,
                            block_start as int,
                            (sample_index - base + 1) as nat,
                        ).0);
                    }
                    sample_index += 1;
                    remaining_sample_count -= 1;
                    decoded_in_block += 1;
                }
                if decoded_in_block < samples_per_block && remaining_sample_count > 0 {
                    proof {
                        lemma_adpcm_delta_bounds(adpcm_nibble_high as int, step_index_i32 as int);
                        assert(decoded_in_block == 2 + 2 * k);
                        assert(adpcm_nibble_at(data, block_start as int, 2 * k + 1) == adpcm_nibble_high);
                    }
                    let decoded_sample = decode_adpcm_nibble_const(
                        adpcm_nibble_high,
                        &mut predictor_i32,
                        &mut step_index_i32,
                    );
                    samples[sample_index] = decoded_sample;
                    proof {
                        lemma_block_state_step(data, block_start as int, decoded_in_block as nat);
                        assert(samples@[sample_index as int] == adpcm_block_state(
                            data,
                            block_start as int,
                            (sample_index - base + 1) as nat,
                        ).0);
                    }
                    sample_index += 1;
                    remaining_sample_count -= 1;
                    decoded_in_block += 1;
                }
                adpcm_byte_offset += 1;
            }

            proof {
                assert(decoded_in_block <= per_block);
                assert(decoded_in_block == min_int(per_block, SAMPLE_COUNT - base));
                assert forall|i: int| base <= i < sample_index implies #[trigger] samples@[i]
                    == adpcm_decoded_sample(data, ba, spb, i) by {
                    vstd::arithmetic::div_mod::lemma_fundamental_div_mod_converse(
                        i,
                        per_block,
                        block,
                        i - base,
                    );
                }
                assert(sample_index == min_int((block + 1) * per_block, SAMPLE_COUNT as int)) by (nonlinear_arith)
                    requires
                        sample_index == base + decoded_in_block,
                        base == block * per_block,
                        decoded_in_block == min_int(per_block, SAMPLE_COUNT - base),
                ;
            }
            block_start += block_align;
            proof {
                block = block + 1;
                assert(block_start == block * ba) by (nonlinear_arith)
                    requires
                        block_start == (block - 1) * ba + ba,
                ;
            }
        }

        proof {
            assert forall|i: int| sample_index <= i < SAMPLE_COUNT implies #[trigger] samples@[i]
                == adpcm_decoded_sample(data, ba, spb, i) by {
                assert(block_start >= DATA_LEN);
                assert(i >= block * per_block);
                assert(i / per_block >= block) by (nonlinear_arith)
                    requires
                        i >= block * per_block,
                        per_block > 0,
                ;
                assert((i / per_block + 1) * ba > DATA_LEN) by (nonlinear_arith)
                    requires
                        i / per_block >= block,
                        block * ba >= DATA_LEN,
                        ba > 0,
                ;
            }
        }
        PcmClip { samples }
    }
}


// ---------------------------------------------------------------------------
// ADPCM encoding
// ---------------------------------------------------------------------------

/// Samples one mono 4-bit block of `block_align` bytes holds: the header
/// sample plus two per payload byte.
pub open spec fn adpcm_block_capacity(block_align: int) -> int {
    2 * (block_align - 4) + 1
}

/// Bytes needed to encode `sample_count` samples in whole blocks.
pub open spec fn adpcm_data_len(sample_count: int, block_align: int) -> int {
    if sample_count == 0 {
        0
    } else {
        ((sample_count - 1) / adpcm_block_capacity(block_align) + 1) * block_align
    }
}

fn derive_samples_per_block_const(block_align: usize) -> (samples_per_block: usize)
    requires
        block_align >= 4,
        adpcm_block_capacity(block_align as int) <= usize::MAX,
    ensures
        samples_per_block == adpcm_block_capacity(block_align as int),
{
    ((block_align - 4) * 2) + 1
}

/// Returns decoded samples per IMA ADPCM block for mono 4-bit data.
#[must_use]
pub fn __adpcm_samples_per_block(block_align: usize) -> (samples_per_block: usize)
    requires
        block_align >= 5,
        adpcm_block_capacity(block_align as int) <= usize::MAX,
    ensures
        samples_per_block == adpcm_block_capacity(block_align as int),
{
    derive_samples_per_block_const(block_align)
}

/// Returns ADPCM byte length needed to encode `sample_count` mono PCM samples.
#[must_use]
pub fn __adpcm_data_len_for_pcm_samples(sample_count: usize) -> (data_len: usize)
    requires
        adpcm_data_len(sample_count as int, ADPCM_ENCODE_BLOCK_ALIGN as int) <= usize::MAX,
    ensures
        data_len == adpcm_data_len(sample_count as int, ADPCM_ENCODE_BLOCK_ALIGN as int),
{
    __adpcm_data_len_for_pcm_samples_with_block_align(sample_count, ADPCM_ENCODE_BLOCK_ALIGN)
}

/// Returns ADPCM byte length needed to encode `sample_count` mono PCM samples
/// with a specific ADPCM `block_align`.
#[must_use]
pub fn __adpcm_data_len_for_pcm_samples_with_block_align(
    sample_count: usize,
    block_align: usize,
) -> (data_len: usize)
    requires
        block_align >= 5,
        adpcm_block_capacity(block_align as int) <= usize::MAX,
        adpcm_data_len(sample_count as int, block_align as int) <= usize::MAX,
    ensures
        data_len == adpcm_data_len(sample_count as int, block_align as int),
{
    let samples_per_block = __adpcm_samples_per_block(block_align);
    let block_count = if sample_count == 0 {
        0
    } else {
        ((sample_count - 1) / samples_per_block) + 1
    };
    proof {
        if sample_count > 0 {
            assert(block_count * block_align <= usize::MAX);
        } else {
            assert(block_count * block_align == 0);
        }
    }
    block_count * block_align
}

/// What the encoder aims at for sample `i`: the sample itself, or, past the
/// end of the clip, the current prediction (so padding codes hold still).
pub open spec fn adpcm_encoder_target(samples: Seq<i16>, i: int, predictor: int) -> int {
    if i < samples.len() {
        samples[i] as int
    } else {
        predictor
    }
}

/// The code the encoder emits for the `code_number`-th code of the block
/// whose header sample is `first`, from the state before it.
pub open spec fn adpcm_encoder_code_from(
    samples: Seq<i16>,
    first: int,
    code_number: int,
    state: (int, int),
) -> int {
    adpcm_encode_code(adpcm_encoder_target(samples, first + code_number, state.0), state.0, state.1)
}

/// The encoder state (predictor, step index) of the block whose header
/// sample is `first`, after `codes` codes.
pub open spec fn adpcm_encoder_state(samples: Seq<i16>, first: int, codes: nat) -> (int, int)
    decreases codes,
{
    if codes == 0 {
        (samples[first] as int, 0)
    } else {
        let previous = adpcm_encoder_state(samples, first, (codes - 1) as nat);
        adpcm_decode_step(
            adpcm_encoder_code_from(samples, first, codes as int, previous),
            previous.0,
            previous.1,
        )
    }
}

/// The `code_number`-th code (from 1) of the block whose header sample is
/// `first`.
pub open spec fn adpcm_encoder_code(samples: Seq<i16>, first: int, code_number: int) -> int {
    adpcm_encoder_code_from(
        samples,
        first,
        code_number,
        adpcm_encoder_state(samples, first, (code_number - 1) as nat),
    )
}

/// Byte `position` of the encoding of `samples` in blocks of `block_align`
/// bytes: each block holds its first sample verbatim (little-endian), a
/// zero step index and a zero reserved byte, then two codes per byte, low
/// nibble first.
pub open spec fn adpcm_encoded_byte(samples: Seq<i16>, block_align: int, position: int) -> int {
    let offset = position % block_align;
    let first = (position / block_align) * adpcm_block_capacity(block_align);
    let bits = sample_bits(samples[first] as int);
    if offset == 0 {
        bits % 256
    } else if offset == 1 {
        bits / 256
    } else if offset < 4 {
        0
    } else {
        adpcm_encoder_code(samples, first, 2 * (offset - 4) + 1) + 16 * adpcm_encoder_code(
            samples,
            first,
            2 * (offset - 4) + 2,
        )
    }
}

proof fn lemma_encoder_state_step(samples: Seq<i16>, first: int, codes: nat)
    ensures
        adpcm_encoder_state(samples, first, codes + 1) == adpcm_decode_step(
            adpcm_encoder_code(samples, first, codes + 1int),
            adpcm_encoder_state(samples, first, codes).0,
            adpcm_encoder_state(samples, first, codes).1,
        ),
{
}

fn encode_sample_into(
    samples: &[i16],
    sample_index: usize,
    predictor_i32: &mut i32,
    step_index_i32: &mut i32,
) -> (code: u8)
    requires
        adpcm_state_ok(*old(predictor_i32) as int, *old(step_index_i32) as int),
    ensures
        code < 16,
        code == adpcm_encode_code(
            adpcm_encoder_target(samples@, sample_index as int, *old(predictor_i32) as int),
            *old(predictor_i32) as int,
            *old(step_index_i32) as int,
        ),
        (*final(predictor_i32) as int, *final(step_index_i32) as int) == adpcm_decode_step(
            code as int,
            *old(predictor_i32) as int,
            *old(step_index_i32) as int,
        ),
        adpcm_state_ok(*final(predictor_i32) as int, *final(step_index_i32) as int),
{
    let target_sample_i32 = if sample_index < samples.len() {
        samples[sample_index] as i32
    } else {
        *predictor_i32
    };
    encode_adpcm_nibble(target_sample_i32, predictor_i32, step_index_i32)
}

impl<const SAMPLE_RATE_HZ: u32, const SAMPLE_COUNT: usize> PcmClip<SAMPLE_RATE_HZ, [i16; SAMPLE_COUNT]> {
    /// Returns the compressed (ADPCM) encoding for this clip, in blocks of
    /// the default size.
    #[must_use]
    pub fn with_adpcm<const DATA_LEN: usize>(&self) -> (adpcm: AdpcmClipBuf<
        SAMPLE_RATE_HZ,
        DATA_LEN,
    >)
        requires
            SAMPLE_RATE_HZ > 0,
            SAMPLE_COUNT <= u32::MAX,
            DATA_LEN == adpcm_data_len(SAMPLE_COUNT as int, ADPCM_ENCODE_BLOCK_ALIGN as int),
            DATA_LEN <= isize::MAX,
        ensures
            adpcm.wf(),
            adpcm.spec_block_align() == ADPCM_ENCODE_BLOCK_ALIGN,
            adpcm.spec_samples_per_block() == adpcm_block_capacity(ADPCM_ENCODE_BLOCK_ALIGN as int),
            adpcm.spec_pcm_sample_count() == SAMPLE_COUNT,
            forall|p: int|
                0 <= p < DATA_LEN ==> #[trigger] adpcm.spec_data()@[p] == adpcm_encoded_byte(
                    self.spec_samples()@,
                    ADPCM_ENCODE_BLOCK_ALIGN as int,
                    p,
                ),
            adpcm_encodes(self.spec_samples()@, adpcm.spec_data()@, ADPCM_ENCODE_BLOCK_ALIGN as int),
    {
        self.with_adpcm_block_align::<DATA_LEN>(ADPCM_ENCODE_BLOCK_ALIGN)
    }

    /// Returns the compressed (ADPCM) encoding for this clip in blocks of
    /// `block_align` bytes.
    #[must_use]
    #[verifier::spinoff_prover]
    #[verifier::rlimit(40)]
    pub(crate) fn with_adpcm_block_align<const DATA_LEN: usize>(
        &self,
        block_align: usize,
    ) -> (adpcm: AdpcmClipBuf<SAMPLE_RATE_HZ, DATA_LEN>)
        requires
            SAMPLE_RATE_HZ > 0,
            SAMPLE_COUNT <= u32::MAX,
            block_align >= 5,
            block_align <= u16::MAX,
            adpcm_block_capacity(block_align as int) <= u16::MAX,
            DATA_LEN == adpcm_data_len(SAMPLE_COUNT as int, block_align as int),
            DATA_LEN <= isize::MAX,
        ensures
            adpcm.wf(),
            adpcm.spec_block_align() == block_align,
            adpcm.spec_samples_per_block() == adpcm_block_capacity(block_align as int),
            adpcm.spec_pcm_sample_count() == SAMPLE_COUNT,
            forall|p: int|
                0 <= p < DATA_LEN ==> #[trigger] adpcm.spec_data()@[p] == adpcm_encoded_byte(
                    self.spec_samples()@,
                    block_align as int,
                    p,
                ),
            adpcm_encodes(self.spec_samples()@, adpcm.spec_data()@, block_align as int),
    {
        proof {
            reveal(adpcm_encodes);
        }
        let samples_per_block = __adpcm_samples_per_block(block_align);
        let ghost capacity = samples_per_block as int;
        let ghost ba = block_align as int;
        let ghost samples = self.samples@;
        if SAMPLE_COUNT == 0 {
            return AdpcmClip::new(
                block_align as u16,
                samples_per_block as u16,
                SAMPLE_COUNT,
                [0; DATA_LEN],
            );
        }
        let ghost block_count = (SAMPLE_COUNT - 1) / capacity + 1;
        proof {
            vstd::arithmetic::div_mod::lemma_fundamental_div_mod(SAMPLE_COUNT - 1, capacity);
            assert(SAMPLE_COUNT <= block_count * capacity) by (nonlinear_arith)
                requires
                    SAMPLE_COUNT - 1 == capacity * ((SAMPLE_COUNT - 1) / capacity) + (SAMPLE_COUNT
                        - 1) % capacity,
                    (SAMPLE_COUNT - 1) % capacity < capacity,
                    block_count == (SAMPLE_COUNT - 1) / capacity + 1,
            ;
            assert(block_count * capacity < usize::MAX) by (nonlinear_arith)
                requires
                    DATA_LEN == block_count * ba,
                    DATA_LEN <= isize::MAX,
                    capacity == 2 * (ba - 4) + 1,
                    ba >= 5,
                    block_count >= 1,
            ;
        }

        let samples_slice = self.samples.as_slice();
        proof {
            assert(samples_slice@ == samples);
        }
        let mut adpcm_data = [0_u8; DATA_LEN];
        let mut sample_index = 0usize;
        let mut data_index = 0usize;
        let payload_len_per_block = block_align - 4;
        let ghost mut block: int = 0;

        while sample_index < SAMPLE_COUNT
            invariant
                samples_slice@ == samples,
                samples == self.samples@,
                samples.len() == SAMPLE_COUNT,
                ba == block_align,
                block_align >= 5,
                capacity == adpcm_block_capacity(ba),
                payload_len_per_block == ba - 4,
                block_count == (SAMPLE_COUNT - 1) / capacity + 1,
                DATA_LEN == block_count * ba,
                SAMPLE_COUNT <= block_count * capacity,
                block_count * capacity < usize::MAX,
                0 <= block <= block_count,
                block == 0 || (block - 1) * capacity < SAMPLE_COUNT,
                sample_index == block * capacity,
                data_index == block * ba,
                forall|p: int|
                    0 <= p < data_index ==> #[trigger] adpcm_data@[p] == adpcm_encoded_byte(
                        samples,
                        ba,
                        p,
                    ),
            decreases block_count - block,
        {
            proof {
                assert(block < block_count) by (nonlinear_arith)
                    requires
                        block * capacity < SAMPLE_COUNT,
                        SAMPLE_COUNT <= block_count * capacity,
                        capacity > 0,
                ;
                assert(data_index + ba <= DATA_LEN) by (nonlinear_arith)
                    requires
                        block + 1 <= block_count,
                        DATA_LEN == block_count * ba,
                        data_index == block * ba,
                        ba > 0,
                ;
                assert(sample_index + capacity <= block_count * capacity) by (nonlinear_arith)
                    requires
                        block + 1 <= block_count,
                        sample_index == block * capacity,
                        capacity > 0,
                ;
            }
            let ghost first = sample_index as int;
            let ghost block_start = data_index as int;
            let mut predictor_i32 = self.samples[sample_index] as i32;
            let mut step_index_i32 = 0_i32;

            let predictor_bits = self.samples[sample_index] as u16;
            let low_byte = (predictor_bits & 0xff) as u8;
            let high_byte = (predictor_bits >> 8) as u8;
            proof {
                lemma_sample_bits(self.samples[sample_index as int]);
                crate::bits::lemma_u16_to_le_bytes(predictor_bits);
            }
            proof {
                vstd::arithmetic::div_mod::lemma_fundamental_div_mod_converse(block_start, ba, block, 0);
                vstd::arithmetic::div_mod::lemma_fundamental_div_mod_converse(block_start + 1, ba, block, 1);
                vstd::arithmetic::div_mod::lemma_fundamental_div_mod_converse(block_start + 2, ba, block, 2);
                vstd::arithmetic::div_mod::lemma_fundamental_div_mod_converse(block_start + 3, ba, block, 3);
            }
            adpcm_data[data_index] = low_byte;
            adpcm_data[data_index + 1] = high_byte;
            adpcm_data[data_index + 2] = 0;
            adpcm_data[data_index + 3] = 0;
            data_index += 4;
            sample_index += 1;

            let mut payload_byte_index = 0usize;
            while payload_byte_index < payload_len_per_block
                invariant
                    samples_slice@ == samples,
                    samples.len() == SAMPLE_COUNT,
                    ba == block_align,
                    block_align >= 5,
                    capacity == adpcm_block_capacity(ba),
                    payload_len_per_block == ba - 4,
                    DATA_LEN == block_count * ba,
                    0 <= block < block_count,
                    first == block * capacity,
                    first < SAMPLE_COUNT,
                    first + capacity <= block_count * capacity,
                    block_count * capacity < usize::MAX,
                    block_start == block * ba,
                    block_start + ba <= DATA_LEN,
                    payload_byte_index <= payload_len_per_block,
                    data_index == block_start + 4 + payload_byte_index,
                    sample_index == first + 1 + 2 * payload_byte_index,
                    (predictor_i32 as int, step_index_i32 as int) == adpcm_encoder_state(
                        samples,
                        first,
                        (2 * payload_byte_index) as nat,
                    ),
                    adpcm_state_ok(predictor_i32 as int, step_index_i32 as int),
                    forall|p: int|
                        0 <= p < data_index ==> #[trigger] adpcm_data@[p] == adpcm_encoded_byte(
                            samples,
                            ba,
                            p,
                        ),
                decreases payload_len_per_block - payload_byte_index,
            {
                let ghost pair = payload_byte_index as int;
                let low_code = encode_sample_into(
                    samples_slice,
                    sample_index,
                    &mut predictor_i32,
                    &mut step_index_i32,
                );
                proof {
                    lemma_encoder_state_step(samples, first, (2 * pair) as nat);
                }
                sample_index += 1;
                let high_code = encode_sample_into(
                    samples_slice,
                    sample_index,
                    &mut predictor_i32,
                    &mut step_index_i32,
                );
                proof {
                    lemma_encoder_state_step(samples, first, (2 * pair + 1) as nat);
                }
                sample_index += 1;
                let adpcm_byte = low_code | (high_code << 4);
                proof {
                    crate::bits::lemma_pack_nibbles(low_code, high_code);
                }
                proof {
                    vstd::arithmetic::div_mod::lemma_fundamental_div_mod_converse(
                        data_index as int,
                        ba,
                        block,
                        4 + pair,
                    );
                }
                adpcm_data[data_index] = adpcm_byte;
                data_index += 1;
                payload_byte_index += 1;
            }

            proof {
                assert(data_index == (block + 1) * ba && sample_index == (block + 1) * capacity)
                    by (nonlinear_arith)
                    requires
                        data_index == block * ba + 4 + (ba - 4),
                        sample_index == block * capacity + 1 + 2 * (ba - 4),
                        capacity == 2 * (ba - 4) + 1,
                ;
                block = block + 1;
            }
        }
        proof {
            assert(block == block_count) by (nonlinear_arith)
                requires
                    block * capacity >= SAMPLE_COUNT,
                    block == 0 || (block - 1) * capacity < SAMPLE_COUNT,
                    SAMPLE_COUNT > 0,
                    SAMPLE_COUNT <= block_count * capacity,
                    block_count == (SAMPLE_COUNT - 1) / capacity + 1,
                    capacity > 0,
            ;
            assert(SAMPLE_COUNT <= (DATA_LEN as int / ba) * capacity) by (nonlinear_arith)
                requires
                    DATA_LEN == block_count * ba,
                    ba > 0,
                    SAMPLE_COUNT <= block_count * capacity,
            ;
            vstd::arithmetic::div_mod::lemma_mod_multiples_basic(block_count, ba);
        }
        AdpcmClip::new(block_align as u16, samples_per_block as u16, SAMPLE_COUNT, adpcm_data)
    }
}


/// `data` is the block encoding of `samples` that the encoder writes.
#[verifier::opaque]
pub open spec fn adpcm_encodes(samples: Seq<i16>, data: Seq<u8>, block_align: int) -> bool {
    &&& data.len() == adpcm_data_len(samples.len() as int, block_align)
    &&& forall|p: int|
        0 <= p < data.len() ==> #[trigger] data[p] == adpcm_encoded_byte(samples, block_align, p)
}

proof fn lemma_encode_code_range(target: int, predictor: int, step_index: int)
    ensures
        0 <= adpcm_encode_code(target, predictor, step_index) < 16,
{
}

proof fn lemma_encoded_header(samples: Seq<i16>, data: Seq<u8>, block_align: int, block: int)
    requires
        block_align >= 5,
        adpcm_encodes(samples, data, block_align),
        0 <= block,
        (block + 1) * block_align <= data.len(),
        block * adpcm_block_capacity(block_align) < samples.len(),
    ensures
        adpcm_block_state(data, block * block_align, 1) == adpcm_encoder_state(
            samples,
            block * adpcm_block_capacity(block_align),
            0,
        ),
{
    reveal(adpcm_encodes);
    let ba = block_align;
    let start = block * ba;
    let first = block * adpcm_block_capacity(ba);
    assert(start + 2 < data.len()) by (nonlinear_arith)
        requires
            (block + 1) * ba <= data.len(),
            start == block * ba,
            ba >= 5,
    ;
    vstd::arithmetic::div_mod::lemma_fundamental_div_mod_converse(start, ba, block, 0);
    vstd::arithmetic::div_mod::lemma_fundamental_div_mod_converse(start + 1, ba, block, 1);
    vstd::arithmetic::div_mod::lemma_fundamental_div_mod_converse(start + 2, ba, block, 2);
    let bits = sample_bits(samples[first] as int);
    assert(data[start] == bits % 256);
    assert(data[start + 1] == bits / 256);
    assert(data[start + 2] == 0);
    assert(le_u16(data[start], data[start + 1]) == bits);
}

#[verifier::spinoff_prover]
proof fn lemma_encoded_payload(
    samples: Seq<i16>,
    data: Seq<u8>,
    block_align: int,
    block: int,
    offset: int,
)
    requires
        block_align >= 5,
        adpcm_encodes(samples, data, block_align),
        0 <= block,
        (block + 1) * block_align <= data.len(),
        4 <= offset < block_align,
    ensures
        ({
            let first = block * adpcm_block_capacity(block_align);
            let low = adpcm_encoder_code(samples, first, 2 * (offset - 4) + 1);
            let high = adpcm_encoder_code(samples, first, 2 * (offset - 4) + 2);
            &&& data[block * block_align + offset] == low + 16 * high
            &&& 0 <= low < 16
            &&& 0 <= high < 16
        }),
{
    reveal(adpcm_encodes);
    let ba = block_align;
    let start = block * ba;
    let first = block * adpcm_block_capacity(ba);
    assert(start + offset < data.len()) by (nonlinear_arith)
        requires
            (block + 1) * ba <= data.len(),
            start == block * ba,
            0 <= offset < ba,
    ;
    vstd::arithmetic::div_mod::lemma_fundamental_div_mod_converse(start + offset, ba, block, offset);
    assert(data[start + offset] == adpcm_encoded_byte(samples, ba, start + offset));
    let before_low = adpcm_encoder_state(samples, first, (2 * (offset - 4)) as nat);
    let before_high = adpcm_encoder_state(samples, first, (2 * (offset - 4) + 1) as nat);
    lemma_encode_code_range(
        adpcm_encoder_target(samples, first + 2 * (offset - 4) + 1, before_low.0),
        before_low.0,
        before_low.1,
    );
    lemma_encode_code_range(
        adpcm_encoder_target(samples, first + 2 * (offset - 4) + 2, before_high.0),
        before_high.0,
        before_high.1,
    );
}

#[verifier::spinoff_prover]
#[verifier::rlimit(40)]
proof fn lemma_block_tracks_encoder(
    samples: Seq<i16>,
    data: Seq<u8>,
    block_align: int,
    block: int,
    codes: nat,
)
    requires
        block_align >= 5,
        adpcm_encodes(samples, data, block_align),
        0 <= block,
        (block + 1) * block_align <= data.len(),
        block * adpcm_block_capacity(block_align) < samples.len(),
        codes < adpcm_block_capacity(block_align),
    ensures
        adpcm_block_state(data, block * block_align, codes + 1) == adpcm_encoder_state(
            samples,
            block * adpcm_block_capacity(block_align),
            codes,
        ),
    decreases codes,
{
    let ba = block_align;
    let start = block * ba;
    let first = block * adpcm_block_capacity(ba);
    if codes == 0 {
        lemma_encoded_header(samples, data, ba, block);
    } else {
        lemma_block_tracks_encoder(samples, data, ba, block, (codes - 1) as nat);
        lemma_block_state_step(data, start, codes);
        lemma_encoder_state_step(samples, first, (codes - 1) as nat);
        let k = codes - 1;
        let offset = 4 + k / 2;
        lemma_encoded_payload(samples, data, ba, block, offset);
        let low = adpcm_encoder_code(samples, first, 2 * (offset - 4) + 1);
        let high = adpcm_encoder_code(samples, first, 2 * (offset - 4) + 2);
        let byte = data[start + offset] as int;
        assert(byte % 16 == low && byte / 16 == high) by (nonlinear_arith)
            requires
                byte == low + 16 * high,
                0 <= low < 16,
                0 <= high < 16,
        ;
        assert(data[start + 4 + k / 2] as int == byte);
        if k % 2 == 0 {
            assert(2 * (offset - 4) + 1 == codes);
            assert(adpcm_nibble_at(data, start, k) == low);
        } else {
            assert(2 * (offset - 4) + 2 == codes);
            assert(adpcm_nibble_at(data, start, k) == high);
        }
        assert(adpcm_nibble_at(data, start, k) == adpcm_encoder_code(samples, first, codes as int));
    }
}

/// Encoder and decoder stay in lockstep: decoding the bytes the encoder
/// writes for `samples` gives back, at every sample, exactly the
/// reconstruction the encoder tracked while choosing its codes, and the first
/// sample of every block verbatim. Every header the decoder reaches is
/// valid, so the bytes can always be decoded.
pub proof fn law_adpcm_decode_tracks_encoder(
    samples: Seq<i16>,
    data: Seq<u8>,
    block_align: int,
    i: int,
)
    requires
        block_align >= 5,
        adpcm_encodes(samples, data, block_align),
        0 <= i < samples.len(),
    ensures
        adpcm_decoded_sample(data, block_align, adpcm_block_capacity(block_align), i)
            == adpcm_encoder_state(
            samples,
            (i / adpcm_block_capacity(block_align)) * adpcm_block_capacity(block_align),
            (i % adpcm_block_capacity(block_align)) as nat,
        ).0,
        i % adpcm_block_capacity(block_align) == 0 ==> adpcm_decoded_sample(
            data,
            block_align,
            adpcm_block_capacity(block_align),
            i,
        ) == samples[i],
        adpcm_headers_ok(
            data,
            block_align,
            adpcm_block_capacity(block_align),
            samples.len() as int,
        ),
{
    reveal(adpcm_encodes);
    let ba = block_align;
    let capacity = adpcm_block_capacity(ba);
    let block = i / capacity;
    let block_count = (samples.len() - 1) / capacity + 1;
    vstd::arithmetic::div_mod::lemma_fundamental_div_mod(i, capacity);
    assert(block <= (samples.len() - 1) / capacity) by {
        vstd::arithmetic::div_mod::lemma_div_is_ordered(i, samples.len() - 1, capacity);
    }
    assert((block + 1) * ba <= data.len()) by (nonlinear_arith)
        requires
            block + 1 <= block_count,
            data.len() == block_count * ba,
            ba > 0,
    ;
    assert(block * capacity <= i) by (nonlinear_arith)
        requires
            i == capacity * block + i % capacity,
            i % capacity >= 0,
    ;
    lemma_block_tracks_encoder(samples, data, ba, block, (i % capacity) as nat);
    assert forall|b: int|
        0 <= b && (b + 1) * ba <= data.len() && b * adpcm_samples_in_block(ba, capacity)
            < samples.len() implies #[trigger] data[b * ba + 2] <= 88 by {
        assert(b * ba + 2 < data.len()) by (nonlinear_arith)
            requires
                (b + 1) * ba <= data.len(),
                ba >= 5,
        ;
        vstd::arithmetic::div_mod::lemma_fundamental_div_mod_converse(b * ba + 2, ba, b, 2);
    }
}


// ---------------------------------------------------------------------------
// ADPCM WAV header parsing
// ---------------------------------------------------------------------------

/// Parsed ADPCM WAV metadata.
#[derive(Clone, Copy, Debug, PartialEq, Eq)]
pub struct ParsedAdpcmWavHeader {
    /// WAV sample rate.
    pub sample_rate_hz: u32,
    /// ADPCM block size in bytes.
    pub block_align: usize,
    /// Decoded samples per ADPCM block.
    pub samples_per_block: usize,
    /// Byte offset of the `data` chunk payload.
    pub data_chunk_start: usize,
    /// Byte length of the `data` chunk payload.
    pub data_chunk_len: usize,
    /// Total decoded sample count from all ADPCM blocks.
    pub sample_count: usize,
}

/// Why a byte string is not a mono 4-bit IMA ADPCM WAV file.
#[derive(Clone, Copy, Debug, PartialEq, Eq)]
pub enum WavHeaderError {
    /// Fewer than 12 bytes.
    TooSmall,
    /// The file does not start with `RIFF`.
    MissingRiff,
    /// Bytes 8..12 are not `WAVE`.
    MissingWave,
    /// A chunk's declared size runs past the end of the file.
    ChunkOverrun,
    /// The `fmt ` chunk is shorter than 16 bytes.
    FmtTooSmall,
    /// The audio format is not IMA ADPCM (0x0011).
    NotAdpcm,
    /// The file has more or fewer than one channel.
    NotMono,
    /// The samples are not 4 bits wide.
    NotFourBit,
    /// `block_align` is below 5 bytes.
    BlockAlignTooSmall,
    /// The declared samples per block disagree with `block_align`.
    UnexpectedSamplesPerBlock,
    /// Advancing to the next chunk would overflow.
    TraversalOverflow,
    /// No `fmt ` chunk.
    MissingFmt,
    /// No `data` chunk.
    MissingData,
    /// The `data` chunk is not a whole number of blocks.
    DataNotBlockAligned,
}

/// What the chunk walk has gathered so far.
#[derive(Clone, Copy)]
pub struct WavChunkScan {
    pub sample_rate_hz: u32,
    pub block_align: usize,
    pub samples_per_block: usize,
    pub fmt_found: bool,
    pub data_chunk_start: usize,
    pub data_chunk_end: usize,
    pub data_found: bool,
}

/// The four bytes at `offset` spell `tag`.
pub open spec fn wav_tag_at(bytes: Seq<u8>, offset: int, tag: Seq<u8>) -> bool {
    &&& 0 <= offset
    &&& offset + 4 <= bytes.len()
    &&& bytes.subrange(offset, offset + 4) == tag
}

pub open spec fn le_u16_at(bytes: Seq<u8>, offset: int) -> int {
    le_u16(bytes[offset], bytes[offset + 1])
}

pub open spec fn le_u32_at(bytes: Seq<u8>, offset: int) -> int {
    le_u32(bytes[offset], bytes[offset + 1], bytes[offset + 2], bytes[offset + 3])
}

/// The effect of one `fmt ` chunk whose payload starts at `start` and holds
/// `size` bytes: its fields are validated and recorded.
pub open spec fn wav_fmt_chunk(bytes: Seq<u8>, start: int, size: int, scan: WavChunkScan) -> Result<
    WavChunkScan,
    WavHeaderError,
> {
    let audio_format = le_u16_at(bytes, start);
    let channels = le_u16_at(bytes, start + 2);
    let sample_rate_hz = le_u32_at(bytes, start + 4);
    let block_align = le_u16_at(bytes, start + 12);
    let bits_per_sample = le_u16_at(bytes, start + 14);
    let derived = adpcm_block_capacity(block_align);
    let samples_per_block = if size >= 22 {
        le_u16_at(bytes, start + 18)
    } else {
        derived
    };
    if size < 16 {
        Err(WavHeaderError::FmtTooSmall)
    } else if audio_format != 0x0011 {
        Err(WavHeaderError::NotAdpcm)
    } else if channels != 1 {
        Err(WavHeaderError::NotMono)
    } else if bits_per_sample != 4 {
        Err(WavHeaderError::NotFourBit)
    } else if block_align < 5 {
        Err(WavHeaderError::BlockAlignTooSmall)
    } else if samples_per_block != derived {
        Err(WavHeaderError::UnexpectedSamplesPerBlock)
    } else {
        Ok(
            WavChunkScan {
                sample_rate_hz: sample_rate_hz as u32,
                block_align: block_align as usize,
                samples_per_block: samples_per_block as usize,
                fmt_found: true,
                ..scan
            },
        )
    }
}

/// The chunk walk from `offset` on: each chunk is an 8-byte header (tag,
/// little-endian size) and a payload padded to an even length; `fmt ` and
/// `data` chunks are recorded (a later one replaces an earlier one) and the
/// rest are skipped. The walk stops when fewer than 8 bytes remain.
pub open spec fn wav_walk(bytes: Seq<u8>, offset: int, scan: WavChunkScan) -> Result<
    WavChunkScan,
    WavHeaderError,
>
    decreases bytes.len() + 1 - offset,
{
    if offset < 0 || offset + 8 > bytes.len() {
        Ok(scan)
    } else {
        let size = le_u32_at(bytes, offset + 4);
        let start = offset + 8;
        if size > bytes.len() - start {
            Err(WavHeaderError::ChunkOverrun)
        } else {
            let recorded = if wav_tag_at(bytes, offset, seq![0x66u8, 0x6d, 0x74, 0x20]) {
                wav_fmt_chunk(bytes, start, size, scan)
            } else if wav_tag_at(bytes, offset, seq![0x64u8, 0x61, 0x74, 0x61]) {
                Ok(
                    WavChunkScan {
                        data_chunk_start: start as usize,
                        data_chunk_end: (start + size) as usize,
                        data_found: true,
                        ..scan
                    },
                )
            } else {
                Ok(scan)
            };
            let padded = size + size % 2;
            match recorded {
                Err(e) => Err(e),
                Ok(next_scan) => if start > usize::MAX - padded {
                    Err(WavHeaderError::TraversalOverflow)
                } else {
                    wav_walk(bytes, start + padded, next_scan)
                },
            }
        }
    }
}

/// The chunk walk's state before any chunk.
pub open spec fn wav_initial_scan() -> WavChunkScan {
    WavChunkScan {
        sample_rate_hz: 0,
        block_align: 0,
        samples_per_block: 0,
        fmt_found: false,
        data_chunk_start: 0,
        data_chunk_end: 0,
        data_found: false,
    }
}

/// The result of parsing `bytes` as a mono 4-bit IMA ADPCM WAV file.
pub open spec fn parse_adpcm_wav(bytes: Seq<u8>) -> Result<ParsedAdpcmWavHeader, WavHeaderError> {
    if bytes.len() < 12 {
        Err(WavHeaderError::TooSmall)
    } else if !wav_tag_at(bytes, 0, seq![0x52u8, 0x49, 0x46, 0x46]) {
        Err(WavHeaderError::MissingRiff)
    } else if !wav_tag_at(bytes, 8, seq![0x57u8, 0x41, 0x56, 0x45]) {
        Err(WavHeaderError::MissingWave)
    } else {
        match wav_walk(bytes, 12, wav_initial_scan()) {
            Err(e) => Err(e),
            Ok(scan) => if !scan.fmt_found {
                Err(WavHeaderError::MissingFmt)
            } else if !scan.data_found {
                Err(WavHeaderError::MissingData)
            } else if (scan.data_chunk_end - scan.data_chunk_start) % (scan.block_align as int)
                != 0 {
                Err(WavHeaderError::DataNotBlockAligned)
            } else {
                let data_chunk_len = scan.data_chunk_end - scan.data_chunk_start;
                Ok(
                    ParsedAdpcmWavHeader {
                        sample_rate_hz: scan.sample_rate_hz,
                        block_align: scan.block_align,
                        samples_per_block: scan.samples_per_block,
                        data_chunk_start: scan.data_chunk_start,
                        data_chunk_len: data_chunk_len as usize,
                        sample_count: ((data_chunk_len / (scan.block_align as int))
                            * scan.samples_per_block) as usize,
                    },
                )
            },
        }
    }
}

fn wav_tag_eq(wav_bytes: &[u8], byte_offset: usize, tag_bytes: [u8; 4]) -> (equal: bool)
    requires
        wav_bytes@.len() >= 4,
    ensures
        equal == wav_tag_at(wav_bytes@, byte_offset as int, tag_bytes@),
{
    if byte_offset > wav_bytes.len() - 4 {
        return false;
    }
    let equal = wav_bytes[byte_offset] == tag_bytes[0] && wav_bytes[byte_offset + 1]
        == tag_bytes[1] && wav_bytes[byte_offset + 2] == tag_bytes[2] && wav_bytes[byte_offset
        + 3] == tag_bytes[3];
    proof {
        let window = wav_bytes@.subrange(byte_offset as int, byte_offset + 4);
        if equal {
            assert(window =~= tag_bytes@);
        } else {
            if window == tag_bytes@ {
                assert(window[0] == tag_bytes@[0] && window[1] == tag_bytes@[1] && window[2]
                    == tag_bytes@[2] && window[3] == tag_bytes@[3]);
            }
        }
    }
    equal
}


/// Parses the metadata of a mono 4-bit IMA ADPCM WAV file, or says why the
/// bytes are not one.
pub fn parse_adpcm_wav_header(wav_bytes: &[u8]) -> (parsed: Result<ParsedAdpcmWavHeader, WavHeaderError>)
    requires
        wav_bytes@.len() <= isize::MAX,
    ensures
        parsed == parse_adpcm_wav(wav_bytes@),
{
    let ghost bytes = wav_bytes@;
    if wav_bytes.len() < 12 {
        return Err(WavHeaderError::TooSmall);
    }
    if !wav_tag_eq(wav_bytes, 0, [0x52u8, 0x49, 0x46, 0x46]) {
        return Err(WavHeaderError::MissingRiff);
    }
    if !wav_tag_eq(wav_bytes, 8, [0x57u8, 0x41, 0x56, 0x45]) {
        return Err(WavHeaderError::MissingWave);
    }
    proof {
        assert([0x52u8, 0x49, 0x46, 0x46]@ =~= seq![0x52u8, 0x49, 0x46, 0x46]);
        assert([0x57u8, 0x41, 0x56, 0x45]@ =~= seq![0x57u8, 0x41, 0x56, 0x45]);
    }

    let mut chunk_offset = 12usize;
    let mut scan = WavChunkScan {
        sample_rate_hz: 0,
        block_align: 0,
        samples_per_block: 0,
        fmt_found: false,
        data_chunk_start: 0,
        data_chunk_end: 0,
        data_found: false,
    };

    while chunk_offset + 8 <= wav_bytes.len()
        invariant
            bytes == wav_bytes@,
            bytes.len() <= isize::MAX,
            bytes.len() >= 12,
            12 <= chunk_offset <= bytes.len() + 1,
            wav_walk(bytes, 12, wav_initial_scan()) == wav_walk(bytes, chunk_offset as int, scan),
            wav_tag_at(bytes, 0, seq![0x52u8, 0x49, 0x46, 0x46]),
            wav_tag_at(bytes, 8, seq![0x57u8, 0x41, 0x56, 0x45]),
            scan.fmt_found ==> scan.block_align >= 5 && scan.block_align <= u16::MAX
                && scan.samples_per_block == adpcm_block_capacity(scan.block_align as int),
            scan.data_found ==> scan.data_chunk_start <= scan.data_chunk_end <= bytes.len(),
        decreases bytes.len() + 1 - chunk_offset,
    {
        let chunk_size = read_u32_le_const(wav_bytes, chunk_offset + 4) as usize;
        let chunk_data_start = chunk_offset + 8;
        if chunk_size > wav_bytes.len() - chunk_data_start {
            return Err(WavHeaderError::ChunkOverrun);
        }
        let chunk_data_end = chunk_data_start + chunk_size;

        if wav_tag_eq(wav_bytes, chunk_offset, [0x66u8, 0x6d, 0x74, 0x20]) {
            proof {
                assert([0x66u8, 0x6d, 0x74, 0x20]@ =~= seq![0x66u8, 0x6d, 0x74, 0x20]);
            }
            if chunk_size < 16 {
                return Err(WavHeaderError::FmtTooSmall);
            }
            let audio_format = read_u16_le_const(wav_bytes, chunk_data_start);
            let channels = read_u16_le_const(wav_bytes, chunk_data_start + 2);
            let sample_rate_hz = read_u32_le_const(wav_bytes, chunk_data_start + 4);
            let block_align = read_u16_le_const(wav_bytes, chunk_data_start + 12) as usize;
            let bits_per_sample = read_u16_le_const(wav_bytes, chunk_data_start + 14);

            if audio_format != 0x0011 {
                return Err(WavHeaderError::NotAdpcm);
            }
            if channels != 1 {
                return Err(WavHeaderError::NotMono);
            }
            if bits_per_sample != 4 {
                return Err(WavHeaderError::NotFourBit);
            }
            if block_align < 5 {
                return Err(WavHeaderError::BlockAlignTooSmall);
            }

            let derived_samples_per_block = derive_samples_per_block_const(block_align);
            let samples_per_block = if chunk_size >= 22 {
                read_u16_le_const(wav_bytes, chunk_data_start + 18) as usize
            } else {
                derived_samples_per_block
            };
            if samples_per_block != derived_samples_per_block {
                return Err(WavHeaderError::UnexpectedSamplesPerBlock);
            }
            scan = WavChunkScan {
                sample_rate_hz,
                block_align,
                samples_per_block,
                fmt_found: true,
                ..scan
            };
        } else if wav_tag_eq(wav_bytes, chunk_offset, [0x64u8, 0x61, 0x74, 0x61]) {
            proof {
                assert([0x64u8, 0x61, 0x74, 0x61]@ =~= seq![0x64u8, 0x61, 0x74, 0x61]);
                assert([0x66u8, 0x6d, 0x74, 0x20]@ =~= seq![0x66u8, 0x6d, 0x74, 0x20]);
            }
            scan = WavChunkScan {
                data_chunk_start: chunk_data_start,
                data_chunk_end: chunk_data_end,
                data_found: true,
                ..scan
            };
        } else {
            proof {
                assert([0x64u8, 0x61, 0x74, 0x61]@ =~= seq![0x64u8, 0x61, 0x74, 0x61]);
                assert([0x66u8, 0x6d, 0x74, 0x20]@ =~= seq![0x66u8, 0x6d, 0x74, 0x20]);
            }
        }

        assert((chunk_size & 1) == chunk_size % 2) by (bit_vector);
        let padded_chunk_size = chunk_size + (chunk_size & 1);
        if chunk_data_start > usize::MAX - padded_chunk_size {
            return Err(WavHeaderError::TraversalOverflow);
        }
        chunk_offset = chunk_data_start + padded_chunk_size;
    }

    if !scan.fmt_found {
        return Err(WavHeaderError::MissingFmt);
    }
    if !scan.data_found {
        return Err(WavHeaderError::MissingData);
    }
    let data_chunk_len = scan.data_chunk_end - scan.data_chunk_start;
    if data_chunk_len % scan.block_align != 0 {
        return Err(WavHeaderError::DataNotBlockAligned);
    }
    proof {
        assert((data_chunk_len as int / scan.block_align as int) * scan.samples_per_block
            <= data_chunk_len as int * 2) by (nonlinear_arith)
            requires
                scan.block_align >= 5,
                scan.samples_per_block == 2 * (scan.block_align - 4) + 1,
                data_chunk_len >= 0,
        ;
    }
    Ok(
        ParsedAdpcmWavHeader {
            sample_rate_hz: scan.sample_rate_hz,
            block_align: scan.block_align,
            samples_per_block: scan.samples_per_block,
            data_chunk_start: scan.data_chunk_start,
            data_chunk_len,
            sample_count: (data_chunk_len / scan.block_align) * scan.samples_per_block,
        },
    )
}

/// Parses ADPCM WAV header metadata; the bytes must be a valid mono 4-bit
/// IMA ADPCM WAV file.
#[must_use]
pub fn __parse_adpcm_wav_header(wav_bytes: &[u8]) -> (parsed: ParsedAdpcmWavHeader)
    requires
        wav_bytes@.len() <= isize::MAX,
        parse_adpcm_wav(wav_bytes@) is Ok,
    ensures
        parse_adpcm_wav(wav_bytes@) == Ok::<ParsedAdpcmWavHeader, WavHeaderError>(parsed),
{
    match parse_adpcm_wav_header(wav_bytes) {
        Ok(parsed) => parsed,
        Err(_) => {
            proof {
                assert(false);
            }
            ParsedAdpcmWavHeader {
                sample_rate_hz: 0,
                block_align: 0,
                samples_per_block: 0,
                data_chunk_start: 0,
                data_chunk_len: 0,
                sample_count: 0,
            }
        },
    }
}


// ---------------------------------------------------------------------------
// Gain on ADPCM clips
// ---------------------------------------------------------------------------

/// Every block header of `data` holds a step index within the table.
pub open spec fn adpcm_all_headers_ok(data: Seq<u8>, block_align: int) -> bool {
    forall|block: int|
        0 <= block && (block + 1) * block_align <= data.len() ==> #[trigger] data[block
            * block_align + 2] <= 88
}

/// The code the re-encoder emits for the `code_number`-th code (from 1) of
/// the block at `block_start`: it aims at the source's decoded sample,
/// scaled by `linear`, from the re-encoder state before it.
pub open spec fn adpcm_gain_code_from(
    data: Seq<u8>,
    block_start: int,
    linear: int,
    code_number: int,
    state: (int, int),
) -> int {
    adpcm_encode_code(
        scaled_sample(adpcm_block_state(data, block_start, (code_number + 1) as nat).0, linear),
        state.0,
        state.1,
    )
}

/// The re-encoder state of the block at `block_start` after `codes` codes:
/// it starts from the scaled header sample and the source's step index.
pub open spec fn adpcm_gain_state(data: Seq<u8>, block_start: int, linear: int, codes: nat) -> (
    int,
    int,
)
    decreases codes,
{
    if codes == 0 {
        (
            scaled_sample(le_i16(data[block_start], data[block_start + 1]), linear),
            data[block_start + 2] as int,
        )
    } else {
        let previous = adpcm_gain_state(data, block_start, linear, (codes - 1) as nat);
        adpcm_decode_step(
            adpcm_gain_code_from(data, block_start, linear, codes as int, previous),
            previous.0,
            previous.1,
        )
    }
}

/// The `code_number`-th re-encoded code (from 1) of the block at
/// `block_start`.
pub open spec fn adpcm_gain_code(data: Seq<u8>, block_start: int, linear: int, code_number: int) -> int {
    adpcm_gain_code_from(
        data,
        block_start,
        linear,
        code_number,
        adpcm_gain_state(data, block_start, linear, (code_number - 1) as nat),
    )
}

/// Byte `position` of an ADPCM stream after gain: each block is decoded,
/// every decoded sample scaled by `linear`, and the block re-encoded from the
/// scaled header sample and the original step index; nibbles past the
/// declared samples per block are zero.
pub open spec fn adpcm_gained_byte(
    data: Seq<u8>,
    block_align: int,
    samples_per_block: int,
    linear: int,
    position: int,
) -> int {
    let offset = position % block_align;
    let block_start = (position / block_align) * block_align;
    let first = scaled_sample(le_i16(data[block_start], data[block_start + 1]), linear);
    if offset == 0 {
        sample_bits(first) % 256
    } else if offset == 1 {
        sample_bits(first) / 256
    } else if offset == 2 {
        data[block_start + 2] as int
    } else if offset == 3 {
        0
    } else {
        let low_number = 2 * (offset - 4) + 1;
        let low = if low_number < samples_per_block {
            adpcm_gain_code(data, block_start, linear, low_number)
        } else {
            0
        };
        let high = if low_number + 1 < samples_per_block {
            adpcm_gain_code(data, block_start, linear, low_number + 1)
        } else {
            0
        };
        low + 16 * high
    }
}

proof fn lemma_gain_state_step(data: Seq<u8>, block_start: int, linear: int, codes: nat)
    ensures
        adpcm_gain_state(data, block_start, linear, codes + 1) == adpcm_decode_step(
            adpcm_gain_code(data, block_start, linear, codes + 1int),
            adpcm_gain_state(data, block_start, linear, codes).0,
            adpcm_gain_state(data, block_start, linear, codes).1,
        ),
{
}

impl<const SAMPLE_RATE_HZ: u32, const DATA_LEN: usize> AdpcmClip<SAMPLE_RATE_HZ, [u8; DATA_LEN]> {
    /// Returns this fixed-size ADPCM clip with linear sample gain applied:
    /// each block is decoded to PCM, scaled, and re-encoded. The extra encode
    /// pass can be more lossy than applying gain once on PCM before a single
    /// encode.
    #[must_use]
    #[verifier::spinoff_prover]
    #[verifier::rlimit(60)]
    pub fn with_gain(self, gain: Gain) -> (gained: Self)
        requires
            self.wf(),
            self.spec_samples_per_block() <= adpcm_block_capacity(self.spec_block_align()),
            adpcm_all_headers_ok(self.spec_data()@, self.spec_block_align()),
        ensures
            gained.wf(),
            gained.spec_block_align() == self.spec_block_align(),
            gained.spec_samples_per_block() == self.spec_samples_per_block(),
            gained.spec_pcm_sample_count() == self.spec_pcm_sample_count(),
            forall|p: int|
                0 <= p < DATA_LEN ==> #[trigger] gained.spec_data()@[p] == adpcm_gained_byte(
                    self.spec_data()@,
                    self.spec_block_align(),
                    self.spec_samples_per_block(),
                    gain.spec_linear(),
                    p,
                ),
    {
        let block_align = self.block_align as usize;
        let samples_per_block = self.samples_per_block as usize;
        let linear = gain.linear();
        let ghost data = self.data@;
        let ghost ba = block_align as int;
        let ghost spb = samples_per_block as int;
        let ghost lin = linear as int;
        let ghost block_count = DATA_LEN as int / ba;
        proof {
            vstd::arithmetic::div_mod::lemma_fundamental_div_mod(DATA_LEN as int, ba);
        }
        let data_slice = self.data.as_slice();
        proof {
            assert(data_slice@ == data);
        }

        let mut gained_data = [0_u8; DATA_LEN];
        let mut block_start = 0usize;
        let ghost mut block: int = 0;
        while block_start < DATA_LEN
            invariant
                data_slice@ == data,
                data == self.data@,
                data.len() == DATA_LEN,
                self.wf(),
                block_align == self.block_align,
                samples_per_block == self.samples_per_block,
                ba == block_align,
                spb == samples_per_block,
                lin == linear,
                lin == gain.spec_linear(),
                spb <= adpcm_block_capacity(ba),
                adpcm_all_headers_ok(data, ba),
                block_count == DATA_LEN as int / ba,
                DATA_LEN == block_count * ba,
                0 <= block <= block_count,
                block_start == block * ba,
                forall|p: int|
                    0 <= p < block_start ==> #[trigger] gained_data@[p] == adpcm_gained_byte(
                        data,
                        ba,
                        spb,
                        lin,
                        p,
                    ),
            decreases DATA_LEN - block_start,
        {
            proof {
                assert(block < block_count) by (nonlinear_arith)
                    requires
                        block * ba < block_count * ba,
                        ba > 0,
                ;
                assert(block_start + ba <= DATA_LEN) by (nonlinear_arith)
                    requires
                        block + 1 <= block_count,
                        DATA_LEN == block_count * ba,
                        block_start == block * ba,
                        ba > 0,
                ;
                assert((block + 1) * ba <= DATA_LEN) by (nonlinear_arith)
                    requires
                        block + 1 <= block_count,
                        DATA_LEN == block_count * ba,
                        ba > 0,
                ;
                assert(data[block * ba + 2] <= 88);
                vstd::arithmetic::div_mod::lemma_fundamental_div_mod_converse(block_start as int, ba, block, 0);
                vstd::arithmetic::div_mod::lemma_fundamental_div_mod_converse(block_start + 1, ba, block, 1);
                vstd::arithmetic::div_mod::lemma_fundamental_div_mod_converse(block_start + 2, ba, block, 2);
                vstd::arithmetic::div_mod::lemma_fundamental_div_mod_converse(block_start + 3, ba, block, 3);
            }
            let ghost bs = block_start as int;
            let mut source_predictor_i32 = read_i16_le_const(data_slice, block_start) as i32;
            let mut source_step_index_i32 = self.data[block_start + 2] as i32;

            let scaled_first_sample_i16 = scale_sample_with_linear(
                source_predictor_i32 as i16,
                linear,
            );
            let mut destination_predictor_i32 = scaled_first_sample_i16 as i32;
            let mut destination_step_index_i32 = source_step_index_i32;

            let first_bits = scaled_first_sample_i16 as u16;
            let low_byte = (first_bits & 0xff) as u8;
            let high_byte = (first_bits >> 8) as u8;
            proof {
                lemma_sample_bits(scaled_first_sample_i16);
                crate::bits::lemma_u16_to_le_bytes(first_bits);
            }
            gained_data[block_start] = low_byte;
            gained_data[block_start + 1] = high_byte;
            gained_data[block_start + 2] = destination_step_index_i32 as u8;
            gained_data[block_start + 3] = 0;

            let mut decoded_in_block = 1usize;
            let mut source_byte_offset = block_start + 4;
            let block_end = block_start + block_align;

            while source_byte_offset < block_end
                invariant
                    data_slice@ == data,
                    data == self.data@,
                    data.len() == DATA_LEN,
                    ba == block_align,
                    block_align >= 5,
                    spb == samples_per_block,
                    spb > 0,
                    lin == linear,
                    spb <= adpcm_block_capacity(ba),
                    0 <= block < block_count,
                    bs == block * ba,
                    bs == block_start,
                    block_end == bs + ba,
                    block_end <= DATA_LEN,
                    bs + 4 <= source_byte_offset <= block_end,
                    decoded_in_block == min_int(1 + 2 * (source_byte_offset - bs - 4), spb),
                    (source_predictor_i32 as int, source_step_index_i32 as int)
                        == adpcm_block_state(data, bs, decoded_in_block as nat),
                    adpcm_state_ok(source_predictor_i32 as int, source_step_index_i32 as int),
                    (destination_predictor_i32 as int, destination_step_index_i32 as int)
                        == adpcm_gain_state(data, bs, lin, (decoded_in_block - 1) as nat),
                    adpcm_state_ok(
                        destination_predictor_i32 as int,
                        destination_step_index_i32 as int,
                    ),
                    forall|p: int|
                        0 <= p < source_byte_offset ==> #[trigger] gained_data@[p]
                            == adpcm_gained_byte(data, ba, spb, lin, p),
                decreases block_end - source_byte_offset,
            {
                let ghost j = source_byte_offset - bs - 4;
                let source_byte = self.data[source_byte_offset];
                let low_nibble = source_byte & 0x0F;
                let high_nibble = source_byte >> 4;
                proof {
                    crate::bits::lemma_nibbles(source_byte);
                }
                let mut low_code = 0_u8;
                if decoded_in_block < samples_per_block {
                    proof {
                        lemma_adpcm_delta_bounds(low_nibble as int, source_step_index_i32 as int);
                        assert(adpcm_nibble_at(data, bs, 2 * j) == low_nibble);
                        lemma_block_state_step(data, bs, decoded_in_block as nat);
                        lemma_gain_state_step(data, bs, lin, (decoded_in_block - 1) as nat);
                    }
                    let decoded_sample_i16 = decode_adpcm_nibble_const(
                        low_nibble,
                        &mut source_predictor_i32,
                        &mut source_step_index_i32,
                    );
                    let scaled_sample_i32 = scale_sample_with_linear(decoded_sample_i16, linear) as i32;
                    low_code = encode_adpcm_nibble(
                        scaled_sample_i32,
                        &mut destination_predictor_i32,
                        &mut destination_step_index_i32,
                    );
                    decoded_in_block += 1;
                }
                let mut high_code = 0_u8;
                if decoded_in_block < samples_per_block {
                    proof {
                        lemma_adpcm_delta_bounds(high_nibble as int, source_step_index_i32 as int);
                        assert(adpcm_nibble_at(data, bs, 2 * j + 1) == high_nibble);
                        lemma_block_state_step(data, bs, decoded_in_block as nat);
                        lemma_gain_state_step(data, bs, lin, (decoded_in_block - 1) as nat);
                    }
                    let decoded_sample_i16 = decode_adpcm_nibble_const(
                        high_nibble,
                        &mut source_predictor_i32,
                        &mut source_step_index_i32,
                    );
                    let scaled_sample_i32 = scale_sample_with_linear(decoded_sample_i16, linear) as i32;
                    high_code = encode_adpcm_nibble(
                        scaled_sample_i32,
                        &mut destination_predictor_i32,
                        &mut destination_step_index_i32,
                    );
                    decoded_in_block += 1;
                }
                let destination_byte = low_code | (high_code << 4);
                proof {
                    crate::bits::lemma_pack_nibbles(low_code, high_code);
                }
                proof {
                    vstd::arithmetic::div_mod::lemma_fundamental_div_mod_converse(
                        source_byte_offset as int,
                        ba,
                        block,
                        4 + j,
                    );
                }
                gained_data[source_byte_offset] = destination_byte;
                source_byte_offset += 1;
            }

            block_start += block_align;
            proof {
                block = block + 1;
                assert(block_start == block * ba) by (nonlinear_arith)
                    requires
                        block_start == (block - 1) * ba + ba,
                ;
            }
        }
        Self::new(
            self.block_align,
            self.samples_per_block,
            self.pcm_sample_count as usize,
            gained_data,
        )
    }
}


// ---------------------------------------------------------------------------
// Silence, playback descriptors and clip construction
// ---------------------------------------------------------------------------

/// An audio clip of silence for a specific duration; it stores no samples
/// and suits any sample rate.
#[derive(Clone, Copy, Debug, PartialEq, Eq, Structural)]
pub struct SilenceClip {
    duration: Duration,
}

impl SilenceClip {
    /// The silence duration.
    pub closed spec fn spec_duration(self) -> Duration {
        self.duration
    }

    /// Creates a silence clip for a specific duration.
    #[must_use]
    pub fn new(duration: Duration) -> (clip: Self)
        ensures
            clip.spec_duration() == duration,
    {
        Self { duration }
    }

    /// Returns the silence duration.
    #[must_use]
    pub fn duration(self) -> (duration: Duration)
        ensures
            duration == self.spec_duration(),
    {
        self.duration
    }

    /// Two silence clips are the same clip exactly when their durations
    /// are equal.
    pub proof fn law_silence_clips_equal_by_duration(a: Self, b: Self)
        ensures
            (a == b) <==> (a.spec_duration() == b.spec_duration()),
    {
    }

    /// Describes this clip for the playback loop.
    pub fn playback_clip<'a, const SAMPLE_RATE_HZ: u32>(&'a self) -> (clip: PlaybackClip<
        'a,
        SAMPLE_RATE_HZ,
    >)
        ensures
            clip == PlaybackClip::<'a, SAMPLE_RATE_HZ>::Silence(self.spec_duration()),
    {
        PlaybackClip::Silence(self.duration)
    }
}

/// What the playback loop plays: borrowed PCM samples, borrowed ADPCM blocks
/// with their layout, or a span of silence.
pub enum PlaybackClip<'a, const SAMPLE_RATE_HZ: u32> {
    Pcm(&'a [i16]),
    Adpcm { block_align: u16, samples_per_block: u16, pcm_sample_count: u32, data: &'a [u8] },
    Silence(Duration),
}

impl<const SAMPLE_RATE_HZ: u32, const SAMPLE_COUNT: usize> PcmClip<SAMPLE_RATE_HZ, [i16; SAMPLE_COUNT]> {
    /// Describes this clip for the playback loop.
    pub fn playback_clip<'a>(&'a self) -> (clip: PlaybackClip<'a, SAMPLE_RATE_HZ>)
        ensures
            clip matches PlaybackClip::Pcm(samples) && samples@ == self.spec_samples()@,
    {
        PlaybackClip::Pcm(self.samples.as_slice())
    }
}

impl<const SAMPLE_RATE_HZ: u32, const DATA_LEN: usize> AdpcmClip<SAMPLE_RATE_HZ, [u8; DATA_LEN]> {
    /// Describes this clip for the playback loop.
    pub fn playback_clip<'a>(&'a self) -> (clip: PlaybackClip<'a, SAMPLE_RATE_HZ>)
        ensures
            clip matches PlaybackClip::Adpcm {
                block_align,
                samples_per_block,
                pcm_sample_count,
                data,
            } && block_align == self.spec_block_align() && samples_per_block
                == self.spec_samples_per_block() && pcm_sample_count
                == self.spec_pcm_sample_count() && data@ == self.spec_data()@,
    {
        PlaybackClip::Adpcm {
            block_align: self.block_align,
            samples_per_block: self.samples_per_block,
            pcm_sample_count: self.pcm_sample_count,
            data: self.data.as_slice(),
        }
    }
}

/// Builds a fixed-size PCM clip from samples.
#[must_use]
pub fn __pcm_clip_from_samples<const SAMPLE_RATE_HZ: u32, const SAMPLE_COUNT: usize>(
    samples: [i16; SAMPLE_COUNT],
) -> (clip: PcmClipBuf<SAMPLE_RATE_HZ, SAMPLE_COUNT>)
    requires
        SAMPLE_RATE_HZ > 0,
    ensures
        clip.spec_samples() == samples,
{
    PcmClip { samples }
}

/// Builds a fixed-size ADPCM clip from its layout and bytes.
#[must_use]
pub fn __adpcm_clip_from_parts<const SAMPLE_RATE_HZ: u32, const DATA_LEN: usize>(
    block_align: u16,
    samples_per_block: u16,
    pcm_sample_count: usize,
    data: [u8; DATA_LEN],
) -> (clip: AdpcmClipBuf<SAMPLE_RATE_HZ, DATA_LEN>)
    requires
        SAMPLE_RATE_HZ > 0,
        block_align >= 5,
        samples_per_block > 0,
        DATA_LEN as int % block_align as int == 0,
        pcm_sample_count <= (DATA_LEN as int / block_align as int) * samples_per_block,
        pcm_sample_count <= u32::MAX,
    ensures
        clip.wf(),
        clip.spec_block_align() == block_align,
        clip.spec_samples_per_block() == samples_per_block,
        clip.spec_pcm_sample_count() == pcm_sample_count,
        clip.spec_data() == data,
{
    AdpcmClip::new(block_align, samples_per_block, pcm_sample_count, data)
}

/// Encodes a PCM clip into ADPCM blocks of `block_align` bytes.
#[must_use]
pub fn __pcm_with_adpcm_block_align<
    const SAMPLE_RATE_HZ: u32,
    const SAMPLE_COUNT: usize,
    const DATA_LEN: usize,
>(source_pcm_clip: &PcmClipBuf<SAMPLE_RATE_HZ, SAMPLE_COUNT>, block_align: usize) -> (adpcm:
    AdpcmClipBuf<SAMPLE_RATE_HZ, DATA_LEN>)
    requires
        SAMPLE_RATE_HZ > 0,
        SAMPLE_COUNT <= u32::MAX,
        block_align >= 5,
        block_align <= u16::MAX,
        adpcm_block_capacity(block_align as int) <= u16::MAX,
        DATA_LEN == adpcm_data_len(SAMPLE_COUNT as int, block_align as int),
        DATA_LEN <= isize::MAX,
    ensures
        adpcm.wf(),
        adpcm.spec_block_align() == block_align,
        adpcm.spec_samples_per_block() == adpcm_block_capacity(block_align as int),
        adpcm.spec_pcm_sample_count() == SAMPLE_COUNT,
        adpcm_encodes(source_pcm_clip.spec_samples()@, adpcm.spec_data()@, block_align as int),
{
    source_pcm_clip.with_adpcm_block_align::<DATA_LEN>(block_align)
}

/// Resamples a PCM clip to another rate by linear interpolation, keeping its
/// duration.
#[must_use]
pub fn __resample_pcm_clip<
    const SOURCE_HZ: u32,
    const SOURCE_COUNT: usize,
    const TARGET_HZ: u32,
    const TARGET_COUNT: usize,
>(source_pcm_clip: PcmClipBuf<SOURCE_HZ, SOURCE_COUNT>) -> (resampled: PcmClipBuf<
    TARGET_HZ,
    TARGET_COUNT,
>)
    requires
        SOURCE_COUNT > 0,
        SOURCE_HZ > 0,
        TARGET_HZ > 0,
        TARGET_COUNT == resampled_count(SOURCE_COUNT as int, SOURCE_HZ as int, TARGET_HZ as int),
    ensures
        forall|i: int|
            0 <= i < TARGET_COUNT ==> #[trigger] resampled.spec_samples()@[i] == resampled_sample(
                source_pcm_clip.spec_samples()@,
                i,
                SOURCE_HZ as int,
                TARGET_HZ as int,
            ),
{
    let source_samples = source_pcm_clip.samples;
    let mut resampled_samples = [0_i16; TARGET_COUNT];
    let mut sample_index = 0_usize;
    while sample_index < TARGET_COUNT
        invariant
            source_samples@ == source_pcm_clip.samples@,
            source_samples@.len() == SOURCE_COUNT,
            SOURCE_COUNT > 0,
            TARGET_HZ > 0,
            forall|i: int|
                0 <= i < sample_index ==> #[trigger] resampled_samples@[i] == resampled_sample(
                    source_samples@,
                    i,
                    SOURCE_HZ as int,
                    TARGET_HZ as int,
                ),
        decreases TARGET_COUNT - sample_index,
    {
        assert(sample_index as u128 * SOURCE_HZ as u128 <= 0xffff_ffff_ffff_ffffu128 * 0xffff_ffffu128)
            by (nonlinear_arith)
            requires
                sample_index <= 0xffff_ffff_ffff_ffffu128,
                SOURCE_HZ <= 0xffff_ffffu128,
        ;
        let source_position_numerator_u128 = sample_index as u128 * SOURCE_HZ as u128;
        let source_index_u128 = source_position_numerator_u128 / TARGET_HZ as u128;
        assert(source_index_u128 <= source_position_numerator_u128) by (nonlinear_arith)
            requires
                source_index_u128 == source_position_numerator_u128 / TARGET_HZ as u128,
                TARGET_HZ >= 1,
        ;
        let source_fraction_numerator_u128 = source_position_numerator_u128 % TARGET_HZ as u128;
        let next_sample = if source_index_u128 + 1 >= SOURCE_COUNT as u128 {
            source_samples[SOURCE_COUNT - 1]
        } else {
            let source_index = source_index_u128 as usize;
            if source_fraction_numerator_u128 == 0 {
                source_samples[source_index]
            } else {
                let left_sample_i128 = source_samples[source_index] as i128;
                let right_sample_i128 = source_samples[source_index + 1] as i128;
                let sample_delta_i128 = right_sample_i128 - left_sample_i128;
                let denom_i128 = TARGET_HZ as i128;
                assert(sample_delta_i128 * (source_fraction_numerator_u128 as i128)
                    <= 0x1_0000 * 0xffff_ffff && sample_delta_i128 * (
                source_fraction_numerator_u128 as i128) >= -0x1_0000 * 0xffff_ffff)
                    by (nonlinear_arith)
                    requires
                        -0x1_0000 <= sample_delta_i128 <= 0x1_0000,
                        0 <= source_fraction_numerator_u128 < 0xffff_ffff,
                ;
                let numerator_i128 = sample_delta_i128 * source_fraction_numerator_u128 as i128;
                let rounded_i128 = if numerator_i128 >= 0 {
                    (numerator_i128 + (denom_i128 / 2)) / denom_i128
                } else {
                    (numerator_i128 - (denom_i128 / 2)) / denom_i128
                };
                proof {
                    let shifted = if numerator_i128 >= 0 {
                        numerator_i128 + denom_i128 / 2
                    } else {
                        numerator_i128 - denom_i128 / 2
                    };
                    assert(rounded_i128 == div_toward_zero(shifted, denom_i128 as int));
                    assert(-0x2_0000_0000_0000 <= shifted <= 0x2_0000_0000_0000);
                    assert(-0x2_0000_0000_0000 <= div_toward_zero(shifted, denom_i128 as int)
                        <= 0x2_0000_0000_0000) by (nonlinear_arith)
                        requires
                            -0x2_0000_0000_0000 <= shifted <= 0x2_0000_0000_0000,
                            denom_i128 >= 1,
                    ;
                }
                clamp_i64_to_i16((left_sample_i128 + rounded_i128) as i64)
            }
        };
        resampled_samples[sample_index] = next_sample;
        sample_index += 1;
    }
    PcmClip { samples: resampled_samples }
}


// ---------------------------------------------------------------------------
// Tones
// ---------------------------------------------------------------------------

/// The per-sample phase advance of a tone (a full turn is `2^32`).
pub open spec fn tone_phase_step(frequency_hz: int, sample_rate_hz: int) -> int {
    ((frequency_hz * 0x1_0000_0000) / sample_rate_hz) % 0x1_0000_0000
}

/// Sample `i` of an unshaped sine tone.
pub open spec fn tone_sample(frequency_hz: int, sample_rate_hz: int, i: int) -> int {
    sine_from_phase((i * tone_phase_step(frequency_hz, sample_rate_hz)) % 0x1_0000_0000)
}

/// The attack and release ramp of a tone of the given duration, in
/// nanoseconds: a quarter of the duration, capped at 50 ms.
pub open spec fn tone_ramp_nanos(secs: int, nanos: int) -> int {
    if secs == 0 && nanos / 4 < 50_000_000 {
        nanos / 4
    } else {
        50_000_000
    }
}

/// Creates a PCM sine-wave clip of `SAMPLE_COUNT` samples whose duration is
/// that of the sample count.
#[must_use]
pub fn __tone_pcm_clip<const SAMPLE_RATE_HZ: u32, const SAMPLE_COUNT: usize>(
    frequency_hz: u32,
) -> (clip: PcmClipBuf<SAMPLE_RATE_HZ, SAMPLE_COUNT>)
    requires
        SAMPLE_RATE_HZ > 0,
        2 * samples_in(
            0,
            tone_ramp_nanos(
                SAMPLE_COUNT as int / SAMPLE_RATE_HZ as int,
                ((SAMPLE_COUNT as int % SAMPLE_RATE_HZ as int) * NANOS_PER_SEC) / (
                SAMPLE_RATE_HZ as int),
            ),
            SAMPLE_RATE_HZ as int,
        ) <= SAMPLE_COUNT,
        samples_in(0, 50_000_000, SAMPLE_RATE_HZ as int) * 32767 <= i32::MAX,
    ensures
        forall|i: int|
            0 <= i < SAMPLE_COUNT ==> #[trigger] clip.spec_samples()@[i] == envelope_sample(
                tone_sample(frequency_hz as int, SAMPLE_RATE_HZ as int, i),
                i,
                SAMPLE_COUNT as int,
                samples_in(
                    0,
                    tone_ramp_nanos(
                        SAMPLE_COUNT as int / SAMPLE_RATE_HZ as int,
                        ((SAMPLE_COUNT as int % SAMPLE_RATE_HZ as int) * NANOS_PER_SEC) / (
                        SAMPLE_RATE_HZ as int),
                    ),
                    SAMPLE_RATE_HZ as int,
                ),
                samples_in(
                    0,
                    tone_ramp_nanos(
                        SAMPLE_COUNT as int / SAMPLE_RATE_HZ as int,
                        ((SAMPLE_COUNT as int % SAMPLE_RATE_HZ as int) * NANOS_PER_SEC) / (
                        SAMPLE_RATE_HZ as int),
                    ),
                    SAMPLE_RATE_HZ as int,
                ),
            ),
{
    __tone_pcm_clip_with_duration::<SAMPLE_RATE_HZ, SAMPLE_COUNT>(
        frequency_hz,
        duration_for_sample_count(SAMPLE_COUNT, SAMPLE_RATE_HZ),
    )
}

proof fn lemma_ramp_samples(nanos: int, rate: int)
    requires
        0 <= nanos <= 50_000_000,
        rate > 0,
    ensures
        0 <= samples_in(0, nanos, rate) <= samples_in(0, 50_000_000, rate),
{
    assert(0 <= (nanos * rate) / (NANOS_PER_SEC as int) <= (50_000_000 * rate) / (
    NANOS_PER_SEC as int)) by (nonlinear_arith)
        requires
            0 <= nanos <= 50_000_000,
            rate > 0,
    ;
}

/// Creates a PCM sine-wave clip whose attack and release ramps (to reduce
/// clicks) last a quarter of `duration`, at most 50 ms.
#[must_use]
pub fn __tone_pcm_clip_with_duration<const SAMPLE_RATE_HZ: u32, const SAMPLE_COUNT: usize>(
    frequency_hz: u32,
    duration: Duration,
) -> (clip: PcmClipBuf<SAMPLE_RATE_HZ, SAMPLE_COUNT>)
    requires
        SAMPLE_RATE_HZ > 0,
        2 * samples_in(
            0,
            tone_ramp_nanos(duration.spec_secs() as int, duration.spec_subsec_nanos() as int),
            SAMPLE_RATE_HZ as int,
        ) <= SAMPLE_COUNT,
        samples_in(0, 50_000_000, SAMPLE_RATE_HZ as int) * 32767 <= i32::MAX,
    ensures
        forall|i: int|
            0 <= i < SAMPLE_COUNT ==> #[trigger] clip.spec_samples()@[i] == envelope_sample(
                tone_sample(frequency_hz as int, SAMPLE_RATE_HZ as int, i),
                i,
                SAMPLE_COUNT as int,
                samples_in(
                    0,
                    tone_ramp_nanos(
                        duration.spec_secs() as int,
                        duration.spec_subsec_nanos() as int,
                    ),
                    SAMPLE_RATE_HZ as int,
                ),
                samples_in(
                    0,
                    tone_ramp_nanos(
                        duration.spec_secs() as int,
                        duration.spec_subsec_nanos() as int,
                    ),
                    SAMPLE_RATE_HZ as int,
                ),
            ),
{
    let mut samples = [0_i16; SAMPLE_COUNT];
    let phase_step_u64 = ((frequency_hz as u64) << 32) / SAMPLE_RATE_HZ as u64;
    assert((frequency_hz as u64) << 32 == frequency_hz as int * 0x1_0000_0000) by (bit_vector);
    let phase_step_u32 = phase_step_u64 as u32;
    let ghost step = tone_phase_step(frequency_hz as int, SAMPLE_RATE_HZ as int);
    assert(phase_step_u32 == phase_step_u64 % 0x1_0000_0000) by (bit_vector)
        requires
            phase_step_u32 == phase_step_u64 as u32,
    ;
    let mut phase_u32 = 0_u32;

    let mut sample_index = 0usize;
    while sample_index < SAMPLE_COUNT
        invariant
            sample_index <= SAMPLE_COUNT,
            phase_step_u32 == step,
            step == tone_phase_step(frequency_hz as int, SAMPLE_RATE_HZ as int),
            0 <= step < 0x1_0000_0000,
            phase_u32 == (sample_index * step) % 0x1_0000_0000,
            forall|i: int|
                0 <= i < sample_index ==> #[trigger] samples@[i] == tone_sample(
                    frequency_hz as int,
                    SAMPLE_RATE_HZ as int,
                    i,
                ),
        decreases SAMPLE_COUNT - sample_index,
    {
        samples[sample_index] = sine_sample_from_phase(phase_u32);
        proof {
            vstd::arithmetic::div_mod::lemma_add_mod_noop(sample_index * step, step, 0x1_0000_0000);
            assert(sample_index * step + step == (sample_index + 1) * step) by (nonlinear_arith);
        }
        phase_u32 = phase_u32.wrapping_add(phase_step_u32);
        sample_index += 1;
    }

    let max_duration = Duration::from_millis(50);
    let attack_release_duration = if duration.as_secs() == 0 && duration.subsec_nanos() / 4
        < max_duration.subsec_nanos() {
        Duration::new(0, duration.subsec_nanos() / 4)
    } else {
        max_duration
    };
    proof {
        lemma_ramp_samples(
            tone_ramp_nanos(duration.spec_secs() as int, duration.spec_subsec_nanos() as int),
            SAMPLE_RATE_HZ as int,
        );
    }
    PcmClip { samples }.with_attack_release(attack_release_duration, attack_release_duration)
}

} // verus!
