//! Servo control: direct positioning, and animation step sequences.

use vstd::prelude::*;

use crate::audio_player::div_toward_zero;

verus! {

/// Animation end behavior.
#[derive(Clone, Copy, Debug, Eq, PartialEq)]
pub enum AtEnd {
    /// Repeat the animation sequence indefinitely.
    Loop,
    /// Hold the final position when animation completes.
    Hold,
    /// Stop holding position after animation completes (servo relaxes).
    Relax,
}

/// A servo a platform drives.
pub trait Servo {
    /// The largest angle the servo accepts by default.
    fn default_max_degrees(&self) -> u16;

    /// Moves to `degrees`.
    fn set_degrees(&self, degrees: u16);

    /// Holds the current position.
    fn hold(&self);

    /// Stops driving the servo.
    fn relax(&self);
}

/// The angle of step `index` of an `n`-step sweep from `start` to `end`:
/// evenly spaced, rounded toward the start.
pub open spec fn sweep_degrees(start: int, end: int, n: int, index: int) -> int {
    if n == 1 {
        start
    } else {
        start + div_toward_zero((end - start) * index, n - 1)
    }
}

proof fn lemma_sweep_between(start: int, end: int, n: int, index: int)
    requires
        n >= 2,
        0 <= index < n,
        0 <= start <= 0xffff,
        0 <= end <= 0xffff,
    ensures
        0 <= sweep_degrees(start, end, n, index) <= 0xffff,
{
    let delta = end - start;
    if delta >= 0 {
        assert(0 <= (delta * index) / (n - 1) <= delta) by (nonlinear_arith)
            requires
                delta >= 0,
                0 <= index < n,
                n >= 2,
        ;
    } else {
        assert(0 <= ((-delta) * index) / (n - 1) <= -delta) by (nonlinear_arith)
            requires
                delta < 0,
                0 <= index < n,
                n >= 2,
        ;
        assert(-(delta * index) == (-delta) * index) by (nonlinear_arith);
    }
}

/// A linear sweep of `N` steps from `start_degrees` to `end_degrees`, each
/// step lasting an `N`-th of `total_micros` (rounded down).
#[must_use]
pub fn linear<const N: usize>(start_degrees: u16, end_degrees: u16, total_micros: u64) -> (steps: [(
    u16,
    u64,
); N])
    requires
        N > 0,
        N - 1 <= i32::MAX,
        (if end_degrees >= start_degrees {
            end_degrees - start_degrees
        } else {
            start_degrees - end_degrees
        }) * (N - 1) <= i32::MAX,
    ensures
        forall|i: int|
            0 <= i < N ==> (#[trigger] steps@[i]).0 == sweep_degrees(
                start_degrees as int,
                end_degrees as int,
                N as int,
                i,
            ) && steps@[i].1 == (total_micros as int) / (N as int),
{
    let step_micros = total_micros / (N as u64);
    let delta = end_degrees as i32 - start_degrees as i32;
    let denom: i32 = if N == 1 {
        1
    } else {
        (N - 1) as i32
    };
    let mut result = [(0u16, 0u64); N];
    let mut step_index = 0usize;
    while step_index < N
        invariant
            step_index <= N,
            N > 0,
            step_micros == (total_micros as int) / (N as int),
            delta == end_degrees - start_degrees,
            N == 1 || denom == N - 1,
            N - 1 <= i32::MAX,
            (if delta >= 0 { delta as int } else { -delta }) * (N - 1) <= i32::MAX,
            forall|i: int|
                0 <= i < step_index ==> (#[trigger] result@[i]).0 == sweep_degrees(
                    start_degrees as int,
                    end_degrees as int,
                    N as int,
                    i,
                ) && result@[i].1 == step_micros,
        decreases N - step_index,
    {
        let degrees = if N == 1 {
            start_degrees
        } else {
            proof {
                lemma_sweep_between(start_degrees as int, end_degrees as int, N as int, step_index as int);
            }
            assert(i32::MIN <= delta * (step_index as i32) <= i32::MAX) by (nonlinear_arith)
                requires
                    -0xffff <= delta <= 0xffff,
                    0 <= step_index < N,
                    (if delta >= 0 { delta as int } else { -delta }) * (N - 1) <= i32::MAX,
            ;
            let step_delta = delta * (step_index as i32) / denom;
            (start_degrees as i32 + step_delta) as u16
        };
        result[step_index] = (degrees, step_micros);
        step_index += 1;
    }
    result
}

/// The steps of `first` followed by those of `second`.
#[must_use]
pub fn combine<T: Copy, const N1: usize, const N2: usize, const OUT_N: usize>(
    first: [T; N1],
    second: [T; N2],
) -> (combined: [T; OUT_N])
    requires
        OUT_N == N1 + N2,
        N1 + N2 > 0,
    ensures
        combined@ == first@ + second@,
{
    let filler = if N1 > 0 {
        first[0]
    } else {
        second[0]
    };
    let mut result = [filler; OUT_N];
    let mut first_index = 0usize;
    while first_index < N1
        invariant
            OUT_N == N1 + N2,
            first_index <= N1,
            forall|i: int| 0 <= i < first_index ==> #[trigger] result@[i] == first@[i],
        decreases N1 - first_index,
    {
        result[first_index] = first[first_index];
        first_index += 1;
    }
    let mut second_index = 0usize;
    while second_index < N2
        invariant
            OUT_N == N1 + N2,
            second_index <= N2,
            forall|i: int| 0 <= i < N1 ==> #[trigger] result@[i] == first@[i],
            forall|i: int| 0 <= i < second_index ==> #[trigger] result@[N1 + i] == second@[i],
        decreases N2 - second_index,
    {
        result[N1 + second_index] = second[second_index];
        second_index += 1;
    }
    proof {
        assert forall|i: int| 0 <= i < OUT_N implies #[trigger] result@[i] == (first@ + second@)[i] by {
            if i >= N1 {
                assert(result@[N1 + (i - N1)] == second@[i - N1]);
            }
        }
        assert(result@ =~= first@ + second@);
    }
    result
}


/// What the servo player does when an animation's last step has run.
#[derive(Clone, Copy, Debug, Eq, PartialEq)]
pub enum AnimationEnd {
    /// Run the steps again.
    Repeat,
    /// Keep the last position and wait for the next command.
    Wait,
    /// Relax the servo, then wait for the next command.
    RelaxThenWait,
}

/// The end of an animation for each end behaviour.
pub fn animation_end(at_end: AtEnd) -> (end: AnimationEnd)
    ensures
        at_end == AtEnd::Loop ==> end == AnimationEnd::Repeat,
        at_end == AtEnd::Hold ==> end == AnimationEnd::Wait,
        at_end == AtEnd::Relax ==> end == AnimationEnd::RelaxThenWait,
{
    match at_end {
        AtEnd::Loop => AnimationEnd::Repeat,
        AtEnd::Hold => AnimationEnd::Wait,
        AtEnd::Relax => AnimationEnd::RelaxThenWait,
    }
}

/// The angle to write for an animation step: the step's angle when the
/// servo is not already there, nothing otherwise.
pub fn step_write(current_degrees: u16, step_degrees: u16) -> (write: Option<u16>)
    ensures
        current_degrees == step_degrees ==> write is None,
        current_degrees != step_degrees ==> write == Some(step_degrees),
{
    if current_degrees != step_degrees {
        Some(step_degrees)
    } else {
        None
    }
}

} // verus!
