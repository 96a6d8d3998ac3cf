//! LED-strip brightness: gamma correction tables combined with a current
//! budget.

use vstd::prelude::*;

verus! {

/// Gamma correction applied to LED-strip colour channels.
#[derive(Clone, Copy, Debug, Eq, PartialEq)]
pub enum Gamma {
    /// No correction.
    Linear,
    /// The sRGB curve.
    Srgb,
    /// The curve of the smart-leds crate.
    SmartLeds,
}

impl Default for Gamma {
    fn default() -> (gamma: Self)
        ensures
            gamma == Gamma::Srgb,
    {
        Gamma::Srgb
    }
}

/// Most animation frames a strip holds by default.
pub const MAX_FRAMES_DEFAULT: usize = 16;

/// The sRGB gamma curve.
pub const GAMMA_SRGB_TABLE: [u8; 256] = [
    0, 0, 0, 0, 0, 0, 0, 0, 0, 0, 0, 0, 0, 0, 0, 1,
    1, 1, 1, 1, 1, 1, 1, 1, 1, 2, 2, 2, 2, 2, 2, 2,
    3, 3, 3, 3, 3, 4, 4, 4, 4, 5, 5, 5, 5, 6, 6, 6,
    6, 7, 7, 7, 8, 8, 8, 9, 9, 9, 10, 10, 11, 11, 11, 12,
    12, 13, 13, 13, 14, 14, 15, 15, 16, 16, 17, 17, 18, 18, 19, 19,
    20, 20, 21, 22, 22, 23, 23, 24, 25, 25, 26, 26, 27, 28, 28, 29,
    30, 30, 31, 32, 33, 33, 34, 35, 35, 36, 37, 38, 39, 39, 40, 41,
    42, 43, 43, 44, 45, 46, 47, 48, 49, 49, 50, 51, 52, 53, 54, 55,
    56, 57, 58, 59, 60, 61, 62, 63, 64, 65, 66, 67, 68, 69, 70, 71,
    73, 74, 75, 76, 77, 78, 79, 81, 82, 83, 84, 85, 87, 88, 89, 90,
    91, 93, 94, 95, 97, 98, 99, 100, 102, 103, 105, 106, 107, 109, 110, 111,
    113, 114, 116, 117, 119, 120, 121, 123, 124, 126, 127, 129, 130, 132, 133, 135,
    137, 138, 140, 141, 143, 145, 146, 148, 149, 151, 153, 154, 156, 158, 159, 161,
    163, 165, 166, 168, 170, 172, 173, 175, 177, 179, 181, 182, 184, 186, 188, 190,
    192, 194, 196, 197, 199, 201, 203, 205, 207, 209, 211, 213, 215, 217, 219, 221,
    223, 225, 227, 229, 231, 234, 236, 238, 240, 242, 244, 246, 248, 251, 253, 255,
];

/// The smart-leds gamma curve.
pub const GAMMA_SMARTLEDS_TABLE: [u8; 256] = [
    0, 0, 0, 0, 0, 0, 0, 0, 0, 0, 0, 0, 0, 0, 0, 0,
    0, 0, 0, 0, 0, 0, 0, 0, 0, 0, 0, 0, 1, 1, 1, 1,
    1, 1, 1, 1, 1, 1, 1, 1, 1, 2, 2, 2, 2, 2, 2, 2,
    2, 3, 3, 3, 3, 3, 3, 3, 4, 4, 4, 4, 4, 5, 5, 5,
    5, 6, 6, 6, 6, 7, 7, 7, 7, 8, 8, 8, 9, 9, 9, 10,
    10, 10, 11, 11, 11, 12, 12, 13, 13, 13, 14, 14, 15, 15, 16, 16,
    17, 17, 18, 18, 19, 19, 20, 20, 21, 21, 22, 22, 23, 24, 24, 25,
    25, 26, 27, 27, 28, 29, 29, 30, 31, 32, 32, 33, 34, 35, 35, 36,
    37, 38, 39, 39, 40, 41, 42, 43, 44, 45, 46, 47, 48, 49, 50, 50,
    51, 52, 54, 55, 56, 57, 58, 59, 60, 61, 62, 63, 64, 66, 67, 68,
    69, 70, 72, 73, 74, 75, 77, 78, 79, 81, 82, 83, 85, 86, 87, 89,
    90, 92, 93, 95, 96, 98, 99, 101, 102, 104, 105, 107, 109, 110, 112, 114,
    115, 117, 119, 120, 122, 124, 126, 127, 129, 131, 133, 135, 137, 138, 140, 142,
    144, 146, 148, 150, 152, 154, 156, 158, 160, 162, 164, 167, 169, 171, 173, 175,
    177, 180, 182, 184, 186, 189, 191, 193, 196, 198, 200, 203, 205, 208, 210, 213,
    215, 218, 220, 223, 225, 228, 231, 233, 236, 239, 241, 244, 247, 249, 252, 255,
];

/// The corrected value of channel value `index` under `gamma`.
pub open spec fn gamma_value(gamma: Gamma, index: int) -> int {
    match gamma {
        Gamma::Linear => index,
        Gamma::Srgb => GAMMA_SRGB_TABLE@[index] as int,
        Gamma::SmartLeds => GAMMA_SMARTLEDS_TABLE@[index] as int,
    }
}

/// Facts of the two gamma tables, entry by entry.
proof fn lemma_gamma_tables()
    ensures
        forall|k: int|
            0 <= k < 255 ==> #[trigger] GAMMA_SRGB_TABLE@[k] <= GAMMA_SRGB_TABLE@[k + 1]
                && GAMMA_SMARTLEDS_TABLE@[k] <= GAMMA_SMARTLEDS_TABLE@[k + 1],
        forall|k: int|
            0 < k < 255 ==> #[trigger] GAMMA_SRGB_TABLE@[k] < k && GAMMA_SMARTLEDS_TABLE@[k] < k,
        forall|k: int| 0 <= k < 256 ==> #[trigger] GAMMA_SMARTLEDS_TABLE@[k] <= GAMMA_SRGB_TABLE@[k],
        GAMMA_SRGB_TABLE@[0] == 0 && GAMMA_SRGB_TABLE@[255] == 255,
        GAMMA_SMARTLEDS_TABLE@[0] == 0 && GAMMA_SMARTLEDS_TABLE@[255] == 255,
{
}

/// A corrected curve never decreases.
proof fn lemma_gamma_monotone(gamma: Gamma, i: int, j: int)
    requires
        0 <= i <= j < 256,
    ensures
        gamma_value(gamma, i) <= gamma_value(gamma, j),
    decreases j - i,
{
    lemma_gamma_tables();
    if i < j {
        lemma_gamma_monotone(gamma, i, j - 1);
        assert(GAMMA_SRGB_TABLE@[j - 1] <= GAMMA_SRGB_TABLE@[j]);
    }
}

/// Each gamma choice uses its own curve: none for `Linear`, the sRGB table
/// for `Srgb` and the smart-leds table for `SmartLeds`. Every curve keeps
/// black and full scale and never decreases; the two corrected curves
/// darken every value in between, the smart-leds curve at least as much as
/// the sRGB one. A combo table entry is the chosen curve's value scaled by
/// the brightness limit (`generate_combo_table`).
pub proof fn law_gamma_curves(gamma: Gamma, i: int, j: int)
    requires
        0 <= i <= j < 256,
    ensures
        gamma_value(Gamma::Linear, i) == i,
        gamma_value(Gamma::Srgb, i) == GAMMA_SRGB_TABLE@[i],
        gamma_value(Gamma::SmartLeds, i) == GAMMA_SMARTLEDS_TABLE@[i],
        gamma_value(gamma, 0) == 0,
        gamma_value(gamma, 255) == 255,
        gamma_value(gamma, i) <= gamma_value(gamma, j),
        gamma != Gamma::Linear && 0 < i < 255 ==> gamma_value(gamma, i) < i,
        gamma_value(Gamma::SmartLeds, i) <= gamma_value(Gamma::Srgb, i),
{
    lemma_gamma_tables();
    lemma_gamma_monotone(gamma, i, j);
    assert(GAMMA_SMARTLEDS_TABLE@[i] <= GAMMA_SRGB_TABLE@[i]);
    if 0 < i < 255 {
        assert(GAMMA_SRGB_TABLE@[i] < i && GAMMA_SMARTLEDS_TABLE@[i] < i);
    }
}

/// The lookup table mapping a channel value to its gamma-corrected value
/// scaled to `max_brightness` (out of 255), rounded down.
#[must_use]
pub fn generate_combo_table(gamma: Gamma, max_brightness: u8) -> (table: [u8; 256])
    ensures
        forall|i: int|
            0 <= i < 256 ==> #[trigger] table@[i] == (gamma_value(gamma, i) * max_brightness) / 255,
{
    let mut result = [0u8; 256];
    let mut index = 0usize;
    while index < 256
        invariant
            index <= 256,
            forall|j: int|
                0 <= j < index ==> #[trigger] result@[j] == (gamma_value(gamma, j) * max_brightness)
                    / 255,
        decreases 256 - index,
    {
        let corrected: u8 = match gamma {
            Gamma::Linear => index as u8,
            Gamma::Srgb => GAMMA_SRGB_TABLE[index],
            Gamma::SmartLeds => GAMMA_SMARTLEDS_TABLE[index],
        };
        assert(corrected as u16 * max_brightness as u16 <= 255 * 255) by (nonlinear_arith)
            requires
                corrected <= 255,
                max_brightness <= 255,
        ;
        let scaled = (corrected as u16 * max_brightness as u16) / 255;
        assert(scaled <= 255) by (nonlinear_arith)
            requires
                scaled == (corrected as u16 * max_brightness as u16) / 255,
                corrected as u16 * max_brightness as u16 <= 255 * 255,
        ;
        result[index] = scaled as u8;
        index += 1;
    }
    result
}

/// A current budget for the strip.
#[derive(Clone, Copy, Debug, Eq, PartialEq)]
pub enum Current {
    /// At most this many milliamps.
    Milliamps(u32),
    /// No limit.
    Unlimited,
}

impl Default for Current {
    fn default() -> (current: Self)
        ensures
            current == Current::Milliamps(250),
    {
        Current::Milliamps(250)
    }
}

/// The brightness (out of 255) that keeps a strip drawing `worst_case_ma`
/// at full brightness within the budget `ma`, capped at full brightness.
pub open spec fn budget_brightness(ma: int, worst_case_ma: int) -> int {
    let scale = (ma * 255) / worst_case_ma;
    if scale > 255 { 255 } else { scale }
}

impl Current {
    /// The highest brightness (out of 255) within this budget for a strip
    /// drawing `worst_case_ma` milliamps at full brightness.
    #[must_use]
    pub fn max_brightness(self, worst_case_ma: u32) -> (brightness: u8)
        requires
            worst_case_ma > 0,
        ensures
            self matches Current::Milliamps(ma) ==> brightness == budget_brightness(
                ma as int,
                worst_case_ma as int,
            ),
            self is Unlimited ==> brightness == 255,
    {
        match self {
            Current::Milliamps(ma) => {
                assert(ma as u64 * 255 <= 0xffff_ffffu64 * 255) by (nonlinear_arith)
                    requires
                        ma <= 0xffff_ffffu64,
                ;
                let scale = (ma as u64 * 255) / worst_case_ma as u64;
                if scale > 255 {
                    255
                } else {
                    scale as u8
                }
            },
            Current::Unlimited => 255,
        }
    }
}

} // verus!
