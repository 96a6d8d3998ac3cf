//! Facts about byte packing and small bit manipulations, proved once and
//! shared.

use vstd::prelude::*;

verus! {

/// Two bytes packed little-endian into a `u16`.
pub proof fn lemma_u16_from_le_bytes(low: u8, high: u8)
    ensures
        (low as u16) | ((high as u16) << 8) == low + 0x100 * high,
{
    assert((low as u16) | ((high as u16) << 8) == low + 0x100 * high) by (bit_vector);
}

/// Four bytes packed little-endian into a `u32`.
pub proof fn lemma_u32_from_le_bytes(b0: u8, b1: u8, b2: u8, b3: u8)
    ensures
        (b0 as u32) | ((b1 as u32) << 8) | ((b2 as u32) << 16) | ((b3 as u32) << 24) == b0 + 0x100
            * b1 + 0x1_0000 * b2 + 0x100_0000 * b3,
{
    assert((b0 as u32) | ((b1 as u32) << 8) | ((b2 as u32) << 16) | ((b3 as u32) << 24) == b0
        + 0x100 * b1 + 0x1_0000 * b2 + 0x100_0000 * b3) by (bit_vector);
}

/// The low and high bytes of a `u16`.
pub proof fn lemma_u16_to_le_bytes(value: u16)
    ensures
        ((value & 0xff) as u8) == value % 0x100,
        ((value >> 8) as u8) == value / 0x100,
{
    assert(((value & 0xff) as u8) == value % 0x100 && ((value >> 8) as u8) == value / 0x100)
        by (bit_vector);
}

/// The four bytes of a `u32`, least significant first.
pub proof fn lemma_u32_to_le_bytes(value: u32)
    ensures
        ((value & 0xff) as u8) == value % 0x100,
        (((value >> 8) & 0xff) as u8) == (value / 0x100) % 0x100,
        (((value >> 16) & 0xff) as u8) == (value / 0x1_0000) % 0x100,
        ((value >> 24) as u8) == value / 0x100_0000,
{
    assert(((value & 0xff) as u8) == value % 0x100 && (((value >> 8) & 0xff) as u8) == (value
        / 0x100) % 0x100 && (((value >> 16) & 0xff) as u8) == (value / 0x1_0000) % 0x100 && ((value
        >> 24) as u8) == value / 0x100_0000) by (bit_vector);
}

/// The low and high nibbles of a byte.
pub proof fn lemma_nibbles(byte: u8)
    ensures
        byte & 0x0F == byte % 16,
        byte >> 4 == byte / 16,
        (byte >> 4) & 0x0F == byte / 16,
{
    assert(byte & 0x0F == byte % 16 && byte >> 4 == byte / 16 && (byte >> 4) & 0x0F == byte / 16)
        by (bit_vector);
}

/// Two nibbles packed into a byte, the first in the low half.
pub proof fn lemma_pack_nibbles(low: u8, high: u8)
    requires
        low < 16,
        high < 16,
    ensures
        low | (high << 4) == low + 16 * high,
{
    assert(low | (high << 4) == low + 16 * high) by (bit_vector)
        requires
            low < 16,
            high < 16,
    ;
}

/// Setting a bit that is clear adds its value.
pub proof fn lemma_set_clear_bit(before: u8, bit: u8)
    requires
        before < 16,
        (bit == 8 && before < 8) || (bit == 4 && before % 8 < 4) || (bit == 2 && before % 4 < 2)
            || (bit == 1 && before % 2 == 0),
    ensures
        before | bit == before + bit,
{
    assert(before | bit == before + bit) by (bit_vector)
        requires
            before < 16,
            (bit == 8 && before < 8) || (bit == 4 && before % 8 < 4) || (bit == 2 && before % 4
                < 2) || (bit == 1 && before % 2 == 0),
    ;
}

} // verus!
