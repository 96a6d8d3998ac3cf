//! Infrared remote events: NEC frame decoding and the Kepler remote's key
//! mapping.

use vstd::prelude::*;

verus! {

/// An infrared receiver event.
#[derive(Copy, Clone, Debug, PartialEq)]
pub enum IrEvent {
    /// Button press with 16-bit address and 8-bit command; standard NEC
    /// addresses sit in the low byte.
    Press {
        /// 16-bit device address (or 8-bit address in low byte for standard NEC).
        addr: u16,
        /// 8-bit command code.
        cmd: u8,
    },
}

/// Byte `k` (from the least significant) of a 32-bit frame.
pub open spec fn frame_byte(frame: u32, k: int) -> int {
    (frame as int / pow256(k)) % 256
}

pub open spec fn pow256(k: int) -> int {
    if k == 0 {
        1
    } else if k == 1 {
        0x100
    } else if k == 2 {
        0x1_0000
    } else {
        0x100_0000
    }
}

/// The address and command an NEC frame carries: the command byte must be
/// followed by its complement; an address byte followed by its complement
/// is an 8-bit address, otherwise the two bytes form a 16-bit address.
pub open spec fn nec_decode(frame: u32) -> Option<(u16, u8)> {
    let byte0 = frame_byte(frame, 0);
    let byte1 = frame_byte(frame, 1);
    let byte2 = frame_byte(frame, 2);
    let byte3 = frame_byte(frame, 3);
    if byte2 + byte3 != 255 {
        None
    } else if byte0 + byte1 == 255 {
        Some((byte0 as u16, byte2 as u8))
    } else {
        Some(((byte1 * 256 + byte0) as u16, byte2 as u8))
    }
}

/// Decodes a 32-bit NEC frame into its address and command, or `None` when
/// the command check byte does not match.
pub fn decode_nec_frame(frame: u32) -> (decoded: Option<(u16, u8)>)
    ensures
        decoded == nec_decode(frame),
{
    let byte0 = (frame & 0xFF) as u8;
    let byte1 = ((frame >> 8) & 0xFF) as u8;
    let byte2 = ((frame >> 16) & 0xFF) as u8;
    let byte3 = ((frame >> 24) & 0xFF) as u8;
    assert(byte0 == frame % 0x100 && byte1 == (frame / 0x100) % 0x100 && byte2 == (frame
        / 0x1_0000) % 0x100 && byte3 == (frame / 0x100_0000) % 0x100) by (bit_vector)
        requires
            byte0 == (frame & 0xFF) as u8,
            byte1 == ((frame >> 8) & 0xFF) as u8,
            byte2 == ((frame >> 16) & 0xFF) as u8,
            byte3 == ((frame >> 24) & 0xFF) as u8,
    ;
    assert(((byte2 ^ byte3) != 0xFF) == (byte2 + byte3 != 255)) by (bit_vector);
    assert(((byte0 ^ byte1) == 0xFF) == (byte0 + byte1 == 255)) by (bit_vector);

    if (byte2 ^ byte3) != 0xFF {
        return None;
    }
    if (byte0 ^ byte1) == 0xFF {
        return Some((byte0 as u16, byte2));
    }
    let addr16 = ((byte1 as u16) << 8) | (byte0 as u16);
    assert(addr16 == byte1 * 256 + byte0) by (bit_vector)
        requires
            addr16 == ((byte1 as u16) << 8) | (byte0 as u16),
    ;
    Some((addr16, byte2))
}

/// The keys of the SunFounder Kepler Kit IR remote.
#[derive(Clone, Copy, Debug, PartialEq, Eq)]
pub enum KeplerKeys {
    Power,
    Mode,
    Mute,
    PlayPause,
    Prev,
    Next,
    Eq,
    Minus,
    Plus,
    Num(u8),
    Repeat,
    USd,
}

/// The (address, command) pair the Kepler remote sends for each key, in
/// the order they are looked up.
pub open spec fn kepler_table() -> Seq<(u16, u8, KeplerKeys)> {
    seq![
        (0x0000u16, 0x45u8, KeplerKeys::Power),
        (0x0000u16, 0x46u8, KeplerKeys::Mode),
        (0x0000u16, 0x47u8, KeplerKeys::Mute),
        (0x0000u16, 0x44u8, KeplerKeys::PlayPause),
        (0x0000u16, 0x40u8, KeplerKeys::Prev),
        (0x0000u16, 0x43u8, KeplerKeys::Next),
        (0x0000u16, 0x07u8, KeplerKeys::Eq),
        (0x0000u16, 0x15u8, KeplerKeys::Minus),
        (0x0000u16, 0x09u8, KeplerKeys::Plus),
        (0x0000u16, 0x16u8, KeplerKeys::Num(0)),
        (0x0000u16, 0x19u8, KeplerKeys::Repeat),
        (0x0000u16, 0x0Du8, KeplerKeys::USd),
        (0x0000u16, 0x0Cu8, KeplerKeys::Num(1)),
        (0x0000u16, 0x18u8, KeplerKeys::Num(2)),
        (0x0000u16, 0x5Eu8, KeplerKeys::Num(3)),
        (0x0000u16, 0x08u8, KeplerKeys::Num(4)),
        (0x0000u16, 0x1Cu8, KeplerKeys::Num(5)),
        (0x0000u16, 0x5Au8, KeplerKeys::Num(6)),
        (0x0000u16, 0x42u8, KeplerKeys::Num(7)),
        (0x0000u16, 0x52u8, KeplerKeys::Num(8)),
        (0x0000u16, 0x4Au8, KeplerKeys::Num(9)),
    ]
}

/// The NEC command the Kepler remote sends, on address `0x0000`, for a key:
/// power `0x45`, mode `0x46`, mute `0x47`, play/pause `0x44`, previous
/// `0x40`, next `0x43`, EQ `0x07`, volume down `0x15`, volume up `0x09`,
/// repeat `0x19`, U/SD `0x0D`, and the digits 0 to 9 `0x16`, `0x0C`,
/// `0x18`, `0x5E`, `0x08`, `0x1C`, `0x5A`, `0x42`, `0x52`, `0x4A`. Digits
/// above 9 have no key.
pub open spec fn kepler_key_command(key: KeplerKeys) -> Option<u8> {
    match key {
        KeplerKeys::Power => Some(0x45u8),
        KeplerKeys::Mode => Some(0x46u8),
        KeplerKeys::Mute => Some(0x47u8),
        KeplerKeys::PlayPause => Some(0x44u8),
        KeplerKeys::Prev => Some(0x40u8),
        KeplerKeys::Next => Some(0x43u8),
        KeplerKeys::Eq => Some(0x07u8),
        KeplerKeys::Minus => Some(0x15u8),
        KeplerKeys::Plus => Some(0x09u8),
        KeplerKeys::Repeat => Some(0x19u8),
        KeplerKeys::USd => Some(0x0Du8),
        KeplerKeys::Num(digit) => if digit == 0 {
            Some(0x16u8)
        } else if digit == 1 {
            Some(0x0Cu8)
        } else if digit == 2 {
            Some(0x18u8)
        } else if digit == 3 {
            Some(0x5Eu8)
        } else if digit == 4 {
            Some(0x08u8)
        } else if digit == 5 {
            Some(0x1Cu8)
        } else if digit == 6 {
            Some(0x5Au8)
        } else if digit == 7 {
            Some(0x42u8)
        } else if digit == 8 {
            Some(0x52u8)
        } else if digit == 9 {
            Some(0x4Au8)
        } else {
            None
        },
    }
}

/// The Kepler table is the remote: every entry maps a key's command on
/// address `0x0000` to that key, no two entries share a command, and every
/// key of the remote has an entry. So looking up `(0x0000, command)` finds
/// exactly the key that sends `command`, and nothing else is found.
pub proof fn law_kepler_table_is_the_remote()
    ensures
        forall|i: int|
            0 <= i < kepler_table().len() ==> (#[trigger] kepler_table()[i]).0 == 0 && kepler_key_command(
                kepler_table()[i].2,
            ) == Some(kepler_table()[i].1),
        forall|i: int, j: int|
            0 <= i < j < kepler_table().len() ==> (#[trigger] kepler_table()[i]).1
                != (#[trigger] kepler_table()[j]).1,
        forall|key: KeplerKeys|
            (#[trigger] kepler_key_command(key)) is Some ==> exists|i: int|
                0 <= i < kepler_table().len() && kepler_table()[i] == (0x0000u16, kepler_key_command(key)->0, key),
{
    let t = kepler_table();
    assert forall|key: KeplerKeys| (#[trigger] kepler_key_command(key)) is Some implies exists|i: int|
        0 <= i < t.len() && t[i] == (0x0000u16, kepler_key_command(key)->0, key) by {
        match key {
            KeplerKeys::Power => assert(t[0] == (0x0000u16, 0x45u8, key)),
            KeplerKeys::Mode => assert(t[1] == (0x0000u16, 0x46u8, key)),
            KeplerKeys::Mute => assert(t[2] == (0x0000u16, 0x47u8, key)),
            KeplerKeys::PlayPause => assert(t[3] == (0x0000u16, 0x44u8, key)),
            KeplerKeys::Prev => assert(t[4] == (0x0000u16, 0x40u8, key)),
            KeplerKeys::Next => assert(t[5] == (0x0000u16, 0x43u8, key)),
            KeplerKeys::Eq => assert(t[6] == (0x0000u16, 0x07u8, key)),
            KeplerKeys::Minus => assert(t[7] == (0x0000u16, 0x15u8, key)),
            KeplerKeys::Plus => assert(t[8] == (0x0000u16, 0x09u8, key)),
            KeplerKeys::Repeat => assert(t[10] == (0x0000u16, 0x19u8, key)),
            KeplerKeys::USd => assert(t[11] == (0x0000u16, 0x0Du8, key)),
            KeplerKeys::Num(digit) => {
                if digit == 0 {
                    assert(t[9] == (0x0000u16, 0x16u8, key));
                } else if digit == 1 {
                    assert(t[12] == (0x0000u16, 0x0Cu8, key));
                } else if digit == 2 {
                    assert(t[13] == (0x0000u16, 0x18u8, key));
                } else if digit == 3 {
                    assert(t[14] == (0x0000u16, 0x5Eu8, key));
                } else if digit == 4 {
                    assert(t[15] == (0x0000u16, 0x08u8, key));
                } else if digit == 5 {
                    assert(t[16] == (0x0000u16, 0x1Cu8, key));
                } else if digit == 6 {
                    assert(t[17] == (0x0000u16, 0x5Au8, key));
                } else if digit == 7 {
                    assert(t[18] == (0x0000u16, 0x42u8, key));
                } else if digit == 8 {
                    assert(t[19] == (0x0000u16, 0x52u8, key));
                } else if digit == 9 {
                    assert(t[20] == (0x0000u16, 0x4Au8, key));
                }
            },
        }
    }
}

/// The (address, command) pairs the Kepler remote sends for each key.
pub fn kepler_mapping() -> (mapping: [(u16, u8, KeplerKeys); 21])
    ensures
        mapping@ == kepler_table(),
{
    let mapping = [
        (0x0000, 0x45, KeplerKeys::Power),
        (0x0000, 0x46, KeplerKeys::Mode),
        (0x0000, 0x47, KeplerKeys::Mute),
        (0x0000, 0x44, KeplerKeys::PlayPause),
        (0x0000, 0x40, KeplerKeys::Prev),
        (0x0000, 0x43, KeplerKeys::Next),
        (0x0000, 0x07, KeplerKeys::Eq),
        (0x0000, 0x15, KeplerKeys::Minus),
        (0x0000, 0x09, KeplerKeys::Plus),
        (0x0000, 0x16, KeplerKeys::Num(0)),
        (0x0000, 0x19, KeplerKeys::Repeat),
        (0x0000, 0x0D, KeplerKeys::USd),
        (0x0000, 0x0C, KeplerKeys::Num(1)),
        (0x0000, 0x18, KeplerKeys::Num(2)),
        (0x0000, 0x5E, KeplerKeys::Num(3)),
        (0x0000, 0x08, KeplerKeys::Num(4)),
        (0x0000, 0x1C, KeplerKeys::Num(5)),
        (0x0000, 0x5A, KeplerKeys::Num(6)),
        (0x0000, 0x42, KeplerKeys::Num(7)),
        (0x0000, 0x52, KeplerKeys::Num(8)),
        (0x0000, 0x4A, KeplerKeys::Num(9)),
    ];
    assert(mapping@ =~= kepler_table());
    mapping
}

/// Finds the button a press maps to: the first mapping entry with the
/// press's address and command.
pub fn button_for_press<Button: Copy, const N: usize>(
    mapping: &[(u16, u8, Button); N],
    addr: u16,
    cmd: u8,
) -> (button: Option<Button>)
    ensures
        button is None <==> forall|i: int|
            0 <= i < N ==> !(#[trigger] mapping@[i].0 == addr && mapping@[i].1 == cmd),
        button matches Some(b) ==> exists|i: int|
            0 <= i < N && mapping@[i].0 == addr && mapping@[i].1 == cmd && #[trigger] mapping@[i].2
                == b && forall|j: int|
                0 <= j < i ==> !(#[trigger] mapping@[j].0 == addr && mapping@[j].1 == cmd),
{
    let mut index = 0usize;
    while index < N
        invariant
            index <= N,
            forall|j: int| 0 <= j < index ==> !(#[trigger] mapping@[j].0 == addr && mapping@[j].1 == cmd),
        decreases N - index,
    {
        let entry = mapping[index];
        if entry.0 == addr && entry.1 == cmd {
            assert(mapping@[index as int].2 == entry.2);
            return Some(entry.2);
        }
        index += 1;
    }
    None
}

} // verus!
