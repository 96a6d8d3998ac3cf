//! The HD44780 character LCD message driver: errors, the transport a
//! platform provides, and the commands a message turns into.

use vstd::prelude::*;

use crate::lcd_text::row_start_address;

verus! {

/// Character LCD operation errors shared across platform crates.
#[derive(Clone, Copy, Debug, Eq, PartialEq)]
pub enum CharLcdError {
    /// I2C write failed for the given 7-bit address.
    I2cWrite { address: u8 },
}

/// Character LCD write adapter for platform crates.
pub trait CharLcdWrite {
    /// Write one byte to the configured LCD I2C expander.
    fn write(&mut self, address: u8, data: u8) -> Result<(), CharLcdError>;
}

/// The default PCF8574 backpack address.
pub const CHAR_LCD_DEFAULT_ADDRESS: u8 = 0x27;

/// HD44780 protocol driver over a byte-oriented I2C expander transport.
pub struct CharLcdDriver {
    address: u8,
}

impl CharLcdDriver {
    /// The expander address the driver writes to.
    pub closed spec fn spec_address(&self) -> u8 {
        self.address
    }

    /// Creates a driver for the default PCF8574 backpack address (`0x27`).
    #[must_use]
    pub fn new_default() -> (driver: Self)
        ensures
            driver.spec_address() == CHAR_LCD_DEFAULT_ADDRESS,
    {
        Self { address: CHAR_LCD_DEFAULT_ADDRESS }
    }

    /// The expander address the driver writes to.
    pub fn address(&self) -> (address: u8)
        ensures
            address == self.spec_address(),
    {
        self.address
    }

    /// The command that moves the cursor to `row`, `col`; a row past the
    /// fourth goes to the home position.
    pub fn cursor_command(row: u8, col: u8) -> (command: u8)
        requires
            row < 4 ==> col + row_start_address(row as int) <= 0xff,
        ensures
            row < 4 ==> command == 0x80 + (row_start_address(row as int) + col) % 0x80,
            row >= 4 ==> command == 0x80,
    {
        let address: u8 = match row {
            0 => col,
            1 => 0x40 + col,
            2 => 0x14 + col,
            3 => 0x54 + col,
            _ => 0,
        };
        let command = 0x80 | address;
        assert(command == 0x80 + address % 0x80) by (bit_vector)
            requires
                command == 0x80u8 | address,
        ;
        command
    }
}

/// The index of the first newline in a message, if any: the driver prints
/// the text before it on the first line and the rest on the second.
pub fn message_line_break(text: &str) -> (split: Option<usize>)
    requires
        text@.len() < usize::MAX,
    ensures
        split matches Some(i) ==> i < text@.len() && text@[i as int] == '\n' && forall|j: int|
            0 <= j < i ==> text@[j] != '\n',
        split is None ==> forall|j: int| 0 <= j < text@.len() ==> text@[j] != '\n',
{
    let mut index = 0usize;
    for ch in it: text.chars()
        invariant
            it.seq() == text@,
            index == it.index(),
            forall|j: int| 0 <= j < index ==> text@[j] != '\n',
            it.index() <= text@.len(),
            text@.len() < usize::MAX,
    {
        proof {
            assert(ch == text@[it.index() as int]);
        }
        if ch == '\n' {
            return Some(index);
        }
        index += 1;
    }
    None
}

} // verus!
