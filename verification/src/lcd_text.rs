//! HD44780 character LCDs behind a PCF8574 I2C expander: text frames, the
//! rendering of text into frames, and the expander bytes the 4-bit protocol
//! writes.

use vstd::prelude::*;

verus! {

/// Errors of the text LCD driver.
#[derive(Clone, Copy, Debug, Eq, PartialEq)]
pub enum LcdTextError {
    /// An I2C write to the given 7-bit address failed.
    I2cWrite { address: u8 },
    /// The cursor row is beyond the display's four rows.
    RowOutOfBounds { row: usize },
}

/// The characters of a `width` by `height` display, row-major in `cells`.
#[derive(Clone, Copy, Debug)]
pub struct LcdTextFrame<const MAX_CHARS: usize> {
    pub width: usize,
    pub height: usize,
    pub cells: [u8; MAX_CHARS],
}

impl<const MAX_CHARS: usize> LcdTextFrame<MAX_CHARS> {
    /// A frame of spaces.
    #[must_use]
    pub fn new_blank(width: usize, height: usize) -> (frame: Self)
        requires
            width * height <= MAX_CHARS,
        ensures
            frame.width == width,
            frame.height == height,
            forall|i: int| 0 <= i < MAX_CHARS ==> #[trigger] frame.cells@[i] == 0x20,
    {
        Self { width, height, cells: [0x20u8; MAX_CHARS] }
    }

    /// A frame holding `rows`, row by row.
    #[must_use]
    pub fn from_rows<const W: usize, const H: usize>(rows: [[u8; W]; H]) -> (frame: Self)
        requires
            W * H <= MAX_CHARS,
        ensures
            frame.width == W,
            frame.height == H,
            forall|r: int, c: int|
                0 <= r < H && 0 <= c < W ==> #[trigger] frame.cells@[r * W + c] == rows@[r]@[c],
            forall|i: int| W * H <= i < MAX_CHARS ==> #[trigger] frame.cells@[i] == 0x20,
    {
        let mut lcd_text_frame = Self::new_blank(W, H);
        let mut row_index = 0usize;
        while row_index < H
            invariant
                W * H <= MAX_CHARS,
                row_index <= H,
                lcd_text_frame.width == W,
                lcd_text_frame.height == H,
                forall|r: int, c: int|
                    0 <= r < row_index && 0 <= c < W ==> #[trigger] lcd_text_frame.cells@[r * W
                        + c] == rows@[r]@[c],
                forall|i: int|
                    row_index * W <= i < MAX_CHARS ==> #[trigger] lcd_text_frame.cells@[i] == 0x20,
            decreases H - row_index,
        {
            let mut column_index = 0usize;
            while column_index < W
                invariant
                    W * H <= MAX_CHARS,
                    row_index < H,
                    column_index <= W,
                    lcd_text_frame.width == W,
                    lcd_text_frame.height == H,
                    forall|r: int, c: int|
                        0 <= r < row_index && 0 <= c < W ==> #[trigger] lcd_text_frame.cells@[r
                            * W + c] == rows@[r]@[c],
                    forall|c: int|
                        0 <= c < column_index ==> #[trigger] lcd_text_frame.cells@[row_index * W
                            + c] == rows@[row_index as int]@[c],
                    forall|i: int|
                        row_index * W + column_index <= i < MAX_CHARS
                            ==> #[trigger] lcd_text_frame.cells@[i] == 0x20,
                decreases W - column_index,
            {
                proof {
                    assert(row_index * W + column_index < W * H) by (nonlinear_arith)
                        requires
                            row_index < H,
                            column_index < W,
                    ;
                }
                let flat_index = row_index * W + column_index;
                let ghost before = lcd_text_frame.cells@;
                lcd_text_frame.cells[flat_index] = rows[row_index][column_index];
                proof {
                    assert forall|r: int, c: int|
                        0 <= r < row_index && 0 <= c < W implies #[trigger] lcd_text_frame.cells@[r
                        * W + c] == before[r * W + c] by {
                        assert(0 <= r * W + c < row_index * W) by (nonlinear_arith)
                            requires
                                0 <= r < row_index,
                                0 <= c < W,
                        ;
                    }
                }
                column_index += 1;
            }
            proof {
                assert forall|r: int, c: int|
                    0 <= r < row_index + 1 && 0 <= c < W implies #[trigger] lcd_text_frame.cells@[r
                    * W + c] == rows@[r]@[c] by {
                    if r == row_index {
                    }
                }
                assert((row_index + 1) * W == row_index * W + W) by (nonlinear_arith);
            }
            row_index += 1;
        }
        lcd_text_frame
    }

    /// The character at `row`, `col`.
    #[must_use]
    pub fn cell(&self, row: usize, col: usize) -> (cell: u8)
        requires
            row * self.width + col < MAX_CHARS,
        ensures
            cell == self.cells@[row * self.width + col],
    {
        self.cells[row * self.width + col]
    }
}

/// The byte a character shows as: itself when ASCII, `?` otherwise.
pub open spec fn lcd_char_byte(ch: char) -> u8 {
    if (ch as u32) < 128 {
        (ch as u32) as u8
    } else {
        0x3f
    }
}

/// The rows a `width` by `height` display shows for `text`, with the row and
/// column the next character would go to: each line (up to a newline) fills
/// a row from the left, characters past the width or lines past the height
/// are dropped, and the rest of the display holds spaces.
pub open spec fn lcd_render(text: Seq<char>, width: int, height: int) -> (Seq<Seq<u8>>, int, int)
    decreases text.len(),
{
    if text.len() == 0 {
        (Seq::new(height as nat, |r: int| Seq::new(width as nat, |c: int| 0x20u8)), 0, 0)
    } else {
        let (rows, row, col) = lcd_render(text.drop_last(), width, height);
        let ch = text.last();
        if ch == '\n' {
            (rows, row + 1, 0)
        } else if row < height && col < width {
            (rows.update(row, rows[row].update(col, lcd_char_byte(ch))), row, col + 1)
        } else {
            (rows, row, col + 1)
        }
    }
}

proof fn lemma_lcd_render_shape(text: Seq<char>, width: int, height: int)
    requires
        width >= 0,
        height >= 0,
    ensures
        lcd_render(text, width, height).0.len() == height,
        forall|r: int|
            0 <= r < height ==> (#[trigger] lcd_render(text, width, height).0[r]).len() == width,
        lcd_render(text, width, height).1 >= 0,
        lcd_render(text, width, height).2 >= 0,
    decreases text.len(),
{
    if text.len() > 0 {
        lemma_lcd_render_shape(text.drop_last(), width, height);
    }
}

/// Renders text into a frame of `W` by `H` characters (see [`lcd_render`]).
#[must_use]
pub fn render_lcd_text_frame<const W: usize, const H: usize, const MAX_CHARS: usize>(
    text: &str,
) -> (frame: LcdTextFrame<MAX_CHARS>)
    requires
        W * H <= MAX_CHARS,
        text@.len() < usize::MAX,
    ensures
        frame.width == W,
        frame.height == H,
        forall|r: int, c: int|
            0 <= r < H && 0 <= c < W ==> #[trigger] frame.cells@[r * W + c] == lcd_render(
                text@,
                W as int,
                H as int,
            ).0[r][c],
{
    let mut rows = [[0x20u8; W]; H];
    let mut row_index = 0usize;
    let mut column_index = 0usize;
    let ghost chars = text@;
    proof {
        lemma_lcd_render_shape(chars.take(0), W as int, H as int);
        assert(chars.take(0) =~= Seq::<char>::empty());
        assert forall|r: int| 0 <= r < H implies #[trigger] rows@[r]@ =~= lcd_render(
            chars.take(0),
            W as int,
            H as int,
        ).0[r] by {}
    }
    for ch in it: text.chars()
        invariant
            it.seq() == chars,
            chars == text@,
            forall|r: int|
                0 <= r < H ==> #[trigger] rows@[r]@ == lcd_render(
                    chars.take(it.index() as int),
                    W as int,
                    H as int,
                ).0[r],
            row_index as int == lcd_render(chars.take(it.index() as int), W as int, H as int).1,
            column_index as int == lcd_render(chars.take(it.index() as int), W as int, H as int).2,
            row_index <= it.index(),
            column_index <= it.index(),
            it.index() <= chars.len(),
            chars.len() < usize::MAX,
    {
        let ghost before = chars.take(it.index() as int);
        let ghost after = chars.take(it.index() + 1);
        let ghost old_rows = rows@;
        proof {
            lemma_lcd_render_shape(before, W as int, H as int);
            assert(after.drop_last() =~= before);
            assert(ch == chars[it.index() as int]);
            assert(after.last() == ch);
        }
        if ch == '\n' {
            row_index += 1;
            column_index = 0;
        } else {
            if row_index < H && column_index < W {
                let code = ch as u32;
                let byte = if code < 128 {
                    code as u8
                } else {
                    0x3fu8
                };
                rows[row_index][column_index] = byte;
                proof {
                    assert(byte == lcd_char_byte(ch));
                    assert(rows@[row_index as int]@ =~= old_rows[row_index as int]@.update(
                        column_index as int,
                        byte,
                    ));
                }
            }
            column_index += 1;
        }
        proof {
            lemma_lcd_render_shape(after, W as int, H as int);
            assert forall|r: int| 0 <= r < H implies #[trigger] rows@[r]@ == lcd_render(
                after,
                W as int,
                H as int,
            ).0[r] by {
                assert(old_rows[r]@ == lcd_render(before, W as int, H as int).0[r]);
            }
        }
    }
    proof {
        assert(chars.take(chars.len() as int) =~= chars);
    }
    LcdTextFrame::<MAX_CHARS>::from_rows(rows)
}

/// The text displays a platform exposes.
pub trait LcdText<const W: usize, const H: usize> {
    /// The display's I2C address.
    fn address(&self) -> u8;

    /// Shows `text` (see [`render_lcd_text_frame`]).
    fn write_text(&self, text: &str);
}

/// The byte-oriented I2C transport a platform provides.
pub trait LcdTextWrite {
    /// Writes one byte to the expander at `address`.
    fn write(&mut self, address: u8, data: u8) -> Result<(), LcdTextError>;
}

/// Expander bit driving the backlight.
pub const LCD_BACKLIGHT: u8 = 0x08;

/// Expander bit driving the enable strobe.
pub const LCD_ENABLE: u8 = 0x04;

/// Expander bit selecting data (set) or command (clear).
pub const LCD_RS: u8 = 0x01;

/// The expander byte that puts `nibble` on the data lines, backlight on,
/// register select as given, enable low.
pub open spec fn nibble_data(nibble: u8, rs: bool) -> int {
    (nibble % 16) * 16 + LCD_BACKLIGHT + (if rs { LCD_RS as int } else { 0 })
}

/// The two expander bytes that clock one nibble in: first with enable high,
/// then with it low.
pub fn nibble_strobe_bytes(nibble: u8, rs: bool) -> (bytes: (u8, u8))
    ensures
        bytes.0 == nibble_data(nibble, rs) + LCD_ENABLE,
        bytes.1 == nibble_data(nibble, rs),
{
    let rs_bit = if rs {
        LCD_RS
    } else {
        0
    };
    let data = (nibble << 4) | LCD_BACKLIGHT | rs_bit;
    assert(data == (nibble % 16) * 16 + 8 + rs_bit && (data | 4u8) == data + 4) by (bit_vector)
        requires
            data == (nibble << 4) | 8u8 | rs_bit,
            rs_bit == 0 || rs_bit == 1,
    ;
    (data | LCD_ENABLE, data)
}

/// The high and low nibbles of a byte, in the order the 4-bit protocol
/// sends them.
pub fn byte_nibbles(byte: u8) -> (nibbles: (u8, u8))
    ensures
        nibbles.0 == byte / 16,
        nibbles.1 == byte % 16,
{
    let high = (byte >> 4) & 0x0F;
    let low = byte & 0x0F;
    proof {
        crate::bits::lemma_nibbles(byte);
    }
    (high, low)
}

/// The display-RAM address of the first column of each of the four rows.
pub open spec fn row_start_address(row: int) -> int {
    if row == 0 {
        0
    } else if row == 1 {
        0x40
    } else if row == 2 {
        0x14
    } else {
        0x54
    }
}

/// The HD44780 command that moves the cursor to `row`, `col`, or the error
/// for a row past the fourth.
pub fn cursor_command(row: usize, col: u8) -> (command: Result<u8, LcdTextError>)
    requires
        col + row_start_address(row as int) <= 0xff,
    ensures
        row < 4 ==> command == Ok::<u8, LcdTextError>(
            (0x80 + ((row_start_address(row as int) + col) % 0x80)) as u8,
        ),
        row >= 4 ==> command == Err::<u8, LcdTextError>(LcdTextError::RowOutOfBounds { row }),
{
    let address: u8 = match row {
        0 => col,
        1 => 0x40_u8 + col,
        2 => 0x14_u8 + col,
        3 => 0x54_u8 + col,
        _ => return Err(LcdTextError::RowOutOfBounds { row }),
    };
    let command = 0x80 | address;
    assert(command == 0x80 + address % 0x80) by (bit_vector)
        requires
            command == 0x80u8 | address,
    ;
    Ok(command)
}

/// The text LCD protocol driver: it remembers the expander's address.
pub struct LcdTextDriver {
    address: u8,
}

impl LcdTextDriver {
    /// The expander address the driver writes to.
    pub closed spec fn spec_address(&self) -> u8 {
        self.address
    }

    /// Creates a driver for the expander at `address`.
    #[must_use]
    pub fn new(address: u8) -> (driver: Self)
        ensures
            driver.spec_address() == address,
    {
        Self { address }
    }

    /// Changes the expander address.
    pub fn set_address(&mut self, address: u8)
        ensures
            final(self).spec_address() == address,
    {
        self.address = address;
    }

    /// The expander address the driver writes to.
    pub fn address(&self) -> (address: u8)
        ensures
            address == self.spec_address(),
    {
        self.address
    }
}

} // verus!
