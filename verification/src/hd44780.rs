//! The byte-and-delay sequences that drive an HD44780 character LCD in
//! 4-bit mode through an I2C expander. Each operation of the LCD drivers
//! (start-up, clearing, moving the cursor, printing, showing a frame or a
//! message) is a plan of expander writes and waits; the caller performs the
//! plan on its transport and timer, stopping at the first failed write.

use vstd::prelude::*;
use crate::lcd_text::{
    byte_nibbles, nibble_data, nibble_strobe_bytes, row_start_address, LcdTextError, LcdTextFrame,
};
use vstd::string::StringSliceAdditionalSpecFns;

verus! {

/// One step of a plan: write a byte to the expander, or wait.
#[derive(Clone, Copy, Debug, PartialEq, Eq)]
pub enum LcdStep {
    /// Write this byte to the expander.
    Write(u8),
    /// Wait this many microseconds.
    DelayMicros(u64),
}

/// Clocking one nibble in: the data with enable high, a microsecond, the
/// data with enable low, then fifty microseconds for the LCD.
pub open spec fn nibble_steps(nibble: u8, rs: bool) -> Seq<LcdStep> {
    seq![
        LcdStep::Write((nibble_data(nibble, rs) + 4) as u8),
        LcdStep::DelayMicros(1),
        LcdStep::Write(nibble_data(nibble, rs) as u8),
        LcdStep::DelayMicros(50),
    ]
}

/// Sending one byte: its high nibble, then its low nibble.
pub open spec fn byte_steps(byte: u8, rs: bool) -> Seq<LcdStep> {
    nibble_steps((byte / 16) as u8, rs) + nibble_steps((byte % 16) as u8, rs)
}

/// Sending bytes as data, one after the other.
pub open spec fn data_steps(bytes: Seq<u8>) -> Seq<LcdStep>
    decreases bytes.len(),
{
    if bytes.len() == 0 {
        Seq::empty()
    } else {
        data_steps(bytes.drop_last()) + byte_steps(bytes.last(), true)
    }
}

/// The start-up sequence: wait for power, three times the 8-bit function
/// set with the datasheet's waits, switch to 4-bit, then set two lines and
/// a 5×8 font, display on without cursor, clear (and wait), and increment
/// the cursor without shifting.
pub open spec fn init_steps() -> Seq<LcdStep> {
    seq![LcdStep::DelayMicros(50_000)] + nibble_steps(3, false) + seq![
        LcdStep::DelayMicros(5_000),
    ] + nibble_steps(3, false) + seq![LcdStep::DelayMicros(150)] + nibble_steps(3, false)
        + nibble_steps(2, false) + byte_steps(0x28, false) + byte_steps(0x0C, false) + byte_steps(
        0x01,
        false,
    ) + seq![LcdStep::DelayMicros(2_000)] + byte_steps(0x06, false)
}

/// Clearing the display, then waiting two milliseconds.
pub open spec fn clear_steps() -> Seq<LcdStep> {
    byte_steps(0x01, false) + seq![LcdStep::DelayMicros(2_000)]
}

/// Moving the cursor to column `col` of row `row` (one of the four rows).
pub open spec fn cursor_steps(row: int, col: u8) -> Seq<LcdStep> {
    byte_steps((0x80 + (row_start_address(row) + col) % 0x80) as u8, false)
}

/// A plan being built.
fn push_nibble(steps: &mut Vec<LcdStep>, nibble: u8, rs: bool)
    ensures
        final(steps)@ == old(steps)@ + nibble_steps(nibble, rs),
{
    let (strobe, data) = nibble_strobe_bytes(nibble, rs);
    steps.push(LcdStep::Write(strobe));
    steps.push(LcdStep::DelayMicros(1));
    steps.push(LcdStep::Write(data));
    steps.push(LcdStep::DelayMicros(50));
    assert(final(steps)@ =~= old(steps)@ + nibble_steps(nibble, rs));
}

fn push_byte(steps: &mut Vec<LcdStep>, byte: u8, rs: bool)
    ensures
        final(steps)@ == old(steps)@ + byte_steps(byte, rs),
{
    let (high, low) = byte_nibbles(byte);
    push_nibble(steps, high, rs);
    push_nibble(steps, low, rs);
    assert(final(steps)@ =~= old(steps)@ + byte_steps(byte, rs));
}

fn push_delay(steps: &mut Vec<LcdStep>, micros: u64)
    ensures
        final(steps)@ == old(steps)@.push(LcdStep::DelayMicros(micros)),
{
    steps.push(LcdStep::DelayMicros(micros));
}

fn push_data(steps: &mut Vec<LcdStep>, bytes: &[u8], start: usize, end: usize)
    requires
        start <= end <= bytes@.len(),
    ensures
        final(steps)@ == old(steps)@ + data_steps(bytes@.subrange(start as int, end as int)),
{
    let mut index = start;
    while index < end
        invariant
            start <= index <= end,
            end <= bytes@.len(),
            steps@ == old(steps)@ + data_steps(bytes@.subrange(start as int, index as int)),
        decreases end - index,
    {
        let ghost before = steps@;
        push_byte(steps, bytes[index], true);
        proof {
            let done = bytes@.subrange(start as int, index + 1);
            assert(done.drop_last() =~= bytes@.subrange(start as int, index as int));
            assert(done.last() == bytes@[index as int]);
            assert(steps@ =~= old(steps)@ + data_steps(done));
        }
        index += 1;
    }
}

/// The start-up plan.
pub fn init_plan() -> (steps: Vec<LcdStep>)
    ensures
        steps@ == init_steps(),
{
    let mut steps: Vec<LcdStep> = Vec::new();
    push_delay(&mut steps, 50_000);
    push_nibble(&mut steps, 3, false);
    push_delay(&mut steps, 5_000);
    push_nibble(&mut steps, 3, false);
    push_delay(&mut steps, 150);
    push_nibble(&mut steps, 3, false);
    push_nibble(&mut steps, 2, false);
    push_byte(&mut steps, 0x28, false);
    push_byte(&mut steps, 0x0C, false);
    push_byte(&mut steps, 0x01, false);
    push_delay(&mut steps, 2_000);
    push_byte(&mut steps, 0x06, false);
    assert(steps@ =~= init_steps());
    steps
}

/// The rows of a frame the display shows: at most four.
pub open spec fn shown_rows(height: int) -> int {
    if height < 4 { height } else { 4 }
}

/// The plan that shows a text frame: clear, then each row from its first
/// column. A frame of more than four rows writes the first four and then
/// fails on the fifth.
pub fn frame_plan<const MAX_CHARS: usize>(frame: &LcdTextFrame<MAX_CHARS>) -> (plan: (
    Vec<LcdStep>,
    Result<(), LcdTextError>,
))
    requires
        frame.width * shown_rows(frame.height as int) <= MAX_CHARS,
    ensures
        plan.0@ == clear_steps() + frame_rows_steps(
            frame.cells@,
            frame.width as int,
            shown_rows(frame.height as int),
        ),
        frame.height > 4 ==> plan.1 == Err::<(), LcdTextError>(
            LcdTextError::RowOutOfBounds { row: 4 },
        ),
        frame.height <= 4 ==> plan.1 is Ok,
{
    let width = frame.width;
    let rows = if frame.height < 4 {
        frame.height
    } else {
        4
    };
    let cells = frame.cells.as_slice();
    proof {
        broadcast use vstd::array::group_array_axioms;
        assert(cells@ == frame.cells@);
    }
    let cells_len = cells.len();
    let mut steps: Vec<LcdStep> = Vec::new();
    push_byte(&mut steps, 0x01, false);
    push_delay(&mut steps, 2_000);
    assert(steps@ =~= clear_steps() + frame_rows_steps(cells@, width as int, 0));
    let mut row = 0usize;
    while row < rows
        invariant
            row <= rows,
            rows <= 4,
            cells_len == cells@.len(),
            width * rows <= cells_len,
            steps@ == clear_steps() + frame_rows_steps(cells@, width as int, row as int),
        decreases rows - row,
    {
        proof {
            assert((row + 1) * width <= width * rows) by (nonlinear_arith)
                requires
                    row < rows,
            ;
            assert(row * width + width == (row + 1) * width) by (nonlinear_arith);
            assert(row * width <= (row + 1) * width) by (nonlinear_arith);
        }
        let address: u8 = match row {
            0 => 0,
            1 => 0x40,
            2 => 0x14,
            _ => 0x54,
        };
        let command = 0x80u8 | address;
        assert(command == 0x80 + address % 0x80) by (bit_vector)
            requires
                command == 0x80u8 | address,
        ;
        push_byte(&mut steps, command, false);
        push_data(&mut steps, cells, row * width, row * width + width);
        proof {
            assert(steps@ =~= clear_steps() + frame_rows_steps(cells@, width as int, row + 1));
        }
        row += 1;
    }
    if frame.height > 4 {
        (steps, Err(LcdTextError::RowOutOfBounds { row: 4 }))
    } else {
        (steps, Ok(()))
    }
}

/// Moving to each of the first `rows` rows and writing its `width` cells.
pub open spec fn frame_rows_steps(cells: Seq<u8>, width: int, rows: int) -> Seq<LcdStep>
    decreases rows,
{
    if rows <= 0 {
        Seq::empty()
    } else {
        frame_rows_steps(cells, width, rows - 1) + cursor_steps(rows - 1, 0) + data_steps(
            cells.subrange((rows - 1) * width, rows * width),
        )
    }
}

/// The first newline byte in `bytes`, if any.
pub open spec fn first_newline(bytes: Seq<u8>) -> Option<int> {
    if exists|i: int| 0 <= i < bytes.len() && bytes[i] == 0x0a {
        Some(
            choose|i: int|
                0 <= i < bytes.len() && bytes[i] == 0x0a && forall|j: int|
                    0 <= j < i ==> bytes[j] != 0x0a,
        )
    } else {
        None
    }
}

/// The plan that shows a message: clear, then the text before the first
/// newline on the first line and the rest at the start of the second (or
/// the whole text when it has no newline), then the minimum display time.
pub open spec fn message_steps(bytes: Seq<u8>, duration_ms: u32) -> Seq<LcdStep> {
    let body = match first_newline(bytes) {
        Some(i) => data_steps(bytes.subrange(0, i)) + cursor_steps(1, 0) + data_steps(
            bytes.subrange(i + 1, bytes.len() as int),
        ),
        None => data_steps(bytes),
    };
    clear_steps() + body + if duration_ms > 0 {
        seq![LcdStep::DelayMicros((duration_ms * 1000) as u64)]
    } else {
        Seq::empty()
    }
}

/// The plan that shows `text` for at least `duration_ms` milliseconds.
pub fn message_plan(text: &str, duration_ms: u32) -> (steps: Vec<LcdStep>)
    ensures
        steps@ == message_steps(text.spec_bytes(), duration_ms),
{
    let bytes = text.as_bytes();
    let len = bytes.len();
    let mut steps: Vec<LcdStep> = Vec::new();
    push_byte(&mut steps, 0x01, false);
    push_delay(&mut steps, 2_000);
    let mut newline: Option<usize> = None;
    let mut index = 0usize;
    while index < len
        invariant_except_break
            newline is None,
        invariant
            index <= len,
            len == bytes@.len(),
            forall|j: int| 0 <= j < index ==> bytes@[j] != 0x0a,
        ensures
            newline is None ==> forall|j: int| 0 <= j < len ==> bytes@[j] != 0x0a,
            newline matches Some(i) ==> i < len && bytes@[i as int] == 0x0a && forall|j: int|
                0 <= j < i ==> bytes@[j] != 0x0a,
        decreases len - index,
    {
        if bytes[index] == 0x0a {
            newline = Some(index);
            break;
        }
        index += 1;
    }
    proof {
        match newline {
            Some(i) => {
                assert(exists|k: int| 0 <= k < bytes@.len() && bytes@[k] == 0x0a);
                let chosen = choose|k: int|
                    0 <= k < bytes@.len() && bytes@[k] == 0x0a && forall|j: int|
                        0 <= j < k ==> bytes@[j] != 0x0a;
                assert(0 <= chosen < bytes@.len() && bytes@[chosen] == 0x0a && forall|j: int|
                    0 <= j < chosen ==> bytes@[j] != 0x0a) by {
                    assert(0 <= i < bytes@.len() && bytes@[i as int] == 0x0a && forall|j: int|
                        0 <= j < i ==> bytes@[j] != 0x0a);
                }
                if chosen < i {
                    assert(bytes@[chosen] != 0x0a);
                }
                if chosen > i {
                    assert(bytes@[i as int] != 0x0a);
                }
                assert(first_newline(bytes@) == Some(i as int));
            },
            None => {
                assert(first_newline(bytes@) is None);
            },
        }
    }
    match newline {
        Some(split) => {
            push_data(&mut steps, bytes, 0, split);
            push_byte(&mut steps, 0xC0, false);
            push_data(&mut steps, bytes, split + 1, len);
        },
        None => {
            push_data(&mut steps, bytes, 0, len);
            assert(bytes@.subrange(0, len as int) =~= bytes@);
        },
    }
    if duration_ms > 0 {
        push_delay(&mut steps, duration_ms as u64 * 1000);
    }
    assert(steps@ =~= message_steps(bytes@, duration_ms));
    steps
}

} // verus!
