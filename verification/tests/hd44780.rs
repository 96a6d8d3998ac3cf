use device_envoy_core::hd44780::{frame_plan, init_plan, message_plan, LcdStep};
use device_envoy_core::lcd_text::{LcdTextError, LcdTextFrame};

fn writes(steps: &[LcdStep]) -> Vec<u8> {
    steps
        .iter()
        .filter_map(|step| match step {
            LcdStep::Write(byte) => Some(*byte),
            LcdStep::DelayMicros(_) => None,
        })
        .collect()
}

#[test]
fn init_sequence_follows_the_datasheet() {
    let steps = init_plan();
    assert_eq!(steps.len(), 52);
    assert_eq!(
        &steps[..6],
        &[
            LcdStep::DelayMicros(50_000),
            LcdStep::Write(0x3C),
            LcdStep::DelayMicros(1),
            LcdStep::Write(0x38),
            LcdStep::DelayMicros(50),
            LcdStep::DelayMicros(5_000),
        ]
    );
    // 4-bit switch, then function set 0x28 as two nibbles.
    assert_eq!(&writes(&steps)[6..12], &[0x2C, 0x28, 0x2C, 0x28, 0x8C, 0x88]);
    assert_eq!(steps[steps.len() - 9], LcdStep::DelayMicros(2_000));
}

#[test]
fn message_splits_at_the_first_newline() {
    let steps = message_plan("Hi\nyo", 0);
    let bytes = writes(&steps);
    // Clear: 0x01 as command nibbles.
    assert_eq!(&bytes[..4], &[0x0C, 0x08, 0x1C, 0x18]);
    // 'H' = 0x48 as data (RS set).
    assert_eq!(&bytes[4..8], &[0x4D, 0x49, 0x8D, 0x89]);
    // After "Hi": cursor to the second line, command 0xC0.
    assert_eq!(&bytes[12..16], &[0xCC, 0xC8, 0x0C, 0x08]);
    // Then "yo" and no trailing wait.
    assert_eq!(bytes.len(), 4 + 8 + 4 + 8);
    assert!(matches!(steps.last(), Some(LcdStep::DelayMicros(50))));
}

#[test]
fn message_without_newline_stays_on_one_line_and_waits() {
    let steps = message_plan("OK", 1_500);
    assert_eq!(writes(&steps).len(), 4 + 8);
    assert_eq!(steps.last(), Some(&LcdStep::DelayMicros(1_500_000)));
}

#[test]
fn frame_rows_start_at_their_row_addresses() {
    let frame = LcdTextFrame::<32>::from_rows([*b"ab", *b"cd"]);
    let (steps, outcome) = frame_plan(&frame);
    assert_eq!(outcome, Ok(()));
    let bytes = writes(&steps);
    // Clear, row 0 cursor (0x80), "ab", row 1 cursor (0xC0), "cd".
    assert_eq!(bytes.len(), 4 + 4 + 8 + 4 + 8);
    assert_eq!(&bytes[4..8], &[0x8C, 0x88, 0x0C, 0x08]);
    assert_eq!(&bytes[16..20], &[0xCC, 0xC8, 0x0C, 0x08]);
}

#[test]
fn fifth_row_is_out_of_bounds() {
    let frame = LcdTextFrame::<32>::new_blank(2, 5);
    let (steps, outcome) = frame_plan(&frame);
    assert_eq!(outcome, Err(LcdTextError::RowOutOfBounds { row: 4 }));
    assert_eq!(writes(&steps).len(), 4 + 4 * (4 + 8));
}
