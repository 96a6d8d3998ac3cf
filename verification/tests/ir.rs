use device_envoy_core::ir::{KeplerKeys, button_for_press, decode_nec_frame, kepler_mapping};

#[test]
fn standard_nec_frame_has_eight_bit_address() {
    let frame = 0xFF00_u32 | (0x45 << 16) | (0xBA << 24);
    assert_eq!(decode_nec_frame(frame), Some((0x00, 0x45)));
}

#[test]
fn extended_nec_frame_has_sixteen_bit_address() {
    let frame = 0x12_u32 | (0x34 << 8) | (0x07 << 16) | (0xF8 << 24);
    assert_eq!(decode_nec_frame(frame), Some((0x3412, 0x07)));
}

#[test]
fn bad_command_check_byte_is_rejected() {
    let frame = 0x00FF_u32 | (0x45 << 16) | (0xBB << 24);
    assert_eq!(decode_nec_frame(frame), None);
}

#[test]
fn kepler_mapping_finds_keys() {
    let mapping = kepler_mapping();
    assert_eq!(button_for_press(&mapping, 0, 0x45), Some(KeplerKeys::Power));
    assert_eq!(button_for_press(&mapping, 0, 0x4A), Some(KeplerKeys::Num(9)));
    assert_eq!(button_for_press(&mapping, 1, 0x45), None);
}
