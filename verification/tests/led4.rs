use device_envoy_core::led4::{
    circular_outline_animation, multiplex_plan, next_blink_state, next_frame_index, shown_text,
    Animation, AnimationFrame, BitMatrixLed4, BitsToIndexes, BlinkState, MultiplexPlan,
    ANIMATION_MAX_FRAMES, CELL_COUNT, CIRCULAR_OUTLINE_CLOCKWISE, CIRCULAR_OUTLINE_FRAME_MILLIS,
};

#[test]
fn from_text_maps_known_characters() {
    let bit_matrix_led4 = BitMatrixLed4::from_text(&['1', '2', '3', '4']);
    assert_eq!(bit_matrix_led4.iter().count(), CELL_COUNT);
}

#[test]
fn digits_light_their_segments() {
    let matrix = BitMatrixLed4::from_text(&['1', '2', '3', '4']);
    assert_eq!(matrix, BitMatrixLed4::new([0b0000_0110, 0b0101_1011, 0b0100_1111, 0b0110_0110]));
    let unknown = BitMatrixLed4::from_text(&['é', ' ', '0', 'A']);
    assert_eq!(unknown.index(0), 0);
    assert_eq!(unknown.index(1), 0);
    assert_eq!(unknown.index(2), 0b0011_1111);
    assert_eq!(unknown.index(3), 0b0111_0111);
}

#[test]
fn bitor_assign_lights_segment_in_every_cell() {
    let mut matrix = BitMatrixLed4::new([1, 2, 0, 0x80]);
    matrix.bitor_assign(0x80);
    assert_eq!(matrix, BitMatrixLed4::new([0x81, 0x82, 0x80, 0x80]));
    assert_eq!(BitMatrixLed4::default(), BitMatrixLed4::new([0; 4]));
}

#[test]
fn blinking_alternates_and_blanks_the_text() {
    assert!(matches!(next_blink_state(BlinkState::Solid), BlinkState::Solid));
    assert!(matches!(next_blink_state(BlinkState::BlinkingAndOn), BlinkState::BlinkingButOff));
    assert!(matches!(next_blink_state(BlinkState::BlinkingButOff), BlinkState::BlinkingAndOn));
    assert_eq!(shown_text(BlinkState::BlinkingButOff, ['1', '2', '3', '4']), [' '; 4]);
    assert_eq!(shown_text(BlinkState::Solid, ['1', '2', '3', '4']), ['1', '2', '3', '4']);
    assert_eq!(next_frame_index(7, 8), 0);
    assert_eq!(next_frame_index(2, 8), 3);
}

#[test]
fn cells_group_by_pattern_in_first_seen_order() {
    let matrix = BitMatrixLed4::new([0x5b, 0x00, 0x06, 0x5b]);
    let mut groups = BitsToIndexes::default();
    assert_eq!(matrix.bits_to_indexes(&mut groups), Ok(()));
    assert_eq!(
        multiplex_plan(&groups),
        MultiplexPlan::Cycle(vec![(0x5b, vec![0, 3]), (0x06, vec![2])])
    );
}

#[test]
fn one_pattern_shows_steadily_and_a_dark_display_shows_nothing() {
    let mut groups = BitsToIndexes::default();
    BitMatrixLed4::new([0x3f, 0x3f, 0x3f, 0x3f]).bits_to_indexes(&mut groups).unwrap();
    assert_eq!(multiplex_plan(&groups), MultiplexPlan::Steady { bits: 0x3f, indexes: vec![0, 1, 2, 3] });
    BitMatrixLed4::new([0, 0, 0, 0]).bits_to_indexes(&mut groups).unwrap();
    assert_eq!(multiplex_plan(&groups), MultiplexPlan::Dark);
}

#[test]
fn regrouping_replaces_the_previous_grouping() {
    let mut groups = BitsToIndexes::default();
    BitMatrixLed4::new([1, 2, 3, 4]).bits_to_indexes(&mut groups).unwrap();
    BitMatrixLed4::new([0, 9, 0, 9]).bits_to_indexes(&mut groups).unwrap();
    assert_eq!(multiplex_plan(&groups), MultiplexPlan::Steady { bits: 9, indexes: vec![1, 3] });
}

#[test]
fn circular_outline_runs_both_ways() {
    let clockwise = circular_outline_animation(true);
    let counter = circular_outline_animation(false);
    assert_eq!(clockwise.len(), 8);
    assert_eq!(counter.len(), 8);
    assert_eq!(clockwise.frame(0).text, ['\'', '\'', '\'', '\'']);
    assert_eq!(clockwise.frame(4).text, ['_', '_', '_', '_']);
    assert_eq!(counter.frame(0).text, ['(', '\'', '\'', '\'']);
    assert_eq!(counter.frame(1).text, ['<', ' ', ' ', ' ']);
    for index in 0..8 {
        assert_eq!(clockwise.frame(index).text, CIRCULAR_OUTLINE_CLOCKWISE[index]);
        assert_eq!(counter.frame(index).text, CIRCULAR_OUTLINE_CLOCKWISE[7 - index]);
        assert_eq!(clockwise.frame(index).duration_millis, CIRCULAR_OUTLINE_FRAME_MILLIS);
        assert_eq!(counter.frame(index).duration_millis, 120);
    }
}

#[test]
fn a_full_animation_hands_the_frame_back() {
    let mut animation = Animation::new();
    assert!(animation.is_empty());
    for index in 0..ANIMATION_MAX_FRAMES {
        let millis = u64::try_from(index).unwrap();
        assert!(animation.push(AnimationFrame::new(['1', '2', '3', '4'], millis)).is_ok());
    }
    assert_eq!(animation.len(), ANIMATION_MAX_FRAMES);
    let refused = animation.push(AnimationFrame::new(['x', 'x', 'x', 'x'], 7)).unwrap_err();
    assert_eq!(refused.text, ['x', 'x', 'x', 'x']);
    assert_eq!(refused.duration_millis, 7);
    assert_eq!(animation.len(), ANIMATION_MAX_FRAMES);
    assert_eq!(animation.frame(15).duration_millis, 15);
}
