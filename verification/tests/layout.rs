use device_envoy_core::layout::LedLayout;

#[test]
fn serpentine_column_major_snakes_down_columns() {
    let map: LedLayout<6, 3, 2> = LedLayout::serpentine_column_major();
    let expected: LedLayout<6, 3, 2> =
        LedLayout::new([(0, 0), (0, 1), (1, 1), (1, 0), (2, 0), (2, 1)]);
    assert!(map.equals(&expected));
}

#[test]
fn serpentine_row_major_snakes_across_rows() {
    let map: LedLayout<6, 3, 2> = LedLayout::serpentine_row_major();
    let expected: LedLayout<6, 3, 2> =
        LedLayout::new([(0, 0), (1, 0), (2, 0), (2, 1), (1, 1), (0, 1)]);
    assert!(map.equals(&expected));
}

#[test]
fn rotations_and_flips_match_documented_examples() {
    let serpentine = || LedLayout::<6, 3, 2>::serpentine_column_major();
    let rotated: LedLayout<6, 2, 3> = serpentine().rotate_cw();
    assert!(rotated.equals(&LedLayout::new([(1, 0), (0, 0), (0, 1), (1, 1), (1, 2), (0, 2)])));
    let flipped: LedLayout<6, 3, 2> = serpentine().flip_h();
    assert!(flipped.equals(&LedLayout::new([(2, 0), (2, 1), (1, 1), (1, 0), (0, 0), (0, 1)])));
    let half_turn: LedLayout<6, 3, 2> = serpentine().rotate_180();
    assert!(half_turn.equals(&LedLayout::new([(2, 1), (2, 0), (1, 0), (1, 1), (0, 1), (0, 0)])));
    let ccw: LedLayout<6, 2, 3> = serpentine().rotate_ccw();
    assert!(ccw.equals(&LedLayout::new([(0, 2), (1, 2), (1, 1), (0, 1), (0, 0), (1, 0)])));
    let flipped_v: LedLayout<6, 3, 2> = serpentine().flip_v();
    assert!(flipped_v.equals(&LedLayout::new([(0, 1), (0, 0), (1, 0), (1, 1), (2, 1), (2, 0)])));
}

#[test]
fn explicit_rotation_example() {
    let map: LedLayout<6, 3, 2> =
        LedLayout::new([(0, 0), (1, 0), (2, 0), (2, 1), (1, 1), (0, 1)]);
    let rotated: LedLayout<6, 2, 3> = map.rotate_cw();
    assert!(rotated.equals(&LedLayout::new([(1, 0), (1, 1), (1, 2), (0, 2), (0, 1), (0, 0)])));
}

#[test]
fn four_rotations_restore_the_layout() {
    let map: LedLayout<6, 3, 2> = LedLayout::serpentine_column_major();
    let back: LedLayout<6, 3, 2> = map.rotate_cw().rotate_cw().rotate_cw().rotate_cw();
    assert!(back.equals(&LedLayout::serpentine_column_major()));
    let twice: LedLayout<6, 3, 2> = LedLayout::<6, 3, 2>::serpentine_row_major().flip_h().flip_h();
    assert!(twice.equals(&LedLayout::serpentine_row_major()));
}

#[test]
fn linear_layouts_and_inverse() {
    let linear: LedLayout<6, 6, 1> = LedLayout::linear_h();
    assert!(linear.equals(&LedLayout::new([(0, 0), (1, 0), (2, 0), (3, 0), (4, 0), (5, 0)])));
    let vertical: LedLayout<6, 1, 6> = LedLayout::linear_v();
    assert!(vertical.equals(&LedLayout::new([(0, 0), (0, 1), (0, 2), (0, 3), (0, 4), (0, 5)])));
    let map: LedLayout<6, 3, 2> = LedLayout::serpentine_column_major();
    assert_eq!(map.xy_to_index(), &[0, 3, 4, 1, 2, 5]);
    assert_eq!(map.index_to_xy()[2], (1, 1));
    assert_eq!((map.width(), map.height(), map.len()), (3, 2, 6));
}

#[test]
fn combining_panels() {
    let left: LedLayout<6, 3, 2> = LedLayout::serpentine_column_major();
    let right: LedLayout<6, 3, 2> = LedLayout::serpentine_column_major();
    let combined: LedLayout<12, 6, 2> = left.combine_h::<6, 12, 3, 6>(right);
    let expected: LedLayout<12, 6, 2> = LedLayout::new([
        (0, 0), (0, 1), (1, 1), (1, 0), (2, 0), (2, 1), (3, 0), (3, 1), (4, 1), (4, 0), (5, 0),
        (5, 1),
    ]);
    assert!(combined.equals(&expected));
    let top: LedLayout<6, 3, 2> = LedLayout::serpentine_column_major();
    let bottom: LedLayout<6, 3, 2> = LedLayout::serpentine_column_major();
    let stacked: LedLayout<12, 3, 4> = top.combine_v::<6, 12, 2, 4>(bottom);
    assert_eq!(stacked.index_to_xy()[6], (0, 2));
    assert_eq!(stacked.index_to_xy()[11], (2, 3));
}
