use device_envoy_core::orientation::{Orientation, Point, Size};

const ORIENTATIONS: [Orientation; 4] = [
    Orientation::Landscape,
    Orientation::Portrait,
    Orientation::LandscapeInverted,
    Orientation::PortraitInverted,
];

fn inverse_map_logical_point(orientation: Orientation, point: Point) -> Point {
    match orientation {
        Orientation::Landscape => point,
        Orientation::Portrait => Point::new(319 - point.y, point.x),
        Orientation::LandscapeInverted => Point::new(319 - point.x, 239 - point.y),
        Orientation::PortraitInverted => Point::new(point.y, 239 - point.x),
    }
}

#[test]
fn landscape_points_map_inside_each_oriented_screen() {
    for orientation in ORIENTATIONS {
        for position_y in 0..240 {
            for position_x in 0..320 {
                let mapped_point =
                    orientation.map_landscape_point(Point::new(position_x, position_y));
                assert!(mapped_point.x >= 0);
                assert!(mapped_point.y >= 0);
                assert!(mapped_point.x < orientation.width() as i32);
                assert!(mapped_point.y < orientation.height() as i32);
            }
        }
    }
}

#[test]
fn orientation_mapping_round_trips_all_landscape_pixels() {
    for orientation in ORIENTATIONS {
        for position_y in 0..240 {
            for position_x in 0..320 {
                let landscape_point = Point::new(position_x, position_y);
                let logical_point = orientation.map_landscape_point(landscape_point);
                assert_eq!(
                    inverse_map_logical_point(orientation, logical_point),
                    landscape_point
                );
            }
        }
    }
}

#[test]
fn orientation_cycle_visits_each_state_once() {
    for orientation in ORIENTATIONS {
        let mut next_orientation = orientation;
        for expected_orientation in [
            orientation.next(),
            orientation.next().next(),
            orientation.next().next().next(),
            orientation,
        ] {
            next_orientation = next_orientation.next();
            assert_eq!(next_orientation, expected_orientation);
        }
    }
}

#[test]
fn portrait_size_swaps_landscape_dimensions() {
    assert_eq!(Orientation::Portrait.size(), Size::new(240, 320));
    assert_eq!(Orientation::Landscape.size(), Size::new(320, 240));
    assert_eq!(Orientation::PortraitInverted.pixels(), 76_800);
    assert_eq!(Orientation::LandscapeInverted.width(), 320);
}
