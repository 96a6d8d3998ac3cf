use device_envoy_core::orientation::{Point, Size};
use device_envoy_core::tga::{
    pixel_in_bounds, rgb565_from_rgb888_components, rgb888_from_rgb565, Image565Fixed,
    Image565View,
};
use device_envoy_core::tiling::Rectangle;

fn image() -> &'static Image565Fixed<3, 2, 6> {
    Box::leak(Box::new(Image565Fixed { pixels: [10, 11, 12, 20, 21, 22] }))
}

#[test]
fn full_view_reads_every_pixel() {
    let view = image().view();
    assert_eq!(view.size(), Size::new(3, 2));
    assert_eq!(view.pixel_at(Point::new(0, 0)), 10);
    assert_eq!(view.pixel_at(Point::new(2, 1)), 22);
    assert_eq!(view.pixels_row_major(), vec![10, 11, 12, 20, 21, 22]);
}

#[test]
fn cropped_view_uses_local_coordinates() {
    let view = image().view_rect(Rectangle::new(Point::new(1, 0), Size::new(2, 2)));
    assert_eq!(view.size(), Size::new(2, 2));
    assert_eq!(view.pixel_at(Point::new(0, 0)), 11);
    assert_eq!(view.pixel_at(Point::new(1, 1)), 22);
    assert_eq!(view.pixels_row_major(), vec![11, 12, 21, 22]);
}

#[test]
fn view_over_a_pixel_slice() {
    let pixels: &'static [u16] = Box::leak(vec![1u16, 2, 3, 4].into_boxed_slice());
    let view = Image565View::new(pixels, Size::new(2, 2));
    assert_eq!(view.pixel_at(Point::new(1, 0)), 2);
    assert_eq!(view.pixels_row_major(), vec![1, 2, 3, 4]);
}

#[test]
fn rgb565_round_trips_through_rgb888() {
    assert_eq!(rgb888_from_rgb565(0xffff), (255, 255, 255));
    assert_eq!(rgb888_from_rgb565(0x0000), (0, 0, 0));
    assert_eq!(rgb888_from_rgb565(0xf800), (255, 0, 0));
    assert_eq!(rgb888_from_rgb565(0x07e0), (0, 255, 0));
    assert_eq!(rgb888_from_rgb565(0x0010), (0, 0, 132));
    assert_eq!(rgb565_from_rgb888_components(255, 0, 255), 0xf81f);
    assert_eq!(rgb565_from_rgb888_components(121, 226, 164), 0x7f14);
}

#[test]
fn points_outside_the_target_are_clipped() {
    assert_eq!(pixel_in_bounds(0, 0, 320, 240), Some((0, 0)));
    assert_eq!(pixel_in_bounds(319, 239, 320, 240), Some((319, 239)));
    assert_eq!(pixel_in_bounds(-1, 5, 320, 240), None);
    assert_eq!(pixel_in_bounds(320, 5, 320, 240), None);
    assert_eq!(pixel_in_bounds(5, 240, 320, 240), None);
}
