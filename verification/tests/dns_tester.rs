use device_envoy_core::dns_tester::{
    dashboard_text_items, decimal_text, notice_layout, panel_fill_rgb, panel_strips,
    DnsTesterAlignment, DnsTesterBackground, DnsTesterFont, DnsTesterTextColor,
    DnsTesterUiError, DnsTesterUiNotice, DnsTesterUiState,
};
use device_envoy_core::orientation::{Orientation, Point, Size};
use device_envoy_core::tiling::Rectangle;

fn state(queries: u32, successes: u32, failures: u32, latency: u64) -> DnsTesterUiState {
    DnsTesterUiState {
        target: "example.com",
        queries,
        successes,
        failures,
        last_latency_millis: latency,
    }
}

fn text(bytes: &[u8]) -> &str {
    std::str::from_utf8(bytes).unwrap()
}

#[test]
fn default_state_is_blank() {
    let blank = DnsTesterUiState::default();
    assert_eq!(blank.target, "");
    assert_eq!(blank.queries, 0);
    assert_eq!(blank.successes, 0);
    assert_eq!(blank.failures, 0);
    assert_eq!(blank.last_latency_millis, 0);
}

#[test]
fn decimal_text_has_no_leading_zeros() {
    assert_eq!(text(&decimal_text(0)), "0");
    assert_eq!(text(&decimal_text(7)), "7");
    assert_eq!(text(&decimal_text(405)), "405");
    assert_eq!(text(&decimal_text(u64::MAX)), "18446744073709551615");
}

#[test]
fn landscape_dashboard_before_first_test() {
    let items = dashboard_text_items::<()>(Orientation::Landscape, state(0, 0, 0, 0)).unwrap();
    assert_eq!(items.len(), 6);
    assert_eq!(text(&items[0].text), "example.com");
    assert_eq!(items[0].rectangle, Rectangle::new(Point::new(22, 76), Size::new(150, 20)));
    assert_eq!(items[0].alignment, DnsTesterAlignment::Left);
    assert_eq!(text(&items[1].text), "TAP");
    assert_eq!(items[1].color, DnsTesterTextColor::Success);
    assert_eq!(text(&items[2].text), "--");
    assert_eq!(items[2].font, DnsTesterFont::ProFont24);
    assert_eq!(text(&items[3].text), "0");
    assert_eq!(text(&items[4].text), "0");
    assert_eq!(items[4].color, DnsTesterTextColor::Success);
    assert_eq!(text(&items[5].text), "0");
    assert_eq!(items[5].color, DnsTesterTextColor::Failure);
    assert_eq!(items[5].rectangle, Rectangle::new(Point::new(243, 156), Size::new(50, 20)));
}

#[test]
fn landscape_dashboard_reports_failures() {
    let items =
        dashboard_text_items::<()>(Orientation::LandscapeInverted, state(12, 10, 2, 37)).unwrap();
    assert_eq!(text(&items[1].text), "FAIL");
    assert_eq!(items[1].color, DnsTesterTextColor::Failure);
    assert_eq!(text(&items[2].text), "37 ms");
    assert_eq!(text(&items[3].text), "12");
    assert_eq!(text(&items[4].text), "10");
    assert_eq!(text(&items[5].text), "2");
}

#[test]
fn landscape_dashboard_reports_success() {
    let items = dashboard_text_items::<()>(Orientation::Landscape, state(3, 3, 0, 120)).unwrap();
    assert_eq!(text(&items[1].text), "OK");
    assert_eq!(items[1].color, DnsTesterTextColor::Success);
    assert_eq!(text(&items[2].text), "120 ms");
}

#[test]
fn portrait_dashboard_has_no_status_box() {
    let items = dashboard_text_items::<()>(Orientation::Portrait, state(4, 3, 1, 9)).unwrap();
    assert_eq!(items.len(), 5);
    assert_eq!(items[0].rectangle, Rectangle::new(Point::new(22, 68), Size::new(190, 20)));
    assert_eq!(text(&items[1].text), "9 ms");
    assert_eq!(items[1].rectangle, Rectangle::new(Point::new(60, 119), Size::new(120, 29)));
    assert_eq!(text(&items[2].text), "4");
    assert_eq!(items[2].alignment, DnsTesterAlignment::Right);
    assert_eq!(items[4].rectangle, Rectangle::new(Point::new(160, 220), Size::new(50, 20)));
}

#[test]
fn latency_longer_than_its_buffer_is_a_text_error() {
    // Thirteen digits plus " ms" fill the sixteen-byte buffer exactly.
    let fits = dashboard_text_items::<()>(Orientation::Landscape, state(1, 1, 0, 9_999_999_999_999));
    assert_eq!(text(&fits.unwrap()[2].text), "9999999999999 ms");
    let too_long =
        dashboard_text_items::<()>(Orientation::Landscape, state(1, 1, 0, 10_000_000_000_000));
    assert!(matches!(too_long, Err(DnsTesterUiError::Text)));
}

#[test]
fn largest_counters_fit() {
    let items =
        dashboard_text_items::<()>(Orientation::Portrait, state(u32::MAX, u32::MAX, u32::MAX, 1))
            .unwrap();
    assert_eq!(text(&items[2].text), "4294967295");
}

#[test]
fn notice_layout_by_orientation() {
    let landscape = notice_layout(Orientation::Landscape, DnsTesterUiNotice::WifiConnecting);
    assert_eq!(landscape.panel, Rectangle::new(Point::new(20, 54), Size::new(280, 112)));
    assert_eq!(text(&landscape.heading.text), "WI-FI");
    assert_eq!(landscape.heading.rectangle, Rectangle::new(Point::new(60, 70), Size::new(200, 29)));
    assert_eq!(text(&landscape.detail.text), "CONNECTING");
    assert_eq!(landscape.detail.rectangle, Rectangle::new(Point::new(60, 110), Size::new(200, 20)));

    let portrait = notice_layout(Orientation::PortraitInverted, DnsTesterUiNotice::WifiUnavailable);
    assert_eq!(portrait.panel, Rectangle::new(Point::new(20, 96), Size::new(200, 80)));
    assert_eq!(portrait.heading.rectangle.top_left, Point::new(60, 104));
    assert_eq!(text(&portrait.detail.text), "UNAVAILABLE");
    assert_eq!(portrait.detail.rectangle.top_left, Point::new(60, 145));
}

#[test]
fn panel_is_filled_in_twenty_row_strips() {
    let strips = panel_strips(Rectangle::new(Point::new(20, 96), Size::new(200, 80)));
    assert_eq!(strips.len(), 4);
    assert_eq!(strips[3], Rectangle::new(Point::new(20, 156), Size::new(200, 20)));

    let strips = panel_strips(Rectangle::new(Point::new(20, 54), Size::new(280, 112)));
    assert_eq!(strips.len(), 6);
    assert_eq!(strips[0], Rectangle::new(Point::new(20, 54), Size::new(280, 20)));
    assert_eq!(strips[5], Rectangle::new(Point::new(20, 154), Size::new(280, 12)));

    assert!(panel_strips(Rectangle::new(Point::new(0, 0), Size::new(10, 0))).is_empty());
}

#[test]
fn colors_and_backgrounds() {
    assert_eq!(DnsTesterTextColor::Value.rgb(), (255, 255, 255));
    assert_eq!(DnsTesterTextColor::Success.rgb(), (121, 226, 164));
    assert_eq!(DnsTesterTextColor::Failure.rgb(), (255, 117, 110));
    assert_eq!(panel_fill_rgb(), (15, 38, 55));
    assert_eq!(
        DnsTesterBackground::for_orientation(Orientation::LandscapeInverted),
        DnsTesterBackground::Landscape
    );
    assert_eq!(
        DnsTesterBackground::for_orientation(Orientation::Portrait),
        DnsTesterBackground::Portrait
    );
}
