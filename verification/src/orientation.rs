//! Panel orientation for the fixed 320×240 CYD display, and the plane
//! geometry the display code shares.

use vstd::prelude::*;

verus! {

/// Native panel width in pixels (landscape).
pub const SCREEN_WIDTH: usize = 320;

/// Native panel height in pixels (landscape).
pub const SCREEN_HEIGHT: usize = 240;

/// A point in pixel coordinates.
#[derive(Clone, Copy, Debug, PartialEq, Eq, Hash)]
pub struct Point {
    pub x: i32,
    pub y: i32,
}

impl Point {
    /// Creates a point.
    pub fn new(x: i32, y: i32) -> (point: Self)
        ensures
            point.x == x,
            point.y == y,
    {
        Point { x, y }
    }
}

/// A width and height in pixels.
#[derive(Clone, Copy, Debug, PartialEq, Eq, Hash)]
pub struct Size {
    pub width: u32,
    pub height: u32,
}

impl Size {
    /// Creates a size.
    pub fn new(width: u32, height: u32) -> (size: Self)
        ensures
            size.width == width,
            size.height == height,
    {
        Size { width, height }
    }
}

/// Display orientation for the fixed 320×240 CYD panel: the landscape
/// orientations are 320×240, the portrait ones 240×320.
#[derive(Clone, Copy, Debug, Eq, PartialEq)]
pub enum Orientation {
    /// 320×240.
    Landscape,
    /// 240×320, rotated clockwise.
    Portrait,
    /// 320×240, rotated 180°.
    LandscapeInverted,
    /// 240×320, rotated counterclockwise.
    PortraitInverted,
}

/// The orientation is one of the two portrait ones.
pub open spec fn is_portrait(orientation: Orientation) -> bool {
    orientation is Portrait || orientation is PortraitInverted
}

/// The logical width of an orientation.
pub open spec fn orientation_width(orientation: Orientation) -> int {
    if is_portrait(orientation) {
        SCREEN_HEIGHT as int
    } else {
        SCREEN_WIDTH as int
    }
}

/// The logical height of an orientation.
pub open spec fn orientation_height(orientation: Orientation) -> int {
    if is_portrait(orientation) {
        SCREEN_WIDTH as int
    } else {
        SCREEN_HEIGHT as int
    }
}

/// The next orientation in the four-state display test cycle.
pub open spec fn orientation_next(orientation: Orientation) -> Orientation {
    match orientation {
        Orientation::Landscape => Orientation::Portrait,
        Orientation::Portrait => Orientation::LandscapeInverted,
        Orientation::LandscapeInverted => Orientation::PortraitInverted,
        Orientation::PortraitInverted => Orientation::Landscape,
    }
}

/// Where a native landscape point lands in the logical coordinates of an
/// orientation.
pub open spec fn landscape_to_logical(orientation: Orientation, x: int, y: int) -> (int, int) {
    let w = SCREEN_WIDTH as int;
    let h = SCREEN_HEIGHT as int;
    match orientation {
        Orientation::Landscape => (x, y),
        Orientation::Portrait => (y, w - 1 - x),
        Orientation::LandscapeInverted => (w - 1 - x, h - 1 - y),
        Orientation::PortraitInverted => (h - 1 - y, x),
    }
}

/// Where a logical point of an orientation sits on the native landscape
/// panel.
pub open spec fn logical_to_landscape(orientation: Orientation, x: int, y: int) -> (int, int) {
    let w = SCREEN_WIDTH as int;
    let h = SCREEN_HEIGHT as int;
    match orientation {
        Orientation::Landscape => (x, y),
        Orientation::Portrait => (w - 1 - y, x),
        Orientation::LandscapeInverted => (w - 1 - x, h - 1 - y),
        Orientation::PortraitInverted => (y, h - 1 - x),
    }
}

impl Orientation {
    /// Logical display width for this orientation.
    #[must_use]
    pub fn width(self) -> (width: u32)
        ensures
            width == orientation_width(self),
    {
        match self {
            Orientation::Landscape | Orientation::LandscapeInverted => SCREEN_WIDTH as u32,
            Orientation::Portrait | Orientation::PortraitInverted => SCREEN_HEIGHT as u32,
        }
    }

    /// Logical display height for this orientation.
    #[must_use]
    pub fn height(self) -> (height: u32)
        ensures
            height == orientation_height(self),
    {
        match self {
            Orientation::Landscape | Orientation::LandscapeInverted => SCREEN_HEIGHT as u32,
            Orientation::Portrait | Orientation::PortraitInverted => SCREEN_WIDTH as u32,
        }
    }

    /// Logical display size for this orientation.
    #[must_use]
    pub fn size(self) -> (size: Size)
        ensures
            size.width == orientation_width(self),
            size.height == orientation_height(self),
    {
        Size::new(self.width(), self.height())
    }

    /// Number of display pixels.
    #[must_use]
    pub fn pixels(self) -> (pixels: usize)
        ensures
            pixels == orientation_width(self) * orientation_height(self),
            pixels == SCREEN_WIDTH * SCREEN_HEIGHT,
    {
        proof {
            if is_portrait(self) {
                assert(240 * 320 == 320 * 240);
            }
        }
        self.width() as usize * self.height() as usize
    }

    /// Returns the next orientation in the four-state display test cycle.
    #[must_use]
    pub fn next(self) -> (next: Self)
        ensures
            next == orientation_next(self),
    {
        match self {
            Orientation::Landscape => Orientation::Portrait,
            Orientation::Portrait => Orientation::LandscapeInverted,
            Orientation::LandscapeInverted => Orientation::PortraitInverted,
            Orientation::PortraitInverted => Orientation::Landscape,
        }
    }

    /// Converts a point from the panel's native 320×240 landscape coordinates
    /// into logical display coordinates for this orientation.
    #[must_use]
    pub fn map_landscape_point(self, point: Point) -> (mapped: Point)
        requires
            -0x7000_0000 <= point.x <= 0x7000_0000,
            -0x7000_0000 <= point.y <= 0x7000_0000,
        ensures
            (mapped.x as int, mapped.y as int) == landscape_to_logical(
                self,
                point.x as int,
                point.y as int,
            ),
    {
        let landscape_width = SCREEN_WIDTH as i32;
        let landscape_height = SCREEN_HEIGHT as i32;
        match self {
            Orientation::Landscape => point,
            Orientation::Portrait => Point::new(point.y, landscape_width - 1 - point.x),
            Orientation::LandscapeInverted => Point::new(
                landscape_width - 1 - point.x,
                landscape_height - 1 - point.y,
            ),
            Orientation::PortraitInverted => Point::new(landscape_height - 1 - point.y, point.x),
        }
    }
}

/// Stepping through the orientation cycle four times comes back to the
/// start, and no shorter number of steps does.
pub proof fn law_orientation_cycle_has_period_four(orientation: Orientation)
    ensures
        orientation_next(orientation_next(orientation_next(orientation_next(orientation))))
            == orientation,
        orientation_next(orientation) != orientation,
        orientation_next(orientation_next(orientation)) != orientation,
        orientation_next(orientation_next(orientation_next(orientation))) != orientation,
{
}

/// Every native landscape pixel lands inside the logical screen of each
/// orientation, and mapping back gives the pixel it came from.
pub proof fn law_landscape_mapping_is_a_bijection_onto_the_screen(
    orientation: Orientation,
    x: int,
    y: int,
)
    requires
        0 <= x < SCREEN_WIDTH,
        0 <= y < SCREEN_HEIGHT,
    ensures
        0 <= landscape_to_logical(orientation, x, y).0 < orientation_width(orientation),
        0 <= landscape_to_logical(orientation, x, y).1 < orientation_height(orientation),
        logical_to_landscape(
            orientation,
            landscape_to_logical(orientation, x, y).0,
            landscape_to_logical(orientation, x, y).1,
        ) == (x, y),
{
}

} // verus!
