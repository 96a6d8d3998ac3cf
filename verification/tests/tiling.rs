use device_envoy_core::orientation::{Point, Size};
use device_envoy_core::tiling::{
    max_rectangle_pixel_count, rectangle_pixel_count, Rectangle, TileCursor, TileGrid,
};

// Body rectangle used by the dance app: 240×286 starting just below a 34 px
// text band, split into a 3×3 tile grid (derived tile size 80×96).
fn body_grid() -> TileGrid {
    TileGrid::new(Rectangle::new(Point::new(0, 34), Size::new(240, 286)), 3, 3)
}

#[test]
fn exact_fit_columns_and_rows() {
    let grid = body_grid();
    assert_eq!(grid.columns(), 3);
    assert_eq!(grid.rows(), 3);
    // 240 / 3 = 80, ceil(286 / 3) = 96.
    assert_eq!(grid.tile_width(), 80);
    assert_eq!(grid.tile_height(), 96);
}

#[test]
fn final_row_is_clipped() {
    // Origin y = 34, rectangle height 286 → last row (row 2) starts at offset
    // 192 and is clipped from 96 to 94 px high.
    let tile = body_grid().tile(0, 2).expect("tile (0, 2) is in range");
    assert_eq!(tile.top_left, Point::new(0, 34 + 192));
    assert_eq!(tile.size.height, 94);
    assert_eq!(tile.size.width, 80);
}

#[test]
fn exact_division_has_no_clipping() {
    // 240×288 rectangle in a 3×3 grid divides evenly into 80×96 tiles.
    let grid = TileGrid::new(Rectangle::new(Point::new(0, 0), Size::new(240, 288)), 3, 3);
    assert_eq!(grid.tile_width(), 80);
    assert_eq!(grid.tile_height(), 96);
    let tile = grid.tile(2, 2).expect("tile (2, 2) is in range");
    assert_eq!(tile.size, Size::new(80, 96));
}

#[test]
fn final_column_and_row_clipping_for_uneven_dimensions() {
    // 250×290 rectangle in a 4×4 grid: tile size ceil(250/4)=63, ceil(290/4)=73.
    // Last column clips to 250 - 3*63 = 61 px, last row to 290 - 3*73 = 71 px.
    let grid = TileGrid::new(Rectangle::new(Point::new(5, 7), Size::new(250, 290)), 4, 4);
    assert_eq!(grid.columns(), 4);
    assert_eq!(grid.rows(), 4);
    assert_eq!(grid.tile_width(), 63);
    assert_eq!(grid.tile_height(), 73);

    let last_column = grid.tile(3, 0).expect("tile (3, 0) is in range");
    assert_eq!(last_column.top_left, Point::new(5 + 189, 7));
    assert_eq!(last_column.size.width, 61);
    assert_eq!(last_column.size.height, 73);

    let last_row = grid.tile(0, 3).expect("tile (0, 3) is in range");
    assert_eq!(last_row.size.height, 71);

    let corner = grid.tile(3, 3).expect("tile (3, 3) is in range");
    assert_eq!(corner.size, Size::new(61, 71));

    // Out of range in either axis is None.
    assert_eq!(grid.tile(4, 0), None);
    assert_eq!(grid.tile(0, 4), None);
}

#[test]
fn max_tile_pixel_count_is_full_tile() {
    assert_eq!(body_grid().max_tile_pixel_count(), 80 * 96);

    // Rectangle smaller in one axis than its single tile still reports the
    // clipped max: a 1×1 grid over 40×50 has a 40×50 tile.
    let small = TileGrid::new(Rectangle::new(Point::new(0, 0), Size::new(40, 50)), 1, 1);
    assert_eq!(small.max_tile_pixel_count(), 40 * 50);
}

#[test]
fn text_band_pixel_count() {
    let text_band = Rectangle::new(Point::new(0, 0), Size::new(240, 34));
    assert_eq!(rectangle_pixel_count(text_band), 8160);
}

#[test]
fn tile_grid_is_row_major() {
    // Row-major walk over (column, row): each row left-to-right, top-to-bottom.
    let grid = body_grid();
    let top_left = |column, row| grid.tile(column, row).expect("tile in range").top_left;
    assert_eq!(top_left(0, 0), Point::new(0, 34));
    assert_eq!(top_left(1, 0), Point::new(80, 34));
    assert_eq!(top_left(2, 0), Point::new(160, 34));
    assert_eq!(top_left(0, 1), Point::new(0, 34 + 96));
}

#[test]
fn tiled_frames_use_logical_display_rectangles() {
    let grid = TileGrid::new(Rectangle::new(Point::new(10, 20), Size::new(8, 6)), 2, 2);
    let mut tiles = TileCursor::new(grid);

    let first = tiles.next().expect("first tile exists");
    assert_eq!(first, Rectangle::new(Point::new(10, 20), Size::new(4, 3)));

    let second = tiles.next().expect("second tile exists");
    assert_eq!(second, Rectangle::new(Point::new(14, 20), Size::new(4, 3)));

    let third = tiles.next().expect("third tile exists");
    assert_eq!(third, Rectangle::new(Point::new(10, 23), Size::new(4, 3)));
}

#[test]
fn cursor_visits_every_tile_then_stops() {
    let grid = TileGrid::new(Rectangle::new(Point::new(10, 20), Size::new(8, 6)), 2, 2);
    let mut tiles = TileCursor::new(grid);
    let mut count = 0;
    while tiles.next().is_some() {
        count += 1;
    }
    assert_eq!(count, 4);
    assert_eq!(tiles.next(), None);
}

#[test]
fn cursor_skips_cells_outside_the_region() {
    // Width 5 in 4 columns gives 2-pixel tiles at offsets 0, 2, 4, 6; the last
    // column starts outside the region and is skipped.
    let grid = TileGrid::new(Rectangle::new(Point::new(0, 0), Size::new(5, 1)), 4, 1);
    assert_eq!(grid.tile(3, 0), None);
    let mut tiles = TileCursor::new(grid);
    let mut widths = Vec::new();
    while let Some(tile) = tiles.next() {
        widths.push(tile.size.width);
    }
    assert_eq!(widths, vec![2, 2, 1]);
}

#[test]
fn larger_of_two_regions_sizes_the_buffer() {
    let header = Rectangle::new(Point::new(0, 0), Size::new(320, 40));
    let footer = Rectangle::new(Point::new(0, 210), Size::new(320, 30));
    assert_eq!(max_rectangle_pixel_count(header, footer), 12_800);
    assert_eq!(max_rectangle_pixel_count(footer, header), 12_800);
}

fn contains(tile: Rectangle, x: i32, y: i32) -> bool {
    tile.top_left.x <= x
        && x < tile.top_left.x + tile.size.width as i32
        && tile.top_left.y <= y
        && y < tile.top_left.y + tile.size.height as i32
}

#[test]
fn every_pixel_lies_in_its_tile_and_tiles_stay_in_the_region() {
    let grid = TileGrid::new(Rectangle::new(Point::new(5, 7), Size::new(250, 290)), 4, 4);
    let region = grid.rectangle();
    for y in [7, 80, 153, 296] {
        for x in [5, 67, 194, 254] {
            let column = ((x - 5) as usize) / grid.tile_width();
            let row = ((y - 7) as usize) / grid.tile_height();
            let tile = grid.tile(column, row).expect("every pixel has a tile");
            assert!(contains(tile, x, y));
            assert!(tile.top_left.x + tile.size.width as i32 <= region.top_left.x + 250);
            assert!(tile.top_left.y + tile.size.height as i32 <= region.top_left.y + 290);
        }
    }
}
