//! Splits a display region into tiles so drawing needs only one small buffer.
//!
//! A [`TileGrid`] describes where the pieces of a region live in screen
//! coordinates and how large the one shared frame buffer must be. A
//! [`TileCursor`] walks the tiles of a grid in row-major order.

use vstd::prelude::*;
use crate::orientation::{Point, Size};

verus! {

/// An axis-aligned rectangle: its top-left corner and its size.
#[derive(Clone, Copy, Debug, PartialEq, Eq, Hash)]
pub struct Rectangle {
    pub top_left: Point,
    pub size: Size,
}

impl Rectangle {
    /// Creates a rectangle from its top-left corner and its size.
    pub fn new(top_left: Point, size: Size) -> (rectangle: Self)
        ensures
            rectangle.top_left == top_left,
            rectangle.size == size,
    {
        Rectangle { top_left, size }
    }
}

/// Number of pixels a rectangle covers.
pub open spec fn pixel_count(rectangle: Rectangle) -> int {
    rectangle.size.width * rectangle.size.height
}

/// The larger of two integers.
pub open spec fn max_int(first: int, second: int) -> int {
    if first > second { first } else { second }
}

/// The smaller of two integers.
pub open spec fn min_int(first: int, second: int) -> int {
    if first < second { first } else { second }
}

/// `numerator / denominator`, rounded up.
pub open spec fn ceil_div(numerator: int, denominator: int) -> int {
    (numerator + denominator - 1) / denominator
}

/// Returns the frame-buffer capacity needed for one rectangular region.
///
/// The product is formed in `u32`, so it must fit there.
pub fn rectangle_pixel_count(rectangle: Rectangle) -> (count: usize)
    requires
        pixel_count(rectangle) <= u32::MAX,
    ensures
        count == pixel_count(rectangle),
{
    (rectangle.size.width * rectangle.size.height) as usize
}

/// Returns the capacity needed to reuse one frame buffer for either rectangle.
pub fn max_rectangle_pixel_count(first: Rectangle, second: Rectangle) -> (count: usize)
    requires
        pixel_count(first) <= u32::MAX,
        pixel_count(second) <= u32::MAX,
    ensures
        count == max_int(pixel_count(first), pixel_count(second)),
{
    let first_count = rectangle_pixel_count(first);
    let second_count = rectangle_pixel_count(second);
    if first_count > second_count {
        first_count
    } else {
        second_count
    }
}

fn min_usize(first: usize, second: usize) -> (smaller: usize)
    ensures
        smaller == min_int(first as int, second as int),
{
    if first < second {
        first
    } else {
        second
    }
}

/// A display region divided into `columns` × `rows` tiles for low-memory
/// drawing.
///
/// The nominal tile size is the region size divided by the tile count,
/// rounded up; when the region does not divide evenly, the final column or
/// row is clipped to the region's right or bottom edge.
#[derive(Clone, Copy, Debug, PartialEq, Eq)]
pub struct TileGrid {
    rectangle: Rectangle,
    columns: usize,
    rows: usize,
}

impl TileGrid {
    /// At least one tile in each direction, and no more tiles than pixels.
    #[verifier::type_invariant]
    spec fn counts_fit_region(self) -> bool {
        &&& 0 < self.columns <= self.rectangle.size.width
        &&& 0 < self.rows <= self.rectangle.size.height
    }

    /// The region covered by the grid.
    pub closed spec fn region(self) -> Rectangle {
        self.rectangle
    }

    /// The number of tile columns.
    pub closed spec fn column_count(self) -> int {
        self.columns as int
    }

    /// The number of tile rows.
    pub closed spec fn row_count(self) -> int {
        self.rows as int
    }

    /// Nominal tile width.
    pub open spec fn nominal_width(self) -> int {
        ceil_div(self.region().size.width as int, self.column_count())
    }

    /// Nominal tile height.
    pub open spec fn nominal_height(self) -> int {
        ceil_div(self.region().size.height as int, self.row_count())
    }

    /// Horizontal offset of `column` from the region's left edge.
    pub open spec fn column_offset(self, column: int) -> int {
        column * self.nominal_width()
    }

    /// Vertical offset of `row` from the region's top edge.
    pub open spec fn row_offset(self, row: int) -> int {
        row * self.nominal_height()
    }

    /// Whether the tile at `(column, row)` starts inside the region.
    pub open spec fn tile_in_region(self, column: int, row: int) -> bool {
        &&& self.column_offset(column) < self.region().size.width
        &&& self.row_offset(row) < self.region().size.height
    }

    /// The tile at `(column, row)`: the nominal tile moved to its offset and
    /// clipped to the region, or `None` when it starts outside the region.
    ///
    /// The offsets are added to the corner in 32-bit signed coordinates.
    pub open spec fn tile_at(self, column: int, row: int) -> Option<Rectangle> {
        if self.tile_in_region(column, row) {
            let width = min_int(
                self.nominal_width(),
                self.region().size.width - self.column_offset(column),
            );
            let height = min_int(
                self.nominal_height(),
                self.region().size.height - self.row_offset(row),
            );
            Some(
                Rectangle {
                    top_left: Point {
                        x: (self.region().top_left.x + (self.column_offset(column) as i32)) as i32,
                        y: (self.region().top_left.y + (self.row_offset(row) as i32)) as i32,
                    },
                    size: Size { width: width as u32, height: height as u32 },
                },
            )
        } else {
            None
        }
    }

    /// Whether asking for the tile at `(column, row)` stays within the
    /// machine's integers: the offsets fit in `usize`, and a tile inside the
    /// region has a corner that fits in `i32`.
    pub open spec fn tile_computable(self, column: int, row: int) -> bool {
        &&& self.column_offset(column) <= usize::MAX
        &&& self.row_offset(row) <= usize::MAX
        &&& self.tile_in_region(column, row) ==> {
            &&& i32::MIN <= self.region().top_left.x + (self.column_offset(column) as i32)
                <= i32::MAX
            &&& i32::MIN <= self.region().top_left.y + (self.row_offset(row) as i32)
                <= i32::MAX
        }
    }

    /// Creates a grid splitting `rectangle` into `columns` × `rows` tiles.
    ///
    /// Each count must be positive and no larger than the matching
    /// dimension of the rectangle.
    pub fn new(rectangle: Rectangle, columns: usize, rows: usize) -> (grid: Self)
        requires
            0 < columns <= rectangle.size.width,
            0 < rows <= rectangle.size.height,
        ensures
            grid.region() == rectangle,
            grid.column_count() == columns,
            grid.row_count() == rows,
    {
        TileGrid { rectangle, columns, rows }
    }

    /// Returns the display region covered by this grid.
    pub fn rectangle(&self) -> (rectangle: Rectangle)
        ensures
            rectangle == self.region(),
    {
        self.rectangle
    }

    /// Number of tile columns the rectangle is split into.
    pub fn columns(&self) -> (columns: usize)
        ensures
            columns == self.column_count(),
            0 < columns <= self.region().size.width,
    {
        proof {
            use_type_invariant(self);
        }
        self.columns
    }

    /// Number of tile rows the rectangle is split into.
    pub fn rows(&self) -> (rows: usize)
        ensures
            rows == self.row_count(),
            0 < rows <= self.region().size.height,
    {
        proof {
            use_type_invariant(self);
        }
        self.rows
    }

    /// Nominal tile width: the rectangle width divided by the column count,
    /// rounded up.
    pub fn tile_width(&self) -> (width: usize)
        ensures
            width == self.nominal_width(),
            0 < width <= self.region().size.width,
    {
        proof {
            use_type_invariant(self);
        }
        let width = self.rectangle.size.width as usize;
        proof {
            lemma_ceil_div_bounds(width as int, self.columns as int);
        }
        width / self.columns + if width % self.columns == 0 { 0 } else { 1 }
    }

    /// Nominal tile height: the rectangle height divided by the row count,
    /// rounded up.
    pub fn tile_height(&self) -> (height: usize)
        ensures
            height == self.nominal_height(),
            0 < height <= self.region().size.height,
    {
        proof {
            use_type_invariant(self);
        }
        let height = self.rectangle.size.height as usize;
        proof {
            lemma_ceil_div_bounds(height as int, self.rows as int);
        }
        height / self.rows + if height % self.rows == 0 { 0 } else { 1 }
    }

    /// Largest pixel count any single tile can have: the frame-buffer
    /// capacity that every tile of the grid fits in.
    pub fn max_tile_pixel_count(&self) -> (count: usize)
        requires
            min_int(self.nominal_width(), self.region().size.width as int) * min_int(
                self.nominal_height(),
                self.region().size.height as int,
            ) <= usize::MAX,
        ensures
            count == min_int(self.nominal_width(), self.region().size.width as int) * min_int(
                self.nominal_height(),
                self.region().size.height as int,
            ),
    {
        let widest = min_usize(self.tile_width(), self.rectangle.size.width as usize);
        let tallest = min_usize(self.tile_height(), self.rectangle.size.height as usize);
        widest * tallest
    }

    /// The tile at `(column, row)` in display coordinates, or `None` if it
    /// lies outside the rectangle.
    ///
    /// The final column or row may be narrower or shorter than the nominal
    /// tile size when the rectangle does not divide evenly.
    pub fn tile(&self, column: usize, row: usize) -> (tile: Option<Rectangle>)
        requires
            self.tile_computable(column as int, row as int),
        ensures
            tile == self.tile_at(column as int, row as int),
    {
        let tile_width = self.tile_width();
        let tile_height = self.tile_height();
        let column_offset = column * tile_width;
        let row_offset = row * tile_height;

        let region_width = self.rectangle.size.width as usize;
        let region_height = self.rectangle.size.height as usize;
        if column_offset >= region_width || row_offset >= region_height {
            return None;
        }

        let width = min_usize(tile_width, region_width - column_offset);
        let height = min_usize(tile_height, region_height - row_offset);
        let size = Size::new(width as u32, height as u32);
        let top_left = Point::new(
            self.rectangle.top_left.x + column_offset as i32,
            self.rectangle.top_left.y + row_offset as i32,
        );
        Some(Rectangle::new(top_left, size))
    }
}

/// Ceiling division by a positive count no larger than the numerator gives
/// a positive quotient no larger than the numerator, and the exact integer
/// expression computes it.
proof fn lemma_ceil_div_bounds(numerator: int, count: int)
    requires
        0 < count <= numerator,
    ensures
        ceil_div(numerator, count) == numerator / count + if numerator % count == 0 {
            0int
        } else {
            1int
        },
        0 < ceil_div(numerator, count) <= numerator,
{
    assert(ceil_div(numerator, count) == numerator / count + if numerator % count == 0 {
        0int
    } else {
        1int
    }) by (nonlinear_arith)
        requires
            0 < count <= numerator,
    {
        let q = numerator / count;
        let r = numerator % count;
        assert(numerator == q * count + r);
        assert(0 <= r < count);
        if r == 0 {
            assert(numerator + count - 1 == q * count + (count - 1));
            assert((numerator + count - 1) / count == q);
        } else {
            assert(numerator + count - 1 == (q + 1) * count + (r - 1));
            assert((numerator + count - 1) / count == q + 1);
        }
    }
    assert(0 < ceil_div(numerator, count) <= numerator) by (nonlinear_arith)
        requires
            0 < count <= numerator,
    {
        let q = numerator / count;
        let r = numerator % count;
        assert(numerator == q * count + r);
        assert(q >= 1);
        assert(q * count >= q);
    }
}


/// Whether `(column, row)` comes strictly before `(other_column, other_row)`
/// in row-major order.
pub open spec fn before(column: int, row: int, other_column: int, other_row: int) -> bool {
    row < other_row || (row == other_row && column < other_column)
}

impl TileGrid {
    /// Whether `(column, row)` names a cell of the grid.
    pub open spec fn has_cell(self, column: int, row: int) -> bool {
        0 <= column < self.column_count() && 0 <= row < self.row_count()
    }

    /// Whether every cell of the grid can be asked for its tile.
    pub open spec fn all_tiles_computable(self) -> bool {
        forall|column: int, row: int|
            #![trigger self.tile_at(column, row)]
            self.has_cell(column, row) ==> self.tile_computable(column, row)
    }
}

/// A row-major walk over the tiles of a grid that skips the cells whose tile
/// lies outside the region.
#[derive(Clone, Copy, Debug)]
pub struct TileCursor {
    grid: TileGrid,
    column: usize,
    row: usize,
}

impl TileCursor {
    /// The cursor stands on a cell of the grid, or just past its last row.
    #[verifier::type_invariant]
    spec fn position_in_grid(self) -> bool {
        &&& 0 < self.grid.columns <= self.grid.rectangle.size.width
        &&& 0 < self.grid.rows <= self.grid.rectangle.size.height
        &&& self.column < self.grid.columns
        &&& self.row <= self.grid.rows
        &&& self.row == self.grid.rows ==> self.column == 0
    }

    /// The grid being walked.
    pub closed spec fn walked_grid(self) -> TileGrid {
        self.grid
    }

    /// The column of the next cell to visit.
    pub closed spec fn next_column(self) -> int {
        self.column as int
    }

    /// The row of the next cell to visit; the row count once every cell has
    /// been visited.
    pub closed spec fn next_row(self) -> int {
        self.row as int
    }

    /// Starts a walk at the grid's first cell.
    pub fn new(grid: TileGrid) -> (cursor: Self)
        ensures
            cursor.walked_grid() == grid,
            cursor.next_column() == 0,
            cursor.next_row() == 0,
    {
        proof {
            use_type_invariant(&grid);
        }
        TileCursor { grid, column: 0, row: 0 }
    }

    /// Returns the next tile in row-major order that lies inside the region,
    /// moving past it, or `None` once every cell has been visited.
    ///
    /// The cells skipped on the way have no tile. After `None` the cursor
    /// stands past the last row and stays there.
    pub fn next(&mut self) -> (tile: Option<Rectangle>)
        requires
            old(self).walked_grid().all_tiles_computable(),
        ensures
            final(self).walked_grid() == old(self).walked_grid(),
            ({
                let grid = old(self).walked_grid();
                let (start_column, start_row) = (old(self).next_column(), old(self).next_row());
                let (end_column, end_row) = (final(self).next_column(), final(self).next_row());
                match tile {
                    Some(rectangle) => {
                        let found_column = if end_column == 0 {
                            grid.column_count() - 1
                        } else {
                            end_column - 1
                        };
                        let found_row = if end_column == 0 { end_row - 1 } else { end_row };
                        &&& grid.has_cell(found_column, found_row)
                        &&& !before(found_column, found_row, start_column, start_row)
                        &&& grid.tile_at(found_column, found_row) == Some(rectangle)
                        &&& forall|column: int, row: int|
                            #![trigger grid.tile_at(column, row)]
                            grid.has_cell(column, row) && !before(
                                column,
                                row,
                                start_column,
                                start_row,
                            ) && before(column, row, found_column, found_row)
                                ==> grid.tile_at(column, row) is None
                    },
                    None => {
                        &&& end_column == 0
                        &&& end_row == grid.row_count()
                        &&& forall|column: int, row: int|
                            #![trigger grid.tile_at(column, row)]
                            grid.has_cell(column, row) && !before(
                                column,
                                row,
                                start_column,
                                start_row,
                            ) ==> grid.tile_at(column, row) is None
                    },
                }
            }),
    {
        proof {
            use_type_invariant(&*self);
        }
        let grid = self.grid;
        let columns = grid.columns();
        let rows = grid.rows();
        let ghost start_column = self.column as int;
        let ghost start_row = self.row as int;
        loop
            invariant
                self.grid == grid,
                grid.all_tiles_computable(),
                columns == grid.column_count(),
                rows == grid.row_count(),
                0 < grid.columns <= grid.rectangle.size.width,
                0 < grid.rows <= grid.rectangle.size.height,
                self.column < columns,
                self.row <= rows,
                self.row == rows ==> self.column == 0,
                start_column == old(self).next_column(),
                start_row == old(self).next_row(),
                grid == old(self).walked_grid(),
                !before(self.column as int, self.row as int, start_column, start_row),
                forall|column: int, row: int|
                    #![trigger grid.tile_at(column, row)]
                    grid.has_cell(column, row) && !before(column, row, start_column, start_row)
                        && before(column, row, self.column as int, self.row as int)
                        ==> grid.tile_at(column, row) is None,
            decreases rows - self.row, columns - self.column,
        {
            if self.row >= rows {
                return None;
            }
            let ghost here_column = self.column as int;
            let ghost here_row = self.row as int;
            assert(grid.has_cell(here_column, here_row));
            assert(grid.tile_computable(here_column, here_row)) by {
                assert(grid.tile_at(here_column, here_row) == grid.tile_at(here_column, here_row));
            }
            let rectangle = grid.tile(self.column, self.row);
            let next_column = self.column + 1;
            if next_column >= columns {
                *self = TileCursor { grid, column: 0, row: self.row + 1 };
            } else {
                *self = TileCursor { grid, column: next_column, row: self.row };
            }
            if rectangle.is_some() {
                return rectangle;
            }
        }
    }
}


/// Whether pixel `(x, y)` lies in `rectangle`.
pub open spec fn contains(rectangle: Rectangle, x: int, y: int) -> bool {
    &&& rectangle.top_left.x <= x < rectangle.top_left.x + rectangle.size.width
    &&& rectangle.top_left.y <= y < rectangle.top_left.y + rectangle.size.height
}

/// Whether `inner` lies within `outer`.
pub open spec fn within(inner: Rectangle, outer: Rectangle) -> bool {
    &&& outer.top_left.x <= inner.top_left.x
    &&& inner.top_left.x + inner.size.width <= outer.top_left.x + outer.size.width
    &&& outer.top_left.y <= inner.top_left.y
    &&& inner.top_left.y + inner.size.height <= outer.top_left.y + outer.size.height
}

/// The offsets of a tile's corner fit the signed coordinates they are
/// added in, so the corner is exact.
pub open spec fn corner_exact(grid: TileGrid, column: int, row: int) -> bool {
    &&& 0 <= grid.column_offset(column) <= i32::MAX
    &&& 0 <= grid.row_offset(row) <= i32::MAX
    &&& i32::MIN <= grid.region().top_left.x + grid.column_offset(column) <= i32::MAX
    &&& i32::MIN <= grid.region().top_left.y + grid.row_offset(row) <= i32::MAX
}

/// A grid's counts are positive and no larger than its region (as every
/// grid value's are).
pub open spec fn counts_fit(grid: TileGrid) -> bool {
    &&& 0 < grid.column_count() <= grid.region().size.width
    &&& 0 < grid.row_count() <= grid.region().size.height
}

/// Every tile of a grid lies within the grid's region: the last column
/// and row are clipped to the region's edges.
pub proof fn law_tiles_lie_within_region(grid: TileGrid, column: int, row: int)
    requires
        counts_fit(grid),
        0 <= column,
        0 <= row,
        grid.tile_in_region(column, row),
        corner_exact(grid, column, row),
    ensures
        grid.tile_at(column, row) matches Some(tile) && within(tile, grid.region()),
{
    let region = grid.region();
    lemma_ceil_div_bounds(region.size.width as int, grid.columns as int);
    lemma_ceil_div_bounds(region.size.height as int, grid.rows as int);
}

/// Every pixel of a grid's region lies in the tile of the column and row
/// its offsets fall in, and that tile exists.
pub proof fn law_every_pixel_has_its_tile(grid: TileGrid, x: int, y: int)
    requires
        counts_fit(grid),
        contains(grid.region(), x, y),
        corner_exact(
            grid,
            (x - grid.region().top_left.x) / grid.nominal_width(),
            (y - grid.region().top_left.y) / grid.nominal_height(),
        ),
    ensures
        ({
            let column = (x - grid.region().top_left.x) / grid.nominal_width();
            let row = (y - grid.region().top_left.y) / grid.nominal_height();
            &&& grid.has_cell(column, row)
            &&& grid.tile_at(column, row) matches Some(tile) && contains(tile, x, y)
        }),
{
    let region = grid.region();
    let tile_width = grid.nominal_width();
    let tile_height = grid.nominal_height();
    lemma_ceil_div_bounds(region.size.width as int, grid.columns as int);
    lemma_ceil_div_bounds(region.size.height as int, grid.rows as int);
    let dx = x - region.top_left.x;
    let dy = y - region.top_left.y;
    let column = dx / tile_width;
    let row = dy / tile_height;
    vstd::arithmetic::div_mod::lemma_fundamental_div_mod(dx, tile_width);
    vstd::arithmetic::div_mod::lemma_fundamental_div_mod(dy, tile_height);
    assert(column * tile_width <= dx < column * tile_width + tile_width);
    assert(row * tile_height <= dy < row * tile_height + tile_height);
    assert(0 <= column && 0 <= row) by {
        vstd::arithmetic::div_mod::lemma_div_pos_is_pos(dx, tile_width);
        vstd::arithmetic::div_mod::lemma_div_pos_is_pos(dy, tile_height);
    }
    lemma_cells_cover(region.size.width as int, grid.columns as int, dx);
    lemma_cells_cover(region.size.height as int, grid.rows as int, dy);
}

/// Ceiling-sized cells: the cell an offset inside the extent falls in is
/// one of the `count` cells.
proof fn lemma_cells_cover(extent: int, count: int, offset: int)
    requires
        0 < count <= extent,
        0 <= offset < extent,
    ensures
        offset / ceil_div(extent, count) < count,
{
    lemma_ceil_div_bounds(extent, count);
    let size = ceil_div(extent, count);
    assert(extent <= size * count) by (nonlinear_arith)
        requires
            size == (extent + count - 1) / count,
            0 < count,
    {
        vstd::arithmetic::div_mod::lemma_fundamental_div_mod(extent + count - 1, count);
    }
    assert(offset / size < count) by (nonlinear_arith)
        requires
            0 <= offset < extent,
            extent <= size * count,
            size > 0,
    {
        vstd::arithmetic::div_mod::lemma_fundamental_div_mod(offset, size);
    }
}

} // verus!
