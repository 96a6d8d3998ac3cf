//! Conway's Game of Life on a toroidal board, plus a cooperative search for
//! predecessor boards.

use vstd::prelude::*;
use crate::led2d::{Frame2d, Rgb8};

verus! {

/// Maximum number of backtracking iterations before giving up on the predecessor search.
pub const MAX_SEARCH_ITERATIONS: u32 = 500_000;

/// Search only this many cells away from currently-live target cells.
pub const DEFAULT_PREDECESSOR_SEARCH_RADIUS: usize = 1;

/// Conway pattern presets used by the hardware and web demos.
#[derive(Clone, Copy, Debug, PartialEq, Eq)]
pub enum Pattern {
    Glider,
    Blinker,
    Toad,
    Beacon,
    Lwss,
    Block,
    Pentadecathlon,
    Random,
    Cross,
    Custom9,
}

/// Conway's Game of Life board with toroidal wrapping.
#[derive(Copy, Clone, Debug, PartialEq, Eq)]
pub struct Board<const H: usize, const W: usize> {
    pub cells: [[bool; W]; H],
}

// ---------------------------------------------------------------------------
// Specification of the rules
// ---------------------------------------------------------------------------

/// The index before `i` on a ring of `n` positions.
pub open spec fn ring_prev(i: int, n: int) -> int {
    if i == 0 { n - 1 } else { i - 1 }
}

/// The index after `i` on a ring of `n` positions.
pub open spec fn ring_next(i: int, n: int) -> int {
    if i + 1 == n { 0 } else { i + 1 }
}

pub open spec fn bool_to_int(b: bool) -> int {
    if b { 1 } else { 0 }
}

/// Number of live cells among the eight toroidal neighbors of `(r, c)`, each
/// neighbor position counted once per offset (on boards narrower than three
/// cells a position can be reached by more than one offset).
pub open spec fn live_neighbor_count<const H: usize, const W: usize>(
    cells: [[bool; W]; H],
    r: int,
    c: int,
) -> int {
    let up = ring_prev(r, H as int);
    let down = ring_next(r, H as int);
    let left = ring_prev(c, W as int);
    let right = ring_next(c, W as int);
    bool_to_int(cells[up][left]) + bool_to_int(cells[up][c]) + bool_to_int(cells[up][right])
        + bool_to_int(cells[r][left]) + bool_to_int(cells[r][right]) + bool_to_int(
        cells[down][left],
    ) + bool_to_int(cells[down][c]) + bool_to_int(cells[down][right])
}

/// Conway's rule: a live cell survives with two or three live neighbors, a
/// dead cell is born with exactly three.
pub open spec fn next_alive(alive: bool, live_neighbors: int) -> bool {
    live_neighbors == 3 || (alive && live_neighbors == 2)
}

/// The state of cell `(r, c)` one generation after `cells`.
pub open spec fn next_cell<const H: usize, const W: usize>(
    cells: [[bool; W]; H],
    r: int,
    c: int,
) -> bool {
    next_alive(cells[r][c], live_neighbor_count(cells, r, c))
}

/// `from` becomes exactly `to` after one generation.
pub open spec fn evolves<const H: usize, const W: usize>(
    from: [[bool; W]; H],
    to: [[bool; W]; H],
) -> bool {
    forall|r: int, c: int| 0 <= r < H && 0 <= c < W ==> #[trigger] to[r][c] == next_cell(from, r, c)
}

/// Number of live cells in the first `n` columns of a row.
pub open spec fn row_live_count<const W: usize>(row: [bool; W], n: int) -> int
    decreases n,
{
    if n <= 0 {
        0
    } else {
        row_live_count(row, n - 1) + bool_to_int(row[n - 1])
    }
}

/// Number of live cells in the first `m` rows of a board.
pub open spec fn board_live_count<const H: usize, const W: usize>(
    cells: [[bool; W]; H],
    m: int,
) -> int
    decreases m,
{
    if m <= 0 {
        0
    } else {
        board_live_count(cells, m - 1) + row_live_count(cells[m - 1], W as int)
    }
}

proof fn lemma_row_live_count_bounds<const W: usize>(row: [bool; W], n: int)
    requires
        0 <= n,
    ensures
        0 <= row_live_count(row, n) <= n,
    decreases n,
{
    if n > 0 {
        lemma_row_live_count_bounds(row, n - 1);
    }
}

proof fn lemma_board_live_count_monotone<const H: usize, const W: usize>(
    cells: [[bool; W]; H],
    m: int,
    k: int,
)
    requires
        0 <= m <= k,
    ensures
        0 <= board_live_count(cells, m) <= board_live_count(cells, k),
    decreases k,
{
    if k > m {
        lemma_board_live_count_monotone(cells, m, k - 1);
        lemma_row_live_count_bounds(cells[k - 1], W as int);
    } else {
        lemma_board_live_count_nonneg(cells, m);
    }
}

proof fn lemma_board_live_count_nonneg<const H: usize, const W: usize>(
    cells: [[bool; W]; H],
    m: int,
)
    ensures
        0 <= board_live_count(cells, m),
    decreases m,
{
    if m > 0 {
        lemma_board_live_count_nonneg(cells, m - 1);
        lemma_row_live_count_bounds(cells[m - 1], W as int);
    }
}


/// The ring position reached from `l` by the offset `d` on a ring of `n`.
pub open spec fn ring_step(l: int, d: int, n: int) -> int {
    (l + d) % n
}

/// `t` lies within `radius` ring steps of `l` on a ring of `n` positions.
pub open spec fn ring_within(l: int, t: int, radius: int, n: int) -> bool {
    exists|d: int| -radius <= d <= radius && #[trigger] ring_step(l, d, n) == t
}

/// Cell `(r, c)` lies in the square of half-width `radius` around some live cell.
pub open spec fn search_covers<const H: usize, const W: usize>(
    cells: [[bool; W]; H],
    radius: int,
    r: int,
    c: int,
) -> bool {
    exists|lr: int, lc: int|
        0 <= lr < H && 0 <= lc < W && #[trigger] cells[lr][lc] && ring_within(lr, r, radius, H as int)
            && ring_within(lc, c, radius, W as int)
}

proof fn lemma_shifted_index(x: int, radius: int, n: int)
    requires
        0 < n,
    ensures
        (x + (n - radius % n)) % n == (x - radius) % n,
{
    vstd::arithmetic::div_mod::lemma_sub_mod_noop_right(x, radius, n);
    vstd::arithmetic::div_mod::lemma_mod_add_multiples_vanish(x - radius % n, n);
    assert(x + (n - radius % n) == n + (x - radius % n));
}

/// The cell of a `H`×`W` board that `(row, col)` wraps onto.
pub open spec fn wrapped_cell(row: int, col: int, h: int, w: int) -> (int, int) {
    (row % h, col % w)
}

/// After marking, the cell is alive exactly when it was alive before or it is
/// one of the marked positions (taken modulo the board size).
pub open spec fn marks_only<const H: usize, const W: usize>(
    before: [[bool; W]; H],
    after: [[bool; W]; H],
    marked: spec_fn(int, int) -> bool,
) -> bool {
    forall|r: int, c: int|
        0 <= r < H && 0 <= c < W ==> #[trigger] after[r][c] == (before[r][c] || marked(r, c))
}

/// Two grids that agree on every cell are equal.
pub proof fn lemma_grid_ext<T, const H: usize, const W: usize>(a: [[T; W]; H], b: [[T; W]; H])
    requires
        forall|r: int, c: int| 0 <= r < H && 0 <= c < W ==> #[trigger] a[r][c] == b[r][c],
    ensures
        a == b,
{
    assert forall|r: int| 0 <= r < H implies a[r] == b[r] by {
        assert(a[r] =~= b[r]) by {
            assert forall|c: int| 0 <= c < W implies a[r][c] == b[r][c] by {}
        }
    }
    assert(a =~= b);
}

/// `(r, c)` is where one of the first `n` positions of `offsets`, shifted by
/// `(row, col)`, wraps to.
pub open spec fn hits_first_offsets<const H: usize, const W: usize>(
    offsets: Seq<(int, int)>,
    n: int,
    row: int,
    col: int,
    r: int,
    c: int,
) -> bool
    decreases n,
{
    if n <= 0 {
        false
    } else {
        hits_first_offsets::<H, W>(offsets, n - 1, row, col, r, c) || ((row + offsets[n - 1].0) % (
        H as int) == r && (col + offsets[n - 1].1) % (W as int) == c)
    }
}

/// `(r, c)` is where some position of `offsets`, shifted by `(row, col)`, wraps to.
pub open spec fn hits_offsets<const H: usize, const W: usize>(
    offsets: Seq<(int, int)>,
    row: int,
    col: int,
    r: int,
    c: int,
) -> bool {
    hits_first_offsets::<H, W>(offsets, offsets.len() as int, row, col, r, c)
}

pub open spec fn glider_offsets() -> Seq<(int, int)> {
    seq![(0int, 1int), (1, 2), (2, 0), (2, 1), (2, 2)]
}

pub open spec fn blinker_offsets() -> Seq<(int, int)> {
    seq![(0int, 0int), (0, 1), (0, 2)]
}

pub open spec fn toad_offsets() -> Seq<(int, int)> {
    seq![(0int, 1int), (0, 2), (0, 3), (1, 0), (1, 1), (1, 2)]
}

pub open spec fn beacon_offsets() -> Seq<(int, int)> {
    seq![(0int, 0int), (0, 1), (1, 0), (1, 1), (2, 2), (2, 3), (3, 2), (3, 3)]
}

pub open spec fn lwss_offsets() -> Seq<(int, int)> {
    seq![(0int, 1int), (1, 0), (2, 0), (2, 1), (2, 2), (2, 3), (1, 3)]
}

pub open spec fn block_offsets() -> Seq<(int, int)> {
    seq![(0int, 0int), (0, 1), (1, 0), (1, 1)]
}

/// `(r, c)` is where a `'#'` of the ASCII picture `rows`, placed at
/// `(row_offset, col_offset)`, wraps to.
pub open spec fn hits_ascii<const H: usize, const W: usize>(
    rows: Seq<Seq<char>>,
    row_offset: int,
    col_offset: int,
    r: int,
    c: int,
) -> bool {
    exists|i: int, j: int|
        0 <= i < rows.len() && 0 <= j < rows[i].len() && #[trigger] rows[i][j] == '#' && (i
            + row_offset) % (H as int) == r && (j + col_offset) % (W as int) == c
}

pub open spec fn pentadecathlon_rows() -> Seq<Seq<char>> {
    seq![
        "................"@,
        "................"@,
        "................"@,
        "......###......."@,
        ".....#...#......"@,
        "................"@,
        "....#.....#....."@,
        "....#.....#....."@,
        "................"@,
        ".....#...#......"@,
        "......###......."@,
        "................"@,
        "................"@,
        "................"@,
        "................"@,
        "................"@,
    ]
}

pub open spec fn custom9_rows() -> Seq<Seq<char>> {
    seq![
        "................"@,
        "...##.....##...."@,
        "....##...##....."@,
        ".#..#.#.#.#..#.."@,
        ".###.##.##.###.."@,
        "..#.#.#.#.#.#..."@,
        "...###...###...."@,
        "................"@,
        "...###...###...."@,
        "..#.#.#.#.#.#..."@,
        ".###.##.##.###.."@,
        ".#..#.#.#.#..#.."@,
        "....##...##....."@,
        "...##.....##...."@,
        "................"@,
        "................"@,
    ]
}

/// The linear congruential generator behind [`Pattern::Random`].
pub open spec fn lcg_next(seed: u32) -> u32 {
    vstd::wrapping::u32_specs::wrapping_add(
        vstd::wrapping::u32_specs::wrapping_mul(seed, 1664525),
        1013904223,
    )
}

/// The generator state after `k` steps from `seed`.
pub open spec fn lcg_state(seed: u32, k: nat) -> u32
    decreases k,
{
    if k == 0 {
        seed
    } else {
        lcg_next(lcg_state(seed, (k - 1) as nat))
    }
}

/// Cell `(r, c)` of a random fill: the generator is stepped once per cell in
/// row-major order and bit 8 of the state decides the cell.
pub open spec fn random_cell(seed: u32, w: int, r: int, c: int) -> bool {
    lcg_state(seed, (r * w + c + 1) as nat) & 0x100 != 0
}

/// The cells a preset pattern marks alive (all presets but `Random`, which
/// overwrites the board).
pub open spec fn pattern_hits<const H: usize, const W: usize>(
    pattern: Pattern,
    r: int,
    c: int,
) -> bool {
    match pattern {
        Pattern::Glider => hits_offsets::<H, W>(glider_offsets(), 4, 2, r, c),
        Pattern::Blinker => hits_offsets::<H, W>(blinker_offsets(), 5, 4, r, c),
        Pattern::Toad => hits_offsets::<H, W>(toad_offsets(), 5, 4, r, c),
        Pattern::Beacon => hits_offsets::<H, W>(beacon_offsets(), 4, 4, r, c),
        Pattern::Lwss => hits_offsets::<H, W>(lwss_offsets(), 5, 6, r, c),
        Pattern::Block => hits_offsets::<H, W>(block_offsets(), 5, 4, r, c),
        Pattern::Pentadecathlon => hits_ascii::<H, W>(pentadecathlon_rows(), 0, 0, r, c),
        Pattern::Cross => r == 7int % (H as int) || c == 7int % (W as int),
        Pattern::Custom9 => hits_ascii::<H, W>(custom9_rows(), 0, 0, r, c),
        Pattern::Random => false,
    }
}


/// `1` for a live cell, `0` for a dead one.
fn live_flag(alive: bool) -> (flag: u8)
    ensures
        flag as int == bool_to_int(alive),
{
    if alive { 1 } else { 0 }
}

/// The glider preset is the glider of the demos: on every board of at
/// least 7 rows and 5 columns it lights exactly the cells (4, 3), (5, 4),
/// (6, 2), (6, 3) and (6, 4) (row, column), the glider that moves one cell
/// down and right every four generations.
pub proof fn law_glider_preset_cells<const H: usize, const W: usize>(r: int, c: int)
    requires
        H >= 7,
        W >= 5,
        0 <= r < H,
        0 <= c < W,
    ensures
        pattern_hits::<H, W>(Pattern::Glider, r, c) <==> ((r == 4 && c == 3) || (r == 5 && c == 4) || (
        r == 6 && c == 2) || (r == 6 && c == 3) || (r == 6 && c == 4)),
{
    reveal_with_fuel(hits_first_offsets, 6);
    vstd::arithmetic::div_mod::lemma_small_mod(4, H as nat);
    vstd::arithmetic::div_mod::lemma_small_mod(5, H as nat);
    vstd::arithmetic::div_mod::lemma_small_mod(6, H as nat);
    vstd::arithmetic::div_mod::lemma_small_mod(2, W as nat);
    vstd::arithmetic::div_mod::lemma_small_mod(3, W as nat);
    vstd::arithmetic::div_mod::lemma_small_mod(4, W as nat);
}

/// The seed `add_pattern` uses for [`Pattern::Random`].
pub const DEFAULT_RANDOM_SEED: u32 = 0x9e37_79b9;

/// `after` is `before` with `pattern` added, `random_seed` seeding
/// [`Pattern::Random`]: a random board replaces the cells, any other
/// preset marks its cells alive and keeps the rest.
pub open spec fn pattern_result<const H: usize, const W: usize>(
    before: [[bool; W]; H],
    after: [[bool; W]; H],
    pattern: Pattern,
    random_seed: u32,
) -> bool {
    &&& pattern == Pattern::Random ==> forall|r: int, c: int|
        0 <= r < H && 0 <= c < W ==> #[trigger] after[r][c] == random_cell(random_seed, W as int, r, c)
    &&& pattern != Pattern::Random ==> marks_only(
        before,
        after,
        |r: int, c: int| pattern_hits::<H, W>(pattern, r, c),
    )
}

/// Adding a preset gives one board: two results of adding the same preset
/// with the same seed to the same board are equal. So `add_pattern`, which
/// uses [`DEFAULT_RANDOM_SEED`], gives exactly the board that
/// `add_pattern_with_seed` gives with that seed, and a random preset is
/// deterministic.
pub proof fn law_pattern_result_is_determined<const H: usize, const W: usize>(
    before: [[bool; W]; H],
    first: [[bool; W]; H],
    second: [[bool; W]; H],
    pattern: Pattern,
    random_seed: u32,
)
    requires
        pattern_result(before, first, pattern, random_seed),
        pattern_result(before, second, pattern, random_seed),
    ensures
        first == second,
{
    assert forall|r: int, c: int| 0 <= r < H && 0 <= c < W implies #[trigger] first[r][c] == second[r][c] by {
        if pattern != Pattern::Random {
            assert(first[r][c] == (before[r][c] || pattern_hits::<H, W>(pattern, r, c)));
        }
    }
    lemma_grid_ext(first, second);
}

/// The value `x as isize` has: `x` itself, or above `isize::MAX` the
/// negative number with the same bits.
pub open spec fn as_isize_value(x: usize) -> int {
    if x <= isize::MAX {
        x as int
    } else {
        x - (usize::MAX as int + 1)
    }
}

/// The position on a ring of `n` that `x as isize` wraps to.
fn ring_index(x: usize, n: usize) -> (index: usize)
    requires
        0 < n,
    ensures
        index < n,
        index == as_isize_value(x) % (n as int),
{
    if x <= isize::MAX as usize {
        x % n
    } else {
        let a = x % n;
        let k = if n == 1 {
            0
        } else {
            (usize::MAX % n + 1) % n
        };
        proof {
            let m = usize::MAX as int + 1;
            let ni = n as int;
            vstd::arithmetic::div_mod::lemma_add_mod_noop(usize::MAX as int, 1, ni);
            if n > 1 {
                vstd::arithmetic::div_mod::lemma_small_mod(1, n as nat);
            }
            assert(k == m % ni);
            vstd::arithmetic::div_mod::lemma_sub_mod_noop(x as int, m, ni);
            assert((a - k) % ni == (x - m) % ni);
            if a >= k {
                vstd::arithmetic::div_mod::lemma_small_mod((a - k) as nat, n as nat);
            } else {
                vstd::arithmetic::div_mod::lemma_mod_add_multiples_vanish(a - k, ni);
                vstd::arithmetic::div_mod::lemma_small_mod((ni + a - k) as nat, n as nat);
            }
        }
        if a >= k {
            a - k
        } else {
            a + (n - k)
        }
    }
}

impl<const H: usize, const W: usize> Default for Board<H, W> {
    /// The empty board, as `new` makes it.
    fn default() -> (board: Self)
        ensures
            forall|r: int, c: int| 0 <= r < H && 0 <= c < W ==> !#[trigger] board.cells[r][c],
    {
        Self::new()
    }
}

impl<const H: usize, const W: usize> Board<H, W> {
    /// Create a new empty board.
    #[must_use]
    pub fn new() -> (board: Self)
        ensures
            forall|r: int, c: int| 0 <= r < H && 0 <= c < W ==> !#[trigger] board.cells[r][c],
    {
        Self { cells: [[false; W]; H] }
    }

    /// Live-neighbor count of an in-range cell.
    fn neighbors_of(&self, row: usize, col: usize) -> (count: u8)
        requires
            row < H,
            col < W,
        ensures
            count as int == live_neighbor_count(self.cells, row as int, col as int),
            count <= 8,
    {
        let up = if row == 0 { H - 1 } else { row - 1 };
        let down = if row + 1 == H { 0 } else { row + 1 };
        let left = if col == 0 { W - 1 } else { col - 1 };
        let right = if col + 1 == W { 0 } else { col + 1 };
        let top = self.cells[up];
        let middle = self.cells[row];
        let bottom = self.cells[down];
        assert(up == ring_prev(row as int, H as int) && down == ring_next(row as int, H as int));
        assert(left == ring_prev(col as int, W as int) && right == ring_next(col as int, W as int));
        let a = live_flag(top[left]);
        let b = live_flag(top[col]);
        let c = live_flag(top[right]);
        let d = live_flag(middle[left]);
        let e = live_flag(middle[right]);
        let f = live_flag(bottom[left]);
        let g = live_flag(bottom[col]);
        let h = live_flag(bottom[right]);
        assert(a + b + c + d + e + f + g + h == live_neighbor_count(
            self.cells,
            row as int,
            col as int,
        ));
        a + b + c + d + e + f + g + h
    }

    /// Compute the next generation in place.
    pub fn step(&mut self)
        ensures
            evolves(old(self).cells, final(self).cells),
    {
        let mut next_cells = [[false; W]; H];
        let mut row_index: usize = 0;
        while row_index < H
            invariant
                row_index <= H,
                forall|r: int, c: int|
                    0 <= r < row_index && 0 <= c < W ==> #[trigger] next_cells[r][c]
                        == next_cell(self.cells, r, c),
            decreases H - row_index,
        {
            let mut col_index: usize = 0;
            while col_index < W
                invariant
                    row_index < H,
                    col_index <= W,
                    forall|r: int, c: int|
                        0 <= r < row_index && 0 <= c < W ==> #[trigger] next_cells[r][c]
                            == next_cell(self.cells, r, c),
                    forall|c: int|
                        0 <= c < col_index ==> #[trigger] next_cells[row_index as int][c]
                            == next_cell(self.cells, row_index as int, c),
                decreases W - col_index,
            {
                let live_neighbors = self.neighbors_of(row_index, col_index);
                let is_alive = self.cells[row_index][col_index];
                let mut next_row = next_cells[row_index];
                next_row[col_index] = match (is_alive, live_neighbors) {
                    (true, 2) | (true, 3) => true,
                    (false, 3) => true,
                    _ => false,
                };
                next_cells[row_index] = next_row;
                col_index += 1;
            }
            row_index += 1;
        }
        self.cells = next_cells;
    }

    /// Count the number of live neighbors for a cell.
    ///
    /// Row and column wrap around the board.
    #[must_use]
    pub fn count_live_neighbors(&self, row: usize, col: usize) -> (count: u8)
        requires
            H > 0,
            W > 0,
            row != isize::MAX as usize,
            row != isize::MAX as usize + 1,
            col != isize::MAX as usize,
            col != isize::MAX as usize + 1,
        ensures
            count as int == live_neighbor_count(
                self.cells,
                as_isize_value(row) % (H as int),
                as_isize_value(col) % (W as int),
            ),
    {
        self.neighbors_of(ring_index(row, H), ring_index(col, W))
    }

    /// Set a cell alive with wrapping.
    pub fn set_alive(&mut self, row_index: usize, col_index: usize)
        requires
            H > 0,
            W > 0,
        ensures
            forall|r: int, c: int|
                0 <= r < H && 0 <= c < W ==> #[trigger] final(self).cells[r][c] == (old(
                    self,
                ).cells[r][c] || (r == row_index % H && c == col_index % W)),
    {
        let r = row_index % H;
        let c = col_index % W;
        let mut row = self.cells[r];
        row[c] = true;
        self.cells[r] = row;
    }

    /// Count live cells.
    #[must_use]
    pub fn count_live_cells(&self) -> (count: u16)
        requires
            board_live_count(self.cells, H as int) <= u16::MAX,
        ensures
            count as int == board_live_count(self.cells, H as int),
    {
        let mut live_cell_count: u16 = 0;
        let mut row_index: usize = 0;
        while row_index < H
            invariant
                row_index <= H,
                board_live_count(self.cells, H as int) <= u16::MAX,
                live_cell_count as int == board_live_count(self.cells, row_index as int),
            decreases H - row_index,
        {
            let row = self.cells[row_index];
            let mut col_index: usize = 0;
            proof {
                lemma_board_live_count_monotone(self.cells, row_index as int + 1, H as int);
                lemma_row_live_count_bounds(row, W as int);
            }
            while col_index < W
                invariant
                    row_index < H,
                    col_index <= W,
                    row == self.cells[row_index as int],
                    board_live_count(self.cells, row_index as int) + row_live_count(row, W as int)
                        <= u16::MAX,
                    live_cell_count as int == board_live_count(self.cells, row_index as int)
                        + row_live_count(row, col_index as int),
                decreases W - col_index,
            {
                proof {
                    lemma_row_live_count_monotone(row, col_index as int + 1, W as int);
                }
                if row[col_index] {
                    live_cell_count += 1;
                }
                col_index += 1;
            }
            row_index += 1;
        }
        live_cell_count
    }


    /// Build a predecessor search mask around currently-live cells.
    #[must_use]
    pub fn predecessor_search_mask(&self, radius: usize) -> (search_mask: [[bool; W]; H])
        requires
            radius + H <= isize::MAX,
            radius + W <= isize::MAX,
        ensures
            forall|r: int, c: int|
                0 <= r < H && 0 <= c < W ==> #[trigger] search_mask[r][c] == search_covers(
                    self.cells,
                    radius as int,
                    r,
                    c,
                ),
    {
        let mut search_mask = [[false; W]; H];
        let span = 2 * radius + 1;
        let mut row_index: usize = 0;
        while row_index < H
            invariant
                row_index <= H,
                span == 2 * radius + 1,
                radius + H <= isize::MAX,
                radius + W <= isize::MAX,
                forall|r: int, c: int|
                    0 <= r < H && 0 <= c < W && #[trigger] search_mask[r][c] ==> search_covers(
                        self.cells,
                        radius as int,
                        r,
                        c,
                    ),
                forall|lr: int, lc: int, r: int, c: int|
                    0 <= lr < row_index && 0 <= lc < W && 0 <= r < H && 0 <= c < W
                        && #[trigger] self.cells[lr][lc] && ring_within(lr, r, radius as int, H as int)
                        && ring_within(lc, c, radius as int, W as int) ==> #[trigger] search_mask[r][c],
            decreases H - row_index,
        {
            let mut col_index: usize = 0;
            while col_index < W
                invariant
                    row_index < H,
                    col_index <= W,
                    span == 2 * radius + 1,
                    radius + H <= isize::MAX,
                    radius + W <= isize::MAX,
                    forall|r: int, c: int|
                        0 <= r < H && 0 <= c < W && #[trigger] search_mask[r][c] ==> search_covers(
                            self.cells,
                            radius as int,
                            r,
                            c,
                        ),
                    forall|lr: int, lc: int, r: int, c: int|
                        ((0 <= lr < row_index && 0 <= lc < W) || (lr == row_index && 0 <= lc
                            < col_index)) && 0 <= r < H && 0 <= c < W && #[trigger] self.cells[lr][lc]
                            && ring_within(lr, r, radius as int, H as int) && ring_within(
                            lc,
                            c,
                            radius as int,
                            W as int,
                        ) ==> #[trigger] search_mask[r][c],
                decreases W - col_index,
            {
                let ghost before = search_mask;
                if self.cells[row_index][col_index] {
                    self.mark_square(&mut search_mask, row_index, col_index, radius);
                }
                assert forall|lr: int, lc: int, r: int, c: int|
                    ((0 <= lr < row_index && 0 <= lc < W) || (lr == row_index && 0 <= lc
                        <= col_index)) && 0 <= r < H && 0 <= c < W && #[trigger] self.cells[lr][lc]
                        && ring_within(lr, r, radius as int, H as int) && ring_within(
                        lc,
                        c,
                        radius as int,
                        W as int,
                    ) implies #[trigger] search_mask[r][c] by {
                    if lr == row_index && lc == col_index {
                    } else {
                        assert(before[r][c]);
                    }
                }
                col_index += 1;
            }
            row_index += 1;
        }
        search_mask
    }

    /// Marks every cell within `radius` of the live cell `(row, col)`.
    fn mark_square(
        &self,
        search_mask: &mut [[bool; W]; H],
        row: usize,
        col: usize,
        radius: usize,
    )
        requires
            row < H,
            col < W,
            self.cells[row as int][col as int],
            radius + H <= isize::MAX,
            radius + W <= isize::MAX,
            forall|r: int, c: int|
                0 <= r < H && 0 <= c < W && #[trigger] old(search_mask)@[r][c] ==> search_covers(
                    self.cells,
                    radius as int,
                    r,
                    c,
                ),
        ensures
            forall|r: int, c: int|
                0 <= r < H && 0 <= c < W && #[trigger] final(search_mask)@[r][c] ==> search_covers(
                    self.cells,
                    radius as int,
                    r,
                    c,
                ),
            forall|r: int, c: int|
                0 <= r < H && 0 <= c < W && #[trigger] old(search_mask)@[r][c] ==> final(search_mask)@[r][c],
            forall|r: int, c: int|
                0 <= r < H && 0 <= c < W && ring_within(row as int, r, radius as int, H as int)
                    && ring_within(col as int, c, radius as int, W as int)
                    ==> #[trigger] final(search_mask)@[r][c],
    {
        let span = 2 * radius + 1;
        let row_base = row + (H - radius % H);
        let col_base = col + (W - radius % W);
        let ghost rad = radius as int;
        let mut row_step: usize = 0;
        while row_step < span
            invariant
                row < H,
                col < W,
                self.cells[row as int][col as int],
                span == 2 * radius + 1,
                radius + H <= isize::MAX,
                radius + W <= isize::MAX,
                rad == radius,
                row_base == row + (H - radius % H),
                col_base == col + (W - radius % W),
                row_step <= span,
                forall|r: int, c: int|
                    0 <= r < H && 0 <= c < W && #[trigger] search_mask[r][c] ==> search_covers(
                        self.cells,
                        rad,
                        r,
                        c,
                    ),
                forall|r: int, c: int|
                    0 <= r < H && 0 <= c < W && #[trigger] old(search_mask)@[r][c] ==> search_mask[r][c],
                forall|dr: int, dc: int|
                    -rad <= dr < row_step - rad && -rad <= dc <= rad ==> #[trigger] search_mask[ring_step(
                        row as int,
                        dr,
                        H as int,
                    )][#[trigger] ring_step(col as int, dc, W as int)],
            decreases span - row_step,
        {
            let mask_row = (row_base + row_step) % H;
            proof {
                lemma_shifted_index(row + row_step, rad, H as int);
                assert(mask_row == ring_step(row as int, row_step - rad, H as int));
            }
            let mut col_step: usize = 0;
            while col_step < span
                invariant
                    row < H,
                    col < W,
                    self.cells[row as int][col as int],
                    span == 2 * radius + 1,
                    radius + H <= isize::MAX,
                    radius + W <= isize::MAX,
                    rad == radius,
                    col_base == col + (W - radius % W),
                    row_step < span,
                    col_step <= span,
                    mask_row < H,
                    mask_row == ring_step(row as int, row_step - rad, H as int),
                    forall|r: int, c: int|
                        0 <= r < H && 0 <= c < W && #[trigger] search_mask[r][c] ==> search_covers(
                            self.cells,
                            rad,
                            r,
                            c,
                        ),
                    forall|r: int, c: int|
                        0 <= r < H && 0 <= c < W && #[trigger] old(search_mask)@[r][c]
                            ==> search_mask[r][c],
                    forall|dr: int, dc: int|
                        -rad <= dr < row_step - rad && -rad <= dc <= rad ==> #[trigger] search_mask[ring_step(
                            row as int,
                            dr,
                            H as int,
                        )][#[trigger] ring_step(col as int, dc, W as int)],
                    forall|dc: int|
                        -rad <= dc < col_step - rad ==> #[trigger] search_mask[mask_row as int][ring_step(
                            col as int,
                            dc,
                            W as int,
                        )],
                decreases span - col_step,
            {
                let mask_col = (col_base + col_step) % W;
                proof {
                    lemma_shifted_index(col + col_step, rad, W as int);
                    assert(mask_col == ring_step(col as int, col_step - rad, W as int));
                    assert(ring_within(row as int, mask_row as int, rad, H as int));
                    assert(ring_within(col as int, mask_col as int, rad, W as int));
                    assert(search_covers(self.cells, rad, mask_row as int, mask_col as int));
                }
                let mut mask_line = search_mask[mask_row];
                mask_line[mask_col] = true;
                search_mask[mask_row] = mask_line;
                col_step += 1;
            }
            row_step += 1;
        }
        proof {
            assert forall|r: int, c: int|
                0 <= r < H && 0 <= c < W && ring_within(row as int, r, rad, H as int) && ring_within(
                    col as int,
                    c,
                    rad,
                    W as int,
                ) implies #[trigger] search_mask[r][c] by {
                let dr = choose|d: int| -rad <= d <= rad && #[trigger] ring_step(row as int, d, H as int) == r;
                let dc = choose|d: int| -rad <= d <= rad && #[trigger] ring_step(col as int, d, W as int) == c;
                assert(search_mask[ring_step(row as int, dr, H as int)][ring_step(col as int, dc, W as int)]);
            }
        }
    }


    /// Add a preset pattern to the board.
    pub fn add_pattern(&mut self, pattern: Pattern)
        requires
            H > 0,
            W > 0,
        ensures
            pattern_result(old(self).cells, final(self).cells, pattern, DEFAULT_RANDOM_SEED),
            pattern == Pattern::Random ==> forall|r: int, c: int|
                0 <= r < H && 0 <= c < W ==> #[trigger] final(self).cells[r][c] == random_cell(
                    0x9e37_79b9,
                    W as int,
                    r,
                    c,
                ),
            pattern != Pattern::Random ==> marks_only(
                old(self).cells,
                final(self).cells,
                |r: int, c: int| pattern_hits::<H, W>(pattern, r, c),
            ),
    {
        self.add_pattern_with_seed(pattern, DEFAULT_RANDOM_SEED);
    }

    /// Add a preset pattern to the board using `random_seed` for [`Pattern::Random`].
    pub fn add_pattern_with_seed(&mut self, pattern: Pattern, random_seed: u32)
        requires
            H > 0,
            W > 0,
        ensures
            pattern_result(old(self).cells, final(self).cells, pattern, random_seed),
            pattern == Pattern::Random ==> forall|r: int, c: int|
                0 <= r < H && 0 <= c < W ==> #[trigger] final(self).cells[r][c] == random_cell(
                    random_seed,
                    W as int,
                    r,
                    c,
                ),
            pattern != Pattern::Random ==> marks_only(
                old(self).cells,
                final(self).cells,
                |r: int, c: int| pattern_hits::<H, W>(pattern, r, c),
            ),
    {
        match pattern {
            Pattern::Glider => self.add_glider(4, 2),
            Pattern::Blinker => self.add_blinker(5, 4),
            Pattern::Toad => self.add_toad(5, 4),
            Pattern::Beacon => self.add_beacon(4, 4),
            Pattern::Lwss => self.add_lwss(5, 6),
            Pattern::Block => self.add_block(5, 4),
            Pattern::Pentadecathlon => self.add_pentadecathlon(),
            Pattern::Random => self.add_random(random_seed),
            Pattern::Cross => self.add_cross(7, 7),
            Pattern::Custom9 => self.add_custom9(),
        }
    }

    fn add_glider(&mut self, start_row: usize, start_col: usize)
        requires
            H > 0,
            W > 0,
            start_row + 2 <= usize::MAX,
            start_col + 2 <= usize::MAX,
        ensures
            marks_only(
                old(self).cells,
                final(self).cells,
                |r: int, c: int|
                    hits_offsets::<H, W>(glider_offsets(), start_row as int, start_col as int, r, c),
            ),
    {
        self.set_alive(start_row, start_col + 1);
        self.set_alive(start_row + 1, start_col + 2);
        self.set_alive(start_row + 2, start_col);
        self.set_alive(start_row + 2, start_col + 1);
        self.set_alive(start_row + 2, start_col + 2);
        proof {
            reveal_with_fuel(hits_first_offsets, 6);
        }
    }

    fn add_blinker(&mut self, row: usize, col: usize)
        requires
            H > 0,
            W > 0,
            row + 3 <= usize::MAX,
            col + 3 <= usize::MAX,
        ensures
            marks_only(
                old(self).cells,
                final(self).cells,
                |r: int, c: int| hits_offsets::<H, W>(blinker_offsets(), row as int, col as int, r, c),
            ),
    {
        self.set_alive(row, col);
        self.set_alive(row, col + 1);
        self.set_alive(row, col + 2);
        proof {
            reveal_with_fuel(hits_first_offsets, 4);
        }
    }

    fn add_toad(&mut self, row: usize, col: usize)
        requires
            H > 0,
            W > 0,
            row + 3 <= usize::MAX,
            col + 3 <= usize::MAX,
        ensures
            marks_only(
                old(self).cells,
                final(self).cells,
                |r: int, c: int| hits_offsets::<H, W>(toad_offsets(), row as int, col as int, r, c),
            ),
    {
        self.set_alive(row, col + 1);
        self.set_alive(row, col + 2);
        self.set_alive(row, col + 3);
        self.set_alive(row + 1, col);
        self.set_alive(row + 1, col + 1);
        self.set_alive(row + 1, col + 2);
        proof {
            reveal_with_fuel(hits_first_offsets, 7);
        }
    }

    fn add_beacon(&mut self, row: usize, col: usize)
        requires
            H > 0,
            W > 0,
            row + 3 <= usize::MAX,
            col + 3 <= usize::MAX,
        ensures
            marks_only(
                old(self).cells,
                final(self).cells,
                |r: int, c: int| hits_offsets::<H, W>(beacon_offsets(), row as int, col as int, r, c),
            ),
    {
        self.set_alive(row, col);
        self.set_alive(row, col + 1);
        self.set_alive(row + 1, col);
        self.set_alive(row + 1, col + 1);
        self.set_alive(row + 2, col + 2);
        self.set_alive(row + 2, col + 3);
        self.set_alive(row + 3, col + 2);
        self.set_alive(row + 3, col + 3);
        proof {
            reveal_with_fuel(hits_first_offsets, 9);
        }
    }

    fn add_lwss(&mut self, row: usize, col: usize)
        requires
            H > 0,
            W > 0,
            row + 3 <= usize::MAX,
            col + 3 <= usize::MAX,
        ensures
            marks_only(
                old(self).cells,
                final(self).cells,
                |r: int, c: int| hits_offsets::<H, W>(lwss_offsets(), row as int, col as int, r, c),
            ),
    {
        self.set_alive(row, col + 1);
        self.set_alive(row + 1, col);
        self.set_alive(row + 2, col);
        self.set_alive(row + 2, col + 1);
        self.set_alive(row + 2, col + 2);
        self.set_alive(row + 2, col + 3);
        self.set_alive(row + 1, col + 3);
        proof {
            reveal_with_fuel(hits_first_offsets, 8);
        }
    }

    fn add_block(&mut self, row: usize, col: usize)
        requires
            H > 0,
            W > 0,
            row + 3 <= usize::MAX,
            col + 3 <= usize::MAX,
        ensures
            marks_only(
                old(self).cells,
                final(self).cells,
                |r: int, c: int| hits_offsets::<H, W>(block_offsets(), row as int, col as int, r, c),
            ),
    {
        self.set_alive(row, col);
        self.set_alive(row, col + 1);
        self.set_alive(row + 1, col);
        self.set_alive(row + 1, col + 1);
        proof {
            reveal_with_fuel(hits_first_offsets, 5);
        }
    }

    fn add_wall(&mut self, row: usize)
        requires
            H > 0,
            W > 0,
        ensures
            marks_only(
                old(self).cells,
                final(self).cells,
                |r: int, c: int| r == row % H,
            ),
    {
        let mut col_index: usize = 0;
        while col_index < W
            invariant
                H > 0,
                col_index <= W,
                forall|r: int, c: int|
                    0 <= r < H && 0 <= c < W ==> #[trigger] self.cells[r][c] == (old(self).cells[r][c]
                        || (r == row % H && c < col_index)),
            decreases W - col_index,
        {
            self.set_alive(row, col_index);
            assert(col_index % W == col_index) by {
                vstd::arithmetic::div_mod::lemma_small_mod(col_index as nat, W as nat);
            }
            col_index += 1;
        }
    }

    fn add_vertical(&mut self, col: usize)
        requires
            H > 0,
            W > 0,
        ensures
            marks_only(
                old(self).cells,
                final(self).cells,
                |r: int, c: int| c == col % W,
            ),
    {
        let mut row_index: usize = 0;
        while row_index < H
            invariant
                W > 0,
                row_index <= H,
                forall|r: int, c: int|
                    0 <= r < H && 0 <= c < W ==> #[trigger] self.cells[r][c] == (old(self).cells[r][c]
                        || (c == col % W && r < row_index)),
            decreases H - row_index,
        {
            self.set_alive(row_index, col);
            assert(row_index % H == row_index) by {
                vstd::arithmetic::div_mod::lemma_small_mod(row_index as nat, H as nat);
            }
            row_index += 1;
        }
    }

    fn add_cross(&mut self, row: usize, col: usize)
        requires
            H > 0,
            W > 0,
        ensures
            marks_only(
                old(self).cells,
                final(self).cells,
                |r: int, c: int| r == row % H || c == col % W,
            ),
    {
        self.add_wall(row);
        self.add_vertical(col);
    }

    fn add_random(&mut self, random_seed: u32)
        ensures
            forall|r: int, c: int|
                0 <= r < H && 0 <= c < W ==> #[trigger] final(self).cells[r][c] == random_cell(
                    random_seed,
                    W as int,
                    r,
                    c,
                ),
    {
        let ghost seed0 = random_seed;
        let mut random_seed = random_seed;
        let mut row_index: usize = 0;
        while row_index < H
            invariant
                row_index <= H,
                random_seed == lcg_state(seed0, (row_index * W) as nat),
                forall|r: int, c: int|
                    0 <= r < row_index && 0 <= c < W ==> #[trigger] self.cells[r][c] == random_cell(
                        seed0,
                        W as int,
                        r,
                        c,
                    ),
            decreases H - row_index,
        {
            let mut row = self.cells[row_index];
            let mut col_index: usize = 0;
            while col_index < W
                invariant
                    row_index < H,
                    col_index <= W,
                    random_seed == lcg_state(seed0, (row_index * W + col_index) as nat),
                    forall|c: int|
                        0 <= c < col_index ==> #[trigger] row[c] == random_cell(
                            seed0,
                            W as int,
                            row_index as int,
                            c,
                        ),
                decreases W - col_index,
            {
                random_seed = random_seed.wrapping_mul(1664525).wrapping_add(1013904223);
                assert(random_seed == lcg_state(seed0, (row_index * W + col_index + 1) as nat));
                row[col_index] = (random_seed & 0x100) != 0;
                col_index += 1;
            }
            self.cells[row_index] = row;
            proof {
                assert((row_index + 1) * W == row_index * W + W) by (nonlinear_arith);
            }
            row_index += 1;
        }
    }

    fn add_pentadecathlon(&mut self)
        requires
            H > 0,
            W > 0,
        ensures
            marks_only(
                old(self).cells,
                final(self).cells,
                |r: int, c: int| hits_ascii::<H, W>(pentadecathlon_rows(), 0, 0, r, c),
            ),
    {
        let rows = [
            "................",
            "................",
            "................",
            "......###.......",
            ".....#...#......",
            "................",
            "....#.....#.....",
            "....#.....#.....",
            "................",
            ".....#...#......",
            "......###.......",
            "................",
            "................",
            "................",
            "................",
            "................",
        ];
        proof {
            reveal_strlit("................");
            reveal_strlit("......###.......");
            reveal_strlit(".....#...#......");
            reveal_strlit("....#.....#.....");
            assert(rows@.map_values(|row: &str| row@) =~= pentadecathlon_rows());
        }
        self.draw_ascii_pattern(&rows, 0, 0);
    }

    fn add_custom9(&mut self)
        requires
            H > 0,
            W > 0,
        ensures
            marks_only(
                old(self).cells,
                final(self).cells,
                |r: int, c: int| hits_ascii::<H, W>(custom9_rows(), 0, 0, r, c),
            ),
    {
        let rows = [
            "................",
            "...##.....##....",
            "....##...##.....",
            ".#..#.#.#.#..#..",
            ".###.##.##.###..",
            "..#.#.#.#.#.#...",
            "...###...###....",
            "................",
            "...###...###....",
            "..#.#.#.#.#.#...",
            ".###.##.##.###..",
            ".#..#.#.#.#..#..",
            "....##...##.....",
            "...##.....##....",
            "................",
            "................",
        ];
        proof {
            reveal_strlit("................");
            reveal_strlit("...##.....##....");
            reveal_strlit("....##...##.....");
            reveal_strlit(".#..#.#.#.#..#..");
            reveal_strlit(".###.##.##.###..");
            reveal_strlit("..#.#.#.#.#.#...");
            reveal_strlit("...###...###....");
            assert(rows@.map_values(|row: &str| row@) =~= custom9_rows());
        }
        self.draw_ascii_pattern(&rows, 0, 0);
    }

    fn draw_ascii_pattern(&mut self, rows: &[&str], row_offset: usize, col_offset: usize)
        requires
            H > 0,
            W > 0,
            row_offset + rows@.len() <= usize::MAX,
            forall|i: int| 0 <= i < rows@.len() ==> col_offset + (#[trigger] rows@[i])@.len() <= usize::MAX,
        ensures
            marks_only(
                old(self).cells,
                final(self).cells,
                |r: int, c: int|
                    hits_ascii::<H, W>(
                        rows@.map_values(|row: &str| row@),
                        row_offset as int,
                        col_offset as int,
                        r,
                        c,
                    ),
            ),
    {
        let ghost pictures = rows@.map_values(|row: &str| row@);
        let mut row_index: usize = 0;
        while row_index < rows.len()
            invariant
                H > 0,
                W > 0,
                row_index <= rows@.len(),
                pictures == rows@.map_values(|row: &str| row@),
                row_offset + rows@.len() <= usize::MAX,
                forall|i: int| 0 <= i < rows@.len() ==> col_offset + (#[trigger] rows@[i])@.len() <= usize::MAX,
                forall|r: int, c: int|
                    0 <= r < H && 0 <= c < W ==> #[trigger] self.cells[r][c] == (old(self).cells[r][c]
                        || hits_ascii::<H, W>(
                        pictures.take(row_index as int),
                        row_offset as int,
                        col_offset as int,
                        r,
                        c,
                    )),
            decreases rows@.len() - row_index,
        {
            let row = rows[row_index];
            let ghost before = self.cells;
            let mut col_index: usize = 0;
            for row_char in chars: row.chars()
                invariant
                    H > 0,
                    W > 0,
                    row_index < rows@.len(),
                    row == rows@[row_index as int],
                    col_offset + row@.len() <= usize::MAX,
                    row_offset + rows@.len() <= usize::MAX,
                    col_index == chars.index(),
                    chars.seq() == row@,
                    forall|r: int, c: int|
                        0 <= r < H && 0 <= c < W ==> #[trigger] self.cells[r][c] == (before[r][c]
                            || exists|j: int|
                            0 <= j < col_index && row@[j] == '#' && (row_index + row_offset) % (
                            H as int) == r && (j + col_offset) % (W as int) == c),
            {
                if row_char == '#' {
                    self.set_alive(row_index + row_offset, col_index + col_offset);
                }
                col_index += 1;
            }
            proof {
                assert(pictures.take(row_index + 1) =~= pictures.take(row_index as int).push(row@));
                assert forall|r: int, c: int| 0 <= r < H && 0 <= c < W implies #[trigger] self.cells[r][c]
                    == (old(self).cells[r][c] || hits_ascii::<H, W>(
                    pictures.take(row_index + 1),
                    row_offset as int,
                    col_offset as int,
                    r,
                    c,
                )) by {
                    let took = pictures.take(row_index + 1);
                    if hits_ascii::<H, W>(took, row_offset as int, col_offset as int, r, c) {
                        let (i, j) = choose|i: int, j: int|
                            0 <= i < took.len() && 0 <= j < took[i].len() && #[trigger] took[i][j] == '#'
                                && (i + row_offset) % (H as int) == r && (j + col_offset) % (W as int) == c;
                        if i < row_index {
                            assert(pictures.take(row_index as int)[i][j] == '#');
                        }
                    }
                    if self.cells[r][c] && !before[r][c] {
                        let j = choose|j: int|
                            0 <= j < col_index && row@[j] == '#' && (row_index + row_offset) % (
                            H as int) == r && (j + col_offset) % (W as int) == c;
                        assert(took[row_index as int][j] == '#');
                    }
                    if before[r][c] && !old(self).cells[r][c] {
                        let pre = pictures.take(row_index as int);
                        let (i, j) = choose|i: int, j: int|
                            0 <= i < pre.len() && 0 <= j < pre[i].len() && #[trigger] pre[i][j] == '#'
                                && (i + row_offset) % (H as int) == r && (j + col_offset) % (W as int) == c;
                        assert(took[i][j] == '#');
                    }
                }
            }
            row_index += 1;
        }
        proof {
            assert(pictures.take(rows@.len() as int) =~= pictures);
        }
    }

    /// Check whether this board evolves exactly to `target` after one step.
    #[must_use]
    pub fn evolves_to(&self, target: &Self) -> (result: bool)
        ensures
            result == evolves(self.cells, target.cells),
    {
        let mut next_board = *self;
        next_board.step();
        let mut row_index: usize = 0;
        while row_index < H
            invariant
                row_index <= H,
                evolves(self.cells, next_board.cells),
                forall|r: int, c: int|
                    0 <= r < row_index && 0 <= c < W ==> #[trigger] target.cells[r][c]
                        == next_board.cells[r][c],
            decreases H - row_index,
        {
            let mut col_index: usize = 0;
            while col_index < W
                invariant
                    row_index < H,
                    col_index <= W,
                    evolves(self.cells, next_board.cells),
                    forall|r: int, c: int|
                        0 <= r < row_index && 0 <= c < W ==> #[trigger] target.cells[r][c]
                            == next_board.cells[r][c],
                    forall|c: int|
                        0 <= c < col_index ==> #[trigger] target.cells[row_index as int][c]
                            == next_board.cells[row_index as int][c],
                decreases W - col_index,
            {
                if next_board.cells[row_index][col_index] != target.cells[row_index][col_index] {
                    assert(!evolves(self.cells, target.cells)) by {
                        assert(target.cells[row_index as int][col_index as int] != next_cell(
                            self.cells,
                            row_index as int,
                            col_index as int,
                        ));
                    }
                    return false;
                }
                col_index += 1;
            }
            row_index += 1;
        }
        assert(evolves(self.cells, target.cells)) by {
            assert forall|r: int, c: int| 0 <= r < H && 0 <= c < W implies #[trigger] target.cells[r][c]
                == next_cell(self.cells, r, c) by {
                assert(next_board.cells[r][c] == next_cell(self.cells, r, c));
            }
        }
        true
    }
}

proof fn lemma_row_live_count_monotone<const W: usize>(row: [bool; W], m: int, k: int)
    requires
        0 <= m <= k,
    ensures
        row_live_count(row, m) <= row_live_count(row, k),
    decreases k,
{
    if k > m {
        lemma_row_live_count_monotone(row, m, k - 1);
    }
}

} // verus!

verus! {

/// Outcome of a predecessor search.
#[derive(Clone, Copy, Debug, PartialEq, Eq)]
pub enum SearchOutcome<const H: usize, const W: usize> {
    Found(Board<H, W>),
    NotFound,
    Cancelled,
}

/// Result of advancing a cooperative predecessor search.
#[derive(Clone, Copy, Debug, PartialEq, Eq)]
pub enum SearchStep<const H: usize, const W: usize> {
    Progress { candidate: Board<H, W>, assigned: [[bool; W]; H], target: Board<H, W> },
    Outcome(SearchOutcome<H, W>),
}

/// Cooperative predecessor search state.
pub struct PredecessorSearch<const H: usize, const W: usize> {
    target: Board<H, W>,
    candidate: Board<H, W>,
    search_mask: [[bool; W]; H],
    choices: [[u8; W]; H],
    assigned: [[bool; W]; H],
    depth: usize,
    active_count: usize,
    iteration: u32,
    done: Option<SearchOutcome<H, W>>,
}

/// Number of `true` cells strictly before `(r, c)` in row-major order.
pub open spec fn cells_before<const H: usize, const W: usize>(
    mask: [[bool; W]; H],
    r: int,
    c: int,
) -> int {
    board_live_count(mask, r) + row_live_count(mask[r], c)
}

/// Cell `(r, c)` is in `mask` and comes `d`-th among its cells in
/// row-major order.
pub open spec fn is_search_cell<const H: usize, const W: usize>(
    mask: [[bool; W]; H],
    d: int,
    r: int,
    c: int,
) -> bool {
    0 <= r < H && 0 <= c < W && mask[r][c] && cells_before(mask, r, c) == d
}

/// The cell of `mask` that comes `d`-th in row-major order.
pub open spec fn search_cell<const H: usize, const W: usize>(mask: [[bool; W]; H], d: int) -> (
    int,
    int,
) {
    choose|cell: (int, int)| is_search_cell(mask, d, cell.0, cell.1)
}

/// `b` equals `a` everywhere except possibly at `(r, c)`.
pub open spec fn same_except<T, const H: usize, const W: usize>(
    a: [[T; W]; H],
    b: [[T; W]; H],
    r: int,
    c: int,
) -> bool {
    forall|i: int, j: int|
        0 <= i < H && 0 <= j < W && !(i == r && j == c) ==> #[trigger] b[i][j] == a[i][j]
}

/// `b` equals `a` everywhere except possibly at `(r1, c1)` and `(r2, c2)`.
pub open spec fn same_except_two<T, const H: usize, const W: usize>(
    a: [[T; W]; H],
    b: [[T; W]; H],
    r1: int,
    c1: int,
    r2: int,
    c2: int,
) -> bool {
    forall|i: int, j: int|
        0 <= i < H && 0 <= j < W && !(i == r1 && j == c1) && !(i == r2 && j == c2) ==> #[trigger] b[i][j]
            == a[i][j]
}

/// A masked cell has fewer masked cells before it than any later cell.
proof fn lemma_cells_before_increases<const H: usize, const W: usize>(
    mask: [[bool; W]; H],
    r1: int,
    c1: int,
    r2: int,
    c2: int,
)
    requires
        0 <= r1 < H,
        0 <= c1 < W,
        0 <= r2 < H,
        0 <= c2 < W,
        mask[r1][c1],
        r1 < r2 || (r1 == r2 && c1 < c2),
    ensures
        cells_before(mask, r1, c1) < cells_before(mask, r2, c2),
{
    assert(row_live_count(mask[r1], c1 + 1) == row_live_count(mask[r1], c1) + 1);
    if r1 == r2 {
        lemma_row_live_count_monotone(mask[r1], c1 + 1, c2);
    } else {
        lemma_row_live_count_monotone(mask[r1], c1 + 1, W as int);
        assert(board_live_count(mask, r1 + 1) == board_live_count(mask, r1) + row_live_count(
            mask[r1],
            W as int,
        ));
        lemma_board_live_count_monotone(mask, r1 + 1, r2);
        lemma_row_live_count_bounds(mask[r2], c2);
    }
}

/// The cell that comes `d`-th is unique: any cell found at position `d`
/// is `search_cell(mask, d)`.
proof fn lemma_search_cell_unique<const H: usize, const W: usize>(
    mask: [[bool; W]; H],
    d: int,
    r: int,
    c: int,
)
    requires
        is_search_cell(mask, d, r, c),
    ensures
        search_cell(mask, d) == (r, c),
{
    let witness = (r, c);
    assert(is_search_cell(mask, d, witness.0, witness.1));
    let cell = search_cell(mask, d);
    assert(is_search_cell(mask, d, cell.0, cell.1));
    if cell.0 < r || (cell.0 == r && cell.1 < c) {
        lemma_cells_before_increases(mask, cell.0, cell.1, r, c);
    } else if r < cell.0 || (r == cell.0 && c < cell.1) {
        lemma_cells_before_increases(mask, r, c, cell.0, cell.1);
    }
}

/// Every live cell of `cells` lies inside `mask`.
pub open spec fn within_mask<const H: usize, const W: usize>(
    cells: [[bool; W]; H],
    mask: [[bool; W]; H],
) -> bool {
    forall|r: int, c: int| 0 <= r < H && 0 <= c < W && #[trigger] cells[r][c] ==> mask[r][c]
}

impl<const H: usize, const W: usize> PredecessorSearch<H, W> {
    /// The board whose predecessor is sought.
    pub closed spec fn spec_target(&self) -> Board<H, W> {
        self.target
    }

    /// The cells the search may make alive.
    pub closed spec fn spec_search_mask(&self) -> [[bool; W]; H] {
        self.search_mask
    }

    /// The board the search is currently trying.
    pub closed spec fn spec_candidate(&self) -> Board<H, W> {
        self.candidate
    }

    /// Which cells of the candidate have been decided.
    pub closed spec fn spec_assigned(&self) -> [[bool; W]; H] {
        self.assigned
    }

    /// The outcome, once the search has finished.
    pub closed spec fn spec_outcome(&self) -> Option<SearchOutcome<H, W>> {
        self.done
    }

    /// How many cells of the search mask are decided, in row-major order.
    pub closed spec fn spec_depth(&self) -> int {
        self.depth as int
    }

    /// How many cells the search mask holds.
    pub closed spec fn spec_active_count(&self) -> int {
        self.active_count as int
    }

    /// How many iterations below full depth the search has taken.
    pub closed spec fn spec_iteration(&self) -> int {
        self.iteration as int
    }

    /// How many values each cell has tried.
    pub closed spec fn spec_choices(&self) -> [[u8; W]; H] {
        self.choices
    }

    /// The same search, not yet finished.
    pub closed spec fn spec_unfinished(&self) -> Self {
        PredecessorSearch { done: None, ..*self }
    }

    /// A measure of the work done: every iteration that reports nothing
    /// raises it, and an unfinished search keeps it below twice the
    /// iteration limit.
    pub open spec fn search_effort(&self) -> int {
        2 * self.spec_iteration() + if self.spec_depth() == self.spec_active_count() {
            0int
        } else {
            1int
        }
    }

    /// The internal consistency of a search.
    pub closed spec fn wf(&self) -> bool {
        &&& self.active_count == board_live_count(self.search_mask, H as int)
        &&& self.depth <= self.active_count
        &&& self.done is None ==> self.iteration < MAX_SEARCH_ITERATIONS
        &&& within_mask(self.candidate.cells, self.search_mask)
        &&& forall|r: int, c: int|
            0 <= r < H && 0 <= c < W && !self.search_mask[r][c] ==> #[trigger] self.assigned[r][c]
        &&& forall|r: int, c: int| 0 <= r < H && 0 <= c < W ==> #[trigger] self.choices[r][c] <= 2
        &&& match self.done {
            Some(SearchOutcome::Found(board)) => evolves(board.cells, self.target.cells)
                && within_mask(board.cells, self.search_mask),
            _ => true,
        }
    }
}


/// One backtracking iteration has one result: the state after it and what
/// it reports are determined by the state before it.
pub proof fn lemma_iteration_effect_determined<const H: usize, const W: usize>(
    search: PredecessorSearch<H, W>,
    first: PredecessorSearch<H, W>,
    first_outcome: Option<SearchOutcome<H, W>>,
    second: PredecessorSearch<H, W>,
    second_outcome: Option<SearchOutcome<H, W>>,
)
    requires
        search.iteration_effect(first, first_outcome),
        search.iteration_effect(second, second_outcome),
    ensures
        first == second,
        first_outcome == second_outcome,
{
    let d = search.depth as int;
    let mask = search.search_mask;
    if d == search.active_count && (evolves(search.candidate.cells, search.target.cells) || d == 0) {
    } else if d == search.active_count {
        let prev = search_cell(mask, d - 1);
        assert forall|r: int, c: int| 0 <= r < H && 0 <= c < W implies #[trigger] first.assigned[r][c]
            == second.assigned[r][c] by {
            if !(r == prev.0 && c == prev.1) {
                assert(first.assigned[r][c] == search.assigned[r][c]);
                assert(second.assigned[r][c] == search.assigned[r][c]);
            }
        }
        lemma_grid_ext(first.assigned, second.assigned);
    } else {
        let cell = search_cell(mask, d);
        let (r0, c0) = (cell.0, cell.1);
        let choice = search.choices[r0][c0];
        assert forall|r: int, c: int| 0 <= r < H && 0 <= c < W implies #[trigger] first.choices[r][c]
            == second.choices[r][c] by {
            if !(r == r0 && c == c0) {
                assert(first.choices[r][c] == search.choices[r][c]);
                assert(second.choices[r][c] == search.choices[r][c]);
            }
        }
        lemma_grid_ext(first.choices, second.choices);
        if choice < 2 {
            assert forall|r: int, c: int| 0 <= r < H && 0 <= c < W implies #[trigger] first.candidate.cells[r][c]
                == second.candidate.cells[r][c] by {
                if !(r == r0 && c == c0) {
                    assert(first.candidate.cells[r][c] == search.candidate.cells[r][c]);
                    assert(second.candidate.cells[r][c] == search.candidate.cells[r][c]);
                }
            }
            lemma_grid_ext(first.candidate.cells, second.candidate.cells);
            assert(first.candidate == second.candidate);
            if first.depth == d + 1 && second.depth != d + 1 {
                let tried = choose|tried: [[bool; W]; H]|
                    #![trigger same_except(search.assigned, tried, r0, c0)]
                    tried[r0][c0] && same_except(search.assigned, tried, r0, c0) && !constraints_hold(
                        second.candidate.cells,
                        tried,
                        search.target.cells,
                        r0,
                        c0,
                    );
                assert forall|r: int, c: int| 0 <= r < H && 0 <= c < W implies #[trigger] tried[r][c]
                    == first.assigned[r][c] by {
                    if !(r == r0 && c == c0) {
                        assert(first.assigned[r][c] == search.assigned[r][c]);
                    }
                }
                lemma_grid_ext(tried, first.assigned);
            } else if second.depth == d + 1 && first.depth != d + 1 {
                let tried = choose|tried: [[bool; W]; H]|
                    #![trigger same_except(search.assigned, tried, r0, c0)]
                    tried[r0][c0] && same_except(search.assigned, tried, r0, c0) && !constraints_hold(
                        first.candidate.cells,
                        tried,
                        search.target.cells,
                        r0,
                        c0,
                    );
                assert forall|r: int, c: int| 0 <= r < H && 0 <= c < W implies #[trigger] tried[r][c]
                    == second.assigned[r][c] by {
                    if !(r == r0 && c == c0) {
                        assert(second.assigned[r][c] == search.assigned[r][c]);
                    }
                }
                lemma_grid_ext(tried, second.assigned);
            }
            assert forall|r: int, c: int| 0 <= r < H && 0 <= c < W implies #[trigger] first.assigned[r][c]
                == second.assigned[r][c] by {
                if !(r == r0 && c == c0) {
                    assert(first.assigned[r][c] == search.assigned[r][c]);
                    assert(second.assigned[r][c] == search.assigned[r][c]);
                }
            }
            lemma_grid_ext(first.assigned, second.assigned);
        } else {
            let prev = search_cell(mask, d - 1);
            assert forall|r: int, c: int| 0 <= r < H && 0 <= c < W implies #[trigger] first.assigned[r][c]
                == second.assigned[r][c] by {
                if !(r == r0 && c == c0) && !(d != 0 && r == prev.0 && c == prev.1) {
                    assert(first.assigned[r][c] == search.assigned[r][c]);
                    assert(second.assigned[r][c] == search.assigned[r][c]);
                }
            }
            lemma_grid_ext(first.assigned, second.assigned);
        }
    }
}

/// Two quiet runs from one search agree on every state they both reach.
proof fn lemma_quiet_runs_agree<const H: usize, const W: usize>(
    search: PredecessorSearch<H, W>,
    first: Seq<PredecessorSearch<H, W>>,
    second: Seq<PredecessorSearch<H, W>>,
    i: int,
)
    requires
        search.quiet_run(first),
        search.quiet_run(second),
        0 <= i < first.len(),
        i < second.len(),
    ensures
        first[i] == second[i],
    decreases i,
{
    if i > 0 {
        lemma_quiet_runs_agree(search, first, second, i - 1);
        assert(first[i - 1].iteration_effect(first[i], None));
        assert(second[i - 1].iteration_effect(second[i], None));
        lemma_iteration_effect_determined(first[i - 1], first[i], None, second[i], None);
    }
}

/// One call of `advance` has one result: the same search and budget give
/// the same state after the call and the same answer.
pub proof fn law_advance_is_determined<const H: usize, const W: usize>(
    search: PredecessorSearch<H, W>,
    iteration_budget: u32,
    first: PredecessorSearch<H, W>,
    first_step: SearchStep<H, W>,
    second: PredecessorSearch<H, W>,
    second_step: SearchStep<H, W>,
)
    requires
        search.advance_effect(iteration_budget, first, first_step),
        search.advance_effect(iteration_budget, second, second_step),
    ensures
        first == second,
        first_step == second_step,
{
    if search.spec_outcome() is None {
        let t1 = choose|trace: Seq<PredecessorSearch<H, W>>|
            #[trigger] search.run_ends(iteration_budget, trace, first, first_step);
        let t2 = choose|trace: Seq<PredecessorSearch<H, W>>|
            #[trigger] search.run_ends(iteration_budget, trace, second, second_step);
        // A run that stopped with an outcome is no longer than any other run,
        // since the other one would have to continue quietly past that point.
        if t1.len() < t2.len() {
            lemma_quiet_runs_agree(search, t1, t2, t1.len() - 1);
            assert(t2[t1.len() - 1].iteration_effect(t2[t1.len() as int], None));
            if let SearchStep::Outcome(o) = first_step {
                lemma_iteration_effect_determined(
                    t1.last(),
                    first.spec_unfinished(),
                    Some(o),
                    t2[t1.len() as int],
                    None,
                );
            }
        } else if t2.len() < t1.len() {
            lemma_quiet_runs_agree(search, t1, t2, t2.len() - 1);
            assert(t1[t2.len() - 1].iteration_effect(t1[t2.len() as int], None));
            if let SearchStep::Outcome(o) = second_step {
                lemma_iteration_effect_determined(
                    t2.last(),
                    second.spec_unfinished(),
                    Some(o),
                    t1[t2.len() as int],
                    None,
                );
            }
        } else {
            lemma_quiet_runs_agree(search, t1, t2, t1.len() - 1);
            match (first_step, second_step) {
                (SearchStep::Outcome(o1), SearchStep::Outcome(o2)) => {
                    lemma_iteration_effect_determined(
                        t1.last(),
                        first.spec_unfinished(),
                        Some(o1),
                        second.spec_unfinished(),
                        Some(o2),
                    );
                    assert(first == PredecessorSearch { done: Some(o1), ..first.spec_unfinished() });
                    assert(second == PredecessorSearch { done: Some(o2), ..second.spec_unfinished() });
                },
                (SearchStep::Progress { .. }, SearchStep::Outcome(o2)) => {
                    assert(t1.len() == iteration_budget + 1);
                },
                (SearchStep::Outcome(o1), SearchStep::Progress { .. }) => {
                    assert(t2.len() == iteration_budget + 1);
                },
                (SearchStep::Progress { .. }, SearchStep::Progress { .. }) => {},
            }
        }
    }
}

/// Two searches that have not started, for the same target and radius, are
/// the same search. With `law_advance_is_determined`, `new(target)`
/// answers every sequence of budgets exactly as
/// `new_with_radius(target, DEFAULT_PREDECESSOR_SEARCH_RADIUS)` does.
pub proof fn law_fresh_searches_are_equal<const H: usize, const W: usize>(
    first: PredecessorSearch<H, W>,
    second: PredecessorSearch<H, W>,
    target: Board<H, W>,
    radius: int,
)
    requires
        first.is_fresh_search(target, radius),
        second.is_fresh_search(target, radius),
    ensures
        first == second,
{
    lemma_grid_ext(first.search_mask, second.search_mask);
    assert forall|r: int, c: int| 0 <= r < H && 0 <= c < W implies #[trigger] first.assigned[r][c]
        == second.assigned[r][c] by {
        assert(first.spec_assigned()[r][c] == !first.spec_search_mask()[r][c]);
        assert(second.spec_assigned()[r][c] == !second.spec_search_mask()[r][c]);
    }
    lemma_grid_ext(first.assigned, second.assigned);
    assert forall|r: int, c: int| 0 <= r < H && 0 <= c < W implies #[trigger] first.choices[r][c]
        == second.choices[r][c] by {
        assert(first.spec_choices()[r][c] == 0);
        assert(second.spec_choices()[r][c] == 0);
    }
    lemma_grid_ext(first.choices, second.choices);
    assert forall|r: int, c: int| 0 <= r < H && 0 <= c < W implies #[trigger] first.candidate.cells[r][c]
        == second.candidate.cells[r][c] by {
        assert(!first.spec_candidate().cells[r][c]);
        assert(!second.spec_candidate().cells[r][c]);
    }
    lemma_grid_ext(first.candidate.cells, second.candidate.cells);
    assert(first.candidate == second.candidate);
}

/// The total budget of the calls among the first `n` of a session that
/// answered progress.
pub open spec fn progress_budget<const H: usize, const W: usize>(
    steps: Seq<SearchStep<H, W>>,
    budgets: Seq<u32>,
    n: nat,
) -> int
    decreases n,
{
    if n == 0 {
        0
    } else {
        progress_budget(steps, budgets, (n - 1) as nat) + if steps[n - 1] is Progress {
            budgets[n - 1] as int
        } else {
            0int
        }
    }
}

/// `searches[i + 1]` and `steps[i]` are what the `i`-th call of `advance`,
/// with `budgets[i]`, gave in a session that started from `searches[0]`.
pub open spec fn is_search_session<const H: usize, const W: usize>(
    searches: Seq<PredecessorSearch<H, W>>,
    budgets: Seq<u32>,
    steps: Seq<SearchStep<H, W>>,
) -> bool {
    &&& searches.len() == steps.len() + 1
    &&& budgets.len() == steps.len()
    &&& forall|i: int|
        0 <= i < steps.len() ==> searches[i].advance_effect(budgets[i], searches[i + 1], #[trigger] steps[i])
}

/// What a session proves up to call `k`.
proof fn lemma_session_prefix<const H: usize, const W: usize>(
    searches: Seq<PredecessorSearch<H, W>>,
    budgets: Seq<u32>,
    steps: Seq<SearchStep<H, W>>,
    k: nat,
)
    requires
        searches[0].wf(),
        is_search_session(searches, budgets, steps),
        k <= steps.len(),
    ensures
        forall|i: int|
            0 <= i <= k ==> (#[trigger] searches[i]).wf() && searches[i].spec_target()
                == searches[0].spec_target() && searches[i].spec_search_mask()
                == searches[0].spec_search_mask(),
        forall|i: int, j: int|
            0 <= i < j < k && #[trigger] steps[i] is Outcome ==> #[trigger] steps[j] == steps[i]
                && searches[j + 1] == searches[i + 1],
        searches[k as int].spec_outcome() is None ==> searches[k as int].search_effort()
            >= searches[0].search_effort() + progress_budget(steps, budgets, k),
        progress_budget(steps, budgets, k) < 2 * MAX_SEARCH_ITERATIONS,
    decreases k,
{
    lemma_search_consistency(searches[0]);
    if k > 0 {
        let p = (k - 1) as int;
        lemma_session_prefix(searches, budgets, steps, (k - 1) as nat);
        assert(searches[p].advance_effect(budgets[p], searches[p + 1], steps[p]));
        assert(searches[p].wf());
        lemma_search_consistency(searches[p]);
        lemma_search_consistency(searches[p + 1]);
        assert forall|i: int| 0 <= i <= k implies (#[trigger] searches[i]).wf() && searches[i].spec_target()
            == searches[0].spec_target() && searches[i].spec_search_mask()
            == searches[0].spec_search_mask() by {
            if i < k {
                assert(searches[i].wf());
            }
        }
        assert forall|i: int, j: int| 0 <= i < j < k && #[trigger] steps[i] is Outcome implies #[trigger] steps[j]
            == steps[i] && searches[j + 1] == searches[i + 1] by {
            if j == p {
                assert(searches[i].advance_effect(budgets[i], searches[i + 1], steps[i]));
                if i + 1 < p {
                    assert(steps[p - 1] == steps[i] && searches[p] == searches[i + 1]);
                }
                assert(searches[p] == searches[i + 1]);
            }
        }
    }
}

/// A session of `advance` calls from a consistent search, taken as a
/// whole: every search in it stays consistent, with the same target and
/// mask; every progress answer keeps the target and shows the cells outside
/// the mask decided and dead; every found board evolves into the target;
/// once a call answers an outcome, every later call answers the same
/// outcome and leaves the search as it was; and the budgets of the calls
/// that answered progress add up to less than twice the iteration limit,
/// so the search always ends.
pub proof fn law_search_session<const H: usize, const W: usize>(
    searches: Seq<PredecessorSearch<H, W>>,
    budgets: Seq<u32>,
    steps: Seq<SearchStep<H, W>>,
)
    requires
        searches[0].wf(),
        is_search_session(searches, budgets, steps),
    ensures
        forall|i: int|
            0 <= i < searches.len() ==> (#[trigger] searches[i]).wf() && searches[i].spec_target()
                == searches[0].spec_target() && searches[i].spec_search_mask()
                == searches[0].spec_search_mask(),
        forall|i: int|
            0 <= i < steps.len() ==> match #[trigger] steps[i] {
                SearchStep::Progress { candidate, assigned, target } => target == searches[0].spec_target()
                    && forall|r: int, c: int|
                    0 <= r < H && 0 <= c < W && !searches[0].spec_search_mask()[r][c]
                        ==> #[trigger] assigned[r][c] && !candidate.cells[r][c],
                SearchStep::Outcome(SearchOutcome::Found(board)) => evolves(
                    board.cells,
                    searches[0].spec_target().cells,
                ),
                _ => true,
            },
        forall|i: int, j: int|
            0 <= i < j < steps.len() && #[trigger] steps[i] is Outcome ==> #[trigger] steps[j] == steps[i]
                && searches[j + 1] == searches[i + 1],
        progress_budget(steps, budgets, steps.len()) < 2 * MAX_SEARCH_ITERATIONS,
{
    lemma_session_prefix(searches, budgets, steps, steps.len());
    assert forall|i: int| 0 <= i < steps.len() implies match #[trigger] steps[i] {
        SearchStep::Progress { candidate, assigned, target } => target == searches[0].spec_target()
            && forall|r: int, c: int|
            0 <= r < H && 0 <= c < W && !searches[0].spec_search_mask()[r][c] ==> #[trigger] assigned[r][c]
                && !candidate.cells[r][c],
        SearchStep::Outcome(SearchOutcome::Found(board)) => evolves(
            board.cells,
            searches[0].spec_target().cells,
        ),
        _ => true,
    } by {
        assert(searches[i].advance_effect(budgets[i], searches[i + 1], steps[i]));
        assert(searches[i].wf());
    }
}

/// An iteration that reports nothing raises the search's effort.
proof fn lemma_quiet_iteration_effort<const H: usize, const W: usize>(
    search: PredecessorSearch<H, W>,
    after: PredecessorSearch<H, W>,
)
    requires
        search.wf(),
        search.spec_outcome() is None,
        search.iteration_effect(after, None),
    ensures
        after.search_effort() >= search.search_effort() + 1,
{
}

/// In a consistent search, every cell outside the search mask is decided
/// and dead, the search mask is counted by the active count, and an
/// unfinished search has done less than twice the iteration limit of work.
pub proof fn lemma_search_consistency<const H: usize, const W: usize>(search: PredecessorSearch<H, W>)
    requires
        search.wf(),
    ensures
        forall|r: int, c: int|
            0 <= r < H && 0 <= c < W && !search.spec_search_mask()[r][c] ==> #[trigger] search.spec_assigned()[r][c]
                && !search.spec_candidate().cells[r][c],
        search.spec_active_count() == board_live_count(search.spec_search_mask(), H as int),
        0 <= search.spec_depth() <= search.spec_active_count(),
        0 <= search.search_effort(),
        search.spec_outcome() is None ==> search.search_effort() < 2 * MAX_SEARCH_ITERATIONS,
{
}

/// The cell `d` steps (`-1`, `0` or `1`) from `i` on a ring of `n`.
pub open spec fn ring_offset(i: int, d: int, n: int) -> int {
    if d < 0 {
        ring_prev(i, n)
    } else if d == 0 {
        i
    } else {
        ring_next(i, n)
    }
}

/// The 3×3 block of cells centered on `(r, c)` is fully assigned.
pub open spec fn neighborhood_assigned<const H: usize, const W: usize>(
    assigned: [[bool; W]; H],
    r: int,
    c: int,
) -> bool {
    forall|dr: int, dc: int|
        -1 <= dr <= 1 && -1 <= dc <= 1 ==> #[trigger] assigned[ring_offset(r, dr, H as int)][ring_offset(
            c,
            dc,
            W as int,
        )]
}

/// Cell `(r, c)` is not yet contradicted: either part of its neighborhood is
/// still open, or its next state already matches the target.
pub open spec fn cell_consistent<const H: usize, const W: usize>(
    candidate: [[bool; W]; H],
    assigned: [[bool; W]; H],
    target: [[bool; W]; H],
    r: int,
    c: int,
) -> bool {
    neighborhood_assigned(assigned, r, c) ==> next_cell(candidate, r, c) == target[r][c]
}

/// All nine cells around `(r, c)` are consistent.
pub open spec fn constraints_hold<const H: usize, const W: usize>(
    candidate: [[bool; W]; H],
    assigned: [[bool; W]; H],
    target: [[bool; W]; H],
    r: int,
    c: int,
) -> bool {
    forall|dr: int, dc: int|
        -1 <= dr <= 1 && -1 <= dc <= 1 ==> #[trigger] cell_consistent(
            candidate,
            assigned,
            target,
            ring_offset(r, dr, H as int),
            ring_offset(c, dc, W as int),
        )
}

/// The first `m` rows hold at most `m * W` live cells; with `m == H`, a
/// board of at most 65535 cells meets `count_live_cells`'s requirement.
pub proof fn lemma_board_live_count_upper<const H: usize, const W: usize>(
    cells: [[bool; W]; H],
    m: int,
)
    requires
        0 <= m,
    ensures
        board_live_count(cells, m) <= m * W,
    decreases m,
{
    if m > 0 {
        lemma_board_live_count_upper(cells, m - 1);
        lemma_row_live_count_bounds(cells[m - 1], W as int);
        assert((m - 1) * W + W == m * W) by (nonlinear_arith);
    }
}

fn neighborhood_is_assigned<const H: usize, const W: usize>(
    assigned: &[[bool; W]; H],
    row: usize,
    col: usize,
) -> (complete: bool)
    requires
        row < H,
        col < W,
    ensures
        complete == neighborhood_assigned(*assigned, row as int, col as int),
{
    let up = if row == 0 { H - 1 } else { row - 1 };
    let down = if row + 1 == H { 0 } else { row + 1 };
    let left = if col == 0 { W - 1 } else { col - 1 };
    let right = if col + 1 == W { 0 } else { col + 1 };
    let top = assigned[up];
    let middle = assigned[row];
    let bottom = assigned[down];
    let complete = top[left] && top[col] && top[right] && middle[left] && middle[col]
        && middle[right] && bottom[left] && bottom[col] && bottom[right];
    proof {
        assert(top == assigned[up as int] && middle == assigned[row as int] && bottom == assigned[down as int]);
        assert(assigned[ring_offset(row as int, -1, H as int)][ring_offset(col as int, -1, W as int)] == top[left as int]);
        assert(assigned[ring_offset(row as int, -1, H as int)][ring_offset(col as int, 0, W as int)] == top[col as int]);
        assert(assigned[ring_offset(row as int, -1, H as int)][ring_offset(col as int, 1, W as int)] == top[right as int]);
        assert(assigned[ring_offset(row as int, 0, H as int)][ring_offset(col as int, -1, W as int)] == middle[left as int]);
        assert(assigned[ring_offset(row as int, 0, H as int)][ring_offset(col as int, 0, W as int)] == middle[col as int]);
        assert(assigned[ring_offset(row as int, 0, H as int)][ring_offset(col as int, 1, W as int)] == middle[right as int]);
        assert(assigned[ring_offset(row as int, 1, H as int)][ring_offset(col as int, -1, W as int)] == bottom[left as int]);
        assert(assigned[ring_offset(row as int, 1, H as int)][ring_offset(col as int, 0, W as int)] == bottom[col as int]);
        assert(assigned[ring_offset(row as int, 1, H as int)][ring_offset(col as int, 1, W as int)] == bottom[right as int]);
    }
    complete
}

fn cell_is_consistent<const H: usize, const W: usize>(
    candidate: &Board<H, W>,
    assigned: &[[bool; W]; H],
    target: &Board<H, W>,
    row: usize,
    col: usize,
) -> (consistent: bool)
    requires
        row < H,
        col < W,
    ensures
        consistent == cell_consistent(candidate.cells, *assigned, target.cells, row as int, col as int),
{
    if neighborhood_is_assigned(assigned, row, col) {
        let live_neighbors = candidate.neighbors_of(row, col);
        let is_alive_in_prev = candidate.cells[row][col];
        let next_alive = matches!(
            (is_alive_in_prev, live_neighbors),
            (true, 2) | (true, 3) | (false, 3)
        );
        next_alive == target.cells[row][col]
    } else {
        true
    }
}

fn check_search_constraints<const W: usize, const H: usize>(
    candidate: &Board<H, W>,
    assigned: &[[bool; W]; H],
    target: &Board<H, W>,
    changed_row: usize,
    changed_col: usize,
) -> (satisfied: bool)
    requires
        changed_row < H,
        changed_col < W,
    ensures
        satisfied == constraints_hold(
            candidate.cells,
            *assigned,
            target.cells,
            changed_row as int,
            changed_col as int,
        ),
{
    let up = if changed_row == 0 { H - 1 } else { changed_row - 1 };
    let down = if changed_row + 1 == H { 0 } else { changed_row + 1 };
    let left = if changed_col == 0 { W - 1 } else { changed_col - 1 };
    let right = if changed_col + 1 == W { 0 } else { changed_col + 1 };
    let rows = [up, changed_row, down];
    let cols = [left, changed_col, right];
    let ghost r0 = changed_row as int;
    let ghost c0 = changed_col as int;
    let mut i: usize = 0;
    while i < 3
        invariant
            i <= 3,
            rows@ == seq![up, changed_row, down],
            cols@ == seq![left, changed_col, right],
            up < H && down < H && left < W && right < W,
            up == ring_prev(r0, H as int) && down == ring_next(r0, H as int),
            left == ring_prev(c0, W as int) && right == ring_next(c0, W as int),
            r0 == changed_row && c0 == changed_col,
            changed_row < H && changed_col < W,
            forall|dr: int, dc: int|
                -1 <= dr < i - 1 && -1 <= dc <= 1 ==> #[trigger] cell_consistent(
                    candidate.cells,
                    *assigned,
                    target.cells,
                    ring_offset(r0, dr, H as int),
                    ring_offset(c0, dc, W as int),
                ),
        decreases 3 - i,
    {
        let mut j: usize = 0;
        while j < 3
            invariant
                i < 3,
                j <= 3,
                rows@ == seq![up, changed_row, down],
                cols@ == seq![left, changed_col, right],
                up < H && down < H && left < W && right < W,
                up == ring_prev(r0, H as int) && down == ring_next(r0, H as int),
                left == ring_prev(c0, W as int) && right == ring_next(c0, W as int),
                r0 == changed_row && c0 == changed_col,
                changed_row < H && changed_col < W,
                forall|dr: int, dc: int|
                    -1 <= dr < i - 1 && -1 <= dc <= 1 ==> #[trigger] cell_consistent(
                        candidate.cells,
                        *assigned,
                        target.cells,
                        ring_offset(r0, dr, H as int),
                        ring_offset(c0, dc, W as int),
                    ),
                forall|dc: int|
                    -1 <= dc < j - 1 ==> #[trigger] cell_consistent(
                        candidate.cells,
                        *assigned,
                        target.cells,
                        ring_offset(r0, i - 1, H as int),
                        ring_offset(c0, dc, W as int),
                    ),
            decreases 3 - j,
        {
            let check_row = rows[i];
            let check_col = cols[j];
            assert(check_row == ring_offset(r0, i - 1, H as int));
            assert(check_col == ring_offset(c0, j - 1, W as int));
            if !cell_is_consistent(candidate, assigned, target, check_row, check_col) {
                return false;
            }
            j += 1;
        }
        i += 1;
    }
    true
}

fn count_search_cells<const W: usize, const H: usize>(search_mask: &[[bool; W]; H]) -> (count: usize)
    requires
        board_live_count(*search_mask, H as int) <= usize::MAX,
    ensures
        count == board_live_count(*search_mask, H as int),
{
    let mut search_cell_count: usize = 0;
    let mut row_index: usize = 0;
    while row_index < H
        invariant
            row_index <= H,
            board_live_count(*search_mask, H as int) <= usize::MAX,
            search_cell_count as int == board_live_count(*search_mask, row_index as int),
        decreases H - row_index,
    {
        let row = search_mask[row_index];
        proof {
            lemma_board_live_count_monotone(*search_mask, row_index as int + 1, H as int);
        }
        let mut col_index: usize = 0;
        while col_index < W
            invariant
                row_index < H,
                col_index <= W,
                row == search_mask[row_index as int],
                board_live_count(*search_mask, row_index as int) + row_live_count(row, W as int)
                    <= usize::MAX,
                search_cell_count as int == board_live_count(*search_mask, row_index as int)
                    + row_live_count(row, col_index as int),
            decreases W - col_index,
        {
            proof {
                lemma_row_live_count_monotone(row, col_index as int + 1, W as int);
            }
            if row[col_index] {
                search_cell_count += 1;
            }
            col_index += 1;
        }
        row_index += 1;
    }
    search_cell_count
}

fn search_cell_at<const W: usize, const H: usize>(
    search_mask: &[[bool; W]; H],
    target_index: usize,
) -> (found: Option<(usize, usize)>)
    ensures
        match found {
            Some((r, c)) => r < H && c < W && search_mask[r as int][c as int] && cells_before(
                *search_mask,
                r as int,
                c as int,
            ) == target_index,
            None => board_live_count(*search_mask, H as int) <= target_index,
        },
{
    let mut search_cell_index: usize = 0;
    let mut row_index: usize = 0;
    while row_index < H
        invariant
            row_index <= H,
            search_cell_index as int == board_live_count(*search_mask, row_index as int),
            search_cell_index <= target_index,
        decreases H - row_index,
    {
        let row = search_mask[row_index];
        let mut col_index: usize = 0;
        while col_index < W
            invariant
                row_index < H,
                col_index <= W,
                row == search_mask[row_index as int],
                search_cell_index as int == board_live_count(*search_mask, row_index as int)
                    + row_live_count(row, col_index as int),
                search_cell_index <= target_index,
            decreases W - col_index,
        {
            if row[col_index] {
                if search_cell_index == target_index {
                    return Some((row_index, col_index));
                }
                search_cell_index += 1;
            }
            col_index += 1;
        }
        row_index += 1;
    }
    None
}


impl<const H: usize, const W: usize> PredecessorSearch<H, W> {
    /// Create a new localized predecessor search.
    #[must_use]
    pub fn new(target: Board<H, W>) -> (search: Self)
        requires
            DEFAULT_PREDECESSOR_SEARCH_RADIUS + H <= isize::MAX,
            DEFAULT_PREDECESSOR_SEARCH_RADIUS + W <= isize::MAX,
            H * W <= usize::MAX,
        ensures
            search.wf(),
            search.is_fresh_search(target, DEFAULT_PREDECESSOR_SEARCH_RADIUS as int),
    {
        Self::new_with_radius(target, DEFAULT_PREDECESSOR_SEARCH_RADIUS)
    }

    /// Create a new predecessor search with a custom live-cell radius.
    #[must_use]
    pub fn new_with_radius(target: Board<H, W>, radius: usize) -> (search: Self)
        requires
            radius + H <= isize::MAX,
            radius + W <= isize::MAX,
            H * W <= usize::MAX,
        ensures
            search.wf(),
            search.is_fresh_search(target, radius as int),
    {
        let search_mask = target.predecessor_search_mask(radius);
        let mut assigned = [[true; W]; H];
        proof {
            lemma_board_live_count_upper(search_mask, H as int);
        }
        let active_count = count_search_cells(&search_mask);
        let mut row_index: usize = 0;
        while row_index < H
            invariant
                row_index <= H,
                forall|r: int, c: int|
                    0 <= r < row_index && 0 <= c < W ==> #[trigger] assigned[r][c]
                        == !search_mask[r][c],
            decreases H - row_index,
        {
            let mut assigned_row = assigned[row_index];
            let mut col_index: usize = 0;
            while col_index < W
                invariant
                    row_index < H,
                    col_index <= W,
                    forall|c: int| 0 <= c < col_index ==> #[trigger] assigned_row[c] == !search_mask[row_index as int][c],
                decreases W - col_index,
            {
                assigned_row[col_index] = !search_mask[row_index][col_index];
                col_index += 1;
            }
            assigned[row_index] = assigned_row;
            row_index += 1;
        }
        let candidate = Board::new();
        Self {
            target,
            candidate,
            search_mask,
            choices: [[0u8; W]; H],
            assigned,
            depth: 0,
            active_count,
            iteration: 0,
            done: None,
        }
    }

    /// A search for a predecessor of `target` that has not started: the
    /// mask covers the cells within `radius` of a live target cell, the
    /// candidate is empty, exactly the cells outside the mask are decided,
    /// no cell has tried a value, and no iteration has been taken.
    pub open spec fn is_fresh_search(self, target: Board<H, W>, radius: int) -> bool {
        &&& self.spec_target() == target
        &&& self.spec_outcome() is None
        &&& forall|r: int, c: int|
            0 <= r < H && 0 <= c < W ==> #[trigger] self.spec_search_mask()[r][c] == search_covers(
                target.cells,
                radius,
                r,
                c,
            )
        &&& forall|r: int, c: int|
            0 <= r < H && 0 <= c < W ==> #[trigger] self.spec_assigned()[r][c]
                == !self.spec_search_mask()[r][c]
        &&& forall|r: int, c: int| 0 <= r < H && 0 <= c < W ==> !#[trigger] self.spec_candidate().cells[r][c]
        &&& forall|r: int, c: int| 0 <= r < H && 0 <= c < W ==> #[trigger] self.spec_choices()[r][c] == 0
        &&& self.spec_depth() == 0
        &&& self.spec_iteration() == 0
        &&& self.spec_active_count() == board_live_count(self.spec_search_mask(), H as int)
    }

    /// Cancel the search.
    pub fn cancel(&mut self) -> (step: SearchStep<H, W>)
        requires
            old(self).wf(),
        ensures
            final(self).wf(),
            step == SearchStep::Outcome(SearchOutcome::<H, W>::Cancelled),
            final(self).spec_outcome() == Some(SearchOutcome::<H, W>::Cancelled),
            final(self).spec_target() == old(self).spec_target(),
            final(self).spec_search_mask() == old(self).spec_search_mask(),
    {
        let outcome = SearchOutcome::Cancelled;
        self.done = Some(outcome);
        SearchStep::Outcome(outcome)
    }

    /// `trace` is the quiet run of one `advance` call from `self`: it ran
    /// the whole budget and stopped at `after` when `step` is progress, or
    /// its last state's next iteration reported the outcome of `step`.
    pub open spec fn run_ends(
        self,
        iteration_budget: u32,
        trace: Seq<Self>,
        after: Self,
        step: SearchStep<H, W>,
    ) -> bool {
        &&& self.quiet_run(trace)
        &&& match step {
            SearchStep::Progress { .. } => trace.len() == iteration_budget + 1 && after == trace.last(),
            SearchStep::Outcome(outcome) => trace.len() <= iteration_budget && trace.last().iteration_effect(
                after.spec_unfinished(),
                Some(outcome),
            ) && after.spec_outcome() == Some(outcome),
        }
    }

    /// One call of `advance` with `iteration_budget` leads from `self` to
    /// `after` and answers `step`.
    ///
    /// A finished search answers its outcome again and stays unchanged.
    /// Otherwise backtracking iterations run one after another until one
    /// reports an outcome, which the search keeps, or until
    /// `iteration_budget` iterations reported nothing. A board reported as
    /// found evolves into the target in one generation and is alive only
    /// inside the search mask. A progress step shows the current candidate
    /// and decided cells, in which every cell outside the mask is decided
    /// and dead, and it raises `search_effort` by at least the budget while
    /// the effort of an unfinished search stays below twice the iteration
    /// limit.
    pub open spec fn advance_effect(
        self,
        iteration_budget: u32,
        after: Self,
        step: SearchStep<H, W>,
    ) -> bool {
        &&& after.wf()
        &&& after.spec_target() == self.spec_target()
        &&& after.spec_search_mask() == self.spec_search_mask()
        &&& match self.spec_outcome() {
            Some(outcome) => step == SearchStep::Outcome(outcome) && after == self,
            None => exists|trace: Seq<Self>|
                #[trigger] self.run_ends(iteration_budget, trace, after, step),
        }
        &&& step matches SearchStep::Outcome(outcome) ==> after.spec_outcome() == Some(outcome)
        &&& step matches SearchStep::Outcome(SearchOutcome::Cancelled) ==> self.spec_outcome()
            == Some(SearchOutcome::<H, W>::Cancelled)
        &&& step matches SearchStep::Outcome(SearchOutcome::Found(board)) ==> evolves(
            board.cells,
            self.spec_target().cells,
        ) && within_mask(board.cells, self.spec_search_mask())
        &&& step matches SearchStep::Progress { candidate, assigned, target } ==> {
            &&& after.spec_outcome() is None
            &&& candidate == after.spec_candidate()
            &&& assigned == after.spec_assigned()
            &&& target == self.spec_target()
            &&& after.search_effort() >= self.search_effort() + iteration_budget
            &&& after.search_effort() < 2 * MAX_SEARCH_ITERATIONS
            &&& forall|r: int, c: int|
                0 <= r < H && 0 <= c < W && !self.spec_search_mask()[r][c] ==> #[trigger] assigned[r][c]
                    && !candidate.cells[r][c]
        }
    }

    /// `trace` is a run of backtracking iterations from `self` in which no
    /// iteration reported an outcome.
    pub open spec fn quiet_run(self, trace: Seq<Self>) -> bool {
        &&& trace.len() >= 1
        &&& trace[0] == self
        &&& forall|i: int, j: int|
            0 <= i && j == i + 1 && j < trace.len() ==> #[trigger] trace[i].iteration_effect(
                trace[j],
                None,
            )
    }

    /// Advance the search by at most `iteration_budget` backtracking iterations;
    /// `advance_effect` says what one call does.
    pub fn advance(&mut self, iteration_budget: u32) -> (step: SearchStep<H, W>)
        requires
            old(self).wf(),
            iteration_budget > 0,
        ensures
            old(self).advance_effect(iteration_budget, *final(self), step),
    {
        if let Some(outcome) = self.done {
            return SearchStep::Outcome(outcome);
        }

        let ghost start = *self;
        let ghost mut trace: Seq<Self> = seq![*self];
        let mut budget_remaining = iteration_budget;
        while budget_remaining > 0
            invariant
                self.wf(),
                self.done is None,
                old(self).done is None,
                start == *old(self),
                self.target == old(self).target,
                self.search_mask == old(self).search_mask,
                budget_remaining <= iteration_budget,
                start.quiet_run(trace),
                trace.len() == iteration_budget - budget_remaining + 1,
                trace.last() == *self,
                self.search_effort() >= start.search_effort() + (iteration_budget - budget_remaining),
            decreases budget_remaining,
        {
            budget_remaining -= 1;
            let ghost before = *self;
            if let Some(outcome) = self.advance_once() {
                proof {
                    assert(self.spec_unfinished() == *self);
                }
                self.done = Some(outcome);
                proof {
                    assert(start.run_ends(iteration_budget, trace, *self, SearchStep::Outcome(outcome)));
                }
                return SearchStep::Outcome(outcome);
            }
            proof {
                lemma_quiet_iteration_effort(before, *self);
                let next = trace.push(*self);
                assert forall|i: int, j: int|
                    0 <= i && j == i + 1 && j < next.len() implies #[trigger] next[i].iteration_effect(
                    next[j],
                    None,
                ) by {
                    if j < trace.len() {
                        assert(next[i] == trace[i] && next[j] == trace[j]);
                    } else {
                        assert(next[i] == before && next[j] == *self);
                    }
                }
                trace = next;
            }
        }

        let step = SearchStep::Progress {
            candidate: self.candidate,
            assigned: self.assigned,
            target: self.target,
        };
        proof {
            lemma_search_consistency(*self);
            assert(start.run_ends(iteration_budget, trace, *self, step));
        }
        step
    }

    /// One backtracking iteration leads from `self` to `after` with
    /// `outcome`. At full depth the candidate is checked: a predecessor is
    /// found, the search is exhausted at depth 0, or it backs up one cell.
    /// Below full depth the cell at the current depth tries its next value
    /// (dead, then alive) and goes deeper when no neighborhood is
    /// contradicted; after both values it is reset and the search backs up,
    /// exhausted at depth 0. Every iteration below full depth counts
    /// towards the iteration limit, which ends the search as not found.
    pub open spec fn iteration_effect(self, after: Self, outcome: Option<SearchOutcome<H, W>>) -> bool {
        let d = self.spec_depth();
        let mask = self.spec_search_mask();
        &&& after.spec_target() == self.spec_target()
        &&& after.spec_search_mask() == mask
        &&& after.spec_active_count() == self.spec_active_count()
        &&& after.spec_outcome() == self.spec_outcome()
        &&& if d == self.spec_active_count() {
            if evolves(self.spec_candidate().cells, self.spec_target().cells) {
                outcome == Some(SearchOutcome::Found(self.spec_candidate())) && after == self
            } else if d == 0 {
                outcome == Some(SearchOutcome::<H, W>::NotFound) && after == self
            } else {
                let prev = search_cell(mask, d - 1);
                &&& outcome is None
                &&& after.spec_depth() == d - 1
                &&& !after.spec_assigned()[prev.0][prev.1]
                &&& same_except(self.spec_assigned(), after.spec_assigned(), prev.0, prev.1)
                &&& after.spec_candidate() == self.spec_candidate()
                &&& after.spec_choices() == self.spec_choices()
                &&& after.spec_iteration() == self.spec_iteration()
            }
        } else {
            let cell = search_cell(mask, d);
            let (r, c) = (cell.0, cell.1);
            let choice = self.spec_choices()[r][c];
            let counted = after.spec_iteration() == self.spec_iteration() + 1 && outcome == (if after.spec_iteration()
                >= MAX_SEARCH_ITERATIONS {
                Some(SearchOutcome::<H, W>::NotFound)
            } else {
                None
            });
            if choice < 2 {
                &&& after.spec_choices()[r][c] == choice + 1
                &&& same_except(self.spec_choices(), after.spec_choices(), r, c)
                &&& after.spec_candidate().cells[r][c] == (choice == 1)
                &&& same_except(self.spec_candidate().cells, after.spec_candidate().cells, r, c)
                &&& same_except(self.spec_assigned(), after.spec_assigned(), r, c)
                &&& if after.spec_depth() == d + 1 {
                    after.spec_assigned()[r][c] && constraints_hold(
                        after.spec_candidate().cells,
                        after.spec_assigned(),
                        self.spec_target().cells,
                        r,
                        c,
                    )
                } else {
                    &&& after.spec_depth() == d
                    &&& !after.spec_assigned()[r][c]
                    &&& exists|tried: [[bool; W]; H]|
                        #![trigger same_except(self.spec_assigned(), tried, r, c)]
                        tried[r][c] && same_except(self.spec_assigned(), tried, r, c) && !constraints_hold(
                            after.spec_candidate().cells,
                            tried,
                            self.spec_target().cells,
                            r,
                            c,
                        )
                }
                &&& counted
            } else {
                &&& after.spec_choices()[r][c] == 0
                &&& same_except(self.spec_choices(), after.spec_choices(), r, c)
                &&& after.spec_candidate() == self.spec_candidate()
                &&& !after.spec_assigned()[r][c]
                &&& if d == 0 {
                    &&& outcome == Some(SearchOutcome::<H, W>::NotFound)
                    &&& after.spec_depth() == 0
                    &&& after.spec_iteration() == self.spec_iteration()
                    &&& same_except(self.spec_assigned(), after.spec_assigned(), r, c)
                } else {
                    let prev = search_cell(mask, d - 1);
                    &&& after.spec_depth() == d - 1
                    &&& !after.spec_assigned()[prev.0][prev.1]
                    &&& same_except_two(self.spec_assigned(), after.spec_assigned(), r, c, prev.0, prev.1)
                    &&& counted
                }
            }
        }
    }

    #[verifier::spinoff_prover]
    #[verifier::rlimit(40)]
    fn advance_once(&mut self) -> (outcome: Option<SearchOutcome<H, W>>)
        requires
            old(self).wf(),
            old(self).done is None,
        ensures
            final(self).target == old(self).target,
            final(self).search_mask == old(self).search_mask,
            final(self).done is None,
            outcome is None ==> final(self).wf(),
            outcome matches Some(o) ==> ({
                let finished = PredecessorSearch { done: Some(o), ..*final(self) };
                finished.wf()
            }),
            outcome != Some(SearchOutcome::<H, W>::Cancelled),
            old(self).iteration_effect(*final(self), outcome),
    {
        let ghost start = *self;
        if self.depth == self.active_count {
            if self.candidate.evolves_to(&self.target) {
                return Some(SearchOutcome::Found(self.candidate));
            }
            if self.depth == 0 {
                return Some(SearchOutcome::NotFound);
            }
            self.depth -= 1;
            if let Some((prev_row, prev_col)) = search_cell_at(&self.search_mask, self.depth) {
                let mut assigned_row = self.assigned[prev_row];
                assigned_row[prev_col] = false;
                self.assigned[prev_row] = assigned_row;
                proof {
                    lemma_search_cell_unique(
                        start.search_mask,
                        start.depth - 1,
                        prev_row as int,
                        prev_col as int,
                    );
                    assert(same_except(start.assigned, self.assigned, prev_row as int, prev_col as int));
                }
            }
            return None;
        }

        let Some((row, col)) = search_cell_at(&self.search_mask, self.depth) else {
            return Some(SearchOutcome::NotFound);
        };
        proof {
            lemma_search_cell_unique(start.search_mask, start.depth as int, row as int, col as int);
        }

        let try_value = match self.choices[row][col] {
            0 => Some(false),
            1 => Some(true),
            _ => None,
        };

        if let Some(value) = try_value {
            let mut choices_row = self.choices[row];
            choices_row[col] = choices_row[col] + 1;
            self.choices[row] = choices_row;
            let mut candidate_row = self.candidate.cells[row];
            candidate_row[col] = value;
            self.candidate.cells[row] = candidate_row;
            let mut assigned_row = self.assigned[row];
            assigned_row[col] = true;
            self.assigned[row] = assigned_row;
            let ghost tried = self.assigned;
            proof {
                assert(same_except(start.choices, self.choices, row as int, col as int));
                assert(same_except(start.candidate.cells, self.candidate.cells, row as int, col as int));
                assert(same_except(start.assigned, tried, row as int, col as int));
            }

            if check_search_constraints(&self.candidate, &self.assigned, &self.target, row, col) {
                self.depth += 1;
            } else {
                let mut assigned_row = self.assigned[row];
                assigned_row[col] = false;
                self.assigned[row] = assigned_row;
                proof {
                    assert(same_except(start.assigned, self.assigned, row as int, col as int));
                }
            }
        } else {
            let mut choices_row = self.choices[row];
            choices_row[col] = 0;
            self.choices[row] = choices_row;
            let mut assigned_row = self.assigned[row];
            assigned_row[col] = false;
            self.assigned[row] = assigned_row;
            proof {
                assert(same_except(start.choices, self.choices, row as int, col as int));
                assert(same_except(start.assigned, self.assigned, row as int, col as int));
            }
            if self.depth == 0 {
                return Some(SearchOutcome::NotFound);
            }
            self.depth -= 1;
            if let Some((prev_row, prev_col)) = search_cell_at(&self.search_mask, self.depth) {
                let ghost cleared = self.assigned;
                let mut assigned_row = self.assigned[prev_row];
                assigned_row[prev_col] = false;
                self.assigned[prev_row] = assigned_row;
                proof {
                    lemma_search_cell_unique(
                        start.search_mask,
                        start.depth - 1,
                        prev_row as int,
                        prev_col as int,
                    );
                    assert(same_except(cleared, self.assigned, prev_row as int, prev_col as int));
                    assert(same_except_two(
                        start.assigned,
                        self.assigned,
                        row as int,
                        col as int,
                        prev_row as int,
                        prev_col as int,
                    ));
                }
            }
        }

        self.iteration += 1;
        if self.iteration >= MAX_SEARCH_ITERATIONS {
            return Some(SearchOutcome::NotFound);
        }

        None
    }
}


impl<const H: usize, const W: usize> Board<H, W> {
    /// Draws the board on an LED frame: live cells in `alive_color`, dead
    /// ones black.
    pub fn to_frame(&self, alive_color: Rgb8) -> (frame: Frame2d<W, H>)
        ensures
            forall|y: int, x: int|
                0 <= y < H && 0 <= x < W ==> #[trigger] frame.pixel(x, y) == if self.cells@[y]@[x] {
                    alive_color
                } else {
                    Rgb8 { r: 0, g: 0, b: 0 }
                },
    {
        let mut frame = Frame2d::<W, H>::new();
        let mut row_index = 0usize;
        while row_index < H
            invariant
                row_index <= H,
                forall|y: int, x: int|
                    0 <= y < H && 0 <= x < W ==> #[trigger] frame.pixel(x, y) == if y < row_index
                        && self.cells@[y]@[x] {
                        alive_color
                    } else {
                        Rgb8 { r: 0, g: 0, b: 0 }
                    },
            decreases H - row_index,
        {
            let mut col_index = 0usize;
            while col_index < W
                invariant
                    row_index < H,
                    col_index <= W,
                    forall|y: int, x: int|
                        0 <= y < H && 0 <= x < W ==> #[trigger] frame.pixel(x, y) == if (y
                            < row_index || (y == row_index && x < col_index))
                            && self.cells@[y]@[x] {
                            alive_color
                        } else {
                            Rgb8 { r: 0, g: 0, b: 0 }
                        },
                decreases W - col_index,
            {
                if self.cells[row_index][col_index] {
                    frame.set(col_index, row_index, alive_color);
                }
                col_index += 1;
            }
            row_index += 1;
        }
        frame
    }
}

} // verus!
