//! [`LedLayout`]: the geometry and wiring order of a rectangular LED panel.
//!
//! A layout maps each LED, in the order the strip is wired, to its `(x, y)`
//! position on a `W`×`H` panel, and keeps the inverse mapping. `(0, 0)` is the
//! top-left corner, `x` grows to the right and `y` grows downward.

use vstd::prelude::*;

verus! {

/// The row-major index of panel position `p` on a panel `w` cells wide.
pub open spec fn cell_of(p: (u16, u16), w: int) -> int {
    p.1 * w + p.0
}

/// Position `(x, y)` appears in `mapping`.
pub open spec fn mapping_covers(mapping: Seq<(u16, u16)>, x: int, y: int) -> bool {
    exists|i: int| 0 <= i < mapping.len() && (#[trigger] mapping[i]).0 == x && mapping[i].1 == y
}

/// `mapping` lists every position of a `w`×`h` panel exactly once.
pub open spec fn is_panel_permutation(mapping: Seq<(u16, u16)>, w: int, h: int) -> bool {
    &&& mapping.len() == w * h
    &&& forall|i: int| 0 <= i < mapping.len() ==> (#[trigger] mapping[i]).0 < w && mapping[i].1 < h
    &&& forall|i: int, j: int|
        0 <= i < mapping.len() && 0 <= j < mapping.len() && i != j ==> #[trigger] mapping[i]
            != #[trigger] mapping[j]
    &&& forall|x: int, y: int| 0 <= x < w && 0 <= y < h ==> #[trigger] mapping_covers(mapping, x, y)
}

/// `mapping` lists `w * h` distinct positions of a `w`×`h` panel.
pub open spec fn lists_distinct_positions(mapping: Seq<(u16, u16)>, w: int, h: int) -> bool {
    &&& mapping.len() == w * h
    &&& forall|i: int| 0 <= i < mapping.len() ==> (#[trigger] mapping[i]).0 < w && mapping[i].1 < h
    &&& forall|i: int, j: int|
        0 <= i < mapping.len() && 0 <= j < mapping.len() && i != j ==> #[trigger] mapping[i]
            != #[trigger] mapping[j]
}

/// The shape constraints every layout satisfies.
pub open spec fn panel_shape_ok(n: int, w: int, h: int) -> bool {
    w > 0 && h > 0 && w * h == n && n <= u16::MAX
}

proof fn lemma_cell_of_decode(x: int, y: int, w: int, h: int)
    requires
        0 <= x < w,
        0 <= y < h,
    ensures
        0 <= y * w + x < w * h,
        (y * w + x) % w == x,
        (y * w + x) / w == y,
{
    assert(0 <= y * w) by (nonlinear_arith)
        requires
            0 <= y,
            0 < w,
    ;
    assert(y * w + x < w * h) by (nonlinear_arith)
        requires
            0 <= x < w,
            0 <= y < h,
    ;
    vstd::arithmetic::div_mod::lemma_fundamental_div_mod_converse(y * w + x, w, y, x);
}

proof fn lemma_cell_of_injective(p: (u16, u16), q: (u16, u16), w: int, h: int)
    requires
        p.0 < w,
        p.1 < h,
        q.0 < w,
        q.1 < h,
        cell_of(p, w) == cell_of(q, w),
    ensures
        p == q,
{
    lemma_cell_of_decode(p.0 as int, p.1 as int, w, h);
    lemma_cell_of_decode(q.0 as int, q.1 as int, w, h);
}

/// `w * h` distinct positions of a `w`×`h` panel cover it: every position
/// appears, so the list is a wiring order of the whole panel.
pub proof fn law_distinct_positions_cover_the_panel(mapping: Seq<(u16, u16)>, w: int, h: int)
    requires
        w > 0,
        h > 0,
        lists_distinct_positions(mapping, w, h),
    ensures
        is_panel_permutation(mapping, w, h),
{
    let n = w * h;
    let cells = Seq::new(mapping.len(), |i: int| cell_of(mapping[i], w));
    assert forall|i: int| 0 <= i < cells.len() implies 0 <= #[trigger] cells[i] < n by {
        lemma_cell_of_decode(mapping[i].0 as int, mapping[i].1 as int, w, h);
    }
    assert(cells.no_duplicates()) by {
        assert forall|i: int, j: int| 0 <= i < cells.len() && 0 <= j < cells.len() && i != j implies cells[i]
            != cells[j] by {
            if cells[i] == cells[j] {
                lemma_cell_of_injective(mapping[i], mapping[j], w, h);
            }
        }
    }
    cells.unique_seq_to_set();
    let range = vstd::set_lib::set_int_range(0, n);
    vstd::set_lib::lemma_int_range(0, n);
    assert(cells.to_set().subset_of(range)) by {
        assert forall|k: int| cells.to_set().contains(k) implies range.contains(k) by {
            let i = choose|i: int| 0 <= i < cells.len() && cells[i] == k;
            assert(0 <= cells[i] < n);
        }
    }
    vstd::seq_lib::seq_to_set_is_finite(cells);
    vstd::set_lib::lemma_subset_equality(cells.to_set(), range);
    assert forall|x: int, y: int| 0 <= x < w && 0 <= y < h implies #[trigger] mapping_covers(mapping, x, y) by {
        lemma_cell_of_decode(x, y, w, h);
        let k = y * w + x;
        assert(range.contains(k));
        assert(cells.to_set().contains(k));
        let i = choose|i: int| 0 <= i < cells.len() && cells[i] == k;
        lemma_cell_of_decode(mapping[i].0 as int, mapping[i].1 as int, w, h);
        assert(mapping[i].0 == x && mapping[i].1 == y);
    }
}

proof fn lemma_cell_split(k: int, w: int, h: int)
    requires
        0 <= k < w * h,
        w > 0,
    ensures
        0 <= k % w < w,
        0 <= k / w < h,
        (k / w) * w + k % w == k,
{
    vstd::arithmetic::div_mod::lemma_fundamental_div_mod(k, w);
    vstd::arithmetic::div_mod::lemma_mod_pos_bound(k, w);
    vstd::arithmetic::div_mod::lemma_div_pos_is_pos(k, w);
    assert(k / w < h) by (nonlinear_arith)
        requires
            k == w * (k / w) + k % w,
            0 <= k % w,
            k < w * h,
            w > 0,
    ;
    assert(w * (k / w) == (k / w) * w) by (nonlinear_arith);
}


/// The wiring order after a quarter turn clockwise of a panel `h` cells tall:
/// `(x, y)` moves to `(h - 1 - y, x)`.
pub open spec fn rotated_cw(mapping: Seq<(u16, u16)>, h: int) -> Seq<(u16, u16)> {
    Seq::new(mapping.len(), |i: int| ((h - 1 - mapping[i].1) as u16, mapping[i].0))
}

/// The wiring order after mirroring the columns of a panel `w` cells wide:
/// `(x, y)` moves to `(w - 1 - x, y)`.
pub open spec fn flipped_h(mapping: Seq<(u16, u16)>, w: int) -> Seq<(u16, u16)> {
    Seq::new(mapping.len(), |i: int| ((w - 1 - mapping[i].0) as u16, mapping[i].1))
}

/// The wiring order of `left` followed by `right` shifted `w` columns to the right.
pub open spec fn combined_h(
    left: Seq<(u16, u16)>,
    right: Seq<(u16, u16)>,
    w: int,
) -> Seq<(u16, u16)> {
    left + Seq::new(right.len(), |j: int| ((right[j].0 + w) as u16, right[j].1))
}

/// The wiring order of `top` followed by `bottom` shifted `h` rows down.
pub open spec fn combined_v(
    top: Seq<(u16, u16)>,
    bottom: Seq<(u16, u16)>,
    h: int,
) -> Seq<(u16, u16)> {
    top + Seq::new(bottom.len(), |j: int| (bottom[j].0, (bottom[j].1 + h) as u16))
}

proof fn lemma_shape_bounds(n: int, w: int, h: int)
    requires
        panel_shape_ok(n, w, h),
    ensures
        w <= n,
        h <= n,
        n <= u16::MAX,
{
    assert(w <= w * h && h <= w * h) by (nonlinear_arith)
        requires
            w > 0,
            h > 0,
    ;
}

proof fn lemma_rotated_cw_permutation(mapping: Seq<(u16, u16)>, w: int, h: int)
    requires
        panel_shape_ok(mapping.len() as int, w, h),
        is_panel_permutation(mapping, w, h),
    ensures
        panel_shape_ok(mapping.len() as int, h, w),
        is_panel_permutation(rotated_cw(mapping, h), h, w),
{
    lemma_shape_bounds(mapping.len() as int, w, h);
    let out = rotated_cw(mapping, h);
    assert(w * h == h * w) by (nonlinear_arith);
    assert forall|i: int, j: int|
        0 <= i < out.len() && 0 <= j < out.len() && i != j implies #[trigger] out[i]
        != #[trigger] out[j] by {
        assert(mapping[i] != mapping[j]);
    }
    assert forall|x: int, y: int| 0 <= x < h && 0 <= y < w implies #[trigger] mapping_covers(
        out,
        x,
        y,
    ) by {
        assert(mapping_covers(mapping, y, h - 1 - x));
        let i = choose|i: int|
            0 <= i < mapping.len() && (#[trigger] mapping[i]).0 == y && mapping[i].1 == h - 1 - x;
        assert(out[i].0 == x && out[i].1 == y);
    }
}

proof fn lemma_flipped_h_permutation(mapping: Seq<(u16, u16)>, w: int, h: int)
    requires
        panel_shape_ok(mapping.len() as int, w, h),
        is_panel_permutation(mapping, w, h),
    ensures
        is_panel_permutation(flipped_h(mapping, w), w, h),
{
    lemma_shape_bounds(mapping.len() as int, w, h);
    let out = flipped_h(mapping, w);
    assert forall|i: int, j: int|
        0 <= i < out.len() && 0 <= j < out.len() && i != j implies #[trigger] out[i]
        != #[trigger] out[j] by {
        assert(mapping[i] != mapping[j]);
    }
    assert forall|x: int, y: int| 0 <= x < w && 0 <= y < h implies #[trigger] mapping_covers(
        out,
        x,
        y,
    ) by {
        assert(mapping_covers(mapping, w - 1 - x, y));
        let i = choose|i: int|
            0 <= i < mapping.len() && (#[trigger] mapping[i]).0 == w - 1 - x && mapping[i].1 == y;
        assert(out[i].0 == x && out[i].1 == y);
    }
}

proof fn lemma_combined_h_permutation(
    left: Seq<(u16, u16)>,
    right: Seq<(u16, u16)>,
    w: int,
    w2: int,
    h: int,
)
    requires
        panel_shape_ok(left.len() as int, w, h),
        panel_shape_ok(right.len() as int, w2, h),
        is_panel_permutation(left, w, h),
        is_panel_permutation(right, w2, h),
        left.len() + right.len() <= u16::MAX,
    ensures
        panel_shape_ok((left.len() + right.len()) as int, w + w2, h),
        is_panel_permutation(combined_h(left, right, w), w + w2, h),
{
    lemma_shape_bounds(left.len() as int, w, h);
    lemma_shape_bounds(right.len() as int, w2, h);
    let out = combined_h(left, right, w);
    let n = left.len() as int;
    assert((w + w2) * h == w * h + w2 * h) by (nonlinear_arith);
    assert forall|i: int| 0 <= i < out.len() implies (#[trigger] out[i]).0 < w + w2 && out[i].1 < h by {
        if i >= n {
            assert(right[i - n].0 < w2);
            assert(w + w2 <= u16::MAX) by (nonlinear_arith)
                requires
                    w * h + w2 * h <= u16::MAX,
                    h > 0,
                    w > 0,
                    w2 > 0,
            ;
        }
    }
    assert forall|i: int, j: int|
        0 <= i < out.len() && 0 <= j < out.len() && i != j implies #[trigger] out[i]
        != #[trigger] out[j] by {
        if i < n && j < n {
            assert(left[i] != left[j]);
        } else if i >= n && j >= n {
            assert(right[i - n] != right[j - n]);
        } else if i < n {
            assert(left[i].0 < w);
        } else {
            assert(left[j].0 < w);
        }
    }
    assert forall|x: int, y: int| 0 <= x < w + w2 && 0 <= y < h implies #[trigger] mapping_covers(
        out,
        x,
        y,
    ) by {
        if x < w {
            assert(mapping_covers(left, x, y));
            let i = choose|i: int| 0 <= i < left.len() && (#[trigger] left[i]).0 == x && left[i].1 == y;
            assert(out[i] == left[i]);
        } else {
            assert(mapping_covers(right, x - w, y));
            let j = choose|j: int|
                0 <= j < right.len() && (#[trigger] right[j]).0 == x - w && right[j].1 == y;
            assert(out[n + j].0 == x && out[n + j].1 == y);
        }
    }
}

/// Four quarter turns clockwise give back the original wiring order.
pub proof fn law_rotate_cw_four_times_is_identity(mapping: Seq<(u16, u16)>, w: int, h: int)
    requires
        panel_shape_ok(mapping.len() as int, w, h),
        is_panel_permutation(mapping, w, h),
    ensures
        rotated_cw(rotated_cw(rotated_cw(rotated_cw(mapping, h), w), h), w) == mapping,
{
    lemma_shape_bounds(mapping.len() as int, w, h);
    let once = rotated_cw(mapping, h);
    let twice = rotated_cw(once, w);
    let thrice = rotated_cw(twice, h);
    let four = rotated_cw(thrice, w);
    assert forall|i: int| 0 <= i < mapping.len() implies #[trigger] four[i] == mapping[i] by {
        assert(mapping[i].0 < w && mapping[i].1 < h);
    }
    assert(four =~= mapping);
}

/// Mirroring the columns twice gives back the original wiring order.
pub proof fn law_flip_h_twice_is_identity(mapping: Seq<(u16, u16)>, w: int, h: int)
    requires
        panel_shape_ok(mapping.len() as int, w, h),
        is_panel_permutation(mapping, w, h),
    ensures
        flipped_h(flipped_h(mapping, w), w) == mapping,
{
    lemma_shape_bounds(mapping.len() as int, w, h);
    let twice = flipped_h(flipped_h(mapping, w), w);
    assert forall|i: int| 0 <= i < mapping.len() implies #[trigger] twice[i] == mapping[i] by {
        assert(mapping[i].0 < w);
    }
    assert(twice =~= mapping);
}

/// A quarter turn followed by a column mirror swaps the two coordinates.
pub proof fn law_rotate_cw_then_flip_h_transposes(mapping: Seq<(u16, u16)>, w: int, h: int)
    requires
        panel_shape_ok(mapping.len() as int, w, h),
        is_panel_permutation(mapping, w, h),
    ensures
        flipped_h(rotated_cw(mapping, h), h) == Seq::new(
            mapping.len(),
            |i: int| (mapping[i].1, mapping[i].0),
        ),
{
    lemma_shape_bounds(mapping.len() as int, w, h);
    let t = flipped_h(rotated_cw(mapping, h), h);
    assert forall|i: int| 0 <= i < mapping.len() implies #[trigger] t[i] == (mapping[i].1, mapping[i].0) by {
        assert(mapping[i].1 < h);
    }
    assert(t =~= Seq::new(mapping.len(), |i: int| (mapping[i].1, mapping[i].0)));
}


/// Offset within a line of a snake that reverses direction on odd lines.
pub open spec fn snake_offset(line: int, along: int, line_len: int) -> int {
    if line % 2 == 0 { along } else { line_len - 1 - along }
}

/// Wiring order of a strip that snakes across rows: left-to-right on even
/// rows, right-to-left on odd rows.
pub open spec fn serpentine_rows(w: int, h: int) -> Seq<(u16, u16)> {
    Seq::new((w * h) as nat, |i: int| ((snake_offset(i / w, i % w, w)) as u16, (i / w) as u16))
}

/// Wiring order of a strip that snakes down columns: top-to-bottom on even
/// columns, bottom-to-top on odd columns.
pub open spec fn serpentine_columns(w: int, h: int) -> Seq<(u16, u16)> {
    Seq::new((w * h) as nat, |i: int| ((i / h) as u16, (snake_offset(i / h, i % h, h)) as u16))
}

proof fn lemma_serpentine_rows_permutation(w: int, h: int)
    requires
        panel_shape_ok(w * h, w, h),
    ensures
        is_panel_permutation(serpentine_rows(w, h), w, h),
        forall|x: int, y: int|
            0 <= x < w && 0 <= y < h ==> 0 <= #[trigger] (y * w + snake_offset(y, x, w)) < w * h
                && serpentine_rows(w, h)[y * w + snake_offset(y, x, w)] == (x as u16, y as u16),
{
    lemma_shape_bounds(w * h, w, h);
    let m = serpentine_rows(w, h);
    assert forall|i: int| 0 <= i < m.len() implies (#[trigger] m[i]).0 < w && m[i].1 < h by {
        lemma_cell_split(i, w, h);
    }
    assert forall|x: int, y: int|
        0 <= x < w && 0 <= y < h implies 0 <= #[trigger] (y * w + snake_offset(y, x, w)) < w * h
        && m[y * w + snake_offset(y, x, w)] == (x as u16, y as u16) by {
        let t = snake_offset(y, x, w);
        lemma_cell_of_decode(t, y, w, h);
    }
    assert forall|i: int, j: int|
        0 <= i < m.len() && 0 <= j < m.len() && i != j implies #[trigger] m[i] != #[trigger] m[j] by {
        lemma_cell_split(i, w, h);
        lemma_cell_split(j, w, h);
    }
    assert forall|x: int, y: int| 0 <= x < w && 0 <= y < h implies #[trigger] mapping_covers(m, x, y) by {
        let k = y * w + snake_offset(y, x, w);
        assert(m[k] == (x as u16, y as u16));
    }
}

proof fn lemma_serpentine_columns_permutation(w: int, h: int)
    requires
        panel_shape_ok(w * h, w, h),
    ensures
        is_panel_permutation(serpentine_columns(w, h), w, h),
        forall|x: int, y: int|
            0 <= x < w && 0 <= y < h ==> 0 <= #[trigger] (x * h + snake_offset(x, y, h)) < w * h
                && serpentine_columns(w, h)[x * h + snake_offset(x, y, h)] == (x as u16, y as u16),
{
    lemma_shape_bounds(w * h, w, h);
    assert(w * h == h * w) by (nonlinear_arith);
    let m = serpentine_columns(w, h);
    assert forall|i: int| 0 <= i < m.len() implies (#[trigger] m[i]).0 < w && m[i].1 < h by {
        lemma_cell_split(i, h, w);
    }
    assert forall|x: int, y: int|
        0 <= x < w && 0 <= y < h implies 0 <= #[trigger] (x * h + snake_offset(x, y, h)) < w * h
        && m[x * h + snake_offset(x, y, h)] == (x as u16, y as u16) by {
        let t = snake_offset(x, y, h);
        lemma_cell_of_decode(t, x, h, w);
    }
    assert forall|i: int, j: int|
        0 <= i < m.len() && 0 <= j < m.len() && i != j implies #[trigger] m[i] != #[trigger] m[j] by {
        lemma_cell_split(i, h, w);
        lemma_cell_split(j, h, w);
    }
    assert forall|x: int, y: int| 0 <= x < w && 0 <= y < h implies #[trigger] mapping_covers(m, x, y) by {
        let k = x * h + snake_offset(x, y, h);
        assert(m[k] == (x as u16, y as u16));
    }
}

/// Compile-time description of panel geometry and wiring.
///
/// The stored directions are `index_to_xy[physical_led_index] = (x, y)` and
/// `xy_to_index[y * W + x] = physical_led_index`.
#[derive(Clone, Copy, Debug, PartialEq, Eq)]
pub struct LedLayout<const N: usize, const W: usize, const H: usize> {
    index_to_xy: [(u16, u16); N],
    xy_to_index: [u16; N],
}

impl<const N: usize, const W: usize, const H: usize> LedLayout<N, W, H> {
    /// The wiring order: entry `i` is the position of LED `i`.
    pub closed spec fn spec_mapping(&self) -> Seq<(u16, u16)> {
        self.index_to_xy@
    }

    /// The inverse: entry `y * W + x` is the LED at `(x, y)`.
    pub closed spec fn spec_inverse(&self) -> Seq<u16> {
        self.xy_to_index@
    }

    #[verifier::type_invariant]
    closed spec fn inv(self) -> bool {
        &&& panel_shape_ok(N as int, W as int, H as int)
        &&& is_panel_permutation(self.index_to_xy@, W as int, H as int)
        &&& forall|i: int|
            0 <= i < N ==> self.xy_to_index@[cell_of(#[trigger] self.index_to_xy@[i], W as int)] == i
    }

    /// Return the array mapping LED wiring order to `(x, y)` coordinates.
    #[must_use]
    pub fn index_to_xy(&self) -> (mapping: &[(u16, u16); N])
        ensures
            mapping@ == self.spec_mapping(),
            panel_shape_ok(N as int, W as int, H as int),
            is_panel_permutation(mapping@, W as int, H as int),
    {
        proof {
            use_type_invariant(self);
        }
        &self.index_to_xy
    }

    /// The width of the layout.
    #[must_use]
    pub fn width(&self) -> (width: usize)
        ensures
            width == W,
    {
        W
    }

    /// The height of the layout.
    #[must_use]
    pub fn height(&self) -> (height: usize)
        ensures
            height == H,
    {
        H
    }

    /// Total LEDs in this layout (width × height).
    #[must_use]
    pub fn len(&self) -> (len: usize)
        ensures
            len == N,
            len == W * H,
    {
        proof {
            use_type_invariant(self);
        }
        N
    }

    /// Return the borrowed inverse mapping from `(x, y)` coordinates to LED wiring index.
    #[must_use]
    pub fn xy_to_index(&self) -> (inverse: &[u16; N])
        ensures
            inverse@ == self.spec_inverse(),
            forall|i: int|
                0 <= i < N ==> inverse@[cell_of(#[trigger] self.spec_mapping()[i], W as int)] == i,
            forall|k: int|
                0 <= k < N ==> cell_of(self.spec_mapping()[#[trigger] inverse@[k] as int], W as int)
                    == k,
    {
        proof {
            use_type_invariant(self);
            assert forall|k: int| 0 <= k < N implies cell_of(
                self.index_to_xy@[#[trigger] self.xy_to_index@[k] as int],
                W as int,
            ) == k by {
                lemma_cell_split(k, W as int, H as int);
                let x = k % (W as int);
                let y = k / (W as int);
                assert(mapping_covers(self.index_to_xy@, x, y));
                let i = choose|i: int|
                    0 <= i < self.index_to_xy@.len() && (#[trigger] self.index_to_xy@[i]).0 == x
                        && self.index_to_xy@[i].1 == y;
                assert(cell_of(self.index_to_xy@[i], W as int) == k);
            }
        }
        &self.xy_to_index
    }

    /// Equality of wiring orders.
    #[must_use]
    pub fn equals(&self, other: &Self) -> (same: bool)
        ensures
            same == (self.spec_mapping() == other.spec_mapping()),
    {
        let mut i: usize = 0;
        while i < N
            invariant
                i <= N,
                forall|j: int| 0 <= j < i ==> self.index_to_xy@[j] == other.index_to_xy@[j],
            decreases N - i,
        {
            if self.index_to_xy[i].0 != other.index_to_xy[i].0 || self.index_to_xy[i].1
                != other.index_to_xy[i].1 {
                return false;
            }
            i += 1;
        }
        assert(self.index_to_xy@ =~= other.index_to_xy@);
        true
    }

    /// Construct a `LedLayout` by explicitly specifying the wiring order:
    /// the `(x, y)` coordinate of each LED in strip order.
    #[must_use]
    pub fn new(index_to_xy: [(u16, u16); N]) -> (layout: Self)
        requires
            panel_shape_ok(N as int, W as int, H as int),
            lists_distinct_positions(index_to_xy@, W as int, H as int),
        ensures
            layout.spec_mapping() == index_to_xy@,
    {
        proof {
            law_distinct_positions_cover_the_panel(index_to_xy@, W as int, H as int);
        }
        let mut seen = [false; N];
        let mut xy_to_index = [0_u16; N];

        let mut led_index: usize = 0;
        while led_index < N
            invariant
                led_index <= N,
                panel_shape_ok(N as int, W as int, H as int),
                is_panel_permutation(index_to_xy@, W as int, H as int),
                forall|j: int|
                    0 <= j < led_index ==> seen@[cell_of(#[trigger] index_to_xy@[j], W as int)]
                        && xy_to_index@[cell_of(index_to_xy@[j], W as int)] == j,
                forall|k: int|
                    0 <= k < N && #[trigger] seen@[k] ==> exists|j: int|
                        0 <= j < led_index && cell_of(#[trigger] index_to_xy@[j], W as int) == k,
            decreases N - led_index,
        {
            let (x, y) = index_to_xy[led_index];
            let x = x as usize;
            let y = y as usize;
            proof {
                lemma_cell_of_decode(x as int, y as int, W as int, H as int);
            }
            let cell_index = y * W + x;
            proof {
                if seen@[cell_index as int] {
                    let j = choose|j: int|
                        0 <= j < led_index && cell_of(#[trigger] index_to_xy@[j], W as int)
                            == cell_index;
                    lemma_cell_of_decode(
                        index_to_xy@[j].0 as int,
                        index_to_xy@[j].1 as int,
                        W as int,
                        H as int,
                    );
                    lemma_cell_of_injective(
                        index_to_xy@[j],
                        index_to_xy@[led_index as int],
                        W as int,
                        H as int,
                    );
                    assert(false);
                }
            }
            seen[cell_index] = true;
            xy_to_index[cell_index] = led_index as u16;
            proof {
                assert forall|j: int|
                    0 <= j < led_index + 1 implies seen@[cell_of(
                    #[trigger] index_to_xy@[j],
                    W as int,
                )] && xy_to_index@[cell_of(index_to_xy@[j], W as int)] == j by {
                    if j < led_index {
                        lemma_cell_of_decode(
                            index_to_xy@[j].0 as int,
                            index_to_xy@[j].1 as int,
                            W as int,
                            H as int,
                        );
                        if cell_of(index_to_xy@[j], W as int) == cell_index {
                            lemma_cell_of_injective(
                                index_to_xy@[j],
                                index_to_xy@[led_index as int],
                                W as int,
                                H as int,
                            );
                        }
                    }
                }
                assert forall|k: int| 0 <= k < N && #[trigger] seen@[k] implies exists|j: int|
                    0 <= j < led_index + 1 && cell_of(#[trigger] index_to_xy@[j], W as int) == k by {
                    if k != cell_index {
                        let j = choose|j: int|
                            0 <= j < led_index && cell_of(#[trigger] index_to_xy@[j], W as int) == k;
                        assert(0 <= j < led_index + 1);
                    } else {
                        assert(cell_of(index_to_xy@[led_index as int], W as int) == k);
                    }
                }
            }
            led_index += 1;
        }

        // Every panel position is covered by the mapping.
        proof {
            assert forall|k: int| 0 <= k < N implies #[trigger] seen@[k] by {
                lemma_cell_split(k, W as int, H as int);
                let x = k % (W as int);
                let y = k / (W as int);
                assert(mapping_covers(index_to_xy@, x, y));
                let i = choose|i: int|
                    0 <= i < index_to_xy@.len() && (#[trigger] index_to_xy@[i]).0 == x
                        && index_to_xy@[i].1 == y;
                assert(cell_of(index_to_xy@[i], W as int) == k);
            }
        }

        Self { index_to_xy, xy_to_index }
    }
}


impl<const N: usize, const W: usize, const H: usize> LedLayout<N, W, H> {
    /// Rotate 90° clockwise (dims swap).
    #[must_use]
    pub fn rotate_cw(self) -> (rotated: LedLayout<N, H, W>)
        ensures
            rotated.spec_mapping() == rotated_cw(self.spec_mapping(), H as int),
    {
        proof {
            use_type_invariant(&self);
            lemma_shape_bounds(N as int, W as int, H as int);
            lemma_rotated_cw_permutation(self.index_to_xy@, W as int, H as int);
        }
        let mut out = [(0u16, 0u16); N];
        let mut i: usize = 0;
        while i < N
            invariant
                i <= N,
                panel_shape_ok(N as int, W as int, H as int),
                is_panel_permutation(self.index_to_xy@, W as int, H as int),
                H <= u16::MAX,
                forall|j: int| 0 <= j < i ==> out@[j] == #[trigger] rotated_cw(self.index_to_xy@, H as int)[j],
            decreases N - i,
        {
            let (c, r) = self.index_to_xy[i];
            let c = c as usize;
            let r = r as usize;
            out[i] = ((H - 1 - r) as u16, c as u16);
            i += 1;
        }
        proof {
            assert(out@ =~= rotated_cw(self.index_to_xy@, H as int));
        }
        LedLayout::<N, H, W>::new(out)
    }

    /// Flip horizontally (mirror columns).
    #[must_use]
    pub fn flip_h(self) -> (flipped: Self)
        ensures
            flipped.spec_mapping() == flipped_h(self.spec_mapping(), W as int),
    {
        proof {
            use_type_invariant(&self);
            lemma_shape_bounds(N as int, W as int, H as int);
            lemma_flipped_h_permutation(self.index_to_xy@, W as int, H as int);
        }
        let mut out = [(0u16, 0u16); N];
        let mut i: usize = 0;
        while i < N
            invariant
                i <= N,
                panel_shape_ok(N as int, W as int, H as int),
                is_panel_permutation(self.index_to_xy@, W as int, H as int),
                W <= u16::MAX,
                forall|j: int| 0 <= j < i ==> out@[j] == #[trigger] flipped_h(self.index_to_xy@, W as int)[j],
            decreases N - i,
        {
            let (c, r) = self.index_to_xy[i];
            let c = c as usize;
            out[i] = ((W - 1 - c) as u16, r);
            i += 1;
        }
        proof {
            assert(out@ =~= flipped_h(self.index_to_xy@, W as int));
        }
        Self::new(out)
    }

    /// Rotate 180° derived from rotate_cw.
    #[must_use]
    pub fn rotate_180(self) -> (rotated: Self)
        ensures
            rotated.spec_mapping() == rotated_cw(rotated_cw(self.spec_mapping(), H as int), W as int),
    {
        self.rotate_cw().rotate_cw()
    }

    /// Rotate 90° counter-clockwise derived from rotate_cw.
    #[must_use]
    pub fn rotate_ccw(self) -> (rotated: LedLayout<N, H, W>)
        ensures
            rotated.spec_mapping() == rotated_cw(
                rotated_cw(rotated_cw(self.spec_mapping(), H as int), W as int),
                H as int,
            ),
    {
        self.rotate_cw().rotate_cw().rotate_cw()
    }

    /// Flip vertically derived from rotation + horizontal flip.
    #[must_use]
    pub fn flip_v(self) -> (flipped: Self)
        ensures
            flipped.spec_mapping() == Seq::new(
                self.spec_mapping().len(),
                |i: int| (self.spec_mapping()[i].0, (H - 1 - self.spec_mapping()[i].1) as u16),
            ),
    {
        proof {
            use_type_invariant(&self);
            lemma_shape_bounds(N as int, W as int, H as int);
        }
        let flipped = self.rotate_cw().flip_h().rotate_ccw();
        proof {
            let m = self.index_to_xy@;
            let expected = Seq::new(m.len(), |i: int| (m[i].0, (H - 1 - m[i].1) as u16));
            assert forall|i: int| 0 <= i < m.len() implies #[trigger] flipped.spec_mapping()[i] == expected[i] by {
                assert(m[i].0 < W && m[i].1 < H);
            }
            assert(flipped.spec_mapping() =~= expected);
        }
        flipped
    }

    /// Concatenate horizontally with another mapping sharing the same rows.
    #[must_use]
    pub fn combine_h<const N2: usize, const OUT_N: usize, const W2: usize, const OUT_W: usize>(
        self,
        right: LedLayout<N2, W2, H>,
    ) -> (combined: LedLayout<OUT_N, OUT_W, H>)
        requires
            OUT_N == N + N2,
            OUT_W == W + W2,
            OUT_N <= u16::MAX,
        ensures
            combined.spec_mapping() == combined_h(self.spec_mapping(), right.spec_mapping(), W as int),
    {
        proof {
            use_type_invariant(&self);
            use_type_invariant(&right);
            lemma_shape_bounds(N as int, W as int, H as int);
            lemma_shape_bounds(N2 as int, W2 as int, H as int);
            lemma_combined_h_permutation(
                self.index_to_xy@,
                right.index_to_xy@,
                W as int,
                W2 as int,
                H as int,
            );
        }
        let ghost expected = combined_h(self.index_to_xy@, right.index_to_xy@, W as int);
        let mut out = [(0u16, 0u16); OUT_N];

        let mut i: usize = 0;
        while i < N
            invariant
                i <= N,
                OUT_N == N + N2,
                expected == combined_h(self.index_to_xy@, right.index_to_xy@, W as int),
                forall|j: int| 0 <= j < i ==> out@[j] == #[trigger] expected[j],
            decreases N - i,
        {
            out[i] = self.index_to_xy[i];
            i += 1;
        }

        let mut j: usize = 0;
        while j < N2
            invariant
                j <= N2,
                OUT_N == N + N2,
                OUT_W == W + W2,
                OUT_N <= u16::MAX,
                W2 <= N2,
                W <= N,
                is_panel_permutation(right.index_to_xy@, W2 as int, H as int),
                expected == combined_h(self.index_to_xy@, right.index_to_xy@, W as int),
                forall|k: int| 0 <= k < N + j ==> out@[k] == #[trigger] expected[k],
            decreases N2 - j,
        {
            let (c, r) = right.index_to_xy[j];
            out[N + j] = ((c as usize + W) as u16, r);
            j += 1;
        }
        proof {
            assert(out@ =~= expected);
        }
        LedLayout::<OUT_N, OUT_W, H>::new(out)
    }

    /// Concatenate vertically with another mapping sharing the same columns.
    #[must_use]
    pub fn combine_v<const N2: usize, const OUT_N: usize, const H2: usize, const OUT_H: usize>(
        self,
        bottom: LedLayout<N2, W, H2>,
    ) -> (combined: LedLayout<OUT_N, W, OUT_H>)
        requires
            OUT_N == N + N2,
            OUT_H == H + H2,
            OUT_N <= u16::MAX,
        ensures
            combined.spec_mapping() == combined_v(self.spec_mapping(), bottom.spec_mapping(), H as int),
    {
        proof {
            use_type_invariant(&self);
            use_type_invariant(&bottom);
            lemma_shape_bounds(N as int, W as int, H as int);
            lemma_shape_bounds(N2 as int, W as int, H2 as int);
        }
        // Vertical concatenation is transpose, horizontal concatenation, transpose back.
        let top_t = self.rotate_cw().flip_h();
        let bot_t = bottom.rotate_cw().flip_h();

        let combined_t: LedLayout<OUT_N, OUT_H, W> = top_t.combine_h::<N2, OUT_N, H2, OUT_H>(bot_t);

        let combined = combined_t.rotate_cw().flip_h();
        proof {
            let t = self.index_to_xy@;
            let b = bottom.index_to_xy@;
            let expected = combined_v(t, b, H as int);
            assert forall|i: int| 0 <= i < expected.len() implies #[trigger] combined.spec_mapping()[i]
                == expected[i] by {
                if i < N {
                    assert(t[i].0 < W && t[i].1 < H);
                } else {
                    assert(b[i - N].0 < W && b[i - N].1 < H2);
                }
            }
            assert(combined.spec_mapping() =~= expected);
        }
        combined
    }
}


impl<const N: usize, const W: usize, const H: usize> LedLayout<N, W, H> {
    /// Linear row-major mapping for a single-row strip (cols increase left-to-right).
    #[must_use]
    pub fn linear_h() -> (layout: Self)
        requires
            H == 1,
            W == N,
            0 < N <= u16::MAX,
        ensures
            layout.spec_mapping() == Seq::new(N as nat, |i: int| (i as u16, 0u16)),
    {
        let mut mapping = [(0_u16, 0_u16); N];
        let mut x_index: usize = 0;
        while x_index < W
            invariant
                x_index <= W,
                W == N,
                N <= u16::MAX,
                forall|j: int| 0 <= j < x_index ==> #[trigger] mapping@[j] == (j as u16, 0u16),
            decreases W - x_index,
        {
            mapping[x_index] = (x_index as u16, 0);
            x_index += 1;
        }
        proof {
            let m = mapping@;
            assert(m =~= Seq::new(N as nat, |i: int| (i as u16, 0u16)));
            assert forall|x: int, y: int| 0 <= x < W && 0 <= y < H implies #[trigger] mapping_covers(
                m,
                x,
                y,
            ) by {
                assert(m[x] == (x as u16, 0u16));
            }
        }
        Self::new(mapping)
    }

    /// Linear column-major mapping for a single-column strip (rows increase top-to-bottom).
    #[must_use]
    pub fn linear_v() -> (layout: Self)
        requires
            W == 1,
            H == N,
            0 < N <= u16::MAX,
        ensures
            layout.spec_mapping() == Seq::new(N as nat, |i: int| (0u16, i as u16)),
    {
        let mut mapping = [(0_u16, 0_u16); N];
        let mut y_index: usize = 0;
        while y_index < H
            invariant
                y_index <= H,
                H == N,
                N <= u16::MAX,
                forall|j: int| 0 <= j < y_index ==> #[trigger] mapping@[j] == (0u16, j as u16),
            decreases H - y_index,
        {
            mapping[y_index] = (0, y_index as u16);
            y_index += 1;
        }
        proof {
            let m = mapping@;
            assert(m =~= Seq::new(N as nat, |i: int| (0u16, i as u16)));
            assert forall|x: int, y: int| 0 <= x < W && 0 <= y < H implies #[trigger] mapping_covers(
                m,
                x,
                y,
            ) by {
                assert(m[y] == (0u16, y as u16));
            }
        }
        Self::new(mapping)
    }

    /// Serpentine column-major mapping: the strip snakes down even columns
    /// and up odd columns.
    #[must_use]
    pub fn serpentine_column_major() -> (layout: Self)
        requires
            panel_shape_ok(N as int, W as int, H as int),
        ensures
            layout.spec_mapping() == serpentine_columns(W as int, H as int),
    {
        proof {
            lemma_shape_bounds(N as int, W as int, H as int);
            lemma_serpentine_columns_permutation(W as int, H as int);
        }
        let ghost expected = serpentine_columns(W as int, H as int);
        let mut mapping = [(0_u16, 0_u16); N];
        let mut y_index: usize = 0;
        while y_index < H
            invariant
                y_index <= H,
                panel_shape_ok(N as int, W as int, H as int),
                W <= N && H <= N,
                expected == serpentine_columns(W as int, H as int),
                forall|x: int, y: int|
                    0 <= x < W && 0 <= y < H ==> 0 <= #[trigger] (x * H + snake_offset(x, y, H as int))
                        < W * H && expected[x * H + snake_offset(x, y, H as int)] == (x as u16, y as u16),
                forall|x: int, y: int|
                    0 <= x < W && 0 <= y < y_index ==> mapping@[#[trigger] (x * H + snake_offset(
                        x,
                        y,
                        H as int,
                    ))] == (x as u16, y as u16),
            decreases H - y_index,
        {
            let mut x_index: usize = 0;
            while x_index < W
                invariant
                    y_index < H,
                    x_index <= W,
                    panel_shape_ok(N as int, W as int, H as int),
                    W <= N && H <= N,
                    expected == serpentine_columns(W as int, H as int),
                    forall|x: int, y: int|
                        0 <= x < W && 0 <= y < H ==> 0 <= #[trigger] (x * H + snake_offset(x, y, H as int))
                            < W * H && expected[x * H + snake_offset(x, y, H as int)] == (
                            x as u16,
                            y as u16,
                        ),
                    forall|x: int, y: int|
                        ((0 <= x < W && 0 <= y < y_index) || (0 <= x < x_index && y == y_index))
                            ==> mapping@[#[trigger] (x * H + snake_offset(x, y, H as int))] == (
                            x as u16,
                            y as u16,
                        ),
                decreases W - x_index,
            {
                proof {
                    assert(0 <= (x_index * H + snake_offset(x_index as int, y_index as int, H as int)) < W * H);
                    assert(x_index as int * H as int <= x_index as int * H as int + snake_offset(x_index as int, y_index as int, H as int));
                }
                let led_index = if x_index % 2 == 0 {
                    x_index * H + y_index
                } else {
                    x_index * H + (H - 1 - y_index)
                };
                proof {
                    assert(led_index == x_index * H + snake_offset(x_index as int, y_index as int, H as int));
                    assert(0 <= (x_index * H + snake_offset(x_index as int, y_index as int, H as int)) < W * H);
                }
                mapping[led_index] = (x_index as u16, y_index as u16);
                proof {
                    assert forall|x: int, y: int|
                        ((0 <= x < W && 0 <= y < y_index) || (0 <= x < x_index + 1 && y == y_index))
                            implies mapping@[#[trigger] (x * H + snake_offset(x, y, H as int))] == (
                            x as u16,
                            y as u16,
                        ) by {
                        if x * H + snake_offset(x, y, H as int) == led_index {
                            assert(expected[x * H + snake_offset(x, y, H as int)] == (x as u16, y as u16));
                            assert(expected[led_index as int] == (x_index as u16, y_index as u16));
                        }
                    }
                }
                x_index += 1;
            }
            y_index += 1;
        }
        proof {
            assert forall|i: int| 0 <= i < N implies #[trigger] mapping@[i] == expected[i] by {
                assert(mapping_covers(expected, expected[i].0 as int, expected[i].1 as int)) by {
                    assert(expected[i].0 < W && expected[i].1 < H);
                }
                let x = expected[i].0 as int;
                let y = expected[i].1 as int;
                let k = x * H + snake_offset(x, y, H as int);
                assert(expected[k] == expected[i]);
                assert(k == i);
            }
            assert(mapping@ =~= expected);
        }
        Self::new(mapping)
    }

    /// Serpentine row-major mapping (alternating left-to-right and right-to-left across rows).
    #[must_use]
    pub fn serpentine_row_major() -> (layout: Self)
        requires
            panel_shape_ok(N as int, W as int, H as int),
        ensures
            layout.spec_mapping() == serpentine_rows(W as int, H as int),
    {
        proof {
            lemma_shape_bounds(N as int, W as int, H as int);
            lemma_serpentine_rows_permutation(W as int, H as int);
        }
        let ghost expected = serpentine_rows(W as int, H as int);
        let mut mapping = [(0_u16, 0_u16); N];
        let mut y_index: usize = 0;
        while y_index < H
            invariant
                y_index <= H,
                panel_shape_ok(N as int, W as int, H as int),
                W <= N && H <= N,
                expected == serpentine_rows(W as int, H as int),
                forall|x: int, y: int|
                    0 <= x < W && 0 <= y < H ==> 0 <= #[trigger] (y * W + snake_offset(y, x, W as int))
                        < W * H && expected[y * W + snake_offset(y, x, W as int)] == (x as u16, y as u16),
                forall|x: int, y: int|
                    0 <= x < W && 0 <= y < y_index ==> mapping@[#[trigger] (y * W + snake_offset(
                        y,
                        x,
                        W as int,
                    ))] == (x as u16, y as u16),
            decreases H - y_index,
        {
            let mut x_index: usize = 0;
            while x_index < W
                invariant
                    y_index < H,
                    x_index <= W,
                    panel_shape_ok(N as int, W as int, H as int),
                    W <= N && H <= N,
                    expected == serpentine_rows(W as int, H as int),
                    forall|x: int, y: int|
                        0 <= x < W && 0 <= y < H ==> 0 <= #[trigger] (y * W + snake_offset(y, x, W as int))
                            < W * H && expected[y * W + snake_offset(y, x, W as int)] == (
                            x as u16,
                            y as u16,
                        ),
                    forall|x: int, y: int|
                        ((0 <= x < W && 0 <= y < y_index) || (0 <= x < x_index && y == y_index))
                            ==> mapping@[#[trigger] (y * W + snake_offset(y, x, W as int))] == (
                            x as u16,
                            y as u16,
                        ),
                decreases W - x_index,
            {
                proof {
                    assert(0 <= (y_index * W + snake_offset(y_index as int, x_index as int, W as int)) < W * H);
                    assert(y_index as int * W as int <= y_index as int * W as int + snake_offset(y_index as int, x_index as int, W as int));
                }
                let led_index = if y_index % 2 == 0 {
                    y_index * W + x_index
                } else {
                    y_index * W + (W - 1 - x_index)
                };
                proof {
                    assert(led_index == y_index * W + snake_offset(y_index as int, x_index as int, W as int));
                    assert(0 <= (y_index * W + snake_offset(y_index as int, x_index as int, W as int)) < W * H);
                }
                mapping[led_index] = (x_index as u16, y_index as u16);
                proof {
                    assert forall|x: int, y: int|
                        ((0 <= x < W && 0 <= y < y_index) || (0 <= x < x_index + 1 && y == y_index))
                            implies mapping@[#[trigger] (y * W + snake_offset(y, x, W as int))] == (
                            x as u16,
                            y as u16,
                        ) by {
                        if y * W + snake_offset(y, x, W as int) == led_index {
                            assert(expected[y * W + snake_offset(y, x, W as int)] == (x as u16, y as u16));
                            assert(expected[led_index as int] == (x_index as u16, y_index as u16));
                        }
                    }
                }
                x_index += 1;
            }
            y_index += 1;
        }
        proof {
            assert forall|i: int| 0 <= i < N implies #[trigger] mapping@[i] == expected[i] by {
                assert(mapping_covers(expected, expected[i].0 as int, expected[i].1 as int)) by {
                    assert(expected[i].0 < W && expected[i].1 < H);
                }
                let x = expected[i].0 as int;
                let y = expected[i].1 as int;
                let k = y * W + snake_offset(y, x, W as int);
                assert(expected[k] == expected[i]);
                assert(k == i);
            }
            assert(mapping@ =~= expected);
        }
        Self::new(mapping)
    }
}

} // verus!
