//! Grid arithmetic: how many cells cover an extent, and where each one sits.
//!
//! Window space has its origin at the centre of the window. Coordinates are
//! kept in half units (a value `v` stands for the coordinate `v / 2`), so
//! that the centre of a cell is an integer whatever the parity of the sizes.

use vstd::prelude::*;

verus! {

/// Number of cells of extent `size` needed to cover `extent`: the ceiling of
/// `extent / size`, and zero as soon as one of the two is not positive.
pub open spec fn cells_needed(extent: int, size: int) -> nat {
    if extent <= 0 || size <= 0 {
        0
    } else {
        ((extent + size - 1) / size) as nat
    }
}

/// Centre, in half units, of cell `index` in a row of `count` cells of extent
/// `size` whose middle is the origin.
pub open spec fn center_doubled(index: int, count: int, size: int) -> int {
    size * (2 * index + 1 - count)
}

/// The ceiling is the one count that covers the extent while one cell fewer
/// does not.
pub proof fn lemma_cells_needed_is_ceiling(extent: int, size: int)
    requires
        extent > 0,
        size > 0,
    ensures
        cells_needed(extent, size) >= 1,
        (cells_needed(extent, size) - 1) * size < extent,
        extent <= cells_needed(extent, size) * size,
{
    let n = (extent + size - 1) / size;
    assert((n - 1) * size < extent && extent <= n * size && n >= 1) by (nonlinear_arith)
        requires
            n == (extent + size - 1) / size,
            extent > 0,
            size > 0,
    ;
}

/// Any count that covers the extent while one cell fewer does not is the
/// ceiling.
pub proof fn lemma_ceiling_is_unique(extent: int, size: int, n: int)
    requires
        extent > 0,
        size > 0,
        (n - 1) * size < extent,
        extent <= n * size,
    ensures
        n == cells_needed(extent, size),
{
    lemma_cells_needed_is_ceiling(extent, size);
    let m = cells_needed(extent, size) as int;
    assert(n == m) by (nonlinear_arith)
        requires
            size > 0,
            (n - 1) * size < extent,
            extent <= n * size,
            (m - 1) * size < extent,
            extent <= m * size,
    ;
}

/// A grid never has more cells along an axis than the extent has units.
pub proof fn lemma_cells_needed_bounded(extent: int, size: int)
    ensures
        cells_needed(extent, size) <= if extent > 0 { extent } else { 0 },
{
    if extent > 0 && size > 0 {
        lemma_cells_needed_is_ceiling(extent, size);
        let n = cells_needed(extent, size) as int;
        assert(n <= extent) by (nonlinear_arith)
            requires
                n >= 1,
                size >= 1,
                (n - 1) * size < extent,
        ;
    }
}

/// Computes [`cells_needed`].
pub fn count_cells(extent: i32, size: i32) -> (n: usize)
    ensures
        n == cells_needed(extent as int, size as int),
        n <= i32::MAX,
{
    proof {
        lemma_cells_needed_bounded(extent as int, size as int);
    }
    if extent <= 0 || size <= 0 {
        0
    } else {
        let e: u32 = extent as u32;
        let s: u32 = size as u32;
        let q: u32 = (e - 1) / s;
        assert((e - 1) / (s as int) + 1 == (e + s - 1) / (s as int)) by (nonlinear_arith)
            requires
                e >= 1,
                s >= 1,
        ;
        assert(q <= e - 1) by (nonlinear_arith)
            requires
                q == (e - 1) / (s as int),
                e >= 1,
                s >= 1,
        ;
        (q + 1) as usize
    }
}

/// Computes [`center_doubled`]. The bounds keep the product inside `i64`.
pub fn cell_center(index: usize, count: usize, size: i32) -> (center: i64)
    requires
        index < count,
        count <= i32::MAX,
    ensures
        center == center_doubled(index as int, count as int, size as int),
{
    let offset: i64 = 2 * (index as i64) + 1 - (count as i64);
    assert(-0x4000_0000_0000_0000 <= size * offset <= 0x4000_0000_0000_0000) by (nonlinear_arith)
        requires
            -0x8000_0000 <= size <= 0x7fff_ffff,
            -0x7fff_ffff <= offset <= 0x7fff_ffff,
    ;
    (size as i64) * offset
}

/// Index of the cell whose span holds the coordinate `v`, given in half
/// units, in a row of `count` cells of extent `size` whose middle is the
/// origin. A span includes its lower edge and excludes its upper one, so no
/// coordinate lies in two cells.
pub open spec fn axis_index(v: int, count: int, size: int) -> Option<int> {
    if size > 0 && -(count * size) <= v < count * size {
        Some((v + count * size) / (2 * size))
    } else {
        None
    }
}

/// Along one axis, cell `index` of `count` cells of extent `size` lies
/// between the two edges `-count * size` and `count * size`, in half units;
/// the first cell starts at the one and the last cell ends at the other.
pub proof fn lemma_axis_is_centred(index: int, count: int, size: int)
    requires
        0 <= index < count,
        size > 0,
    ensures
        -(count * size) <= center_doubled(index, count, size) - size,
        center_doubled(index, count, size) + size <= count * size,
        index == 0 ==> center_doubled(index, count, size) - size == -(count * size),
        index == count - 1 ==> center_doubled(index, count, size) + size == count * size,
{
    assert(size * (2 * index + 1 - count) - size == 2 * (index * size) - count * size)
        by (nonlinear_arith);
    assert(size * (2 * index + 1 - count) + size == 2 * (index * size) + 2 * size - count * size)
        by (nonlinear_arith);
    assert(0 <= index * size) by (nonlinear_arith)
        requires
            0 <= index,
            size > 0,
    ;
    assert(index * size + size <= count * size) by (nonlinear_arith)
        requires
            index + 1 <= count,
            size > 0,
    ;
    if index == 0 {
        assert(index * size == 0) by (nonlinear_arith)
            requires
                index == 0,
        ;
    }
    if index == count - 1 {
        assert(index * size + size == count * size) by (nonlinear_arith)
            requires
                index == count - 1,
        ;
    }
}

/// The cells needed for an extent cover it, and overshoot it by less than
/// one cell.
pub proof fn lemma_axis_covers(extent: int, size: int)
    requires
        cells_needed(extent, size) > 0,
    ensures
        extent <= cells_needed(extent, size) * size < extent + size,
{
    lemma_cells_needed_is_ceiling(extent, size);
    let n = cells_needed(extent, size) as int;
    assert((n - 1) * size == n * size - size) by (nonlinear_arith);
}

/// [`axis_index`] names a cell exactly when the span of that cell holds the
/// coordinate.
pub proof fn lemma_axis_index_holds(v: int, count: int, size: int, index: int)
    ensures
        axis_index(v, count, size) == Some(index) <==> {
            &&& size > 0
            &&& 0 <= index < count
            &&& center_doubled(index, count, size) - size <= v
            &&& v < center_doubled(index, count, size) + size
        },
{
    let edge = count * size;
    let low = center_doubled(index, count, size) - size;
    assert(low == 2 * (index * size) - edge) by (nonlinear_arith)
        requires
            low == size * (2 * index + 1 - count) - size,
            edge == count * size,
    ;
    if size > 0 {
        // the span of cell `index`, moved by `edge`, is [2 * size * index, 2 * size * (index + 1))
        if -edge <= v < edge {
            let q = (v + edge) / (2 * size);
            assert(q * (2 * size) <= v + edge < (q + 1) * (2 * size) && 0 <= q) by (nonlinear_arith)
                requires
                    q == (v + edge) / (2 * size),
                    size > 0,
                    0 <= v + edge,
            ;
            assert(q < count) by (nonlinear_arith)
                requires
                    q * (2 * size) <= v + edge,
                    v + edge < 2 * (count * size),
                    size > 0,
            ;
            if 2 * (index * size) <= v + edge < 2 * (index * size) + 2 * size {
                assert(q == index) by (nonlinear_arith)
                    requires
                        q * (2 * size) <= v + edge < (q + 1) * (2 * size),
                        2 * (index * size) <= v + edge < 2 * (index * size) + 2 * size,
                        size > 0,
                ;
            }
            if q == index {
                assert(q * (2 * size) == 2 * (index * size) && (q + 1) * (2 * size) == 2 * (index
                    * size) + 2 * size) by (nonlinear_arith)
                    requires
                        q == index,
                ;
            }
        } else if 0 <= index < count {
            assert(0 <= index * size && index * size + size <= count * size) by (nonlinear_arith)
                requires
                    0 <= index,
                    index + 1 <= count,
                    size > 0,
            ;
        }
    }
}

/// Computes [`axis_index`]. The bound keeps the arithmetic inside `i64`.
pub fn locate(v: i64, count: usize, size: i32) -> (index: Option<usize>)
    requires
        count <= i32::MAX,
    ensures
        match index {
            Some(i) => axis_index(v as int, count as int, size as int) == Some(i as int),
            None => axis_index(v as int, count as int, size as int) is None,
        },
{
    if size <= 0 {
        return None;
    }
    assert(0 <= count * size <= 0x4000_0000_0000_0000) by (nonlinear_arith)
        requires
            0 <= count <= 0x7fff_ffff,
            0 < size <= 0x7fff_ffff,
    ;
    let edge: i64 = (count as i64) * (size as i64);
    if v < -edge || v >= edge {
        return None;
    }
    let shifted: u64 = (v + edge) as u64;
    let span: u64 = 2 * (size as u64);
    let q: u64 = shifted / span;
    assert(q < count) by (nonlinear_arith)
        requires
            q == shifted / span,
            span == 2 * size,
            shifted < 2 * (count * size),
            size > 0,
    ;
    Some(q as usize)
}

/// An axis-aligned rectangle given by its centre and its size.
///
/// `x2` and `y2` are the centre in half units; `w` and `h` are the width and
/// the height in whole units.
#[derive(Clone, Copy, Debug, PartialEq, Eq, Structural)]
pub struct Rect {
    pub x2: i64,
    pub y2: i64,
    pub w: i32,
    pub h: i32,
}

impl Rect {
    /// Left edge, in half units.
    pub open spec fn left2(self) -> int {
        self.x2 - self.w
    }

    /// Right edge, in half units.
    pub open spec fn right2(self) -> int {
        self.x2 + self.w
    }

    /// Bottom edge, in half units.
    pub open spec fn bottom2(self) -> int {
        self.y2 - self.h
    }

    /// Top edge, in half units.
    pub open spec fn top2(self) -> int {
        self.y2 + self.h
    }

    /// The rectangle holds the point (`x2`, `y2`), given in half units. The
    /// left and the bottom edge belong to it, the right and the top edge do
    /// not.
    pub open spec fn holds(self, x2: int, y2: int) -> bool {
        &&& self.left2() <= x2 < self.right2()
        &&& self.bottom2() <= y2 < self.top2()
    }

    /// `self` is the rectangle of cell (`col`, `row`) in a centred grid of
    /// `cols` by `rows` cells of the given size.
    pub open spec fn is_cell(
        self,
        col: int,
        row: int,
        cols: int,
        rows: int,
        cell_width: int,
        cell_height: int,
    ) -> bool {
        &&& self.x2 == center_doubled(col, cols, cell_width)
        &&& self.y2 == center_doubled(row, rows, cell_height)
        &&& self.w == cell_width
        &&& self.h == cell_height
    }
}

} // verus!
