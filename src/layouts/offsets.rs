//! Arithmetic shared by the layouts: enumerating a grid by rows, and the offsets of
//! strided layouts.
use crate::types::IndexType;
use vstd::prelude::*;

verus! {

/// The length of the shortest buffer that holds a `dim` grid laid out with `stride`:
/// one past the offset of its last element, or zero for an empty grid.
pub open spec fn strided_extent(
    dim: (IndexType, IndexType),
    stride: (IndexType, IndexType),
) -> nat {
    if dim.0 == 0 || dim.1 == 0 {
        0
    } else {
        ((dim.0 - 1) * stride.0 + (dim.1 - 1) * stride.1 + 1) as nat
    }
}

/// Whether the offsets `row * stride.0 + col * stride.1` of the cells of a `dim` grid
/// are pairwise distinct: no step along the rows can be made up by a step along the
/// columns.
pub open spec fn strides_separate(
    dim: (IndexType, IndexType),
    stride: (IndexType, IndexType),
) -> bool {
    &&& (dim.0 > 1 && dim.1 > 0 ==> stride.0 > 0)
    &&& (dim.1 > 1 && dim.0 > 0 ==> stride.1 > 0)
    &&& forall|dr: int, dc: int|
        0 < dr < dim.0 && 0 < dc < dim.1 ==> #[trigger] (dr * stride.0) != #[trigger] (dc
            * stride.1)
}

/// A gapless grid of `rows x cols` cells walked with `(cols, 1)` (by rows) or with
/// `(1, rows)` (by columns) fills exactly `rows * cols` positions.
pub proof fn lemma_dense_extent(rows: IndexType, cols: IndexType)
    ensures
        strided_extent((rows, cols), (cols, 1)) == rows * cols,
        strided_extent((rows, cols), (1, rows)) == rows * cols,
{
    if rows == 0 || cols == 0 {
        assert(rows * cols == 0) by (nonlinear_arith)
            requires
                rows == 0 || cols == 0,
        ;
    } else {
        assert((rows - 1) * cols + (cols - 1) * 1 + 1 == rows * cols) by (nonlinear_arith);
        assert((rows - 1) * 1 + (cols - 1) * rows + 1 == rows * cols) by (nonlinear_arith);
    }
}

/// A sub-grid of a grid with separate strides has separate strides.
pub proof fn lemma_separate_sub_grid(
    parent: (IndexType, IndexType),
    stride: (IndexType, IndexType),
    dim: (IndexType, IndexType),
)
    requires
        strides_separate(parent, stride),
        dim.0 <= parent.0,
        dim.1 <= parent.1,
    ensures
        strides_separate(dim, stride),
{
    assert forall|dr: int, dc: int| 0 < dr < dim.0 && 0 < dc < dim.1 implies #[trigger] (dr
        * stride.0) != #[trigger] (dc * stride.1) by {
        assert(0 < dr < parent.0 && 0 < dc < parent.1);
    }
}

/// A grid with separate strides has at most as many cells as its extent: its offsets
/// are distinct and lie below the extent.
pub proof fn lemma_separate_extent(dim: (IndexType, IndexType), stride: (IndexType, IndexType))
    requires
        strides_separate(dim, stride),
    ensures
        dim.0 * dim.1 <= strided_extent(dim, stride),
{
    if dim.0 == 0 || dim.1 == 0 {
        assert(dim.0 * dim.1 == 0) by (nonlinear_arith)
            requires
                dim.0 == 0 || dim.1 == 0,
        ;
    } else {
        let rows = dim.0 as int;
        let cols = dim.1 as int;
        let n = rows * cols;
        let e = strided_extent(dim, stride) as int;
        let x = vstd::set_lib::set_int_range(0, n);
        let y = vstd::set_lib::set_int_range(0, e);
        let f = |i: int| (i / cols) * stride.0 + (i % cols) * stride.1;
        vstd::set_lib::lemma_int_range(0, n);
        vstd::set_lib::lemma_int_range(0, e);
        assert(vstd::relations::injective_on(f, x)) by {
            assert forall|i: int, j: int| x.contains(i) && x.contains(j) && f(i) == f(j) implies i
                == j by {
                lemma_row_major_round_trip_1d(rows, cols, i);
                lemma_row_major_round_trip_1d(rows, cols, j);
                if i / cols != j / cols || i % cols != j % cols {
                    lemma_separate_offsets_distinct(
                        dim,
                        stride,
                        i / cols,
                        i % cols,
                        j / cols,
                        j % cols,
                    );
                }
            }
        }
        assert(x.map(f).subset_of(y)) by {
            assert forall|p: int| x.map(f).contains(p) implies y.contains(p) by {
                let i = choose|i: int| x.contains(i) && f(i) == p;
                lemma_row_major_round_trip_1d(rows, cols, i);
                lemma_strided_offset_bound(dim, stride, i / cols, i % cols);
            }
        }
        vstd::set_lib::lemma_map_size(x, x.map(f), f);
        vstd::set_lib::lemma_len_subset(x.map(f), y);
    }
}

/// Under separate strides distinct cells have distinct offsets.
pub proof fn lemma_separate_offsets_distinct(
    dim: (IndexType, IndexType),
    stride: (IndexType, IndexType),
    r1: int,
    c1: int,
    r2: int,
    c2: int,
)
    requires
        strides_separate(dim, stride),
        0 <= r1 < dim.0,
        0 <= c1 < dim.1,
        0 <= r2 < dim.0,
        0 <= c2 < dim.1,
        r1 != r2 || c1 != c2,
    ensures
        r1 * stride.0 + c1 * stride.1 != r2 * stride.0 + c2 * stride.1,
{
    let s0 = stride.0 as int;
    let s1 = stride.1 as int;
    if r1 * s0 + c1 * s1 == r2 * s0 + c2 * s1 {
        if r1 == r2 {
            assert((c1 - c2) * s1 == 0) by (nonlinear_arith)
                requires
                    r1 * s0 + c1 * s1 == r2 * s0 + c2 * s1,
                    r1 == r2,
            ;
            assert(s1 > 0);
            assert(c1 - c2 == 0) by (nonlinear_arith)
                requires
                    (c1 - c2) * s1 == 0,
                    s1 > 0,
            ;
        } else if r1 > r2 {
            assert(s0 > 0);
            assert((r1 - r2) * s0 == (c2 - c1) * s1 && (r1 - r2) * s0 > 0) by (nonlinear_arith)
                requires
                    r1 * s0 + c1 * s1 == r2 * s0 + c2 * s1,
                    r1 > r2,
                    s0 > 0,
            ;
            assert(c2 - c1 > 0) by (nonlinear_arith)
                requires
                    (c2 - c1) * s1 > 0,
                    s1 >= 0,
            ;
            assert((r1 - r2) * stride.0 != (c2 - c1) * stride.1);
        } else {
            assert(s0 > 0);
            assert((r2 - r1) * s0 == (c1 - c2) * s1 && (r2 - r1) * s0 > 0) by (nonlinear_arith)
                requires
                    r1 * s0 + c1 * s1 == r2 * s0 + c2 * s1,
                    r2 > r1,
                    s0 > 0,
            ;
            assert(c1 - c2 > 0) by (nonlinear_arith)
                requires
                    (c1 - c2) * s1 > 0,
                    s1 >= 0,
            ;
            assert((r2 - r1) * stride.0 != (c1 - c2) * stride.1);
        }
    }
}

/// A sub-grid of `dim` cells at `top_left` of a `parent` grid: it has no more cells
/// than the parent, its offsets are those of the parent shifted by the offset of
/// `top_left`, and it ends within the parent's extent.
pub proof fn lemma_sub_grid(
    parent: (IndexType, IndexType),
    stride: (IndexType, IndexType),
    top_left: (IndexType, IndexType),
    dim: (IndexType, IndexType),
)
    requires
        top_left.0 + dim.0 <= parent.0,
        top_left.1 + dim.1 <= parent.1,
    ensures
        dim.0 * dim.1 <= parent.0 * parent.1,
        dim.0 > 0 && dim.1 > 0 ==> top_left.0 * stride.0 + top_left.1 * stride.1 + strided_extent(
            dim,
            stride,
        ) <= strided_extent(parent, stride),
        forall|i: int, j: int|
            #![trigger (top_left.0 + i) * stride.0, (top_left.1 + j) * stride.1]
            (top_left.0 + i) * stride.0 + (top_left.1 + j) * stride.1 == top_left.0 * stride.0
                + top_left.1 * stride.1 + (i * stride.0 + j * stride.1),
{
    assert(dim.0 * dim.1 <= parent.0 * parent.1) by (nonlinear_arith)
        requires
            dim.0 <= parent.0,
            dim.1 <= parent.1,
            0 <= dim.0,
            0 <= dim.1,
    ;
    if dim.0 > 0 && dim.1 > 0 {
        lemma_strided_offset_bound(
            parent,
            stride,
            top_left.0 + dim.0 - 1,
            top_left.1 + dim.1 - 1,
        );
        assert((top_left.0 + dim.0 - 1) * stride.0 == top_left.0 * stride.0 + (dim.0 - 1)
            * stride.0) by (nonlinear_arith);
        assert((top_left.1 + dim.1 - 1) * stride.1 == top_left.1 * stride.1 + (dim.1 - 1)
            * stride.1) by (nonlinear_arith);
    }
    assert forall|i: int, j: int|
        #![trigger (top_left.0 + i) * stride.0, (top_left.1 + j) * stride.1]
        (top_left.0 + i) * stride.0 + (top_left.1 + j) * stride.1 == top_left.0 * stride.0
            + top_left.1 * stride.1 + (i * stride.0 + j * stride.1) by {
        assert((top_left.0 + i) * stride.0 == top_left.0 * stride.0 + i * stride.0)
            by (nonlinear_arith);
        assert((top_left.1 + j) * stride.1 == top_left.1 * stride.1 + j * stride.1)
            by (nonlinear_arith);
    }
}

/// Every cell of the grid has an offset below the extent.
pub proof fn lemma_strided_offset_bound(
    dim: (IndexType, IndexType),
    stride: (IndexType, IndexType),
    row: int,
    col: int,
)
    requires
        0 <= row < dim.0,
        0 <= col < dim.1,
    ensures
        0 <= row * stride.0 <= (dim.0 - 1) * stride.0,
        0 <= col * stride.1 <= (dim.1 - 1) * stride.1,
        0 <= row * stride.0 + col * stride.1 < strided_extent(dim, stride),
{
    assert(0 <= row * stride.0 <= (dim.0 - 1) * stride.0) by (nonlinear_arith)
        requires
            0 <= row < dim.0,
            0 <= stride.0,
    ;
    assert(0 <= col * stride.1 <= (dim.1 - 1) * stride.1) by (nonlinear_arith)
        requires
            0 <= col < dim.1,
            0 <= stride.1,
    ;
}

/// `row * cols + col` enumerates the `rows x cols` grid, and division by `cols`
/// recovers the coordinates.
pub proof fn lemma_row_major_round_trip_2d(rows: int, cols: int, row: int, col: int)
    requires
        0 <= row < rows,
        0 <= col < cols,
    ensures
        0 <= row * cols + col < rows * cols,
        (row * cols + col) / cols == row,
        (row * cols + col) % cols == col,
{
    assert(0 <= row * cols + col < rows * cols) by (nonlinear_arith)
        requires
            0 <= row < rows,
            0 <= col < cols,
    ;
    vstd::arithmetic::div_mod::lemma_fundamental_div_mod_converse(row * cols + col, cols, row, col);
}

/// Every index below `rows * cols` is `row * cols + col` for the coordinates that
/// division by `cols` gives.
pub proof fn lemma_row_major_round_trip_1d(rows: int, cols: int, index: int)
    requires
        0 <= index < rows * cols,
        0 <= rows,
    ensures
        0 <= index / cols < rows,
        0 <= index % cols < cols,
        (index / cols) * cols + index % cols == index,
{
    if cols <= 0 {
        assert(rows * cols <= 0) by (nonlinear_arith)
            requires
                0 <= rows,
                cols <= 0,
        ;
    }
    vstd::arithmetic::div_mod::lemma_fundamental_div_mod(index, cols);
    let q = index / cols;
    let m = index % cols;
    assert(q * cols == cols * q) by (nonlinear_arith);
    assert(0 <= q < rows) by (nonlinear_arith)
        requires
            index == cols * q + m,
            0 <= m < cols,
            0 <= index < rows * cols,
    ;
}

} // verus!
