//! Layout definitions.
//!
//! A layout fixes three index spaces of a matrix and the maps between them:
//! - logical two-dimensional indices `(row, col)`, the coordinates users address;
//! - logical one-dimensional indices `0..n`, which run through the matrix in the
//!   layout's natural order (by rows for some layouts, by columns for others);
//! - raw offsets, the positions of the elements in the underlying buffer.
//!
//! Consider the matrix
//! ```text
//! 1 2
//! 3 4
//! ```
//! Stored **row-major** its buffer reads `1 2 3 4`, stored **column-major** it reads
//! `1 3 2 4`. More generally a stride `(r, c)` says that one walks `r` positions in the
//! buffer from one row to the next, and `c` positions from one column to the next.
//! Strides arise for submatrices: the top-left `2 x 2` block of a row-major `3 x 3`
//! matrix has stride `(3, 1)`.
//!
//! The logical one-dimensional order does not depend on the physical layout: a logical
//! row-major traversal of a block visits its elements row by row, wherever they lie in
//! the buffer.
//!
//! The main trait is [LayoutType]. Every layout proves, as part of implementing it,
//! that its two logical maps are inverse to each other, that the one-dimensional raw
//! map agrees with the two-dimensional one, and that every raw offset lies below the
//! layout's extent.
use crate::layouts::offsets::{strided_extent, strides_separate};
use crate::types::IndexType;
use vstd::prelude::*;

verus! {

/// The classification of a layout's physical order.
#[derive(Clone, Copy, Debug, PartialEq, Eq, Structural)]
pub enum MemoryLayout {
    /// Row after row without gaps (C order).
    C,
    /// Column after column without gaps (Fortran order).
    F,
    /// Any other order.
    CUSTOM,
}

/// Maps between logical indices and raw buffer offsets.
pub trait LayoutType: Sized {
    /// The layout's invariant: its shape is consistent and every offset it produces
    /// fits in `usize`.
    spec fn wf(&self) -> bool;

    /// The shape `(rows, cols)`.
    spec fn spec_dim(&self) -> (IndexType, IndexType);

    /// The number of logically addressable elements.
    spec fn spec_number_of_elements(&self) -> nat;

    /// Whether `(row, col)` addresses an element of the layout.
    spec fn valid_2d(&self, row: int, col: int) -> bool;

    /// The coordinates of the logical one-dimensional index `index`.
    spec fn spec_1d_2d(&self, index: int) -> (int, int);

    /// The logical one-dimensional index of `(row, col)`.
    spec fn spec_2d_1d(&self, row: int, col: int) -> int;

    /// The raw offset of `(row, col)`.
    spec fn spec_2d_raw(&self, row: int, col: int) -> int;

    /// The raw offset of the logical one-dimensional index `index`.
    spec fn spec_1d_raw(&self, index: int) -> int;

    /// The length of the shortest buffer that holds every addressed element.
    spec fn spec_extent(&self) -> nat;

    /// The classification of the physical order.
    spec fn spec_memory_layout(&self) -> MemoryLayout;

    /// Return the classification of the physical order.
    fn memory_layout(&self) -> (r: MemoryLayout)
        ensures
            r == self.spec_memory_layout(),
    ;

    /// A layout classified as C stores row after row without gaps, one classified
    /// as F column after column.
    proof fn lemma_memory_layout(&self)
        requires
            self.wf(),
        ensures
            self.spec_memory_layout() == MemoryLayout::C ==> forall|row: int, col: int|
                #[trigger] self.valid_2d(row, col) <==> (0 <= row < self.spec_dim().0 && 0 <= col
                    < self.spec_dim().1),
            self.spec_memory_layout() == MemoryLayout::C ==> forall|row: int, col: int|
                #[trigger] self.valid_2d(row, col) ==> self.spec_2d_raw(row, col) == row
                    * self.spec_dim().1 + col,
            self.spec_memory_layout() == MemoryLayout::F ==> forall|row: int, col: int|
                #[trigger] self.valid_2d(row, col) <==> (0 <= row < self.spec_dim().0 && 0 <= col
                    < self.spec_dim().1),
            self.spec_memory_layout() == MemoryLayout::F ==> forall|row: int, col: int|
                #[trigger] self.valid_2d(row, col) ==> self.spec_2d_raw(row, col) == col
                    * self.spec_dim().0 + row,
    ;

    /// Return the shape `(rows, cols)`.
    fn dim(&self) -> (r: (IndexType, IndexType))
        requires
            self.wf(),
        ensures
            r == self.spec_dim(),
    ;

    /// Return the number of logically addressable elements.
    fn number_of_elements(&self) -> (r: IndexType)
        requires
            self.wf(),
        ensures
            r == self.spec_number_of_elements(),
    ;

    /// Convert a logical one-dimensional index into `(row, col)`.
    fn convert_1d_2d(&self, index: IndexType) -> (r: (IndexType, IndexType))
        requires
            self.wf(),
            index < self.spec_number_of_elements(),
        ensures
            (r.0 as int, r.1 as int) == self.spec_1d_2d(index as int),
    ;

    /// Convert `(row, col)` into a logical one-dimensional index.
    fn convert_2d_1d(&self, row: IndexType, col: IndexType) -> (r: IndexType)
        requires
            self.wf(),
            self.valid_2d(row as int, col as int),
        ensures
            r == self.spec_2d_1d(row as int, col as int),
    ;

    /// Convert a logical one-dimensional index into a raw offset.
    fn convert_1d_raw(&self, index: IndexType) -> (r: IndexType)
        requires
            self.wf(),
            index < self.spec_number_of_elements(),
        ensures
            r == self.spec_1d_raw(index as int),
    ;

    /// Convert `(row, col)` into a raw offset.
    fn convert_2d_raw(&self, row: IndexType, col: IndexType) -> (r: IndexType)
        requires
            self.wf(),
            self.valid_2d(row as int, col as int),
        ensures
            r == self.spec_2d_raw(row as int, col as int),
    ;

    /// The element count and the extent fit in `usize`.
    proof fn lemma_bounds(&self)
        requires
            self.wf(),
        ensures
            self.spec_number_of_elements() <= usize::MAX,
            self.spec_extent() <= usize::MAX,
    ;

    /// Addressable coordinates lie inside the shape.
    proof fn lemma_valid_in_dim(&self, row: int, col: int)
        requires
            self.wf(),
            self.valid_2d(row, col),
        ensures
            0 <= row < self.spec_dim().0,
            0 <= col < self.spec_dim().1,
    ;

    /// Going from two to one dimension and back returns the coordinates.
    proof fn lemma_round_trip_2d(&self, row: int, col: int)
        requires
            self.wf(),
            self.valid_2d(row, col),
        ensures
            0 <= self.spec_2d_1d(row, col) < self.spec_number_of_elements(),
            self.spec_1d_2d(self.spec_2d_1d(row, col)) == (row, col),
    ;

    /// Going from one to two dimensions and back returns the index.
    proof fn lemma_round_trip_1d(&self, index: int)
        requires
            self.wf(),
            0 <= index < self.spec_number_of_elements(),
        ensures
            self.valid_2d(self.spec_1d_2d(index).0, self.spec_1d_2d(index).1),
            self.spec_2d_1d(self.spec_1d_2d(index).0, self.spec_1d_2d(index).1) == index,
    ;

    /// The raw offset of a one-dimensional index is that of its coordinates.
    proof fn lemma_1d_raw(&self, index: int)
        requires
            self.wf(),
            0 <= index < self.spec_number_of_elements(),
        ensures
            self.spec_1d_raw(index) == self.spec_2d_raw(
                self.spec_1d_2d(index).0,
                self.spec_1d_2d(index).1,
            ),
    ;

    /// Every raw offset lies below the extent.
    proof fn lemma_extent(&self, row: int, col: int)
        requires
            self.wf(),
            self.valid_2d(row, col),
        ensures
            0 <= self.spec_2d_raw(row, col) < self.spec_extent(),
    ;
}

/// Layouts determined by their shape alone, suitable for logical indexing.
pub trait BaseLayoutType: LayoutType {
    /// Whether a layout of shape `dim` can be built.
    spec fn admits_dimension(dim: (IndexType, IndexType)) -> bool;

    /// The layout of shape `dim`.
    fn from_dimension(dim: (IndexType, IndexType)) -> (r: Self)
        requires
            Self::admits_dimension(dim),
        ensures
            r.wf(),
            r.spec_dim() == dim,
    ;

    /// A base layout has no gaps, and its raw offsets are its logical
    /// one-dimensional indices.
    proof fn lemma_dense(&self)
        requires
            self.wf(),
        ensures
            self.spec_extent() == self.spec_number_of_elements(),
            forall|row: int, col: int|
                self.valid_2d(row, col) ==> #[trigger] self.spec_2d_raw(row, col)
                    == self.spec_2d_1d(row, col),
            forall|index: int|
                0 <= index < self.spec_number_of_elements() ==> #[trigger] self.spec_1d_raw(index)
                    == index,
    ;
}

/// Distinct addressable coordinates of a base layout have distinct raw offsets.
pub proof fn lemma_base_raw_injective<L: BaseLayoutType>(layout: &L)
    requires
        layout.wf(),
    ensures
        forall|r1: int, c1: int, r2: int, c2: int|
            layout.valid_2d(r1, c1) && layout.valid_2d(r2, c2) && (r1 != r2 || c1 != c2)
                ==> #[trigger] layout.spec_2d_raw(r1, c1) != #[trigger] layout.spec_2d_raw(r2, c2),
{
    layout.lemma_dense();
    assert forall|r1: int, c1: int, r2: int, c2: int|
        layout.valid_2d(r1, c1) && layout.valid_2d(r2, c2) && (r1 != r2 || c1 != c2)
            implies #[trigger] layout.spec_2d_raw(r1, c1) != #[trigger] layout.spec_2d_raw(
            r2,
            c2,
        ) by {
        layout.lemma_round_trip_2d(r1, c1);
        layout.lemma_round_trip_2d(r2, c2);
    }
}

/// Base layouts of matrices.
pub trait MatrixBaseLayoutType: BaseLayoutType {
}

/// Base layouts of vectors, built from their length.
pub trait VectorBaseLayoutType: BaseLayoutType {
    /// Whether a vector layout of `length` elements can be built.
    spec fn admits_length(length: IndexType) -> bool;

    /// The vector layout with `length` elements.
    fn from_length(length: IndexType) -> (r: Self)
        requires
            Self::admits_length(length),
        ensures
            r.wf(),
            r.spec_number_of_elements() == length,
    ;
}

/// Layouts that place element `(row, col)` at `row * stride.0 + col * stride.1` and
/// address every cell of their shape.
pub trait StridedLayoutType: LayoutType {
    /// The stride `(row_stride, col_stride)`.
    spec fn spec_stride(&self) -> (IndexType, IndexType);

    /// Return the stride `(row_stride, col_stride)`.
    fn stride(&self) -> (r: (IndexType, IndexType))
        requires
            self.wf(),
        ensures
            r == self.spec_stride(),
    ;

    /// A strided layout is determined by its shape and stride.
    proof fn lemma_determined(&self, other: &Self)
        requires
            self.wf(),
            other.wf(),
            self.spec_dim() == other.spec_dim(),
            self.spec_stride() == other.spec_stride(),
        ensures
            *self == *other,
    ;

    /// The offsets of a strided layout.
    proof fn lemma_strided(&self)
        requires
            self.wf(),
        ensures
            strides_separate(self.spec_dim(), self.spec_stride()),
            self.spec_number_of_elements() == self.spec_dim().0 * self.spec_dim().1,
            self.spec_extent() == strided_extent(self.spec_dim(), self.spec_stride()),
            forall|row: int, col: int|
                #[trigger] self.valid_2d(row, col) <==> (0 <= row < self.spec_dim().0 && 0 <= col
                    < self.spec_dim().1),
            forall|row: int, col: int|
                0 <= row < self.spec_dim().0 && 0 <= col < self.spec_dim().1
                    ==> #[trigger] self.spec_2d_raw(row, col) == row * self.spec_stride().0 + col
                    * self.spec_stride().1,
    ;
}

/// For every layout, converting addressable coordinates to the logical
/// one-dimensional index and back returns the coordinates, and converting a logical
/// index to coordinates and back returns the index.
pub proof fn lemma_round_trip<L: LayoutType>(layout: &L)
    requires
        layout.wf(),
    ensures
        forall|row: int, col: int|
            layout.valid_2d(row, col) ==> #[trigger] layout.spec_1d_2d(layout.spec_2d_1d(row, col))
                == (row, col),
        forall|index: int|
            0 <= index < layout.spec_number_of_elements() ==> {
                let (row, col) = #[trigger] layout.spec_1d_2d(index);
                layout.valid_2d(row, col) && layout.spec_2d_1d(row, col) == index
            },
{
    assert forall|row: int, col: int|
        layout.valid_2d(row, col) implies #[trigger] layout.spec_1d_2d(
        layout.spec_2d_1d(row, col),
    ) == (row, col) by {
        layout.lemma_round_trip_2d(row, col);
    }
    assert forall|index: int| 0 <= index < layout.spec_number_of_elements() implies {
        let (row, col) = #[trigger] layout.spec_1d_2d(index);
        layout.valid_2d(row, col) && layout.spec_2d_1d(row, col) == index
    } by {
        layout.lemma_round_trip_1d(index);
    }
}

/// Constructing a strided layout twice from the same shape and stride gives layouts
/// that convert every index alike.
pub proof fn lemma_construction_idempotent<L: StridedLayoutType>(a: &L, b: &L)
    requires
        a.wf(),
        b.wf(),
        a.spec_dim() == b.spec_dim(),
        a.spec_stride() == b.spec_stride(),
    ensures
        a.spec_number_of_elements() == b.spec_number_of_elements(),
        a.spec_extent() == b.spec_extent(),
        forall|row: int, col: int|
            #![trigger a.spec_2d_1d(row, col)]
            #![trigger a.spec_2d_raw(row, col)]
            #![trigger a.valid_2d(row, col)]
            a.valid_2d(row, col) == b.valid_2d(row, col) && a.spec_2d_1d(row, col)
                == b.spec_2d_1d(row, col) && a.spec_2d_raw(row, col) == b.spec_2d_raw(row, col),
        forall|index: int|
            #![trigger a.spec_1d_2d(index)]
            #![trigger a.spec_1d_raw(index)]
            a.spec_1d_2d(index) == b.spec_1d_2d(index) && a.spec_1d_raw(index) == b.spec_1d_raw(
                index,
            ),
{
    a.lemma_determined(b);
}

/// The raw offsets that a layout addresses.
pub open spec fn raw_offsets<L: LayoutType>(layout: L) -> Set<int> {
    Set::new(
        |p: int|
            exists|row: int, col: int|
                layout.valid_2d(row, col) && #[trigger] layout.spec_2d_raw(row, col) == p,
    )
}

/// A strided layout of shape `(rows, cols)` addresses exactly `rows * cols` distinct
/// raw offsets.
pub proof fn lemma_raw_offsets_count<L: StridedLayoutType>(layout: &L)
    requires
        layout.wf(),
    ensures
        raw_offsets(*layout).finite(),
        raw_offsets(*layout).len() == layout.spec_dim().0 * layout.spec_dim().1,
{
    lemma_raw_offsets_distinct(layout);
    layout.lemma_strided();
    let n = layout.spec_number_of_elements() as int;
    let x = vstd::set_lib::set_int_range(0, n);
    let f = |i: int| layout.spec_2d_raw(layout.spec_1d_2d(i).0, layout.spec_1d_2d(i).1);
    vstd::set_lib::lemma_int_range(0, n);
    assert(vstd::relations::injective_on(f, x)) by {
        assert forall|i: int, j: int| x.contains(i) && x.contains(j) && f(i) == f(j) implies i
            == j by {
            layout.lemma_round_trip_1d(i);
            layout.lemma_round_trip_1d(j);
        }
    }
    assert(x.map(f) =~= raw_offsets(*layout)) by {
        assert forall|p: int| raw_offsets(*layout).contains(p) implies x.map(f).contains(p) by {
            let (row, col) = choose|row: int, col: int|
                layout.valid_2d(row, col) && #[trigger] layout.spec_2d_raw(row, col) == p;
            layout.lemma_round_trip_2d(row, col);
            assert(x.contains(layout.spec_2d_1d(row, col)));
            assert(f(layout.spec_2d_1d(row, col)) == p);
        }
        assert forall|p: int| x.map(f).contains(p) implies raw_offsets(*layout).contains(p) by {
            let i = choose|i: int| x.contains(i) && f(i) == p;
            layout.lemma_round_trip_1d(i);
            let (row, col) = layout.spec_1d_2d(i);
            assert(layout.valid_2d(row, col) && layout.spec_2d_raw(row, col) == p);
        }
    }
    vstd::set_lib::lemma_map_size(x, raw_offsets(*layout), f);
}

/// Raw-offset injectivity: the strides of every well-formed strided layout are
/// separate, so distinct coordinates never alias one element of the buffer.
pub proof fn lemma_raw_offsets_distinct<L: StridedLayoutType>(layout: &L)
    requires
        layout.wf(),
    ensures
        strides_separate(layout.spec_dim(), layout.spec_stride()),
        forall|r1: int, c1: int, r2: int, c2: int|
            layout.valid_2d(r1, c1) && layout.valid_2d(r2, c2) && (r1 != r2 || c1 != c2)
                ==> #[trigger] layout.spec_2d_raw(r1, c1) != #[trigger] layout.spec_2d_raw(r2, c2),
{
    layout.lemma_strided();
    let dim = layout.spec_dim();
    let stride = layout.spec_stride();
    assert forall|r1: int, c1: int, r2: int, c2: int|
        layout.valid_2d(r1, c1) && layout.valid_2d(r2, c2) && (r1 != r2 || c1 != c2)
            implies #[trigger] layout.spec_2d_raw(r1, c1) != #[trigger] layout.spec_2d_raw(
            r2,
            c2,
        ) by {
        crate::layouts::offsets::lemma_separate_offsets_distinct(dim, stride, r1, c1, r2, c2);
    }
}

} // verus!
