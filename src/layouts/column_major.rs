//! Column-major layout.
use crate::layouts::offsets::{
    lemma_dense_extent, lemma_row_major_round_trip_1d, lemma_row_major_round_trip_2d,
    strides_separate,
};
use crate::traits::layout::{
    BaseLayoutType, LayoutType, MatrixBaseLayoutType, MemoryLayout, StridedLayoutType,
};
use crate::types::IndexType;
use vstd::prelude::*;

verus! {

/// Elements stored column after column, without gaps.
#[derive(Clone, Copy, Debug, PartialEq, Eq)]
pub struct ColumnMajor {
    dim: (IndexType, IndexType),
}

impl ColumnMajor {
    /// The column-major layout of shape `dim`.
    pub fn new(dim: (IndexType, IndexType)) -> (r: Self)
        requires
            dim.0 * dim.1 <= usize::MAX,
        ensures
            r.wf(),
            r.spec_dim() == dim,
    {
        Self { dim }
    }

    /// The maps of the layout, in terms of its shape.
    pub proof fn lemma_definition(&self)
        ensures
            self.spec_memory_layout() == MemoryLayout::F,
            self.spec_stride() == (1usize, self.spec_dim().0),
            self.spec_number_of_elements() == self.spec_dim().0 * self.spec_dim().1,
            self.spec_extent() == self.spec_dim().0 * self.spec_dim().1,
            forall|row: int, col: int|
                #[trigger] self.valid_2d(row, col)
                    <==> (0 <= row < self.spec_dim().0 && 0 <= col < self.spec_dim().1),
            forall|row: int, col: int|
                #[trigger] self.spec_2d_1d(row, col) == col * self.spec_dim().0 + row,
            forall|row: int, col: int|
                #[trigger] self.spec_2d_raw(row, col) == col * self.spec_dim().0 + row,
            forall|index: int|
                #[trigger] self.spec_1d_2d(index)
                    == (index % self.spec_dim().0 as int, index / self.spec_dim().0 as int),
            forall|index: int| #[trigger] self.spec_1d_raw(index) == index,
    {
    }
}

impl LayoutType for ColumnMajor {
    closed spec fn wf(&self) -> bool {
        self.dim.0 * self.dim.1 <= usize::MAX
    }

    closed spec fn spec_dim(&self) -> (IndexType, IndexType) {
        self.dim
    }

    closed spec fn spec_number_of_elements(&self) -> nat {
        (self.dim.0 * self.dim.1) as nat
    }

    closed spec fn valid_2d(&self, row: int, col: int) -> bool {
        0 <= row < self.dim.0 && 0 <= col < self.dim.1
    }

    closed spec fn spec_1d_2d(&self, index: int) -> (int, int) {
        (index % self.dim.0 as int, index / self.dim.0 as int)
    }

    closed spec fn spec_2d_1d(&self, row: int, col: int) -> int {
        col * self.dim.0 + row
    }

    closed spec fn spec_2d_raw(&self, row: int, col: int) -> int {
        col * self.dim.0 + row
    }

    closed spec fn spec_1d_raw(&self, index: int) -> int {
        index
    }

    closed spec fn spec_extent(&self) -> nat {
        (self.dim.0 * self.dim.1) as nat
    }

    closed spec fn spec_memory_layout(&self) -> MemoryLayout {
        MemoryLayout::F
    }

    fn memory_layout(&self) -> (r: MemoryLayout) {
        MemoryLayout::F
    }

    proof fn lemma_memory_layout(&self) {
    }

    fn dim(&self) -> (r: (IndexType, IndexType)) {
        self.dim
    }

    fn number_of_elements(&self) -> (r: IndexType) {
        self.dim.0 * self.dim.1
    }

    fn convert_1d_2d(&self, index: IndexType) -> (r: (IndexType, IndexType)) {
        proof {
            self.lemma_round_trip_1d(index as int);
        }
        (index % self.dim.0, index / self.dim.0)
    }

    fn convert_2d_1d(&self, row: IndexType, col: IndexType) -> (r: IndexType) {
        proof {
            self.lemma_round_trip_2d(row as int, col as int);
        }
        col * self.dim.0 + row
    }

    fn convert_1d_raw(&self, index: IndexType) -> (r: IndexType) {
        index
    }

    fn convert_2d_raw(&self, row: IndexType, col: IndexType) -> (r: IndexType) {
        self.convert_2d_1d(row, col)
    }

    proof fn lemma_bounds(&self) {
    }

    proof fn lemma_valid_in_dim(&self, row: int, col: int) {
    }

    proof fn lemma_round_trip_2d(&self, row: int, col: int) {
        lemma_row_major_round_trip_2d(self.dim.1 as int, self.dim.0 as int, col, row);
        assert(self.dim.1 * self.dim.0 == self.dim.0 * self.dim.1) by (nonlinear_arith);
    }

    proof fn lemma_round_trip_1d(&self, index: int) {
        assert(self.dim.1 * self.dim.0 == self.dim.0 * self.dim.1) by (nonlinear_arith);
        lemma_row_major_round_trip_1d(self.dim.1 as int, self.dim.0 as int, index);
    }

    proof fn lemma_1d_raw(&self, index: int) {
        self.lemma_round_trip_1d(index);
    }

    proof fn lemma_extent(&self, row: int, col: int) {
        self.lemma_round_trip_2d(row, col);
    }
}

impl BaseLayoutType for ColumnMajor {
    open spec fn admits_dimension(dim: (IndexType, IndexType)) -> bool {
        dim.0 * dim.1 <= usize::MAX
    }

    fn from_dimension(dim: (IndexType, IndexType)) -> (r: Self) {
        Self { dim }
    }

    proof fn lemma_dense(&self) {
    }
}

impl MatrixBaseLayoutType for ColumnMajor {
}

impl StridedLayoutType for ColumnMajor {
    closed spec fn spec_stride(&self) -> (IndexType, IndexType) {
        (1, self.dim.0)
    }

    fn stride(&self) -> (r: (IndexType, IndexType)) {
        (1, self.dim.0)
    }

    proof fn lemma_determined(&self, other: &Self) {
    }

    proof fn lemma_strided(&self) {
        lemma_dense_extent(self.dim.0, self.dim.1);
        let (rows, cols) = self.dim;
        assert forall|dr: int, dc: int| 0 < dr < rows && 0 < dc < cols implies #[trigger] (dr
            * 1) != #[trigger] (dc * rows) by {
            assert(dc * rows >= rows) by (nonlinear_arith)
                requires
                    dc >= 1,
                    rows >= 0,
            ;
        }
        assert(strides_separate(self.spec_dim(), self.spec_stride()));
        assert forall|row: int, col: int|
            0 <= row < self.dim.0 && 0 <= col < self.dim.1 implies #[trigger] self.spec_2d_raw(
            row,
            col,
        ) == row * 1 + col * self.dim.0 by {}
    }
}

} // verus!
