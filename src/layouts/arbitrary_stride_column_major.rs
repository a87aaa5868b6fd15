//! Column-major logical order over an arbitrary stride.
use crate::layouts::offsets::{
    lemma_row_major_round_trip_1d, lemma_row_major_round_trip_2d, lemma_strided_offset_bound,
    strided_extent, strides_separate,
};
use crate::traits::layout::{LayoutType, MemoryLayout, StridedLayoutType};
use crate::types::IndexType;
use vstd::prelude::*;

verus! {

/// Elements at `row * stride.0 + col * stride.1`, visited column by column. This describes a
/// block cut out of a larger matrix, which is in general not contiguous.
#[derive(Clone, Copy, Debug, PartialEq, Eq)]
pub struct ArbitraryStrideColumnMajor {
    dim: (IndexType, IndexType),
    stride: (IndexType, IndexType),
}

impl ArbitraryStrideColumnMajor {
    /// The layout of shape `dim` with stride `stride`.
    pub fn new(dim: (IndexType, IndexType), stride: (IndexType, IndexType)) -> (r: Self)
        requires
            dim.0 * dim.1 <= usize::MAX,
            strided_extent(dim, stride) <= usize::MAX,
            strides_separate(dim, stride),
        ensures
            r.wf(),
            r.spec_dim() == dim,
            r.spec_stride() == stride,
    {
        Self { dim, stride }
    }

    /// The maps of the layout, in terms of its shape and stride.
    pub proof fn lemma_definition(&self)
        ensures
            self.spec_memory_layout() == MemoryLayout::CUSTOM,
            self.spec_number_of_elements() == self.spec_dim().0 * self.spec_dim().1,
            self.spec_extent() == strided_extent(self.spec_dim(), self.spec_stride()),
            forall|row: int, col: int|
                #[trigger] self.valid_2d(row, col)
                    <==> (0 <= row < self.spec_dim().0 && 0 <= col < self.spec_dim().1),
            forall|row: int, col: int|
                #[trigger] self.spec_2d_1d(row, col) == col * self.spec_dim().0 + row,
            forall|row: int, col: int|
                #[trigger] self.spec_2d_raw(row, col)
                    == row * self.spec_stride().0 + col * self.spec_stride().1,
            forall|index: int|
                #[trigger] self.spec_1d_2d(index)
                    == (index % self.spec_dim().0 as int, index / self.spec_dim().0 as int),
            forall|index: int|
                #[trigger] self.spec_1d_raw(index)
                    == (index % self.spec_dim().0 as int) * self.spec_stride().0
                        + (index / self.spec_dim().0 as int) * self.spec_stride().1,
    {
    }
}

impl LayoutType for ArbitraryStrideColumnMajor {
    closed spec fn wf(&self) -> bool {
        &&& self.dim.0 * self.dim.1 <= usize::MAX
        &&& strided_extent(self.dim, self.stride) <= usize::MAX
        &&& strides_separate(self.dim, self.stride)
    }

    closed spec fn spec_dim(&self) -> (IndexType, IndexType) {
        self.dim
    }

    closed spec fn spec_number_of_elements(&self) -> nat {
        (self.dim.0 * self.dim.1) as nat
    }

    closed spec fn valid_2d(&self, row: int, col: int) -> bool {
        0 <= row < self.dim.0 && 0 <= col < self.dim.1
    }

    closed spec fn spec_1d_2d(&self, index: int) -> (int, int) {
        (index % self.dim.0 as int, index / self.dim.0 as int)
    }

    closed spec fn spec_2d_1d(&self, row: int, col: int) -> int {
        col * self.dim.0 + row
    }

    closed spec fn spec_2d_raw(&self, row: int, col: int) -> int {
        row * self.stride.0 + col * self.stride.1
    }

    closed spec fn spec_1d_raw(&self, index: int) -> int {
        (index % self.dim.0 as int) * self.stride.0 + (index / self.dim.0 as int) * self.stride.1
    }

    closed spec fn spec_extent(&self) -> nat {
        strided_extent(self.dim, self.stride)
    }

    closed spec fn spec_memory_layout(&self) -> MemoryLayout {
        MemoryLayout::CUSTOM
    }

    fn memory_layout(&self) -> (r: MemoryLayout) {
        MemoryLayout::CUSTOM
    }

    proof fn lemma_memory_layout(&self) {
    }

    fn dim(&self) -> (r: (IndexType, IndexType)) {
        self.dim
    }

    fn number_of_elements(&self) -> (r: IndexType) {
        self.dim.0 * self.dim.1
    }

    fn convert_1d_2d(&self, index: IndexType) -> (r: (IndexType, IndexType)) {
        proof {
            self.lemma_round_trip_1d(index as int);
        }
        (index % self.dim.0, index / self.dim.0)
    }

    fn convert_2d_1d(&self, row: IndexType, col: IndexType) -> (r: IndexType) {
        proof {
            self.lemma_round_trip_2d(row as int, col as int);
        }
        col * self.dim.0 + row
    }

    fn convert_1d_raw(&self, index: IndexType) -> (r: IndexType) {
        proof {
            self.lemma_round_trip_1d(index as int);
        }
        let (row, col) = self.convert_1d_2d(index);
        self.convert_2d_raw(row, col)
    }

    fn convert_2d_raw(&self, row: IndexType, col: IndexType) -> (r: IndexType) {
        proof {
            lemma_strided_offset_bound(self.dim, self.stride, row as int, col as int);
        }
        row * self.stride.0 + col * self.stride.1
    }

    proof fn lemma_bounds(&self) {
    }

    proof fn lemma_valid_in_dim(&self, row: int, col: int) {
    }

    proof fn lemma_round_trip_2d(&self, row: int, col: int) {
        lemma_row_major_round_trip_2d(self.dim.1 as int, self.dim.0 as int, col, row);
        assert(self.dim.1 * self.dim.0 == self.dim.0 * self.dim.1) by (nonlinear_arith);
    }

    proof fn lemma_round_trip_1d(&self, index: int) {
        assert(self.dim.1 * self.dim.0 == self.dim.0 * self.dim.1) by (nonlinear_arith);
        lemma_row_major_round_trip_1d(self.dim.1 as int, self.dim.0 as int, index);
    }

    proof fn lemma_1d_raw(&self, index: int) {
    }

    proof fn lemma_extent(&self, row: int, col: int) {
        lemma_strided_offset_bound(self.dim, self.stride, row, col);
    }
}

impl StridedLayoutType for ArbitraryStrideColumnMajor {
    closed spec fn spec_stride(&self) -> (IndexType, IndexType) {
        self.stride
    }

    fn stride(&self) -> (r: (IndexType, IndexType)) {
        self.stride
    }

    proof fn lemma_determined(&self, other: &Self) {
    }

    proof fn lemma_strided(&self) {
    }
}

} // verus!
