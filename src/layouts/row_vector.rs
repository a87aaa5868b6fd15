//! Row vector layout.
use crate::layouts::offsets::{strided_extent, strides_separate};
use crate::traits::layout::{
    BaseLayoutType, LayoutType, MemoryLayout, StridedLayoutType, VectorBaseLayoutType,
};
use crate::types::IndexType;
use vstd::prelude::*;

verus! {

/// A `1 x length` matrix stored without gaps.
#[derive(Clone, Copy, Debug, PartialEq, Eq)]
pub struct RowVector {
    length: IndexType,
}

impl RowVector {
    /// The row vector layout with `length` elements.
    pub fn new(length: IndexType) -> (r: Self)
        ensures
            r.wf(),
            r.spec_dim() == (1usize, length),
    {
        Self { length }
    }

    /// A row vector has a single row.
    pub proof fn lemma_shape(&self)
        ensures
            self.spec_dim().0 == 1,
            self.spec_number_of_elements() == self.spec_dim().1,
    {
    }

    /// The maps of the layout, in terms of its shape.
    pub proof fn lemma_definition(&self)
        ensures
            self.spec_memory_layout() == MemoryLayout::CUSTOM,
            self.spec_stride() == (1usize, 1usize),
            self.spec_dim().0 == 1,
            self.spec_number_of_elements() == self.spec_dim().1,
            self.spec_extent() == self.spec_dim().1,
            forall|row: int, col: int|
                #[trigger] self.valid_2d(row, col) <==> (row == 0 && 0 <= col < self.spec_dim().1),
            forall|row: int, col: int| #[trigger] self.spec_2d_1d(row, col) == col,
            forall|row: int, col: int| #[trigger] self.spec_2d_raw(row, col) == col,
            forall|index: int| #[trigger] self.spec_1d_2d(index) == (0int, index),
            forall|index: int| #[trigger] self.spec_1d_raw(index) == index,
    {
    }
}

impl LayoutType for RowVector {
    closed spec fn wf(&self) -> bool {
        true
    }

    closed spec fn spec_dim(&self) -> (IndexType, IndexType) {
        (1, self.length)
    }

    closed spec fn spec_number_of_elements(&self) -> nat {
        self.length as nat
    }

    closed spec fn valid_2d(&self, row: int, col: int) -> bool {
        row == 0 && 0 <= col < self.length
    }

    closed spec fn spec_1d_2d(&self, index: int) -> (int, int) {
        (0, index)
    }

    closed spec fn spec_2d_1d(&self, row: int, col: int) -> int {
        col
    }

    closed spec fn spec_2d_raw(&self, row: int, col: int) -> int {
        col
    }

    closed spec fn spec_1d_raw(&self, index: int) -> int {
        index
    }

    closed spec fn spec_extent(&self) -> nat {
        self.length as nat
    }

    closed spec fn spec_memory_layout(&self) -> MemoryLayout {
        MemoryLayout::CUSTOM
    }

    fn memory_layout(&self) -> (r: MemoryLayout) {
        MemoryLayout::CUSTOM
    }

    proof fn lemma_memory_layout(&self) {
    }

    fn dim(&self) -> (r: (IndexType, IndexType)) {
        (1, self.length)
    }

    fn number_of_elements(&self) -> (r: IndexType) {
        self.length
    }

    fn convert_1d_2d(&self, index: IndexType) -> (r: (IndexType, IndexType)) {
        (0, index)
    }

    fn convert_2d_1d(&self, row: IndexType, col: IndexType) -> (r: IndexType) {
        col
    }

    fn convert_1d_raw(&self, index: IndexType) -> (r: IndexType) {
        index
    }

    fn convert_2d_raw(&self, row: IndexType, col: IndexType) -> (r: IndexType) {
        col
    }

    proof fn lemma_bounds(&self) {
    }

    proof fn lemma_valid_in_dim(&self, row: int, col: int) {
    }

    proof fn lemma_round_trip_2d(&self, row: int, col: int) {
    }

    proof fn lemma_round_trip_1d(&self, index: int) {
    }

    proof fn lemma_1d_raw(&self, index: int) {
    }

    proof fn lemma_extent(&self, row: int, col: int) {
    }
}

impl BaseLayoutType for RowVector {
    open spec fn admits_dimension(dim: (IndexType, IndexType)) -> bool {
        dim.0 == 1
    }

    /// Only shapes with a single row are admitted.
    fn from_dimension(dim: (IndexType, IndexType)) -> (r: Self) {
        Self { length: dim.1 }
    }

    proof fn lemma_dense(&self) {
    }
}

impl VectorBaseLayoutType for RowVector {
    open spec fn admits_length(length: IndexType) -> bool {
        true
    }

    fn from_length(length: IndexType) -> (r: Self) {
        Self { length }
    }
}

impl StridedLayoutType for RowVector {
    closed spec fn spec_stride(&self) -> (IndexType, IndexType) {
        (1, 1)
    }

    fn stride(&self) -> (r: (IndexType, IndexType)) {
        (1, 1)
    }

    proof fn lemma_determined(&self, other: &Self) {
    }

    proof fn lemma_strided(&self) {
        let dim = self.spec_dim();
        assert forall|row: int, col: int| 0 <= row < dim.0
            && 0 <= col < dim.1 implies #[trigger] self.spec_2d_raw(row, col)
                == row * 1 + col * 1 by {}
        assert forall|dr: int, dc: int| 0 < dr < dim.0 && 0 < dc < dim.1 implies #[trigger] (dr
            * 1) != #[trigger] (dc * 1) by {}
        assert(strides_separate(dim, (1usize, 1usize)));
        if self.length > 0 {
            assert(strided_extent(dim, (1, 1)) == (dim.0 - 1) * 1 + (dim.1 - 1) * 1 + 1);
        }
    }
}

} // verus!
