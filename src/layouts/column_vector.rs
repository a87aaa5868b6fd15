//! Column vector layout.
use crate::layouts::offsets::{strided_extent, strides_separate};
use crate::traits::layout::{
    BaseLayoutType, LayoutType, MemoryLayout, StridedLayoutType, VectorBaseLayoutType,
};
use crate::types::IndexType;
use vstd::prelude::*;

verus! {

/// A `length x 1` matrix stored without gaps.
#[derive(Clone, Copy, Debug, PartialEq, Eq)]
pub struct ColumnVector {
    length: IndexType,
}

impl ColumnVector {
    /// The column vector layout with `length` elements.
    pub fn new(length: IndexType) -> (r: Self)
        ensures
            r.wf(),
            r.spec_dim() == (length, 1usize),
    {
        Self { length }
    }

    /// A column vector has a single column.
    pub proof fn lemma_shape(&self)
        ensures
            self.spec_dim().1 == 1,
            self.spec_number_of_elements() == self.spec_dim().0,
    {
    }

    /// The maps of the layout, in terms of its shape.
    pub proof fn lemma_definition(&self)
        ensures
            self.spec_memory_layout() == MemoryLayout::CUSTOM,
            self.spec_stride() == (1usize, 1usize),
            self.spec_dim().1 == 1,
            self.spec_number_of_elements() == self.spec_dim().0,
            self.spec_extent() == self.spec_dim().0,
            forall|row: int, col: int|
                #[trigger] self.valid_2d(row, col) <==> (0 <= row < self.spec_dim().0 && col == 0),
            forall|row: int, col: int| #[trigger] self.spec_2d_1d(row, col) == row,
            forall|row: int, col: int| #[trigger] self.spec_2d_raw(row, col) == row,
            forall|index: int| #[trigger] self.spec_1d_2d(index) == (index, 0int),
            forall|index: int| #[trigger] self.spec_1d_raw(index) == index,
    {
    }
}

impl LayoutType for ColumnVector {
    closed spec fn wf(&self) -> bool {
        true
    }

    closed spec fn spec_dim(&self) -> (IndexType, IndexType) {
        (self.length, 1)
    }

    closed spec fn spec_number_of_elements(&self) -> nat {
        self.length as nat
    }

    closed spec fn valid_2d(&self, row: int, col: int) -> bool {
        0 <= row < self.length && col == 0
    }

    closed spec fn spec_1d_2d(&self, index: int) -> (int, int) {
        (index, 0)
    }

    closed spec fn spec_2d_1d(&self, row: int, col: int) -> int {
        row
    }

    closed spec fn spec_2d_raw(&self, row: int, col: int) -> int {
        row
    }

    closed spec fn spec_1d_raw(&self, index: int) -> int {
        index
    }

    closed spec fn spec_extent(&self) -> nat {
        self.length as nat
    }

    closed spec fn spec_memory_layout(&self) -> MemoryLayout {
        MemoryLayout::CUSTOM
    }

    fn memory_layout(&self) -> (r: MemoryLayout) {
        MemoryLayout::CUSTOM
    }

    proof fn lemma_memory_layout(&self) {
    }

    fn dim(&self) -> (r: (IndexType, IndexType)) {
        (self.length, 1)
    }

    fn number_of_elements(&self) -> (r: IndexType) {
        self.length
    }

    fn convert_1d_2d(&self, index: IndexType) -> (r: (IndexType, IndexType)) {
        (index, 0)
    }

    fn convert_2d_1d(&self, row: IndexType, col: IndexType) -> (r: IndexType) {
        row
    }

    fn convert_1d_raw(&self, index: IndexType) -> (r: IndexType) {
        index
    }

    fn convert_2d_raw(&self, row: IndexType, col: IndexType) -> (r: IndexType) {
        row
    }

    proof fn lemma_bounds(&self) {
    }

    proof fn lemma_valid_in_dim(&self, row: int, col: int) {
    }

    proof fn lemma_round_trip_2d(&self, row: int, col: int) {
    }

    proof fn lemma_round_trip_1d(&self, index: int) {
    }

    proof fn lemma_1d_raw(&self, index: int) {
    }

    proof fn lemma_extent(&self, row: int, col: int) {
    }
}

impl BaseLayoutType for ColumnVector {
    open spec fn admits_dimension(dim: (IndexType, IndexType)) -> bool {
        dim.1 == 1
    }

    /// Only shapes with a single column are admitted.
    fn from_dimension(dim: (IndexType, IndexType)) -> (r: Self) {
        Self { length: dim.0 }
    }

    proof fn lemma_dense(&self) {
    }
}

impl VectorBaseLayoutType for ColumnVector {
    open spec fn admits_length(length: IndexType) -> bool {
        true
    }

    fn from_length(length: IndexType) -> (r: Self) {
        Self { length }
    }
}

impl StridedLayoutType for ColumnVector {
    closed spec fn spec_stride(&self) -> (IndexType, IndexType) {
        (1, 1)
    }

    fn stride(&self) -> (r: (IndexType, IndexType)) {
        (1, 1)
    }

    proof fn lemma_determined(&self, other: &Self) {
    }

    proof fn lemma_strided(&self) {
        let dim = self.spec_dim();
        assert forall|row: int, col: int| 0 <= row < dim.0
            && 0 <= col < dim.1 implies #[trigger] self.spec_2d_raw(row, col)
                == row * 1 + col * 1 by {}
        assert forall|dr: int, dc: int| 0 < dr < dim.0 && 0 < dc < dim.1 implies #[trigger] (dr
            * 1) != #[trigger] (dc * 1) by {}
        assert(strides_separate(dim, (1usize, 1usize)));
        if self.length > 0 {
            assert(strided_extent(dim, (1, 1)) == (dim.0 - 1) * 1 + (dim.1 - 1) * 1 + 1);
        }
    }
}

} // verus!
