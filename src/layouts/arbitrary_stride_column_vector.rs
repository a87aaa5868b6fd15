//! Column vector layout with an arbitrary stride.
use crate::layouts::offsets::{lemma_strided_offset_bound, strided_extent, strides_separate};
use crate::traits::layout::{LayoutType, MemoryLayout, StridedLayoutType};
use crate::types::IndexType;
use vstd::prelude::*;

verus! {

/// A `length x 1` matrix whose consecutive elements lie `stride` positions apart.
#[derive(Clone, Copy, Debug, PartialEq, Eq)]
pub struct ArbitraryStrideColumnVector {
    length: IndexType,
    stride: IndexType,
}

impl ArbitraryStrideColumnVector {
    /// The column vector layout with `length` elements, `stride` apart.
    pub fn new(length: IndexType, stride: IndexType) -> (r: Self)
        requires
            strided_extent((length, 1usize), (stride, stride)) <= usize::MAX,
            strides_separate((length, 1usize), (stride, stride)),
        ensures
            r.wf(),
            r.spec_dim() == (length, 1usize),
            r.spec_stride() == (stride, stride),
    {
        Self { length, stride }
    }

    /// The maps of the layout, in terms of its shape and stride.
    pub proof fn lemma_definition(&self)
        ensures
            self.spec_memory_layout() == MemoryLayout::CUSTOM,
            self.spec_dim().1 == 1,
            self.spec_stride().0 == self.spec_stride().1,
            self.spec_number_of_elements() == self.spec_dim().0,
            self.spec_extent() == strided_extent(self.spec_dim(), self.spec_stride()),
            forall|row: int, col: int|
                #[trigger] self.valid_2d(row, col) <==> (0 <= row < self.spec_dim().0 && col == 0),
            forall|row: int, col: int| #[trigger] self.spec_2d_1d(row, col) == row,
            forall|row: int, col: int|
                #[trigger] self.spec_2d_raw(row, col) == row * self.spec_stride().0,
            forall|index: int| #[trigger] self.spec_1d_2d(index) == (index, 0int),
            forall|index: int| #[trigger] self.spec_1d_raw(index) == index * self.spec_stride().0,
    {
    }
}

impl LayoutType for ArbitraryStrideColumnVector {
    closed spec fn wf(&self) -> bool {
        &&& strided_extent((self.length, 1usize), (self.stride, self.stride)) <= usize::MAX
        &&& strides_separate((self.length, 1usize), (self.stride, self.stride))
    }

    closed spec fn spec_dim(&self) -> (IndexType, IndexType) {
        (self.length, 1)
    }

    closed spec fn spec_number_of_elements(&self) -> nat {
        self.length as nat
    }

    closed spec fn valid_2d(&self, row: int, col: int) -> bool {
        0 <= row < self.length && col == 0
    }

    closed spec fn spec_1d_2d(&self, index: int) -> (int, int) {
        (index, 0)
    }

    closed spec fn spec_2d_1d(&self, row: int, col: int) -> int {
        row
    }

    closed spec fn spec_2d_raw(&self, row: int, col: int) -> int {
        row * self.stride
    }

    closed spec fn spec_1d_raw(&self, index: int) -> int {
        index * self.stride
    }

    closed spec fn spec_extent(&self) -> nat {
        strided_extent((self.length, 1usize), (self.stride, self.stride))
    }

    closed spec fn spec_memory_layout(&self) -> MemoryLayout {
        MemoryLayout::CUSTOM
    }

    fn memory_layout(&self) -> (r: MemoryLayout) {
        MemoryLayout::CUSTOM
    }

    proof fn lemma_memory_layout(&self) {
    }

    fn dim(&self) -> (r: (IndexType, IndexType)) {
        (self.length, 1)
    }

    fn number_of_elements(&self) -> (r: IndexType) {
        self.length
    }

    fn convert_1d_2d(&self, index: IndexType) -> (r: (IndexType, IndexType)) {
        (index, 0)
    }

    fn convert_2d_1d(&self, row: IndexType, col: IndexType) -> (r: IndexType) {
        row
    }

    fn convert_1d_raw(&self, index: IndexType) -> (r: IndexType) {
        self.convert_2d_raw(index, 0)
    }

    fn convert_2d_raw(&self, row: IndexType, col: IndexType) -> (r: IndexType) {
        proof {
            self.lemma_extent(row as int, col as int);
        }
        row * self.stride
    }

    proof fn lemma_bounds(&self) {
    }

    proof fn lemma_valid_in_dim(&self, row: int, col: int) {
    }

    proof fn lemma_round_trip_2d(&self, row: int, col: int) {
    }

    proof fn lemma_round_trip_1d(&self, index: int) {
    }

    proof fn lemma_1d_raw(&self, index: int) {
    }

    proof fn lemma_extent(&self, row: int, col: int) {
        lemma_strided_offset_bound((self.length, 1usize), (self.stride, self.stride), row, col);
    }
}

impl StridedLayoutType for ArbitraryStrideColumnVector {
    closed spec fn spec_stride(&self) -> (IndexType, IndexType) {
        (self.stride, self.stride)
    }

    fn stride(&self) -> (r: (IndexType, IndexType)) {
        (self.stride, self.stride)
    }

    proof fn lemma_determined(&self, other: &Self) {
    }

    proof fn lemma_strided(&self) {
        let dim = self.spec_dim();
        assert forall|row: int, col: int|
            0 <= row < dim.0 && 0 <= col < dim.1 implies #[trigger] self.spec_2d_raw(row, col)
            == row * self.stride + col * self.stride by {}
    }
}

} // verus!
