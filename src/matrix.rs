//! The main matrix type.
pub mod constructors;
pub mod matrix_slices;

use crate::base_matrix::BaseMatrix;
use crate::data_container::{
    DataContainer, DataContainerMut, SliceContainer, SliceContainerMut, VectorContainer,
};
use crate::layouts::column_vector::ColumnVector;
use crate::layouts::row_vector::RowVector;
use crate::traits::layout::{LayoutType, MemoryLayout, StridedLayoutType};
use crate::traits::random_access::{
    Dimensions, Layout, UnsafeRandomAccess, UnsafeRandomAccessMut,
};
use crate::types::IndexType;
use vstd::prelude::*;

verus! {

/// A matrix of `Item`s stored in `Data` through the layout `L`.
pub struct Matrix<Item, Data, L>(BaseMatrix<Item, Data, L>);

/// A matrix that owns its buffer.
pub type MatrixD<Item, L> = Matrix<Item, VectorContainer<Item>, L>;

/// A matrix over a buffer of any container type.
pub type GenericBaseMatrix<Item, L, Data> = Matrix<Item, Data, L>;

/// A row vector that owns its buffer.
pub type RowVectorD<Item> = Matrix<Item, VectorContainer<Item>, RowVector>;

/// A column vector that owns its buffer.
pub type ColumnVectorD<Item> = Matrix<Item, VectorContainer<Item>, ColumnVector>;

/// A matrix that borrows its buffer, as a block of another matrix does.
pub type SliceMatrix<'a, Item, L> = Matrix<Item, SliceContainer<'a, Item>, L>;

/// A matrix that borrows its buffer mutably.
pub type SliceMatrixMut<'a, Item, L> = Matrix<Item, SliceContainerMut<'a, Item>, L>;

impl<Item: Copy, Data: DataContainer<Item = Item>, L: LayoutType> Matrix<Item, Data, L> {
    /// The container of the buffer.
    pub closed spec fn spec_container(&self) -> Data {
        self.0.spec_container()
    }

    /// The elements of the buffer.
    pub closed spec fn spec_data(&self) -> Seq<Item> {
        self.0.spec_data()
    }

    /// The matrix around `mat`.
    pub fn new(mat: BaseMatrix<Item, Data, L>) -> (r: Self)
        ensures
            r.spec_layout() == mat.spec_layout(),
            r.spec_container() == mat.spec_container(),
            r.spec_data() == mat.spec_data(),
            r.access_wf() == mat.wf(),
    {
        proof {
            mat.lemma_wf();
        }
        Matrix(mat)
    }

    /// A matrix reading `data` through `layout`. The buffer must hold at least
    /// `layout.number_of_elements()` elements and every element that the layout
    /// addresses; for the base layouts the two bounds agree.
    pub fn from_data(data: Data, layout: L) -> (r: Self)
        requires
            layout.wf(),
            layout.spec_number_of_elements() <= data.spec_data().len(),
            layout.spec_extent() <= data.spec_data().len(),
        ensures
            r.access_wf(),
            r.spec_layout() == layout,
            r.spec_container() == data,
            r.spec_data() == data.spec_data(),
    {
        Self::new(BaseMatrix::new(data, layout))
    }

    /// A matrix that borrows the buffer of `mat` and reads it through the same layout.
    pub fn from_ref<'a>(mat: &'a Matrix<Item, Data, L>) -> (r: SliceMatrix<'a, Item, L>)
        where L: Copy,
        requires
            mat.access_wf(),
        ensures
            r.access_wf(),
            r.spec_layout() == mat.spec_layout(),
            r.spec_data() == mat.spec_data(),
    {
        let layout = *mat.layout();
        Matrix::from_data(SliceContainer::new(mat.get_pointer()), layout)
    }

    /// The classification of the layout's physical order.
    pub fn layout_type(&self) -> (r: MemoryLayout)
        ensures
            r == self.spec_layout().spec_memory_layout(),
    {
        self.0.layout().memory_layout()
    }

    /// The whole buffer.
    pub fn get_pointer(&self) -> (r: &[Item])
        ensures
            r@ == self.spec_data(),
    {
        self.0.get_pointer()
    }

    /// The buffer elements at `first..last`.
    pub fn get_slice(&self, first: IndexType, last: IndexType) -> (r: &[Item])
        requires
            first <= last <= self.spec_data().len(),
        ensures
            r@ == self.spec_data().subrange(first as int, last as int),
    {
        self.0.get_slice(first, last)
    }
}

impl<Item: Copy, Data: DataContainerMut<Item = Item>, L: LayoutType> Matrix<Item, Data, L> {
    /// The whole buffer, mutably.
    pub fn get_pointer_mut(&mut self) -> (r: &mut [Item])
        ensures
            r@ == old(self).spec_data(),
            final(self).spec_data() == final(r)@,
            final(self).spec_layout() == old(self).spec_layout(),
    {
        self.0.get_pointer_mut()
    }

    /// The buffer elements at `first..last`, mutably.
    pub fn get_slice_mut(&mut self, first: IndexType, last: IndexType) -> (r: &mut [Item])
        requires
            first <= last <= old(self).spec_data().len(),
        ensures
            r@ == old(self).spec_data().subrange(first as int, last as int),
            final(self).spec_data() == old(self).spec_data().subrange(0, first as int)
                + final(r)@ + old(self).spec_data().subrange(
                last as int,
                old(self).spec_data().len() as int,
            ),
            final(self).spec_layout() == old(self).spec_layout(),
    {
        self.0.get_slice_mut(first, last)
    }
}

impl<Item: Copy, Data: DataContainer<Item = Item>, L: LayoutType> Layout for Matrix<
    Item,
    Data,
    L,
> {
    type Impl = L;

    closed spec fn spec_layout(&self) -> L {
        self.0.spec_layout()
    }

    fn layout(&self) -> (r: &L) {
        self.0.layout()
    }
}

impl<Item: Copy, Data: DataContainer<Item = Item>, L: LayoutType> Dimensions for Matrix<
    Item,
    Data,
    L,
> {
    fn dim(&self) -> (r: (IndexType, IndexType)) {
        self.0.layout().dim()
    }

    fn number_of_elements(&self) -> (r: IndexType) {
        self.0.layout().number_of_elements()
    }
}

impl<Item: Copy, Data: DataContainer<Item = Item>, L: LayoutType> UnsafeRandomAccess for Matrix<
    Item,
    Data,
    L,
> {
    type Item = Item;

    open spec fn access_wf(&self) -> bool {
        &&& self.spec_layout().wf()
        &&& self.spec_layout().spec_number_of_elements() <= self.spec_data().len()
        &&& self.spec_layout().spec_extent() <= self.spec_data().len()
    }

    open spec fn spec_entry(&self, row: int, col: int) -> Item {
        self.spec_data()[self.spec_layout().spec_2d_raw(row, col)]
    }

    open spec fn spec_buffer(&self) -> Seq<Item> {
        self.spec_data()
    }

    proof fn lemma_access_wf(&self) {
    }

    fn get_unchecked(&self, row: IndexType, col: IndexType) -> (r: Item) {
        proof {
            self.0.lemma_wf();
        }
        self.0.get_unchecked(row, col)
    }

    fn get1d_unchecked(&self, index: IndexType) -> (r: Item) {
        proof {
            self.0.lemma_wf();
        }
        self.0.get1d_unchecked(index)
    }
}

impl<
    Item: Copy,
    Data: DataContainerMut<Item = Item>,
    L: LayoutType,
> UnsafeRandomAccessMut for Matrix<Item, Data, L> {
    fn get_unchecked_mut(&mut self, row: IndexType, col: IndexType) -> (r: &mut Item) {
        proof {
            self.0.lemma_wf();
            self.0.lemma_entry_in_buffer(row as int, col as int);
            assert forall|i: int, j: int| self.spec_layout().valid_2d(i, j) implies 0
                <= self.spec_layout().spec_2d_raw(i, j) < self.spec_data().len() by {
                self.0.lemma_entry_in_buffer(i, j);
            }
        }
        self.0.get_unchecked_mut(row, col)
    }

    fn get1d_unchecked_mut(&mut self, index: IndexType) -> (r: &mut Item) {
        proof {
            self.0.lemma_wf();
            self.spec_layout().lemma_round_trip_1d(index as int);
            self.spec_layout().lemma_1d_raw(index as int);
            assert forall|i: int, j: int| self.spec_layout().valid_2d(i, j) implies 0
                <= self.spec_layout().spec_2d_raw(i, j) < self.spec_data().len() by {
                self.0.lemma_entry_in_buffer(i, j);
            }
        }
        self.0.get1d_unchecked_mut(index)
    }
}

impl<'a, Item: Copy, L: LayoutType> Matrix<Item, SliceContainerMut<'a, Item>, L> {
    /// A mutable reference to the element at `(row, col)` of a matrix that borrows its
    /// buffer mutably. The write goes through the same borrow, so when the borrow ends
    /// the lender's buffer holds it (see [Matrix::block_mut]).
    pub fn get_mut(&mut self, row: IndexType, col: IndexType) -> (r: &mut Item)
        requires
            old(self).access_wf(),
            old(self).spec_layout().valid_2d(row as int, col as int),
        ensures
            *r == old(self).spec_entry(row as int, col as int),
            final(self).access_wf(),
            final(self).spec_layout() == old(self).spec_layout(),
            final(self).spec_data() == old(self).spec_data().update(
                old(self).spec_layout().spec_2d_raw(row as int, col as int),
                *final(r),
            ),
            final(final(self).spec_container().data)@
                == final(old(self).spec_container().data)@,
    {
        proof {
            self.0.lemma_wf();
            self.0.lemma_entry_in_buffer(row as int, col as int);
        }
        let raw = self.0.layout().convert_2d_raw(row, col);
        self.0.borrowed_element_mut(raw)
    }

    /// A mutable reference to the element at position `index` of the logical
    /// one-dimensional order, through the borrow the matrix holds.
    pub fn get1d_mut(&mut self, index: IndexType) -> (r: &mut Item)
        requires
            old(self).access_wf(),
            index < old(self).spec_layout().spec_number_of_elements(),
        ensures
            *r == old(self).spec_entry(
                old(self).spec_layout().spec_1d_2d(index as int).0,
                old(self).spec_layout().spec_1d_2d(index as int).1,
            ),
            final(self).access_wf(),
            final(self).spec_layout() == old(self).spec_layout(),
            final(self).spec_data() == old(self).spec_data().update(
                old(self).spec_layout().spec_1d_raw(index as int),
                *final(r),
            ),
            final(final(self).spec_container().data)@
                == final(old(self).spec_container().data)@,
    {
        proof {
            self.0.lemma_wf();
            self.spec_layout().lemma_round_trip_1d(index as int);
            self.spec_layout().lemma_1d_raw(index as int);
            let (row, col) = self.spec_layout().spec_1d_2d(index as int);
            self.0.lemma_entry_in_buffer(row, col);
        }
        let raw = self.0.layout().convert_1d_raw(index);
        self.0.borrowed_element_mut(raw)
    }

    /// Once a mutably borrowing matrix is no longer written through, the elements its
    /// borrow hands back are the ones it holds.
    pub proof fn lemma_final_data(self)
        requires
            has_resolved(self),
        ensures
            final(self.spec_container().data)@ == self.spec_data(),
    {
        assert(has_resolved(self.0));
        self.0.lemma_resolved();
        let c = self.spec_container();
        assert(has_resolved(c.data));
    }
}

impl<Item: Copy, Data: DataContainer<Item = Item>> Matrix<Item, Data, RowVector> {
    /// The number of elements of a row vector.
    pub fn length(&self) -> (r: IndexType)
        requires
            self.access_wf(),
        ensures
            r == self.spec_layout().spec_number_of_elements(),
            r == self.spec_layout().spec_dim().1,
    {
        proof {
            self.spec_layout().lemma_shape();
        }
        self.0.layout().number_of_elements()
    }
}

impl<Item: Copy, Data: DataContainer<Item = Item>> Matrix<Item, Data, ColumnVector> {
    /// The number of elements of a column vector.
    pub fn length(&self) -> (r: IndexType)
        requires
            self.access_wf(),
        ensures
            r == self.spec_layout().spec_number_of_elements(),
            r == self.spec_layout().spec_dim().0,
    {
        proof {
            self.spec_layout().lemma_shape();
        }
        self.0.layout().number_of_elements()
    }
}

} // verus!
