//! Definition of a base matrix.
//!
//! A base matrix couples a [DataContainer] with a layout. It is the one place where
//! the layout's raw offsets are applied to the buffer. Users work with
//! [Matrix](crate::matrix::Matrix), which wraps a base matrix.
use crate::data_container::{DataContainer, DataContainerMut, SliceContainerMut};
use crate::traits::layout::LayoutType;
use crate::types::IndexType;
use std::marker::PhantomData;
use vstd::prelude::*;

verus! {

/// A buffer read through a layout.
pub struct BaseMatrix<Item, Data, L> {
    data: Data,
    layout: L,
    phantom_item: PhantomData<Item>,
}

impl<Item: Copy, Data: DataContainer<Item = Item>, L: LayoutType> BaseMatrix<Item, Data, L> {
    /// The matrix is consistent: the layout is well formed and the buffer holds every
    /// element that the layout addresses.
    pub closed spec fn wf(&self) -> bool {
        &&& self.layout.wf()
        &&& self.layout.spec_number_of_elements() <= self.data.spec_data().len()
        &&& self.layout.spec_extent() <= self.data.spec_data().len()
    }

    /// The layout.
    pub closed spec fn spec_layout(&self) -> L {
        self.layout
    }

    /// The container of the buffer.
    pub closed spec fn spec_container(&self) -> Data {
        self.data
    }

    /// The elements of the buffer.
    pub closed spec fn spec_data(&self) -> Seq<Item> {
        self.data.spec_data()
    }

    /// The element at `(row, col)`.
    pub open spec fn spec_entry(&self, row: int, col: int) -> Item {
        self.spec_data()[self.spec_layout().spec_2d_raw(row, col)]
    }

    /// A matrix reading `data` through `layout`. The buffer must hold at least
    /// `layout.number_of_elements()` elements and every element that the layout
    /// addresses; for the base layouts the two bounds agree.
    pub fn new(data: Data, layout: L) -> (r: Self)
        requires
            layout.wf(),
            layout.spec_number_of_elements() <= data.spec_data().len(),
            layout.spec_extent() <= data.spec_data().len(),
        ensures
            r.wf(),
            r.spec_layout() == layout,
            r.spec_container() == data,
            r.spec_data() == data.spec_data(),
    {
        BaseMatrix { data, layout, phantom_item: PhantomData }
    }

    /// When the matrix is resolved, so is its container.
    pub proof fn lemma_resolved(self)
        requires
            has_resolved(self),
        ensures
            has_resolved(self.spec_container()),
            self.spec_data() == self.spec_container().spec_data(),
    {
        assert(has_resolved(self.data));
    }

    /// Unfolds the consistency of the matrix.
    pub proof fn lemma_wf(&self)
        ensures
            self.wf() <==> (self.spec_layout().wf() && self.spec_layout().spec_number_of_elements()
                <= self.spec_data().len() && self.spec_layout().spec_extent()
                <= self.spec_data().len()),
    {
    }

    /// Shows that every addressed element lies in the buffer.
    pub proof fn lemma_entry_in_buffer(&self, row: int, col: int)
        requires
            self.wf(),
            self.spec_layout().valid_2d(row, col),
        ensures
            0 <= self.spec_layout().spec_2d_raw(row, col) < self.spec_data().len(),
    {
        self.layout.lemma_extent(row, col);
    }

    /// The layout.
    pub fn layout(&self) -> (r: &L)
        ensures
            *r == self.spec_layout(),
    {
        &self.layout
    }

    /// The whole buffer.
    pub fn get_pointer(&self) -> (r: &[Item])
        ensures
            r@ == self.spec_data(),
    {
        self.data.get_pointer()
    }

    /// The buffer elements at `first..last`.
    pub fn get_slice(&self, first: IndexType, last: IndexType) -> (r: &[Item])
        requires
            first <= last <= self.spec_data().len(),
        ensures
            r@ == self.spec_data().subrange(first as int, last as int),
    {
        self.data.get_slice(first, last)
    }

    /// The element at `(row, col)`; the caller shows that it is addressed.
    pub fn get_unchecked(&self, row: IndexType, col: IndexType) -> (r: Item)
        requires
            self.wf(),
            self.spec_layout().valid_2d(row as int, col as int),
        ensures
            r == self.spec_entry(row as int, col as int),
    {
        proof {
            self.lemma_entry_in_buffer(row as int, col as int);
        }
        let raw = self.layout.convert_2d_raw(row, col);
        self.data.get_unchecked(raw)
    }

    /// The element at logical one-dimensional position `index`; the caller shows that
    /// it is in range.
    pub fn get1d_unchecked(&self, index: IndexType) -> (r: Item)
        requires
            self.wf(),
            index < self.spec_layout().spec_number_of_elements(),
        ensures
            r == self.spec_entry(
                self.spec_layout().spec_1d_2d(index as int).0,
                self.spec_layout().spec_1d_2d(index as int).1,
            ),
    {
        proof {
            let (row, col) = self.layout.spec_1d_2d(index as int);
            self.layout.lemma_round_trip_1d(index as int);
            self.layout.lemma_1d_raw(index as int);
            self.lemma_entry_in_buffer(row, col);
        }
        let raw = self.layout.convert_1d_raw(index);
        self.data.get_unchecked(raw)
    }
}

impl<Item: Copy, Data: DataContainerMut<Item = Item>, L: LayoutType> BaseMatrix<Item, Data, L> {
    /// The whole buffer, mutably.
    pub fn get_pointer_mut(&mut self) -> (r: &mut [Item])
        ensures
            r@ == old(self).spec_data(),
            final(self).spec_data() == final(r)@,
            final(self).spec_layout() == old(self).spec_layout(),
    {
        self.data.get_pointer_mut()
    }

    /// The buffer elements at `first..last`, mutably.
    pub fn get_slice_mut(&mut self, first: IndexType, last: IndexType) -> (r: &mut [Item])
        requires
            first <= last <= old(self).spec_data().len(),
        ensures
            r@ == old(self).spec_data().subrange(first as int, last as int),
            final(self).spec_data() == old(self).spec_data().subrange(0, first as int)
                + final(r)@ + old(self).spec_data().subrange(
                last as int,
                old(self).spec_data().len() as int,
            ),
            final(self).spec_layout() == old(self).spec_layout(),
    {
        self.data.get_slice_mut(first, last)
    }

    /// A mutable reference to the element at `(row, col)`; the caller shows that it is
    /// addressed. Writing through it changes the buffer at that element's raw offset
    /// and nowhere else.
    pub fn get_unchecked_mut(&mut self, row: IndexType, col: IndexType) -> (r: &mut Item)
        requires
            old(self).wf(),
            old(self).spec_layout().valid_2d(row as int, col as int),
        ensures
            *r == old(self).spec_entry(row as int, col as int),
            final(self).spec_layout() == old(self).spec_layout(),
            final(self).spec_data() == old(self).spec_data().update(
                old(self).spec_layout().spec_2d_raw(row as int, col as int),
                *final(r),
            ),
    {
        proof {
            self.lemma_entry_in_buffer(row as int, col as int);
        }
        let raw = self.layout.convert_2d_raw(row, col);
        self.data.get_unchecked_mut(raw)
    }

    /// A mutable reference to the element at logical one-dimensional position
    /// `index`; the caller shows that it is in range.
    pub fn get1d_unchecked_mut(&mut self, index: IndexType) -> (r: &mut Item)
        requires
            old(self).wf(),
            index < old(self).spec_layout().spec_number_of_elements(),
        ensures
            *r == old(self).spec_entry(
                old(self).spec_layout().spec_1d_2d(index as int).0,
                old(self).spec_layout().spec_1d_2d(index as int).1,
            ),
            final(self).spec_layout() == old(self).spec_layout(),
            final(self).spec_data() == old(self).spec_data().update(
                old(self).spec_layout().spec_2d_raw(
                    old(self).spec_layout().spec_1d_2d(index as int).0,
                    old(self).spec_layout().spec_1d_2d(index as int).1,
                ),
                *final(r),
            ),
    {
        proof {
            let (row, col) = self.layout.spec_1d_2d(index as int);
            self.layout.lemma_round_trip_1d(index as int);
            self.layout.lemma_1d_raw(index as int);
            self.lemma_entry_in_buffer(row, col);
        }
        let raw = self.layout.convert_1d_raw(index);
        self.data.get_unchecked_mut(raw)
    }
}

impl<'a, Item: Copy, L: LayoutType> BaseMatrix<Item, SliceContainerMut<'a, Item>, L> {
    /// A mutable reference to the buffer element at `raw`, taken through the borrow that
    /// the matrix holds, so that a write reaches the borrowed buffer.
    pub fn borrowed_element_mut(&mut self, raw: IndexType) -> (r: &mut Item)
        requires
            raw < old(self).spec_data().len(),
        ensures
            *r == old(self).spec_data()[raw as int],
            final(self).spec_layout() == old(self).spec_layout(),
            final(self).spec_data() == old(self).spec_data().update(raw as int, *final(r)),
            final(final(self).spec_container().data)@
                == final(old(self).spec_container().data)@,
    {
        self.data.element_mut(raw)
    }
}

} // verus!
