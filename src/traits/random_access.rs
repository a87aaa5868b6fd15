//! Traits for random access of matrices.
//!
//! Implementors provide [UnsafeRandomAccess] and, for mutable matrices,
//! [UnsafeRandomAccessMut]; the bounds-checked traits [RandomAccess] and
//! [RandomAccessMut] follow for every such type. The unchecked methods leave the
//! bounds to the caller, who shows them in the proof; the checked methods state
//! them as their precondition, so a verified caller can never pass an index that
//! is out of range.
//!
//! Each trait offers two-dimensional access by `(row, col)` and one-dimensional
//! access by the layout's logical order, `get1d(index)` being the element at the
//! coordinates `layout.convert_1d_2d(index)`.
use crate::traits::layout::LayoutType;
use crate::types::IndexType;
use vstd::prelude::*;

verus! {

/// Types with a layout.
pub trait Layout {
    /// The layout type.
    type Impl: LayoutType;

    /// The layout.
    spec fn spec_layout(&self) -> Self::Impl;

    /// Return the layout.
    fn layout(&self) -> (r: &Self::Impl)
        ensures
            *r == self.spec_layout(),
    ;
}

/// The shape of a matrix.
pub trait Dimensions: Layout {
    /// Return `(rows, cols)`.
    fn dim(&self) -> (r: (IndexType, IndexType))
        requires
            self.spec_layout().wf(),
        ensures
            r == self.spec_layout().spec_dim(),
    ;

    /// Return the number of logically addressable elements.
    fn number_of_elements(&self) -> (r: IndexType)
        requires
            self.spec_layout().wf(),
        ensures
            r == self.spec_layout().spec_number_of_elements(),
    ;
}

/// Access to the elements of a matrix without checks at run time.
pub trait UnsafeRandomAccess: Layout {
    /// The element type.
    type Item;

    /// The matrix is consistent: its layout is well formed and its buffer holds every
    /// element that the layout addresses.
    spec fn access_wf(&self) -> bool;

    /// The element at `(row, col)`.
    spec fn spec_entry(&self, row: int, col: int) -> Self::Item;

    /// The buffer that the layout's raw offsets index.
    spec fn spec_buffer(&self) -> Seq<Self::Item>;

    /// A consistent matrix has a well-formed layout.
    proof fn lemma_access_wf(&self)
        requires
            self.access_wf(),
        ensures
            self.spec_layout().wf(),
    ;

    /// Return the element at `(row, col)`.
    fn get_unchecked(&self, row: IndexType, col: IndexType) -> (r: Self::Item)
        requires
            self.access_wf(),
            self.spec_layout().valid_2d(row as int, col as int),
        ensures
            r == self.spec_entry(row as int, col as int),
    ;

    /// Return the element at position `index` of the logical one-dimensional order.
    fn get1d_unchecked(&self, index: IndexType) -> (r: Self::Item)
        requires
            self.access_wf(),
            index < self.spec_layout().spec_number_of_elements(),
        ensures
            r == self.spec_entry(
                self.spec_layout().spec_1d_2d(index as int).0,
                self.spec_layout().spec_1d_2d(index as int).1,
            ),
    ;
}

/// Mutable access to the elements of a matrix without checks at run time.
///
/// Writing through the returned reference changes every addressed element that
/// shares the raw offset of the one asked for (for a layout whose offsets are
/// distinct, that element alone) and leaves all others as they were.
pub trait UnsafeRandomAccessMut: UnsafeRandomAccess {
    /// Return a mutable reference to the element at `(row, col)`.
    fn get_unchecked_mut(&mut self, row: IndexType, col: IndexType) -> (r: &mut Self::Item)
        requires
            old(self).access_wf(),
            old(self).spec_layout().valid_2d(row as int, col as int),
        ensures
            *r == old(self).spec_entry(row as int, col as int),
            final(self).access_wf(),
            final(self).spec_layout() == old(self).spec_layout(),
            final(self).spec_buffer() == old(self).spec_buffer().update(
                old(self).spec_layout().spec_2d_raw(row as int, col as int),
                *final(r),
            ),
            forall|i: int, j: int|
                old(self).spec_layout().valid_2d(i, j) ==> #[trigger] final(self).spec_entry(i, j)
                    == if old(self).spec_layout().spec_2d_raw(i, j) == old(
                    self,
                ).spec_layout().spec_2d_raw(row as int, col as int) {
                    *final(r)
                } else {
                    old(self).spec_entry(i, j)
                },
    ;

    /// Return a mutable reference to the element at position `index` of the logical
    /// one-dimensional order.
    fn get1d_unchecked_mut(&mut self, index: IndexType) -> (r: &mut Self::Item)
        requires
            old(self).access_wf(),
            index < old(self).spec_layout().spec_number_of_elements(),
        ensures
            *r == old(self).spec_entry(
                old(self).spec_layout().spec_1d_2d(index as int).0,
                old(self).spec_layout().spec_1d_2d(index as int).1,
            ),
            final(self).access_wf(),
            final(self).spec_layout() == old(self).spec_layout(),
            final(self).spec_buffer() == old(self).spec_buffer().update(
                old(self).spec_layout().spec_1d_raw(index as int),
                *final(r),
            ),
            forall|i: int, j: int|
                old(self).spec_layout().valid_2d(i, j) ==> #[trigger] final(self).spec_entry(i, j)
                    == if old(self).spec_layout().spec_2d_raw(i, j) == old(
                    self,
                ).spec_layout().spec_1d_raw(index as int) {
                    *final(r)
                } else {
                    old(self).spec_entry(i, j)
                },
    ;
}

/// Bounds-checked access to the elements of a matrix: the bounds are the
/// precondition.
pub trait RandomAccess: UnsafeRandomAccess {
    /// Return the element at `(row, col)`.
    fn get(&self, row: IndexType, col: IndexType) -> (r: Self::Item)
        requires
            self.access_wf(),
            self.spec_layout().valid_2d(row as int, col as int),
        ensures
            r == self.spec_entry(row as int, col as int),
    ;

    /// Return the element at position `index` of the logical one-dimensional order.
    fn get1d(&self, index: IndexType) -> (r: Self::Item)
        requires
            self.access_wf(),
            index < self.spec_layout().spec_number_of_elements(),
        ensures
            r == self.spec_entry(
                self.spec_layout().spec_1d_2d(index as int).0,
                self.spec_layout().spec_1d_2d(index as int).1,
            ),
    ;
}

/// Bounds-checked mutable access to the elements of a matrix.
pub trait RandomAccessMut: UnsafeRandomAccessMut {
    /// Return a mutable reference to the element at `(row, col)`.
    fn get_mut(&mut self, row: IndexType, col: IndexType) -> (r: &mut Self::Item)
        requires
            old(self).access_wf(),
            old(self).spec_layout().valid_2d(row as int, col as int),
        ensures
            *r == old(self).spec_entry(row as int, col as int),
            final(self).access_wf(),
            final(self).spec_layout() == old(self).spec_layout(),
            final(self).spec_buffer() == old(self).spec_buffer().update(
                old(self).spec_layout().spec_2d_raw(row as int, col as int),
                *final(r),
            ),
            forall|i: int, j: int|
                old(self).spec_layout().valid_2d(i, j) ==> #[trigger] final(self).spec_entry(i, j)
                    == if old(self).spec_layout().spec_2d_raw(i, j) == old(
                    self,
                ).spec_layout().spec_2d_raw(row as int, col as int) {
                    *final(r)
                } else {
                    old(self).spec_entry(i, j)
                },
    ;

    /// Return a mutable reference to the element at position `index` of the logical
    /// one-dimensional order.
    fn get1d_mut(&mut self, index: IndexType) -> (r: &mut Self::Item)
        requires
            old(self).access_wf(),
            index < old(self).spec_layout().spec_number_of_elements(),
        ensures
            *r == old(self).spec_entry(
                old(self).spec_layout().spec_1d_2d(index as int).0,
                old(self).spec_layout().spec_1d_2d(index as int).1,
            ),
            final(self).access_wf(),
            final(self).spec_layout() == old(self).spec_layout(),
            final(self).spec_buffer() == old(self).spec_buffer().update(
                old(self).spec_layout().spec_1d_raw(index as int),
                *final(r),
            ),
            forall|i: int, j: int|
                old(self).spec_layout().valid_2d(i, j) ==> #[trigger] final(self).spec_entry(i, j)
                    == if old(self).spec_layout().spec_2d_raw(i, j) == old(
                    self,
                ).spec_layout().spec_1d_raw(index as int) {
                    *final(r)
                } else {
                    old(self).spec_entry(i, j)
                },
    ;
}

impl<Mat: UnsafeRandomAccess> RandomAccess for Mat {
    fn get(&self, row: IndexType, col: IndexType) -> (r: Self::Item) {
        self.get_unchecked(row, col)
    }

    fn get1d(&self, index: IndexType) -> (r: Self::Item) {
        self.get1d_unchecked(index)
    }
}

impl<Mat: UnsafeRandomAccessMut> RandomAccessMut for Mat {
    fn get_mut(&mut self, row: IndexType, col: IndexType) -> (r: &mut Self::Item) {
        self.get_unchecked_mut(row, col)
    }

    fn get1d_mut(&mut self, index: IndexType) -> (r: &mut Self::Item) {
        self.get1d_unchecked_mut(index)
    }
}

} // verus!
