//! A matrix that holds a reference to another matrix.
//!
//! [MatrixRef] turns a borrowed matrix into a value that owns nothing and forwards
//! every access to the matrix it borrows, so that code taking matrices by value can be
//! handed a borrowed one. [MatrixRefMut] does the same for a mutably borrowed
//! matrix, and writes through it reach the borrowed matrix.
use crate::traits::layout::LayoutType;
use crate::traits::random_access::{
    Dimensions, Layout, UnsafeRandomAccess, UnsafeRandomAccessMut,
};
use crate::types::IndexType;
use vstd::prelude::*;

verus! {

/// A borrowed matrix that forwards every access to the matrix it borrows.
pub struct MatrixRef<'a, Mat>(&'a Mat);

impl<'a, Mat: UnsafeRandomAccess> MatrixRef<'a, Mat> {
    /// The borrowed matrix `mat`.
    pub fn new(mat: &'a Mat) -> (r: Self)
        ensures
            r.spec_inner() == *mat,
    {
        MatrixRef(mat)
    }

    /// The borrowed matrix.
    pub closed spec fn spec_inner(&self) -> Mat {
        *self.0
    }
}

impl<'a, Mat: UnsafeRandomAccess> Layout for MatrixRef<'a, Mat> {
    type Impl = Mat::Impl;

    open spec fn spec_layout(&self) -> Mat::Impl {
        self.spec_inner().spec_layout()
    }

    fn layout(&self) -> (r: &Mat::Impl) {
        self.0.layout()
    }
}

impl<'a, Mat: UnsafeRandomAccess + Dimensions> Dimensions for MatrixRef<'a, Mat> {
    fn dim(&self) -> (r: (IndexType, IndexType)) {
        self.0.dim()
    }

    fn number_of_elements(&self) -> (r: IndexType) {
        self.0.number_of_elements()
    }
}

impl<'a, Mat: UnsafeRandomAccess> UnsafeRandomAccess for MatrixRef<'a, Mat> {
    type Item = Mat::Item;

    open spec fn access_wf(&self) -> bool {
        self.spec_inner().access_wf()
    }

    open spec fn spec_entry(&self, row: int, col: int) -> Mat::Item {
        self.spec_inner().spec_entry(row, col)
    }

    open spec fn spec_buffer(&self) -> Seq<Mat::Item> {
        self.spec_inner().spec_buffer()
    }

    proof fn lemma_access_wf(&self) {
        self.spec_inner().lemma_access_wf();
    }

    fn get_unchecked(&self, row: IndexType, col: IndexType) -> (r: Mat::Item) {
        self.0.get_unchecked(row, col)
    }

    fn get1d_unchecked(&self, index: IndexType) -> (r: Mat::Item) {
        self.0.get1d_unchecked(index)
    }
}

/// A mutably borrowed matrix that forwards every access to the matrix it borrows.
pub struct MatrixRefMut<'a, Mat>(pub &'a mut Mat);

impl<'a, Mat: UnsafeRandomAccess> MatrixRefMut<'a, Mat> {
    /// The mutably borrowed matrix `mat`.
    pub fn new(mat: &'a mut Mat) -> (r: Self)
        ensures
            r.spec_inner() == *old(mat),
            *final(mat) == *final(r.0),
    {
        MatrixRefMut(mat)
    }

    /// The borrowed matrix, as it currently is.
    pub closed spec fn spec_inner(&self) -> Mat {
        *self.0
    }
}

impl<'a, Mat: UnsafeRandomAccess> Layout for MatrixRefMut<'a, Mat> {
    type Impl = Mat::Impl;

    open spec fn spec_layout(&self) -> Mat::Impl {
        self.spec_inner().spec_layout()
    }

    fn layout(&self) -> (r: &Mat::Impl) {
        self.0.layout()
    }
}

impl<'a, Mat: UnsafeRandomAccess + Dimensions> Dimensions for MatrixRefMut<'a, Mat> {
    fn dim(&self) -> (r: (IndexType, IndexType)) {
        self.0.dim()
    }

    fn number_of_elements(&self) -> (r: IndexType) {
        self.0.number_of_elements()
    }
}

impl<'a, Mat: UnsafeRandomAccess> UnsafeRandomAccess for MatrixRefMut<'a, Mat> {
    type Item = Mat::Item;

    open spec fn access_wf(&self) -> bool {
        self.spec_inner().access_wf()
    }

    open spec fn spec_entry(&self, row: int, col: int) -> Mat::Item {
        self.spec_inner().spec_entry(row, col)
    }

    open spec fn spec_buffer(&self) -> Seq<Mat::Item> {
        self.spec_inner().spec_buffer()
    }

    proof fn lemma_access_wf(&self) {
        self.spec_inner().lemma_access_wf();
    }

    fn get_unchecked(&self, row: IndexType, col: IndexType) -> (r: Mat::Item) {
        self.0.get_unchecked(row, col)
    }

    fn get1d_unchecked(&self, index: IndexType) -> (r: Mat::Item) {
        self.0.get1d_unchecked(index)
    }
}

impl<'a, Mat: UnsafeRandomAccessMut> UnsafeRandomAccessMut for MatrixRefMut<'a, Mat> {
    fn get_unchecked_mut(&mut self, row: IndexType, col: IndexType) -> (r: &mut Mat::Item) {
        self.0.get_unchecked_mut(row, col)
    }

    fn get1d_unchecked_mut(&mut self, index: IndexType) -> (r: &mut Mat::Item) {
        self.0.get1d_unchecked_mut(index)
    }
}

} // verus!
