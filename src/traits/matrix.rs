//! Combined matrix traits.
use crate::traits::random_access::{Dimensions, RandomAccess, RandomAccessMut};
use vstd::prelude::*;

verus! {

/// Matrices that can be read: bounds-checked access and a shape.
pub trait MatrixTrait: RandomAccess + Dimensions {
}

/// Matrices that can also be written.
pub trait MatrixTraitMut: MatrixTrait + RandomAccessMut {
}

impl<Mat: RandomAccess + Dimensions> MatrixTrait for Mat {
}

impl<Mat: MatrixTrait + RandomAccessMut> MatrixTraitMut for Mat {
}

} // verus!
