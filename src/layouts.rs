//! Concrete memory layouts.
//!
//! Each layout implements [LayoutType](crate::traits::layout::LayoutType): it fixes the
//! logical order in which one-dimensional indices run through the matrix and the
//! position of every element in the underlying buffer.
pub mod offsets;
pub mod row_major;
pub mod upper_triangular;
pub mod column_major;
pub mod arbitrary_stride_row_major;
pub mod arbitrary_stride_column_major;
pub mod row_vector;
pub mod column_vector;
pub mod arbitrary_stride_row_vector;
pub mod arbitrary_stride_column_vector;
