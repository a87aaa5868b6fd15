use rlst::data_container::{DataContainer, DataContainerMut, SliceContainer, SliceContainerMut, VectorContainer};
use rlst::layouts::column_major::ColumnMajor;
use rlst::layouts::row_major::RowMajor;
use rlst::layouts::upper_triangular::UpperTriangular;
use rlst::matrix::{ColumnVectorD, Matrix, MatrixD, RowVectorD};
use rlst::matrix_ref::{MatrixRef, MatrixRefMut};
use rlst::base_matrix::BaseMatrix;
use rlst::traits::layout::MemoryLayout;
use rlst::traits::random_access::{Dimensions, RandomAccess, RandomAccessMut, UnsafeRandomAccess, UnsafeRandomAccessMut};

#[test]
fn create_c_layout_matrix() {
    let dim = (2, 3);
    let mat = MatrixD::<f64, RowMajor>::zeros_from_dim(dim.0, dim.1);

    assert_eq!(mat.dim(), (2, 3));
    assert_eq!(mat.layout_type(), MemoryLayout::C);
}

#[test]
fn create_f_layout_matrix() {
    let dim = (2, 3);
    let mat = MatrixD::<f64, ColumnMajor>::zeros_from_dim(dim.0, dim.1);

    assert_eq!(mat.dim(), (2, 3));
    assert_eq!(mat.layout_type(), MemoryLayout::F);
}

#[test]
fn create_column_vector() {
    let len = 5;
    let vec = ColumnVectorD::<f64>::zeros_from_length(len);

    assert_eq!(vec.length(), 5);
}

#[test]
fn create_row_vector() {
    let len = 5;
    let vec = RowVectorD::<f64>::zeros_from_length(len);

    assert_eq!(vec.length(), 5);
}

#[test]
fn zeros_are_zero() {
    let mat = MatrixD::<f64, ColumnMajor>::zeros_from_dim(3, 2);
    assert_eq!(mat.number_of_elements(), 6);
    assert_eq!(mat.get_pointer().len(), 6);
    for index in 0..6 {
        assert_eq!(mat.get1d(index), 0.0);
    }
    let vec = RowVectorD::<i32>::zeros_from_length(3);
    assert_eq!(vec.dim(), (1, 3));
    assert_eq!(vec.get(0, 2), 0);
}

#[test]
fn writes_follow_the_layout() {
    let mut mat = MatrixD::<f64, RowMajor>::zeros_from_dim(2, 3);
    *mat.get_mut(1, 0) = 4.0;
    *mat.get1d_mut(5) = 7.0;
    assert_eq!(mat.get_pointer(), &[0.0, 0.0, 0.0, 4.0, 0.0, 7.0]);
    assert_eq!(mat.get(1, 2), 7.0);

    let mut mat = MatrixD::<f64, ColumnMajor>::zeros_from_dim(2, 3);
    *mat.get_mut(1, 0) = 4.0;
    *mat.get_mut(0, 2) = 5.0;
    assert_eq!(mat.get_pointer(), &[0.0, 4.0, 0.0, 0.0, 5.0, 0.0]);
    assert_eq!(mat.get1d(4), 5.0);
    assert_eq!(mat.get_slice(1, 3), &[4.0, 0.0]);
    unsafe_free_access(&mut mat);
}

fn unsafe_free_access(mat: &mut MatrixD<f64, ColumnMajor>) {
    *mat.get_unchecked_mut(1, 1) = 9.0;
    assert_eq!(mat.get_unchecked(1, 1), 9.0);
    *mat.get1d_unchecked_mut(0) = 1.0;
    assert_eq!(mat.get1d_unchecked(0), 1.0);
}

#[test]
fn matrix_over_existing_buffer() {
    let data = VectorContainer::from_vec(vec![1, 2, 3, 4, 5, 6]);
    let mat = Matrix::from_data(data, RowMajor::new((2, 3)));
    assert_eq!(mat.get(1, 0), 4);
    assert_eq!(mat.get1d(2), 3);

    let buffer = [1, 2, 3, 4, 5, 6, 7];
    let mat = Matrix::new(BaseMatrix::new(SliceContainer::new(&buffer), ColumnMajor::new((3, 2))));
    assert_eq!(mat.get(2, 1), 6);
    assert_eq!(mat.get_pointer().len(), 7);

    let mut buffer = [0u8; 6];
    {
        let mut mat = Matrix::from_data(SliceContainerMut::new(&mut buffer), RowMajor::new((3, 2)));
        *mat.get_mut(2, 1) = 8;
        mat.get_slice_mut(0, 2)[1] = 3;
        mat.get_pointer_mut()[2] = 5;
    }
    assert_eq!(buffer, [0, 3, 5, 0, 0, 8]);
}

#[test]
fn upper_triangular_matrix() {
    let mut mat = MatrixD::<i64, UpperTriangular>::zeros_from_dim(3, 3);
    assert_eq!(mat.get_pointer().len(), 6);
    *mat.get_mut(0, 2) = 11;
    *mat.get_mut(2, 2) = 22;
    assert_eq!(mat.get_pointer(), &[22, 0, 0, 0, 0, 11]);
    assert_eq!(mat.get1d(5), 11);
}

#[test]
fn containers() {
    let mut container = VectorContainer::<f32>::new(4);
    assert_eq!(container.number_of_elements(), 4);
    *container.get_unchecked_mut(2) = 1.5;
    assert_eq!(container.get_unchecked(2), 1.5);
    assert_eq!(container.get_slice(1, 3), &[0.0, 1.5]);
    container.get_slice_mut(3, 4)[0] = 2.5;
    assert_eq!(container.get_pointer(), &[0.0, 0.0, 1.5, 2.5]);
    container.get_pointer_mut()[0] = 0.5;
    assert_eq!(container.get_unchecked(0), 0.5);
}

#[test]
fn borrowed_matrices() {
    let mut mat = MatrixD::<i32, RowMajor>::zeros_from_dim(2, 2);
    *mat.get_mut(1, 0) = 3;
    let view = Matrix::from_ref(&mat);
    assert_eq!(view.get(1, 0), 3);
    assert_eq!(view.dim(), (2, 2));
    let forwarded = MatrixRef::new(&mat);
    assert_eq!(forwarded.get(1, 0), 3);
    assert_eq!(forwarded.get1d(2), 3);
    assert_eq!(forwarded.number_of_elements(), 4);
}

#[test]
fn mutably_borrowed_matrices() {
    let mut mat = MatrixD::<i32, ColumnMajor>::zeros_from_dim(2, 3);
    {
        let mut forwarded = MatrixRefMut::new(&mut mat);
        *forwarded.get_mut(1, 2) = 4;
        *forwarded.get1d_mut(1) = 5;
        assert_eq!(forwarded.get(1, 0), 5);
        assert_eq!(forwarded.dim(), (2, 3));
    }
    assert_eq!(mat.get_pointer(), &[0, 5, 0, 0, 0, 4]);
}

#[test]
fn empty_matrices() {
    let mat = MatrixD::<f64, RowMajor>::zeros_from_dim(0, 3);
    assert_eq!(mat.dim(), (0, 3));
    assert_eq!(mat.number_of_elements(), 0);
    assert!(mat.get_pointer().is_empty());
    let vec = ColumnVectorD::<f64>::zeros_from_length(0);
    assert_eq!(vec.length(), 0);
    let tri = MatrixD::<f64, UpperTriangular>::zeros_from_dim(0, 0);
    assert_eq!(tri.number_of_elements(), 0);
}
