use rlst::layouts::column_major::ColumnMajor;
use rlst::layouts::row_major::RowMajor;
use rlst::matrix::MatrixD;
use rlst::traits::layout::{LayoutType, StridedLayoutType};
use rlst::traits::random_access::{Dimensions, Layout, RandomAccess, RandomAccessMut};

#[test]
fn test_simple_slice() {
    let mut mat = MatrixD::<f64, RowMajor>::zeros_from_dim(3, 4);
    *mat.get_mut(1, 2) = 1.0;

    let slice = mat.block((0, 1), (2, 2));

    assert_eq!(slice.get(1, 1), 1.0);
    assert_eq!(slice.get1d(3), 1.0);
}

#[test]
fn test_double_slice() {
    let mut mat = MatrixD::<f64, RowMajor>::zeros_from_dim(3, 4);
    *mat.get_mut(1, 2) = 1.0;

    let slice1 = mat.block((0, 1), (3, 3));
    let slice2 = slice1.block((1, 0), (2, 2));

    assert_eq!(slice1.get(1, 1), 1.0);
    assert_eq!(slice2.get(0, 1), 1.0);
}

#[test]
fn test_disjoint_slices() {
    let mut mat = MatrixD::<f64, RowMajor>::zeros_from_dim(4, 5);
    *mat.get_mut(1, 1) = 1.0;
    *mat.get_mut(0, 2) = 2.0;

    let (slice1, slice2, _slice3, _slice4) = mat.split_in_four((2, 3));

    *mat.block_get_mut(&slice1, 0, 0) = 2.0;
    *mat.block_get_mut(&slice2, 0, 0) = 3.0;
}

#[test]
fn quadrant_writes_stay_in_their_quadrant() {
    let mut mat = MatrixD::<f64, RowMajor>::zeros_from_dim(4, 5);
    for index in 0..20 {
        *mat.get1d_mut(index) = index as f64;
    }
    let before: Vec<f64> = mat.get_pointer().to_vec();
    let (q1, q2, q3, q4) = mat.split_in_four((2, 3));
    assert_eq!(q1.layout.dim(), (2, 3));
    assert_eq!(q2.layout.dim(), (2, 2));
    assert_eq!(q3.layout.dim(), (2, 3));
    assert_eq!(q4.layout.dim(), (2, 2));
    assert_eq!((q1.offset, q2.offset, q3.offset, q4.offset), (0, 3, 10, 13));

    *mat.block_get_mut(&q1, 0, 0) = 2.0;
    *mat.block_get_mut(&q2, 0, 0) = 30.0;
    *mat.block_get_mut(&q3, 1, 2) = -1.0;
    *mat.block_get_mut(&q4, 1, 1) = -2.0;

    assert_eq!(mat.get(0, 0), 2.0);
    assert_eq!(mat.get(0, 3), 30.0);
    assert_eq!(mat.get(3, 2), -1.0);
    assert_eq!(mat.get(3, 4), -2.0);
    assert_eq!(mat.block_get(&q2, 0, 0), 30.0);
    assert_eq!(mat.block_get(&q1, 1, 2), 7.0);
    let after = mat.get_pointer();
    let changed: Vec<usize> = (0..20).filter(|&i| after[i] != before[i]).collect();
    assert_eq!(changed, vec![0, 3, 17, 19]);
}

#[test]
fn quadrants_cover_the_matrix_once() {
    let mat = MatrixD::<u8, RowMajor>::zeros_from_dim(4, 5);
    let (q1, q2, q3, q4) = mat.split_in_four((1, 4));
    let mut seen = vec![0; 20];
    for (offset, layout) in [
        (q1.offset, q1.layout),
        (q2.offset, q2.layout),
        (q3.offset, q3.layout),
        (q4.offset, q4.layout),
    ] {
        let (rows, cols) = layout.dim();
        for row in 0..rows {
            for col in 0..cols {
                seen[offset + rows_cols_raw(layout.stride(), row, col)] += 1;
            }
        }
    }
    assert!(seen.iter().all(|&count| count == 1));
}

fn rows_cols_raw(stride: (usize, usize), row: usize, col: usize) -> usize {
    row * stride.0 + col * stride.1
}

#[test]
fn block_of_column_major_matrix() {
    let mut mat = MatrixD::<i32, ColumnMajor>::zeros_from_dim(3, 4);
    for index in 0..12 {
        *mat.get1d_mut(index) = index as i32;
    }
    let block = mat.block((1, 1), (2, 3));
    assert_eq!(block.dim(), (2, 3));
    assert_eq!(block.layout().stride(), (1, 3));
    assert_eq!(block.get(0, 0), 4);
    assert_eq!(block.get(1, 2), 11);
    // Logical order of the block is column-major.
    assert_eq!(block.get1d(1), 5);
    assert_eq!(block.get_pointer().len(), 8);
    let inner = block.block((1, 1), (1, 2));
    assert_eq!(inner.get(0, 1), 11);
    let empty = mat.block((3, 0), (0, 4));
    assert_eq!(empty.dim(), (0, 4));
}

#[test]
fn mutable_blocks_write_through() {
    let mut mat = MatrixD::<i32, RowMajor>::zeros_from_dim(3, 4);
    {
        let mut block = mat.block_mut((1, 1), (2, 2));
        *block.get_mut(0, 0) = 5;
        *block.get1d_mut(3) = 6;
        let mut inner = block.block_mut((1, 0), (1, 2));
        *inner.get_mut(0, 0) = 7;
    }
    assert_eq!(mat.get(1, 1), 5);
    assert_eq!(mat.get(2, 2), 6);
    assert_eq!(mat.get(2, 1), 7);
    assert_eq!(mat.get_pointer().iter().filter(|&&x| x != 0).count(), 3);

    let mut mat = MatrixD::<i32, ColumnMajor>::zeros_from_dim(3, 3);
    {
        let mut block = mat.block_mut((0, 1), (3, 2));
        *block.get1d_mut(1) = 9;
    }
    assert_eq!(mat.get(1, 1), 9);
}

#[test]
fn eval_copies_a_block_into_its_own_buffer() {
    let mut mat = MatrixD::<i32, RowMajor>::zeros_from_dim(3, 4);
    for index in 0..12 {
        *mat.get1d_mut(index) = index as i32;
    }
    let block = mat.block((1, 1), (2, 3));
    let owned: MatrixD<i32, RowMajor> = block.eval();
    assert_eq!(owned.dim(), (2, 3));
    assert_eq!(owned.get_pointer(), &[5, 6, 7, 9, 10, 11]);
    let owned: MatrixD<i32, ColumnMajor> = block.eval();
    assert_eq!(owned.get_pointer(), &[5, 9, 6, 10, 7, 11]);
    assert_eq!(owned.get(1, 2), 11);
}

#[test]
fn mutable_block_hands_writes_back() {
    let mut mat = MatrixD::<u64, RowMajor>::zeros_from_dim(3, 4);
    for index in 0..12 {
        *mat.get1d_mut(index) = 100 + index as u64;
    }
    let before = mat.get_pointer().to_vec();
    {
        let mut view = mat.block_mut((1, 1), (2, 2));
        *view.get_mut(1, 0) = 7;
    }
    assert_eq!(mat.get(2, 1), 7);
    let changed: Vec<usize> =
        (0..12).filter(|&i| mat.get_pointer()[i] != before[i]).collect();
    assert_eq!(changed, vec![9]);
}
