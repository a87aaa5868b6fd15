use cauchy::c64;
use rlst::layouts::column_major::ColumnMajor;
use rlst::layouts::row_major::RowMajor;
use rlst::matrix::MatrixD;
use rlst::matrix_multiply::{gemm_parameters, GemmParameters};
use rlst::traits::layout::{BaseLayoutType, StridedLayoutType};
use rlst::traits::random_access::{Dimensions, RandomAccess, RandomAccessMut};
use std::ops::{Add, Mul};

fn filled<L: BaseLayoutType>(rows: usize, cols: usize, first: f64) -> MatrixD<f64, L> {
    let mut mat = MatrixD::<f64, L>::zeros_from_dim(rows, cols);
    for row in 0..rows {
        for col in 0..cols {
            *mat.get_mut(row, col) = first + (row * cols + col) as f64;
        }
    }
    mat
}

/// Reads the operands as a strided kernel does: `A[i, l]` at `i * rsa + l * csa`,
/// `B[l, j]` at `l * rsb + j * csb`, and writes `C[i, j]` at `i * rsc + j * csc`.
fn strided_kernel<T: Copy + Add<Output = T> + Mul<Output = T>>(
    p: &GemmParameters,
    zero: T,
    a: &[T],
    b: &[T],
    c: &mut [T],
) {
    for i in 0..p.m {
        for j in 0..p.n {
            let mut sum = zero;
            for l in 0..p.k {
                let x = a[(i as isize * p.rsa + l as isize * p.csa) as usize];
                let y = b[(l as isize * p.rsb + j as isize * p.csb) as usize];
                sum = sum + x * y;
            }
            c[(i as isize * p.rsc + j as isize * p.csc) as usize] = sum;
        }
    }
}

fn product<LA: StridedLayoutType, LB: StridedLayoutType>(
    a: &MatrixD<f64, LA>,
    b: &MatrixD<f64, LB>,
) -> MatrixD<f64, RowMajor> {
    let mut c = MatrixD::<f64, RowMajor>::zeros_from_dim(a.dim().0, b.dim().1);
    let p = gemm_parameters(a, b, &c);
    strided_kernel(&p, 0.0, a.get_pointer(), b.get_pointer(), c.get_pointer_mut());
    c
}

fn triple_loop<MA: RandomAccess<Item = f64>, MB: RandomAccess<Item = f64>>(
    a: &MA,
    b: &MB,
    m: usize,
    k: usize,
    n: usize,
) -> Vec<f64> {
    let mut out = vec![0.0; m * n];
    for i in 0..m {
        for j in 0..n {
            for l in 0..k {
                out[i * n + j] += a.get(i, l) * b.get(l, j);
            }
        }
    }
    out
}

#[test]
fn multiply_row_major() {
    let a = filled::<RowMajor>(2, 3, 0.0);
    let b = filled::<RowMajor>(3, 4, 6.0);
    let c = product(&a, &b);
    assert_eq!(c.get(0, 0), 38.0);
    assert_eq!(c.get(1, 3), 164.0);
    assert_eq!(c.get_pointer().to_vec(), triple_loop(&a, &b, 2, 3, 4));
}

#[test]
fn multiply_column_major_and_mixed() {
    let a = filled::<ColumnMajor>(2, 3, 0.0);
    let b = filled::<ColumnMajor>(3, 4, 6.0);
    let c = product(&a, &b);
    assert_eq!(c.get(0, 0), 38.0);
    assert_eq!(c.get(1, 3), 164.0);
    let expected = triple_loop(&a, &b, 2, 3, 4);
    assert_eq!(c.get_pointer().to_vec(), expected);

    let a_row = filled::<RowMajor>(2, 3, 0.0);
    let c = product(&a_row, &b);
    assert_eq!(c.get_pointer().to_vec(), expected);
}

#[test]
fn gemm_parameters_of_mixed_layouts() {
    let a = filled::<RowMajor>(2, 3, 0.0);
    let b = filled::<ColumnMajor>(3, 4, 6.0);
    let c = MatrixD::<f64, ColumnMajor>::zeros_from_dim(2, 4);
    let p = gemm_parameters(&a, &b, &c);
    assert_eq!(
        p,
        GemmParameters { m: 2, k: 3, n: 4, rsa: 3, csa: 1, rsb: 1, csb: 3, rsc: 1, csc: 2 }
    );
}

#[test]
fn multiply_blocks_without_copy() {
    let big = filled::<RowMajor>(4, 5, 0.0);
    let b = filled::<ColumnMajor>(2, 2, 1.0);
    let block = big.block((1, 2), (3, 2));
    let mut c = MatrixD::<f64, RowMajor>::zeros_from_dim(3, 2);
    let p = gemm_parameters(&block, &b, &c);
    assert_eq!((p.m, p.k, p.n), (3, 2, 2));
    assert_eq!((p.rsa, p.csa), (5, 1));
    assert_eq!((p.rsb, p.csb), (1, 2));
    assert_eq!((p.rsc, p.csc), (2, 1));
    strided_kernel(&p, 0.0, block.get_pointer(), b.get_pointer(), c.get_pointer_mut());
    assert_eq!(c.get_pointer().to_vec(), triple_loop(&block, &b, 3, 2, 2));
    // Row 1 of the block is (12, 13); `b` is [[1, 2], [3, 4]].
    assert_eq!(c.get(1, 0), 51.0);
    assert_eq!(c.get(1, 1), 76.0);
}

#[test]
fn multiply_complex() {
    let mut a = MatrixD::<c64, RowMajor>::zeros_from_dim(2, 2);
    let mut b = MatrixD::<c64, ColumnMajor>::zeros_from_dim(2, 2);
    for index in 0..4 {
        *a.get1d_mut(index) = c64::new(index as f64, 1.0);
        *b.get1d_mut(index) = c64::new(1.0, -(index as f64));
    }
    let mut c = MatrixD::<c64, RowMajor>::zeros_from_dim(2, 2);
    let p = gemm_parameters(&a, &b, &c);
    strided_kernel(&p, c64::new(0.0, 0.0), a.get_pointer(), b.get_pointer(), c.get_pointer_mut());
    for i in 0..2 {
        for j in 0..2 {
            let mut expected = c64::new(0.0, 0.0);
            for l in 0..2 {
                expected += a.get(i, l) * b.get(l, j);
            }
            assert_eq!(c.get(i, j), expected);
        }
    }
    // (0 + i)(1 - 0i) + (1 + i)(1 - i) = i + 2
    assert_eq!(c.get(0, 0), c64::new(2.0, 1.0));
}
