//! Dispatch of matrix multiplication to a strided kernel.
//!
//! A kernel of the BLAS kind computes `C := alpha * A * B + beta * C` from the
//! shapes `m x k`, `k x n` and `m x n` and, for each operand, its buffer and the
//! signed strides between rows and between columns. It reads `A[i, l]` at
//! `i * rsa + l * csa`, `B[l, j]` at `l * rsb + j * csb` and writes `C[i, j]` at
//! `i * rsc + j * csc`. The kernel interprets the strides generically, so operands of
//! any strided layout, mixed freely, are multiplied without copies.
//!
//! [gemm_parameters] checks that the shapes fit together and turns three
//! matrices into that parameter list; its contract shows that every position the
//! kernel touches holds the element it stands for.
use crate::data_container::DataContainer;
use crate::matrix::Matrix;
use crate::traits::layout::{LayoutType, StridedLayoutType};
use crate::traits::random_access::{Layout, UnsafeRandomAccess};
use crate::types::IndexType;
use vstd::prelude::*;

verus! {

/// The shape and stride parameters of a call `C := alpha * A * B + beta * C`.
#[derive(Clone, Copy, Debug, PartialEq, Eq)]
pub struct GemmParameters {
    /// Rows of `A` and `C`.
    pub m: usize,
    /// Columns of `A`, rows of `B`.
    pub k: usize,
    /// Columns of `B` and `C`.
    pub n: usize,
    /// Row stride of `A`.
    pub rsa: isize,
    /// Column stride of `A`.
    pub csa: isize,
    /// Row stride of `B`.
    pub rsb: isize,
    /// Column stride of `B`.
    pub csb: isize,
    /// Row stride of `C`.
    pub rsc: isize,
    /// Column stride of `C`.
    pub csc: isize,
}

/// Whether `C = A * B` is defined for matrices of shapes `a`, `b` and `c`.
pub open spec fn mul_compatible(
    a: (IndexType, IndexType),
    b: (IndexType, IndexType),
    c: (IndexType, IndexType),
) -> bool {
    a.1 == b.0 && c.0 == a.0 && c.1 == b.1
}

/// Whether a stride can be handed to the kernel, which takes signed strides.
pub open spec fn stride_fits_kernel(stride: (IndexType, IndexType)) -> bool {
    stride.0 <= isize::MAX && stride.1 <= isize::MAX
}

/// The element `(row, col)` of `mat` is its buffer element at
/// `row * row_stride + col * col_stride`, and that position lies in the buffer.
pub open spec fn reads_at<M: UnsafeRandomAccess>(
    mat: M,
    data: Seq<M::Item>,
    row: int,
    col: int,
    row_stride: int,
    col_stride: int,
) -> bool {
    &&& 0 <= row * row_stride + col * col_stride < data.len()
    &&& mat.spec_entry(row, col) == data[row * row_stride + col * col_stride]
}

/// The kernel parameters for `C := alpha * A * B + beta * C`. The shapes must fit
/// together; the strides must fit in `isize`, as the kernel takes them signed.
pub fn gemm_parameters<
    Item: Copy,
    DataA: DataContainer<Item = Item>,
    LA: StridedLayoutType,
    DataB: DataContainer<Item = Item>,
    LB: StridedLayoutType,
    DataC: DataContainer<Item = Item>,
    LC: StridedLayoutType,
>(
    mat_a: &Matrix<Item, DataA, LA>,
    mat_b: &Matrix<Item, DataB, LB>,
    mat_c: &Matrix<Item, DataC, LC>,
) -> (r: GemmParameters)
    requires
        mat_a.access_wf(),
        mat_b.access_wf(),
        mat_c.access_wf(),
        mul_compatible(
            mat_a.spec_layout().spec_dim(),
            mat_b.spec_layout().spec_dim(),
            mat_c.spec_layout().spec_dim(),
        ),
        stride_fits_kernel(mat_a.spec_layout().spec_stride()),
        stride_fits_kernel(mat_b.spec_layout().spec_stride()),
        stride_fits_kernel(mat_c.spec_layout().spec_stride()),
    ensures
        r.m == mat_a.spec_layout().spec_dim().0,
        r.k == mat_a.spec_layout().spec_dim().1,
        r.n == mat_b.spec_layout().spec_dim().1,
        (r.rsa as int, r.csa as int) == (
            mat_a.spec_layout().spec_stride().0 as int,
            mat_a.spec_layout().spec_stride().1 as int,
        ),
        (r.rsb as int, r.csb as int) == (
            mat_b.spec_layout().spec_stride().0 as int,
            mat_b.spec_layout().spec_stride().1 as int,
        ),
        (r.rsc as int, r.csc as int) == (
            mat_c.spec_layout().spec_stride().0 as int,
            mat_c.spec_layout().spec_stride().1 as int,
        ),
        forall|i: int, l: int|
            0 <= i < r.m && 0 <= l < r.k ==> #[trigger] reads_at(
                *mat_a,
                mat_a.spec_data(),
                i,
                l,
                r.rsa as int,
                r.csa as int,
            ),
        forall|l: int, j: int|
            0 <= l < r.k && 0 <= j < r.n ==> #[trigger] reads_at(
                *mat_b,
                mat_b.spec_data(),
                l,
                j,
                r.rsb as int,
                r.csb as int,
            ),
        forall|i: int, j: int|
            0 <= i < r.m && 0 <= j < r.n ==> #[trigger] reads_at(
                *mat_c,
                mat_c.spec_data(),
                i,
                j,
                r.rsc as int,
                r.csc as int,
            ),
{
    let dim_a = mat_a.layout().dim();
    let dim_b = mat_b.layout().dim();
    let stride_a = mat_a.layout().stride();
    let stride_b = mat_b.layout().stride();
    let stride_c = mat_c.layout().stride();
    let r = GemmParameters {
        m: dim_a.0,
        k: dim_a.1,
        n: dim_b.1,
        rsa: stride_a.0 as isize,
        csa: stride_a.1 as isize,
        rsb: stride_b.0 as isize,
        csb: stride_b.1 as isize,
        rsc: stride_c.0 as isize,
        csc: stride_c.1 as isize,
    };
    proof {
        lemma_strided_reads(*mat_a);
        lemma_strided_reads(*mat_b);
        lemma_strided_reads(*mat_c);
    }
    r
}

/// Every element of a consistent strided matrix lies in its buffer at the position
/// its stride gives.
proof fn lemma_strided_reads<Item: Copy, Data: DataContainer<Item = Item>, L: StridedLayoutType>(
    mat: Matrix<Item, Data, L>,
)
    requires
        mat.access_wf(),
    ensures
        forall|row: int, col: int|
            0 <= row < mat.spec_layout().spec_dim().0 && 0 <= col < mat.spec_layout().spec_dim().1
                ==> #[trigger] reads_at(
                mat,
                mat.spec_data(),
                row,
                col,
                mat.spec_layout().spec_stride().0 as int,
                mat.spec_layout().spec_stride().1 as int,
            ),
{
    let layout = mat.spec_layout();
    layout.lemma_strided();
    assert forall|row: int, col: int|
        0 <= row < layout.spec_dim().0
            && 0 <= col < layout.spec_dim().1 implies #[trigger] reads_at(
        mat,
        mat.spec_data(),
        row,
        col,
        layout.spec_stride().0 as int,
        layout.spec_stride().1 as int,
    ) by {
        layout.lemma_extent(row, col);
    }
}

} // verus!
