//! Upper triangular layout.
//!
//! Only the elements with `col >= row` are stored. The one-dimensional order starts
//! at the bottom-right corner and walks up the rows: for `n = 3` the indices are
//! ```text
//! 3 4 5
//! . 1 2
//! . . 0
//! ```
use crate::traits::layout::{BaseLayoutType, LayoutType, MemoryLayout};
use crate::types::IndexType;
use vstd::prelude::*;

verus! {

/// The triangular number `0 + 1 + ... + q`.
pub open spec fn triangle(q: nat) -> nat
    decreases q,
{
    if q == 0 {
        0
    } else {
        q + triangle((q - 1) as nat)
    }
}

/// The `p` with `triangle(p) <= index < triangle(p + 1)`.
pub open spec fn triangle_root(index: nat) -> nat {
    choose|p: nat| #[trigger] triangle(p) <= index < triangle(p + 1)
}

/// `2 * triangle(q) == q * (q + 1)`.
pub proof fn lemma_triangle_closed(q: nat)
    ensures
        2 * triangle(q) == q * (q + 1),
    decreases q,
{
    if q > 0 {
        let m = (q - 1) as nat;
        lemma_triangle_closed(m);
        assert(triangle(q) == q + triangle(m));
        assert(m * (m + 1) + 2 * q == q * (q + 1)) by (nonlinear_arith)
            requires
                m + 1 == q,
        ;
        assert(2 * triangle(q) == 2 * q + 2 * triangle(m));
    } else {
        assert(q * (q + 1) == 0) by (nonlinear_arith)
            requires
                q == 0,
        ;
    }
}

/// Triangular numbers grow with their argument.
pub proof fn lemma_triangle_monotone(p: nat, q: nat)
    requires
        p <= q,
    ensures
        triangle(p) <= triangle(q),
        p < q ==> triangle(p) + p < triangle(q),
    decreases q - p,
{
    if p < q {
        lemma_triangle_monotone(p, (q - 1) as nat);
    }
}

/// Every index lies between two consecutive triangular numbers, and `triangle_root`
/// picks the lower one.
pub proof fn lemma_triangle_root(index: nat)
    ensures
        triangle(triangle_root(index)) <= index < triangle(triangle_root(index) + 1),
        forall|p: nat|
            #[trigger] triangle(p) <= index < triangle(p + 1) ==> p == triangle_root(index),
{
    lemma_triangle_bracket(index);
    let r = triangle_root(index);
    assert forall|p: nat| #[trigger] triangle(p) <= index < triangle(p + 1) implies p == r by {
        if p < r {
            lemma_triangle_monotone(p + 1, r);
        } else if r < p {
            lemma_triangle_monotone(r + 1, p);
        }
    }
}

proof fn lemma_triangle_bracket(index: nat)
    ensures
        exists|p: nat| #[trigger] triangle(p) <= index < triangle(p + 1),
    decreases index,
{
    if index == 0 {
        assert(triangle(0) <= 0 < triangle(1));
    } else {
        lemma_triangle_bracket((index - 1) as nat);
        let p = choose|p: nat| #[trigger] triangle(p) <= index - 1 < triangle(p + 1);
        if index < triangle(p + 1) {
            assert(triangle(p) <= index < triangle(p + 1));
        } else {
            assert(triangle(p + 1) <= index < triangle(p + 2));
        }
    }
}

/// The integer square root: the largest `r` with `r * r <= x`.
fn isqrt(x: u128) -> (r: u128)
    requires
        x < 0x1_0000_0000_0000_0000_0000,
    ensures
        r * r <= x < (r + 1) * (r + 1),
{
    let mut lo: u128 = 0;
    let mut hi: u128 = 0x1_0000_0000_0000;
    assert(x < hi * hi) by (nonlinear_arith)
        requires
            x < 0x1_0000_0000_0000_0000_0000,
            hi == 0x1_0000_0000_0000,
    ;
    while hi - lo > 1
        invariant
            lo < hi <= 0x1_0000_0000_0000,
            lo * lo <= x < hi * hi,
        decreases hi - lo,
    {
        let mid = lo + (hi - lo) / 2;
        assert(mid * mid <= 0x1_0000_0000_0000 * 0x1_0000_0000_0000) by (nonlinear_arith)
            requires
                mid <= 0x1_0000_0000_0000,
        ;
        if mid * mid <= x {
            lo = mid;
        } else {
            hi = mid;
        }
    }
    lo
}

/// `p = (s - 1) / 2` for the integer square root `s` of `8 * index + 1` is the
/// triangular root of `index`.
proof fn lemma_root_from_sqrt(index: int, s: int, p: int)
    requires
        0 <= index,
        s * s <= 8 * index + 1 < (s + 1) * (s + 1),
        p == (s - 1) / 2,
    ensures
        0 <= p,
        p == triangle_root(index as nat),
{
    assert(s >= 1) by (nonlinear_arith)
        requires
            s * s <= 8 * index + 1 < (s + 1) * (s + 1),
            0 <= index,
    ;
    assert(2 * p + 1 <= s <= 2 * p + 2) by {
        vstd::arithmetic::div_mod::lemma_fundamental_div_mod(s - 1, 2);
    }
    assert(p * (p + 1) <= 2 * index) by (nonlinear_arith)
        requires
            0 <= 2 * p + 1 <= s,
            s * s <= 8 * index + 1,
    ;
    assert(2 * index < (p + 1) * (p + 2)) by (nonlinear_arith)
        requires
            1 <= s <= 2 * p + 2,
            8 * index + 1 < (s + 1) * (s + 1),
    ;
    let q = p as nat;
    assert(triangle(q) <= index < triangle(q + 1)) by {
        lemma_triangle_closed(q);
        lemma_triangle_closed(q + 1);
    }
    lemma_triangle_root(index as nat);
}

/// Upper triangular matrices of shape `n x n`, storing the `n * (n + 1) / 2` elements
/// on and above the diagonal.
#[derive(Clone, Copy, Debug, PartialEq, Eq)]
pub struct UpperTriangular {
    dim: IndexType,
}

impl UpperTriangular {
    /// The upper triangular layout of shape `dim x dim`.
    pub fn new(dim: IndexType) -> (r: Self)
        requires
            dim * (dim + 1) <= usize::MAX,
        ensures
            r.wf(),
            r.spec_dim() == (dim, dim),
    {
        Self { dim }
    }

    /// The maps of the layout, in terms of its shape.
    pub proof fn lemma_definition(&self)
        ensures
            self.spec_memory_layout() == MemoryLayout::CUSTOM,
            self.spec_dim().0 == self.spec_dim().1,
            self.spec_number_of_elements() == triangle(self.spec_dim().0 as nat),
            self.spec_extent() == triangle(self.spec_dim().0 as nat),
            forall|row: int, col: int|
                #[trigger] self.valid_2d(row, col) <==> 0 <= row <= col < self.spec_dim().0,
            forall|row: int, col: int|
                #[trigger] self.spec_2d_1d(row, col)
                    == triangle((self.spec_dim().0 - 1 - row) as nat) + col - row,
            forall|row: int, col: int|
                #[trigger] self.spec_2d_raw(row, col) == self.spec_2d_1d(row, col),
            forall|index: int|
                #[trigger] self.spec_1d_2d(index)
                    == (
                    self.spec_dim().0 - 1 - triangle_root(index as nat),
                    self.spec_dim().0 - 1 - triangle_root(index as nat) + index - triangle(
                        triangle_root(index as nat),
                    ),
                ),
            forall|index: int| #[trigger] self.spec_1d_raw(index) == index,
    {
    }
}

impl LayoutType for UpperTriangular {
    closed spec fn wf(&self) -> bool {
        self.dim * (self.dim + 1) <= usize::MAX
    }

    closed spec fn spec_dim(&self) -> (IndexType, IndexType) {
        (self.dim, self.dim)
    }

    closed spec fn spec_number_of_elements(&self) -> nat {
        triangle(self.dim as nat)
    }

    closed spec fn valid_2d(&self, row: int, col: int) -> bool {
        0 <= row <= col < self.dim
    }

    closed spec fn spec_1d_2d(&self, index: int) -> (int, int) {
        let p = triangle_root(index as nat);
        (self.dim - 1 - p, self.dim - 1 - p + index - triangle(p))
    }

    closed spec fn spec_2d_1d(&self, row: int, col: int) -> int {
        triangle((self.dim - 1 - row) as nat) + col - row
    }

    closed spec fn spec_2d_raw(&self, row: int, col: int) -> int {
        triangle((self.dim - 1 - row) as nat) + col - row
    }

    closed spec fn spec_1d_raw(&self, index: int) -> int {
        index
    }

    closed spec fn spec_extent(&self) -> nat {
        triangle(self.dim as nat)
    }

    closed spec fn spec_memory_layout(&self) -> MemoryLayout {
        MemoryLayout::CUSTOM
    }

    fn memory_layout(&self) -> (r: MemoryLayout) {
        MemoryLayout::CUSTOM
    }

    proof fn lemma_memory_layout(&self) {
    }

    fn dim(&self) -> (r: (IndexType, IndexType)) {
        (self.dim, self.dim)
    }

    fn number_of_elements(&self) -> (r: IndexType) {
        proof {
            lemma_triangle_closed(self.dim as nat);
            let t = triangle(self.dim as nat);
            assert((2 * t) / 2 == t);
        }
        (self.dim * (self.dim + 1)) / 2
    }

    /// Uses the closed-form inverse of the triangular numbers,
    /// `p = floor(-1/2 + sqrt(1/4 + 2 * index))`, computed in integers as
    /// `(isqrt(8 * index + 1) - 1) / 2`; then `row = n - 1 - p` and
    /// `col = row + index - p * (p + 1) / 2`.
    fn convert_1d_2d(&self, index: IndexType) -> (r: (IndexType, IndexType)) {
        proof {
            lemma_triangle_closed(self.dim as nat);
            self.lemma_round_trip_1d(index as int);
        }
        let s = isqrt(8 * (index as u128) + 1);
        let p_wide = (s - 1) / 2;
        proof {
            lemma_root_from_sqrt(index as int, s as int, p_wide as int);
        }
        let p = p_wide as usize;
        proof {
            lemma_triangle_root(index as nat);
            lemma_triangle_closed(p as nat);
            lemma_triangle_monotone(p as nat, self.dim as nat);
        }
        let t = (p * (p + 1)) / 2;
        let row = self.dim - 1 - p;
        (row, row + (index - t))
    }

    fn convert_2d_1d(&self, row: IndexType, col: IndexType) -> (r: IndexType) {
        proof {
            let q = (self.dim - 1 - row) as nat;
            lemma_triangle_closed(q);
            lemma_triangle_monotone(q + 1, self.dim as nat);
            lemma_triangle_closed(self.dim as nat);
            assert((self.dim - row) * (self.dim - row - 1) == q * (q + 1)) by (nonlinear_arith)
                requires
                    q == self.dim - 1 - row,
            ;
            assert((self.dim - row) * (self.dim - row - 1) <= self.dim * (self.dim + 1))
                by (nonlinear_arith)
                requires
                    0 <= row < self.dim,
            ;
        }
        ((self.dim - row) * (self.dim - row - 1)) / 2 + col - row
    }

    fn convert_1d_raw(&self, index: IndexType) -> (r: IndexType) {
        index
    }

    fn convert_2d_raw(&self, row: IndexType, col: IndexType) -> (r: IndexType) {
        self.convert_2d_1d(row, col)
    }

    proof fn lemma_bounds(&self) {
        lemma_triangle_closed(self.dim as nat);
    }

    proof fn lemma_valid_in_dim(&self, row: int, col: int) {
    }

    proof fn lemma_round_trip_2d(&self, row: int, col: int) {
        let q = (self.dim - 1 - row) as nat;
        let index = self.spec_2d_1d(row, col);
        lemma_triangle_monotone(q + 1, self.dim as nat);
        assert(triangle(q + 1) == q + 1 + triangle(q));
        lemma_triangle_root(index as nat);
        assert(triangle_root(index as nat) == q);
    }

    proof fn lemma_round_trip_1d(&self, index: int) {
        let p = triangle_root(index as nat);
        lemma_triangle_root(index as nat);
        if p >= self.dim {
            lemma_triangle_monotone(self.dim as nat, p);
        }
        assert(triangle(p + 1) == p + 1 + triangle(p));
    }

    proof fn lemma_1d_raw(&self, index: int) {
        self.lemma_round_trip_1d(index);
    }

    proof fn lemma_extent(&self, row: int, col: int) {
        self.lemma_round_trip_2d(row, col);
    }
}

impl BaseLayoutType for UpperTriangular {
    open spec fn admits_dimension(dim: (IndexType, IndexType)) -> bool {
        dim.0 == dim.1 && dim.0 * (dim.0 + 1) <= usize::MAX
    }

    /// Only square shapes are admitted.
    fn from_dimension(dim: (IndexType, IndexType)) -> (r: Self) {
        Self { dim: dim.0 }
    }

    proof fn lemma_dense(&self) {
    }
}

} // verus!
