//! Constructors of matrices that own their buffer.
use crate::data_container::{DataContainer, VectorContainer};
use crate::layouts::column_vector::ColumnVector;
use crate::layouts::row_vector::RowVector;
use crate::matrix::{ColumnVectorD, Matrix, MatrixD, RowVectorD};
use crate::traits::layout::{
    lemma_base_raw_injective, BaseLayoutType, LayoutType, StridedLayoutType,
};
use crate::traits::random_access::{
    Dimensions, Layout, RandomAccess, RandomAccessMut, UnsafeRandomAccess,
};
use crate::types::IndexType;
use vstd::prelude::*;

verus! {

impl<Item: Copy + Default, L: BaseLayoutType> Matrix<Item, VectorContainer<Item>, L> {
    /// A `rows x cols` matrix of layout `L` whose elements are the default value of the
    /// element type (zero for numbers).
    pub fn zeros_from_dim(rows: IndexType, cols: IndexType) -> (r: Self)
        requires
            L::admits_dimension((rows, cols)),
        ensures
            r.access_wf(),
            r.spec_layout().spec_dim() == (rows, cols),
            r.spec_data().len() == r.spec_layout().spec_number_of_elements(),
            forall|i: int|
                0 <= i < r.spec_data().len() ==> call_ensures(
                    Item::default,
                    (),
                    #[trigger] r.spec_data()[i],
                ),
    {
        let layout = L::from_dimension((rows, cols));
        proof {
            layout.lemma_dense();
        }
        let nelems = layout.number_of_elements();
        Self::from_data(VectorContainer::new(nelems), layout)
    }
}

impl<Item: Copy + Default> RowVectorD<Item> {
    /// A row vector of `nelems` elements, each the default value of the element type.
    pub fn zeros_from_length(nelems: IndexType) -> (r: Self)
        ensures
            r.access_wf(),
            r.spec_layout().spec_dim() == (1usize, nelems),
            r.spec_data().len() == nelems,
            forall|i: int|
                0 <= i < nelems ==> call_ensures(Item::default, (), #[trigger] r.spec_data()[i]),
    {
        let layout = RowVector::new(nelems);
        proof {
            layout.lemma_dense();
            layout.lemma_strided();
        }
        Self::from_data(VectorContainer::new(nelems), layout)
    }
}

impl<Item: Copy + Default> ColumnVectorD<Item> {
    /// A column vector of `nelems` elements, each the default value of the element type.
    pub fn zeros_from_length(nelems: IndexType) -> (r: Self)
        ensures
            r.access_wf(),
            r.spec_layout().spec_dim() == (nelems, 1usize),
            r.spec_data().len() == nelems,
            forall|i: int|
                0 <= i < nelems ==> call_ensures(Item::default, (), #[trigger] r.spec_data()[i]),
    {
        let layout = ColumnVector::new(nelems);
        proof {
            layout.lemma_dense();
            layout.lemma_strided();
        }
        Self::from_data(VectorContainer::new(nelems), layout)
    }
}

impl<Item: Copy + Default, Data: DataContainer<Item = Item>, L: StridedLayoutType> Matrix<
    Item,
    Data,
    L,
> {
    /// An owned copy of the matrix, stored without gaps in the base layout `L2`: a
    /// block becomes a matrix of its own.
    pub fn eval<L2: BaseLayoutType + StridedLayoutType>(&self) -> (r: MatrixD<Item, L2>)
        requires
            self.access_wf(),
            L2::admits_dimension(self.spec_layout().spec_dim()),
        ensures
            r.access_wf(),
            r.spec_layout().spec_dim() == self.spec_layout().spec_dim(),
            forall|i: int, j: int|
                0 <= i < self.spec_layout().spec_dim().0 && 0 <= j < self.spec_layout().spec_dim().1
                    ==> #[trigger] r.spec_entry(i, j) == self.spec_entry(i, j),
    {
        let (rows, cols) = self.dim();
        let mut result = MatrixD::<Item, L2>::zeros_from_dim(rows, cols);
        let ghost target = result.spec_layout();
        proof {
            self.spec_layout().lemma_strided();
            target.lemma_strided();
            lemma_base_raw_injective(&target);
        }
        let mut row: usize = 0;
        while row < rows
            invariant
                row <= rows,
                (rows, cols) == self.spec_layout().spec_dim(),
                self.access_wf(),
                result.access_wf(),
                result.spec_layout() == target,
                target.spec_dim() == (rows, cols),
                forall|i: int, j: int|
                    #[trigger] target.valid_2d(i, j) <==> (0 <= i < rows && 0 <= j < cols),
                forall|r1: int, c1: int, r2: int, c2: int|
                    target.valid_2d(r1, c1) && target.valid_2d(r2, c2) && (r1 != r2 || c1 != c2)
                        ==> #[trigger] target.spec_2d_raw(r1, c1)
                        != #[trigger] target.spec_2d_raw(r2, c2),
                forall|i: int, j: int|
                    0 <= i < row && 0 <= j < cols ==> #[trigger] result.spec_entry(i, j)
                        == self.spec_entry(i, j),
            decreases rows - row,
        {
            let mut col: usize = 0;
            while col < cols
                invariant
                    row < rows,
                    col <= cols,
                    (rows, cols) == self.spec_layout().spec_dim(),
                    self.access_wf(),
                    result.access_wf(),
                    result.spec_layout() == target,
                    target.spec_dim() == (rows, cols),
                        forall|i: int, j: int|
                            #[trigger] target.valid_2d(i, j) <==> (0 <= i < rows && 0 <= j < cols),
                    forall|r1: int, c1: int, r2: int, c2: int|
                        target.valid_2d(r1, c1) && target.valid_2d(r2, c2) && (r1 != r2 || c1 != c2)
                            ==> #[trigger] target.spec_2d_raw(r1, c1)
                        != #[trigger] target.spec_2d_raw(r2, c2),
                    forall|i: int, j: int|
                        (0 <= i < row && 0 <= j < cols || i == row && 0 <= j < col)
                            ==> #[trigger] result.spec_entry(i, j)
                            == self.spec_entry(i, j),
                decreases cols - col,
            {
                proof {
                    self.spec_layout().lemma_strided();
                }
                let value = self.get(row, col);
                *result.get_mut(row, col) = value;
                col = col + 1;
            }
            row = row + 1;
        }
        result
    }
}

} // verus!
