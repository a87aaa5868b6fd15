//! Blocks of matrices, without copying.
//!
//! [Matrix::block] and [Matrix::block_mut] borrow the part of the buffer that a
//! rectangle of the matrix occupies and read it through an arbitrary-stride layout
//! that keeps the parent's stride. [Matrix::split_in_four] cuts a matrix into four
//! quadrants, each described by a [Block]: an offset into the parent's buffer and
//! a layout. The four quadrants never share a buffer position, so writes through one
//! leave the others as they were.
use crate::data_container::{DataContainer, DataContainerMut, SliceContainer, SliceContainerMut};
use crate::layouts::arbitrary_stride_column_major::ArbitraryStrideColumnMajor;
use crate::layouts::arbitrary_stride_row_major::ArbitraryStrideRowMajor;
use crate::layouts::column_major::ColumnMajor;
use crate::layouts::offsets::{
    lemma_separate_extent, lemma_separate_offsets_distinct, lemma_separate_sub_grid, lemma_sub_grid,
    strided_extent, strides_separate,
};
use crate::layouts::row_major::RowMajor;
use crate::matrix::{Matrix, SliceMatrix, SliceMatrixMut};
use crate::traits::layout::{lemma_raw_offsets_distinct, raw_offsets, LayoutType, StridedLayoutType};
use crate::traits::random_access::{Layout, UnsafeRandomAccess};
use crate::types::IndexType;
use vstd::prelude::*;

verus! {

/// Whether the rectangle of shape `dim` at `top_left` lies inside a matrix of shape
/// `parent`.
pub open spec fn block_in_bounds(
    parent: (IndexType, IndexType),
    top_left: (IndexType, IndexType),
    dim: (IndexType, IndexType),
) -> bool {
    top_left.0 + dim.0 <= parent.0 && top_left.1 + dim.1 <= parent.1
}

/// The buffer position where the rectangle of shape `dim` at `top_left` starts: the
/// raw offset of its top-left element, or zero for an empty rectangle.
pub open spec fn block_offset<L: LayoutType>(
    layout: L,
    top_left: (IndexType, IndexType),
    dim: (IndexType, IndexType),
) -> int {
    if dim.0 == 0 || dim.1 == 0 {
        0
    } else {
        layout.spec_2d_raw(top_left.0 as int, top_left.1 as int)
    }
}

/// `block` holds the elements of `parent` in the rectangle of shape `dim` at
/// `top_left`.
pub open spec fn shows_block<M: UnsafeRandomAccess, N: UnsafeRandomAccess<Item = M::Item>>(
    block: N,
    parent: M,
    top_left: (IndexType, IndexType),
    dim: (IndexType, IndexType),
) -> bool {
    forall|i: int, j: int|
        0 <= i < dim.0 && 0 <= j < dim.1 ==> #[trigger] block.spec_entry(i, j) == parent.spec_entry(
            top_left.0 + i,
            top_left.1 + j,
        )
}

/// `data` with the elements at `start..end` replaced by `middle`.
pub open spec fn splice<Item>(data: Seq<Item>, start: int, end: int, middle: Seq<Item>) -> Seq<
    Item,
> {
    data.subrange(0, start) + middle + data.subrange(end, data.len() as int)
}

/// A rectangular part of a matrix's buffer: its element `(row, col)` is the buffer
/// element at `offset + layout.convert_2d_raw(row, col)`.
pub struct Block<L> {
    /// Where the block starts in the buffer.
    pub offset: IndexType,
    /// The layout of the block.
    pub layout: L,
}

impl<L: LayoutType> Block<L> {
    /// The buffer position of the block's element `(row, col)`.
    pub open spec fn spec_position(&self, row: int, col: int) -> int {
        self.offset + self.layout.spec_2d_raw(row, col)
    }

    /// Whether the block addresses buffer position `p`.
    pub open spec fn covers(&self, p: int) -> bool {
        exists|i: int, j: int| self.layout.valid_2d(i, j) && #[trigger] self.spec_position(i, j)
            == p
    }

    /// Whether the block lies within a buffer of `len` elements.
    pub open spec fn fits(&self, len: nat) -> bool {
        self.layout.wf() && self.offset + self.layout.spec_extent() <= len
    }
}

/// `block` is the rectangle of shape `dim` at `top_left` of a matrix laid out by
/// `parent`, read with the parent's stride.
pub open spec fn is_block_of<L: StridedLayoutType, L2: StridedLayoutType>(
    block: Block<L2>,
    parent: L,
    top_left: (IndexType, IndexType),
    dim: (IndexType, IndexType),
) -> bool {
    &&& block_in_bounds(parent.spec_dim(), top_left, dim)
    &&& block.layout.wf()
    &&& block.layout.spec_dim() == dim
    &&& block.layout.spec_stride() == parent.spec_stride()
    &&& block.offset == block_offset(parent, top_left, dim)
}

/// The elements of a block are the parent's elements of its rectangle, and the block
/// ends within the parent's extent.
pub proof fn lemma_block_positions<L: StridedLayoutType, L2: StridedLayoutType>(
    block: Block<L2>,
    parent: L,
    top_left: (IndexType, IndexType),
    dim: (IndexType, IndexType),
)
    requires
        parent.wf(),
        is_block_of(block, parent, top_left, dim),
    ensures
        block.fits(parent.spec_extent()),
        forall|i: int, j: int|
            #[trigger] block.layout.valid_2d(i, j)
                ==> parent.valid_2d(top_left.0 + i, top_left.1 + j)
                && block.spec_position(i, j) == parent.spec_2d_raw(top_left.0 + i, top_left.1 + j),
{
    parent.lemma_strided();
    block.layout.lemma_strided();
    lemma_sub_grid(parent.spec_dim(), parent.spec_stride(), top_left, dim);
}

/// Blocks of two disjoint rectangles of a matrix whose strides are separate never
/// address the same buffer position.
pub proof fn lemma_disjoint_blocks<
    L: StridedLayoutType,
    L1: StridedLayoutType,
    L2: StridedLayoutType,
>(
    parent: L,
    b1: Block<L1>,
    top_left1: (IndexType, IndexType),
    dim1: (IndexType, IndexType),
    b2: Block<L2>,
    top_left2: (IndexType, IndexType),
    dim2: (IndexType, IndexType),
)
    requires
        parent.wf(),
        strides_separate(parent.spec_dim(), parent.spec_stride()),
        is_block_of(b1, parent, top_left1, dim1),
        is_block_of(b2, parent, top_left2, dim2),
        top_left1.0 + dim1.0 <= top_left2.0 || top_left2.0 + dim2.0 <= top_left1.0 || top_left1.1
            + dim1.1 <= top_left2.1 || top_left2.1 + dim2.1 <= top_left1.1,
    ensures
        forall|p: int| !(b1.covers(p) && b2.covers(p)),
{
    lemma_block_positions(b1, parent, top_left1, dim1);
    lemma_block_positions(b2, parent, top_left2, dim2);
    parent.lemma_strided();
    b1.layout.lemma_strided();
    b2.layout.lemma_strided();
    assert forall|p: int| !(b1.covers(p) && b2.covers(p)) by {
        if b1.covers(p) && b2.covers(p) {
            let (i1, j1) = choose|i: int, j: int|
                b1.layout.valid_2d(i, j) && #[trigger] b1.spec_position(i, j) == p;
            let (i2, j2) = choose|i: int, j: int|
                b2.layout.valid_2d(i, j) && #[trigger] b2.spec_position(i, j) == p;
            lemma_separate_offsets_distinct(
                parent.spec_dim(),
                parent.spec_stride(),
                top_left1.0 + i1,
                top_left1.1 + j1,
                top_left2.0 + i2,
                top_left2.1 + j2,
            );
        }
    }
}

/// A write through one block at its element `(row, col)` leaves every element of a
/// block that shares no buffer position with it as it was: quadrants from
/// [Matrix::split_in_four] can be written independently.
pub proof fn lemma_write_keeps_disjoint_block<Item, L1: LayoutType, L2: LayoutType>(
    written: Block<L1>,
    other: Block<L2>,
    data: Seq<Item>,
    row: int,
    col: int,
    value: Item,
)
    requires
        written.layout.valid_2d(row, col),
        written.fits(data.len()),
        other.fits(data.len()),
        forall|p: int| !(written.covers(p) && other.covers(p)),
    ensures
        forall|i: int, j: int|
            #[trigger] other.layout.valid_2d(i, j) ==> data.update(
                written.spec_position(row, col),
                value,
            )[other.spec_position(i, j)] == data[other.spec_position(i, j)],
{
    assert forall|i: int, j: int| #[trigger] other.layout.valid_2d(i, j) implies data.update(
        written.spec_position(row, col),
        value,
    )[other.spec_position(i, j)] == data[other.spec_position(i, j)] by {
        other.layout.lemma_extent(i, j);
        written.layout.lemma_extent(row, col);
        assert(written.covers(written.spec_position(row, col)));
        assert(other.covers(other.spec_position(i, j)));
    }
}

/// A write at the element `(i, j)` of a block changes the parent's element
/// `top_left + (i, j)` and no other element of the parent.
pub proof fn lemma_block_write<L: StridedLayoutType, L2: StridedLayoutType, Item>(
    parent: L,
    block: Block<L2>,
    top_left: (IndexType, IndexType),
    dim: (IndexType, IndexType),
    data: Seq<Item>,
    i: int,
    j: int,
    value: Item,
)
    requires
        parent.wf(),
        is_block_of(block, parent, top_left, dim),
        parent.spec_extent() <= data.len(),
        block.layout.valid_2d(i, j),
    ensures
        forall|row: int, col: int|
            #[trigger] parent.valid_2d(row, col) ==> data.update(
                block.spec_position(i, j),
                value,
            )[parent.spec_2d_raw(row, col)] == if row == top_left.0 + i && col == top_left.1
                + j {
                value
            } else {
                data[parent.spec_2d_raw(row, col)]
            },
{
    lemma_block_positions(block, parent, top_left, dim);
    lemma_raw_offsets_distinct(&parent);
    assert forall|row: int, col: int| #[trigger] parent.valid_2d(row, col) implies data.update(
        block.spec_position(i, j),
        value,
    )[parent.spec_2d_raw(row, col)] == if row == top_left.0 + i && col == top_left.1 + j {
        value
    } else {
        data[parent.spec_2d_raw(row, col)]
    } by {
        parent.lemma_extent(row, col);
        parent.lemma_extent(top_left.0 + i, top_left.1 + j);
    }
}

/// The four quadrants of a split together address exactly the parent's raw offsets.
pub proof fn lemma_quadrants_cover<
    L: StridedLayoutType,
    L0: StridedLayoutType,
    L1: StridedLayoutType,
    L2: StridedLayoutType,
    L3: StridedLayoutType,
>(
    parent: L,
    split_at: (IndexType, IndexType),
    b0: Block<L0>,
    b1: Block<L1>,
    b2: Block<L2>,
    b3: Block<L3>,
)
    requires
        parent.wf(),
        split_at.0 <= parent.spec_dim().0,
        split_at.1 <= parent.spec_dim().1,
        is_block_of(b0, parent, (0, 0), split_at),
        is_block_of(
            b1,
            parent,
            (0, split_at.1),
            (split_at.0, (parent.spec_dim().1 - split_at.1) as IndexType),
        ),
        is_block_of(
            b2,
            parent,
            (split_at.0, 0),
            ((parent.spec_dim().0 - split_at.0) as IndexType, split_at.1),
        ),
        is_block_of(
            b3,
            parent,
            split_at,
            (
                (parent.spec_dim().0 - split_at.0) as IndexType,
                (parent.spec_dim().1 - split_at.1) as IndexType,
            ),
        ),
    ensures
        forall|p: int|
            b0.covers(p) || b1.covers(p) || b2.covers(p) || b3.covers(p)
                <==> #[trigger] raw_offsets(parent).contains(p),
{
    let (rows, cols) = parent.spec_dim();
    let (r, c) = split_at;
    lemma_block_positions(b0, parent, (0, 0), split_at);
    lemma_block_positions(b1, parent, (0, c), (r, (cols - c) as IndexType));
    lemma_block_positions(b2, parent, (r, 0), ((rows - r) as IndexType, c));
    lemma_block_positions(b3, parent, split_at, ((rows - r) as IndexType, (cols - c) as IndexType));
    parent.lemma_strided();
    b0.layout.lemma_strided();
    b1.layout.lemma_strided();
    b2.layout.lemma_strided();
    b3.layout.lemma_strided();
    assert forall|p: int|
        b0.covers(p) || b1.covers(p) || b2.covers(p) || b3.covers(p)
            <==> #[trigger] raw_offsets(parent).contains(p) by {
        if raw_offsets(parent).contains(p) {
            let (i, j) = choose|i: int, j: int|
                parent.valid_2d(i, j) && #[trigger] parent.spec_2d_raw(i, j) == p;
            if i < r && j < c {
                assert(b0.layout.valid_2d(i, j));
                assert(b0.spec_position(i, j) == parent.spec_2d_raw(0 + i, 0 + j));
                assert(b0.spec_position(i, j) == p);
            } else if i < r {
                assert(b1.layout.spec_dim() == (r, (cols - c) as IndexType));
                assert(b1.layout.valid_2d(i, j - c));
                assert(b1.spec_position(i, j - c) == parent.spec_2d_raw(0 + i, c + (j - c)));
                assert(b1.spec_position(i, j - c) == p);
            } else if j < c {
                assert(b2.layout.spec_dim() == ((rows - r) as IndexType, c));
                assert(b2.layout.valid_2d(i - r, j));
                assert(b2.spec_position(i - r, j) == parent.spec_2d_raw(r + (i - r), 0 + j));
                assert(b2.spec_position(i - r, j) == p);
            } else {
                assert(b3.layout.spec_dim() == ((rows - r) as IndexType, (cols - c) as IndexType));
                assert(b3.layout.valid_2d(i - r, j - c));
                assert(b3.spec_position(i - r, j - c) == parent.spec_2d_raw(
                    r + (i - r),
                    c + (j - c),
                ));
                assert(b3.spec_position(i - r, j - c) == p);
            }
        }
        if b0.covers(p) {
            let (i, j) = choose|i: int, j: int|
                b0.layout.valid_2d(i, j) && #[trigger] b0.spec_position(i, j) == p;
            assert(parent.valid_2d(i, j) && parent.spec_2d_raw(i, j) == p);
        }
        if b1.covers(p) {
            let (i, j) = choose|i: int, j: int|
                b1.layout.valid_2d(i, j) && #[trigger] b1.spec_position(i, j) == p;
            assert(parent.valid_2d(i, c + j) && parent.spec_2d_raw(i, c + j) == p);
        }
        if b2.covers(p) {
            let (i, j) = choose|i: int, j: int|
                b2.layout.valid_2d(i, j) && #[trigger] b2.spec_position(i, j) == p;
            assert(parent.valid_2d(r + i, j) && parent.spec_2d_raw(r + i, j) == p);
        }
        if b3.covers(p) {
            let (i, j) = choose|i: int, j: int|
                b3.layout.valid_2d(i, j) && #[trigger] b3.spec_position(i, j) == p;
            assert(parent.valid_2d(r + i, c + j) && parent.spec_2d_raw(r + i, c + j) == p);
        }
    }
}

impl<Item: Copy, Data: DataContainer<Item = Item>, L: StridedLayoutType> Matrix<Item, Data, L> {
    /// The layout of a block of this matrix can be built.
    proof fn lemma_block_layout(
        &self,
        top_left: (IndexType, IndexType),
        dim: (IndexType, IndexType),
    )
        requires
            self.access_wf(),
            block_in_bounds(self.spec_layout().spec_dim(), top_left, dim),
        ensures
            dim.0 * dim.1 <= usize::MAX,
            strided_extent(dim, self.spec_layout().spec_stride()) <= usize::MAX,
            strides_separate(dim, self.spec_layout().spec_stride()),
    {
        let layout = self.spec_layout();
        layout.lemma_strided();
        layout.lemma_bounds();
        lemma_sub_grid(layout.spec_dim(), layout.spec_stride(), top_left, dim);
        lemma_separate_sub_grid(layout.spec_dim(), layout.spec_stride(), dim);
    }

    /// The buffer range `start..end` that the rectangle of shape `dim` at `top_left`
    /// occupies.
    fn block_range(&self, top_left: (IndexType, IndexType), dim: (IndexType, IndexType)) -> (r: (
        IndexType,
        IndexType,
    ))
        requires
            self.access_wf(),
            block_in_bounds(self.spec_layout().spec_dim(), top_left, dim),
        ensures
            r.0 == block_offset(self.spec_layout(), top_left, dim),
            r.1 == r.0 + strided_extent(dim, self.spec_layout().spec_stride()),
            r.1 <= self.spec_data().len(),
    {
        if dim.0 == 0 || dim.1 == 0 {
            return (0, 0);
        }
        let layout = self.layout();
        proof {
            layout.lemma_strided();
            layout.lemma_bounds();
            lemma_sub_grid(layout.spec_dim(), layout.spec_stride(), top_left, dim);
            layout.lemma_extent((top_left.0 + dim.0 - 1) as int, (top_left.1 + dim.1 - 1) as int);
            assert(layout.spec_2d_raw(
                (top_left.0 + dim.0 - 1) as int,
                (top_left.1 + dim.1 - 1) as int,
            )
                == (top_left.0 + (dim.0 - 1)) * layout.spec_stride().0 + (top_left.1 + (dim.1 - 1))
                * layout.spec_stride().1);
        }
        let start = layout.convert_2d_raw(top_left.0, top_left.1);
        let last = layout.convert_2d_raw(top_left.0 + dim.0 - 1, top_left.1 + dim.1 - 1);
        (start, last + 1)
    }

    /// The rectangle of shape `dim` at `top_left`, read through `layout` from the part
    /// of the buffer it occupies.
    fn block_with<'a, L2: StridedLayoutType>(
        &'a self,
        top_left: (IndexType, IndexType),
        dim: (IndexType, IndexType),
        layout: L2,
    ) -> (r: SliceMatrix<'a, Item, L2>)
        requires
            self.access_wf(),
            block_in_bounds(self.spec_layout().spec_dim(), top_left, dim),
            layout.wf(),
            layout.spec_dim() == dim,
            layout.spec_stride() == self.spec_layout().spec_stride(),
        ensures
            r.access_wf(),
            r.spec_layout() == layout,
            shows_block(r, *self, top_left, dim),
    {
        let (start, end) = self.block_range(top_left, dim);
        proof {
            let parent = self.spec_layout();
            parent.lemma_strided();
            layout.lemma_strided();
            lemma_separate_extent(dim, parent.spec_stride());
            lemma_sub_grid(parent.spec_dim(), parent.spec_stride(), top_left, dim);
        }
        let r = Matrix::from_data(SliceContainer::new(self.get_slice(start, end)), layout);
        proof {
            assert forall|i: int, j: int| 0 <= i < dim.0
                && 0 <= j < dim.1 implies #[trigger] r.spec_entry(
                i,
                j,
            ) == self.spec_entry(top_left.0 + i, top_left.1 + j) by {
                layout.lemma_extent(i, j);
            }
        }
        r
    }

    /// The block of a matrix whose buffer is borrowed mutably.
    fn block_mut_with<'a, L2: StridedLayoutType>(
        &'a mut self,
        top_left: (IndexType, IndexType),
        dim: (IndexType, IndexType),
        layout: L2,
    ) -> (r: SliceMatrixMut<'a, Item, L2>) where Data: DataContainerMut<Item = Item>
        requires
            old(self).access_wf(),
            block_in_bounds(old(self).spec_layout().spec_dim(), top_left, dim),
            layout.wf(),
            layout.spec_dim() == dim,
            layout.spec_stride() == old(self).spec_layout().spec_stride(),
        ensures
            r.access_wf(),
            r.spec_layout() == layout,
            shows_block(r, *old(self), top_left, dim),
            final(self).spec_layout() == old(self).spec_layout(),
            final(self).spec_data() == splice(
                old(self).spec_data(),
                block_offset(old(self).spec_layout(), top_left, dim),
                block_offset(old(self).spec_layout(), top_left, dim) + strided_extent(
                    dim,
                    old(self).spec_layout().spec_stride(),
                ),
                final(r.spec_container().data)@,
            ),
    {
        let (start, end) = self.block_range(top_left, dim);
        proof {
            let parent = self.spec_layout();
            parent.lemma_strided();
            layout.lemma_strided();
            lemma_separate_extent(dim, parent.spec_stride());
            lemma_sub_grid(parent.spec_dim(), parent.spec_stride(), top_left, dim);
        }
        let ghost before = *self;
        let slice = self.get_slice_mut(start, end);
        let r = Matrix::from_data(SliceContainerMut::new(slice), layout);
        proof {
            assert forall|i: int, j: int| 0 <= i < dim.0
                && 0 <= j < dim.1 implies #[trigger] r.spec_entry(
                i,
                j,
            ) == before.spec_entry(top_left.0 + i, top_left.1 + j) by {
                layout.lemma_extent(i, j);
            }
        }
        r
    }
}

impl<Item: Copy, Data: DataContainer<Item = Item>> Matrix<Item, Data, RowMajor> {
    /// The rectangle of shape `dim` at `top_left`, without copying: a matrix that
    /// borrows the part of the buffer the rectangle occupies.
    pub fn block<'a>(&'a self, top_left: (IndexType, IndexType), dim: (IndexType, IndexType)) -> (r:
        SliceMatrix<'a, Item, ArbitraryStrideRowMajor>)
        requires
            self.access_wf(),
            block_in_bounds(self.spec_layout().spec_dim(), top_left, dim),
        ensures
            r.access_wf(),
            r.spec_layout().spec_dim() == dim,
            r.spec_layout().spec_stride() == self.spec_layout().spec_stride(),
            shows_block(r, *self, top_left, dim),
    {
        proof {
            self.lemma_block_layout(top_left, dim);
        }
        let layout = ArbitraryStrideRowMajor::new(dim, self.layout().stride());
        self.block_with(top_left, dim, layout)
    }
}

impl<Item: Copy, Data: DataContainer<Item = Item>> Matrix<Item, Data, ColumnMajor> {
    /// The rectangle of shape `dim` at `top_left`, without copying: a matrix that
    /// borrows the part of the buffer the rectangle occupies.
    pub fn block<'a>(&'a self, top_left: (IndexType, IndexType), dim: (IndexType, IndexType)) -> (r:
        SliceMatrix<'a, Item, ArbitraryStrideColumnMajor>)
        requires
            self.access_wf(),
            block_in_bounds(self.spec_layout().spec_dim(), top_left, dim),
        ensures
            r.access_wf(),
            r.spec_layout().spec_dim() == dim,
            r.spec_layout().spec_stride() == self.spec_layout().spec_stride(),
            shows_block(r, *self, top_left, dim),
    {
        proof {
            self.lemma_block_layout(top_left, dim);
        }
        let layout = ArbitraryStrideColumnMajor::new(dim, self.layout().stride());
        self.block_with(top_left, dim, layout)
    }
}

impl<Item: Copy, Data: DataContainer<Item = Item>> Matrix<Item, Data, ArbitraryStrideRowMajor> {
    /// The rectangle of shape `dim` at `top_left`, without copying: a matrix that
    /// borrows the part of the buffer the rectangle occupies.
    pub fn block<'a>(&'a self, top_left: (IndexType, IndexType), dim: (IndexType, IndexType)) -> (r:
        SliceMatrix<'a, Item, ArbitraryStrideRowMajor>)
        requires
            self.access_wf(),
            block_in_bounds(self.spec_layout().spec_dim(), top_left, dim),
        ensures
            r.access_wf(),
            r.spec_layout().spec_dim() == dim,
            r.spec_layout().spec_stride() == self.spec_layout().spec_stride(),
            shows_block(r, *self, top_left, dim),
    {
        proof {
            self.lemma_block_layout(top_left, dim);
        }
        let layout = ArbitraryStrideRowMajor::new(dim, self.layout().stride());
        self.block_with(top_left, dim, layout)
    }
}

impl<Item: Copy, Data: DataContainer<Item = Item>> Matrix<Item, Data, ArbitraryStrideColumnMajor> {
    /// The rectangle of shape `dim` at `top_left`, without copying: a matrix that
    /// borrows the part of the buffer the rectangle occupies.
    pub fn block<'a>(&'a self, top_left: (IndexType, IndexType), dim: (IndexType, IndexType)) -> (r:
        SliceMatrix<'a, Item, ArbitraryStrideColumnMajor>)
        requires
            self.access_wf(),
            block_in_bounds(self.spec_layout().spec_dim(), top_left, dim),
        ensures
            r.access_wf(),
            r.spec_layout().spec_dim() == dim,
            r.spec_layout().spec_stride() == self.spec_layout().spec_stride(),
            shows_block(r, *self, top_left, dim),
    {
        proof {
            self.lemma_block_layout(top_left, dim);
        }
        let layout = ArbitraryStrideColumnMajor::new(dim, self.layout().stride());
        self.block_with(top_left, dim, layout)
    }
}

impl<Item: Copy, Data: DataContainerMut<Item = Item>> Matrix<Item, Data, RowMajor> {
    /// The rectangle of shape `dim` at `top_left`, without copying: a matrix that
    /// borrows mutably the part of the buffer the rectangle occupies. While it lives,
    /// the rest of the buffer stays as it was.
    pub fn block_mut<'a>(
        &'a mut self,
        top_left: (IndexType, IndexType),
        dim: (IndexType, IndexType),
    ) -> (r: SliceMatrixMut<'a, Item, ArbitraryStrideRowMajor>)
        requires
            old(self).access_wf(),
            block_in_bounds(old(self).spec_layout().spec_dim(), top_left, dim),
        ensures
            r.access_wf(),
            r.spec_layout().spec_dim() == dim,
            r.spec_layout().spec_stride() == old(self).spec_layout().spec_stride(),
            shows_block(r, *old(self), top_left, dim),
            final(self).spec_layout() == old(self).spec_layout(),
            final(self).spec_data() == splice(
                old(self).spec_data(),
                block_offset(old(self).spec_layout(), top_left, dim),
                block_offset(old(self).spec_layout(), top_left, dim) + strided_extent(
                    dim,
                    old(self).spec_layout().spec_stride(),
                ),
                final(r.spec_container().data)@,
            ),
    {
        proof {
            self.lemma_block_layout(top_left, dim);
        }
        let layout = ArbitraryStrideRowMajor::new(dim, self.layout().stride());
        self.block_mut_with(top_left, dim, layout)
    }
}

impl<Item: Copy, Data: DataContainerMut<Item = Item>> Matrix<Item, Data, ColumnMajor> {
    /// The rectangle of shape `dim` at `top_left`, without copying: a matrix that
    /// borrows mutably the part of the buffer the rectangle occupies. While it lives,
    /// the rest of the buffer stays as it was.
    pub fn block_mut<'a>(
        &'a mut self,
        top_left: (IndexType, IndexType),
        dim: (IndexType, IndexType),
    ) -> (r: SliceMatrixMut<'a, Item, ArbitraryStrideColumnMajor>)
        requires
            old(self).access_wf(),
            block_in_bounds(old(self).spec_layout().spec_dim(), top_left, dim),
        ensures
            r.access_wf(),
            r.spec_layout().spec_dim() == dim,
            r.spec_layout().spec_stride() == old(self).spec_layout().spec_stride(),
            shows_block(r, *old(self), top_left, dim),
            final(self).spec_layout() == old(self).spec_layout(),
            final(self).spec_data() == splice(
                old(self).spec_data(),
                block_offset(old(self).spec_layout(), top_left, dim),
                block_offset(old(self).spec_layout(), top_left, dim) + strided_extent(
                    dim,
                    old(self).spec_layout().spec_stride(),
                ),
                final(r.spec_container().data)@,
            ),
    {
        proof {
            self.lemma_block_layout(top_left, dim);
        }
        let layout = ArbitraryStrideColumnMajor::new(dim, self.layout().stride());
        self.block_mut_with(top_left, dim, layout)
    }
}

impl<Item: Copy, Data: DataContainerMut<Item = Item>> Matrix<Item, Data, ArbitraryStrideRowMajor> {
    /// The rectangle of shape `dim` at `top_left`, without copying: a matrix that
    /// borrows mutably the part of the buffer the rectangle occupies. While it lives,
    /// the rest of the buffer stays as it was.
    pub fn block_mut<'a>(
        &'a mut self,
        top_left: (IndexType, IndexType),
        dim: (IndexType, IndexType),
    ) -> (r: SliceMatrixMut<'a, Item, ArbitraryStrideRowMajor>)
        requires
            old(self).access_wf(),
            block_in_bounds(old(self).spec_layout().spec_dim(), top_left, dim),
        ensures
            r.access_wf(),
            r.spec_layout().spec_dim() == dim,
            r.spec_layout().spec_stride() == old(self).spec_layout().spec_stride(),
            shows_block(r, *old(self), top_left, dim),
            final(self).spec_layout() == old(self).spec_layout(),
            final(self).spec_data() == splice(
                old(self).spec_data(),
                block_offset(old(self).spec_layout(), top_left, dim),
                block_offset(old(self).spec_layout(), top_left, dim) + strided_extent(
                    dim,
                    old(self).spec_layout().spec_stride(),
                ),
                final(r.spec_container().data)@,
            ),
    {
        proof {
            self.lemma_block_layout(top_left, dim);
        }
        let layout = ArbitraryStrideRowMajor::new(dim, self.layout().stride());
        self.block_mut_with(top_left, dim, layout)
    }
}

impl<Item: Copy, Data: DataContainerMut<Item = Item>> Matrix<
    Item,
    Data,
    ArbitraryStrideColumnMajor,
> {
    /// The rectangle of shape `dim` at `top_left`, without copying: a matrix that
    /// borrows mutably the part of the buffer the rectangle occupies. While it lives,
    /// the rest of the buffer stays as it was.
    pub fn block_mut<'a>(
        &'a mut self,
        top_left: (IndexType, IndexType),
        dim: (IndexType, IndexType),
    ) -> (r: SliceMatrixMut<'a, Item, ArbitraryStrideColumnMajor>)
        requires
            old(self).access_wf(),
            block_in_bounds(old(self).spec_layout().spec_dim(), top_left, dim),
        ensures
            r.access_wf(),
            r.spec_layout().spec_dim() == dim,
            r.spec_layout().spec_stride() == old(self).spec_layout().spec_stride(),
            shows_block(r, *old(self), top_left, dim),
            final(self).spec_layout() == old(self).spec_layout(),
            final(self).spec_data() == splice(
                old(self).spec_data(),
                block_offset(old(self).spec_layout(), top_left, dim),
                block_offset(old(self).spec_layout(), top_left, dim) + strided_extent(
                    dim,
                    old(self).spec_layout().spec_stride(),
                ),
                final(r.spec_container().data)@,
            ),
    {
        proof {
            self.lemma_block_layout(top_left, dim);
        }
        let layout = ArbitraryStrideColumnMajor::new(dim, self.layout().stride());
        self.block_mut_with(top_left, dim, layout)
    }
}

impl<Item: Copy, Data: DataContainer<Item = Item>> Matrix<Item, Data, RowMajor> {
    /// Cut the matrix into four quadrants at `split_at = (r, c)`: the rows `0..r` and
    /// `r..rows` by the columns `0..c` and `c..cols`, in the order top-left, top-right,
    /// bottom-left, bottom-right. No two quadrants address the same buffer position,
    /// and each lies within the buffer.
    pub fn split_in_four(&self, split_at: (IndexType, IndexType)) -> (r: (
        Block<ArbitraryStrideRowMajor>,
        Block<ArbitraryStrideRowMajor>,
        Block<ArbitraryStrideRowMajor>,
        Block<ArbitraryStrideRowMajor>,
    ))
        requires
            self.access_wf(),
            split_at.0 <= self.spec_layout().spec_dim().0,
            split_at.1 <= self.spec_layout().spec_dim().1,
        ensures
            is_block_of(r.0, self.spec_layout(), (0, 0), split_at),
            is_block_of(
                r.1,
                self.spec_layout(),
                (0, split_at.1),
                (split_at.0, (self.spec_layout().spec_dim().1 - split_at.1) as IndexType),
            ),
            is_block_of(
                r.2,
                self.spec_layout(),
                (split_at.0, 0),
                ((self.spec_layout().spec_dim().0 - split_at.0) as IndexType, split_at.1),
            ),
            is_block_of(
                r.3,
                self.spec_layout(),
                split_at,
                (
                    (self.spec_layout().spec_dim().0 - split_at.0) as IndexType,
                    (self.spec_layout().spec_dim().1 - split_at.1) as IndexType,
                ),
            ),
            r.0.fits(self.spec_data().len()),
            r.1.fits(self.spec_data().len()),
            r.2.fits(self.spec_data().len()),
            r.3.fits(self.spec_data().len()),
            forall|p: int| !(r.0.covers(p) && r.1.covers(p)),
            forall|p: int| !(r.0.covers(p) && r.2.covers(p)),
            forall|p: int| !(r.0.covers(p) && r.3.covers(p)),
            forall|p: int| !(r.1.covers(p) && r.2.covers(p)),
            forall|p: int| !(r.1.covers(p) && r.3.covers(p)),
            forall|p: int| !(r.2.covers(p) && r.3.covers(p)),
            forall|p: int|
                r.0.covers(p) || r.1.covers(p) || r.2.covers(p) || r.3.covers(p)
                    <==> #[trigger] raw_offsets(self.spec_layout()).contains(p),
    {
        let dim = self.layout().dim();
        let stride = self.layout().stride();
        let origins: [(IndexType, IndexType); 4] = [
            (0, 0),
            (0, split_at.1),
            (split_at.0, 0),
            split_at,
        ];
        let dims: [(IndexType, IndexType); 4] = [
            split_at,
            (split_at.0, dim.1 - split_at.1),
            (dim.0 - split_at.0, split_at.1),
            (dim.0 - split_at.0, dim.1 - split_at.1),
        ];
        let b0 = self.quadrant(origins[0], dims[0]);
        let b1 = self.quadrant(origins[1], dims[1]);
        let b2 = self.quadrant(origins[2], dims[2]);
        let b3 = self.quadrant(origins[3], dims[3]);
        proof {
            let parent = self.spec_layout();
            crate::layouts::row_major::lemma_row_major_separate(parent);
            lemma_block_positions(b0, parent, origins[0], dims[0]);
            lemma_block_positions(b1, parent, origins[1], dims[1]);
            lemma_block_positions(b2, parent, origins[2], dims[2]);
            lemma_block_positions(b3, parent, origins[3], dims[3]);
            lemma_disjoint_blocks(parent, b0, origins[0], dims[0], b1, origins[1], dims[1]);
            lemma_disjoint_blocks(parent, b0, origins[0], dims[0], b2, origins[2], dims[2]);
            lemma_disjoint_blocks(parent, b0, origins[0], dims[0], b3, origins[3], dims[3]);
            lemma_disjoint_blocks(parent, b1, origins[1], dims[1], b2, origins[2], dims[2]);
            lemma_disjoint_blocks(parent, b1, origins[1], dims[1], b3, origins[3], dims[3]);
            lemma_disjoint_blocks(parent, b2, origins[2], dims[2], b3, origins[3], dims[3]);
            lemma_quadrants_cover(parent, split_at, b0, b1, b2, b3);
        }
        (b0, b1, b2, b3)
    }

    /// The block of the rectangle of shape `dim` at `top_left`.
    fn quadrant(&self, top_left: (IndexType, IndexType), dim: (IndexType, IndexType)) -> (r: Block<
        ArbitraryStrideRowMajor,
    >)
        requires
            self.access_wf(),
            block_in_bounds(self.spec_layout().spec_dim(), top_left, dim),
        ensures
            is_block_of(r, self.spec_layout(), top_left, dim),
    {
        proof {
            self.lemma_block_layout(top_left, dim);
        }
        let (start, end) = self.block_range(top_left, dim);
        Block { offset: start, layout: ArbitraryStrideRowMajor::new(dim, self.layout().stride()) }
    }
}

impl<Item: Copy, Data: DataContainer<Item = Item>, L: LayoutType> Matrix<Item, Data, L> {
    /// The element `(row, col)` of `block`, read from this matrix's buffer.
    pub fn block_get<L2: LayoutType>(
        &self,
        block: &Block<L2>,
        row: IndexType,
        col: IndexType,
    ) -> (r: Item)
        requires
            block.fits(self.spec_data().len()),
            block.layout.valid_2d(row as int, col as int),
        ensures
            r == self.spec_data()[block.spec_position(row as int, col as int)],
    {
        proof {
            block.layout.lemma_extent(row as int, col as int);
            block.layout.lemma_bounds();
        }
        let data = self.get_pointer();
        let raw = block.layout.convert_2d_raw(row, col);
        proof {
            assert(data@.len() == data.len());
        }
        data[block.offset + raw]
    }
}

impl<Item: Copy, Data: DataContainerMut<Item = Item>, L: LayoutType> Matrix<Item, Data, L> {
    /// A mutable reference to the element `(row, col)` of `block` in this matrix's
    /// buffer. Writing through it changes that buffer position and no other, so the
    /// elements of blocks that do not cover it stay as they were.
    pub fn block_get_mut<L2: LayoutType>(
        &mut self,
        block: &Block<L2>,
        row: IndexType,
        col: IndexType,
    ) -> (r: &mut Item)
        requires
            block.fits(old(self).spec_data().len()),
            block.layout.valid_2d(row as int, col as int),
        ensures
            *r == old(self).spec_data()[block.spec_position(row as int, col as int)],
            final(self).spec_layout() == old(self).spec_layout(),
            final(self).spec_data() == old(self).spec_data().update(
                block.spec_position(row as int, col as int),
                *final(r),
            ),
    {
        proof {
            block.layout.lemma_extent(row as int, col as int);
            block.layout.lemma_bounds();
        }
        let raw = block.layout.convert_2d_raw(row, col);
        let data = self.get_pointer_mut();
        proof {
            assert(data@.len() == data.len());
        }
        crate::data_container::slice_element_mut(data, block.offset + raw)
    }
}

} // verus!
