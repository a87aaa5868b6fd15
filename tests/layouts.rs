use rlst::layouts::arbitrary_stride_column_major::ArbitraryStrideColumnMajor;
use rlst::layouts::arbitrary_stride_column_vector::ArbitraryStrideColumnVector;
use rlst::layouts::arbitrary_stride_row_major::ArbitraryStrideRowMajor;
use rlst::layouts::arbitrary_stride_row_vector::ArbitraryStrideRowVector;
use rlst::layouts::column_major::ColumnMajor;
use rlst::layouts::column_vector::ColumnVector;
use rlst::layouts::row_major::RowMajor;
use rlst::layouts::row_vector::RowVector;
use rlst::layouts::upper_triangular::UpperTriangular;
use rlst::traits::layout::{BaseLayoutType, LayoutType, MemoryLayout, StridedLayoutType, VectorBaseLayoutType};
use std::collections::HashSet;

#[test]
fn test_upper_triangular_indexing() {
    let n = 5;

    let layout = UpperTriangular::new(n);

    let index = layout.convert_2d_1d(n - 1, n - 1);
    assert_eq!(index, 0);

    let index = layout.convert_2d_1d(n - 2, n - 1);
    assert_eq!(index, 2);

    let (row, col) = layout.convert_1d_2d(0);
    assert_eq!((row, col), (n - 1, n - 1));

    let (row, col) = layout.convert_1d_2d(2);
    assert_eq!((row, col), (n - 2, n - 1));

    let (row, col) = layout.convert_1d_2d((n * (n + 1)) / 2 - 1);
    assert_eq!((row, col), (0, n - 1));
}

#[test]
fn upper_triangular_visits_rows_from_the_bottom() {
    let layout = UpperTriangular::new(3);
    let expected = [(2, 2), (1, 1), (1, 2), (0, 0), (0, 1), (0, 2)];
    assert_eq!(layout.number_of_elements(), 6);
    for (index, coords) in expected.iter().enumerate() {
        assert_eq!(layout.convert_1d_2d(index), *coords);
        assert_eq!(layout.convert_2d_1d(coords.0, coords.1), index);
        assert_eq!(layout.convert_2d_raw(coords.0, coords.1), index);
        assert_eq!(layout.convert_1d_raw(index), index);
    }
    assert_eq!(layout.dim(), (3, 3));
    assert_eq!(layout.memory_layout(), MemoryLayout::CUSTOM);
}

#[test]
fn upper_triangular_large_round_trip() {
    let n = 300;
    let layout = UpperTriangular::from_dimension((n, n));
    for index in 0..layout.number_of_elements() {
        let (row, col) = layout.convert_1d_2d(index);
        assert!(row <= col && col < n);
        assert_eq!(layout.convert_2d_1d(row, col), index);
    }
}

fn check_round_trip<L: LayoutType>(layout: &L, valid: impl Fn(usize, usize) -> bool) {
    let (rows, cols) = layout.dim();
    for row in 0..rows {
        for col in 0..cols {
            if valid(row, col) {
                let index = layout.convert_2d_1d(row, col);
                assert!(index < layout.number_of_elements());
                assert_eq!(layout.convert_1d_2d(index), (row, col));
            }
        }
    }
    for index in 0..layout.number_of_elements() {
        let (row, col) = layout.convert_1d_2d(index);
        assert_eq!(layout.convert_2d_1d(row, col), index);
        assert_eq!(layout.convert_1d_raw(index), layout.convert_2d_raw(row, col));
    }
}

#[test]
fn round_trip_for_every_layout() {
    check_round_trip(&RowMajor::new((3, 4)), |_, _| true);
    check_round_trip(&ColumnMajor::new((3, 4)), |_, _| true);
    check_round_trip(&ArbitraryStrideRowMajor::new((3, 4), (10, 2)), |_, _| true);
    check_round_trip(&ArbitraryStrideColumnMajor::new((3, 4), (1, 7)), |_, _| true);
    check_round_trip(&RowVector::new(5), |_, _| true);
    check_round_trip(&ColumnVector::new(5), |_, _| true);
    check_round_trip(&ArbitraryStrideRowVector::new(5, 3), |_, _| true);
    check_round_trip(&ArbitraryStrideColumnVector::new(5, 3), |_, _| true);
    check_round_trip(&UpperTriangular::new(6), |row, col| row <= col);
}

#[test]
fn row_major_formulas() {
    let layout = RowMajor::new((3, 4));
    assert_eq!(layout.convert_2d_raw(2, 1), 9);
    assert_eq!(layout.convert_2d_1d(2, 1), 9);
    assert_eq!(layout.convert_1d_2d(9), (2, 1));
    assert_eq!(layout.stride(), (4, 1));
    assert_eq!(layout.number_of_elements(), 12);
    assert_eq!(layout.memory_layout(), MemoryLayout::C);
}

#[test]
fn column_major_formulas() {
    let layout = ColumnMajor::new((3, 4));
    assert_eq!(layout.convert_2d_raw(2, 1), 5);
    assert_eq!(layout.convert_1d_2d(5), (2, 1));
    assert_eq!(layout.stride(), (1, 3));
    assert_eq!(layout.memory_layout(), MemoryLayout::F);
    let base = ColumnMajor::from_dimension((2, 5));
    assert_eq!(base.dim(), (2, 5));
}

#[test]
fn strided_formulas() {
    let layout = ArbitraryStrideRowMajor::new((2, 3), (10, 2));
    assert_eq!(layout.convert_2d_raw(1, 2), 14);
    // Logical order stays row-major whatever the stride.
    assert_eq!(layout.convert_1d_2d(4), (1, 1));
    assert_eq!(layout.convert_1d_raw(4), 12);
    let layout = ArbitraryStrideColumnMajor::new((2, 3), (1, 5));
    assert_eq!(layout.convert_1d_2d(4), (0, 2));
    assert_eq!(layout.convert_1d_raw(4), 10);
    assert_eq!(layout.memory_layout(), MemoryLayout::CUSTOM);
}

#[test]
fn vector_layouts() {
    let row = RowVector::from_length(4);
    assert_eq!(row.dim(), (1, 4));
    assert_eq!(row.stride(), (1, 1));
    assert_eq!(row.convert_1d_2d(3), (0, 3));
    let col = ColumnVector::from_length(4);
    assert_eq!(col.dim(), (4, 1));
    assert_eq!(col.convert_2d_raw(3, 0), 3);
    let strided = ArbitraryStrideRowVector::new(4, 3);
    assert_eq!(strided.convert_1d_raw(2), 6);
    assert_eq!(strided.stride(), (3, 3));
    let strided = ArbitraryStrideColumnVector::new(4, 2);
    assert_eq!(strided.convert_2d_raw(3, 0), 6);
    assert_eq!(strided.dim(), (4, 1));
}

fn distinct_offsets<L: LayoutType>(layout: &L) -> usize {
    let (rows, cols) = layout.dim();
    let mut offsets = HashSet::new();
    for row in 0..rows {
        for col in 0..cols {
            offsets.insert(layout.convert_2d_raw(row, col));
        }
    }
    offsets.len()
}

#[test]
fn raw_offsets_are_distinct() {
    assert_eq!(distinct_offsets(&RowMajor::new((3, 4))), 12);
    assert_eq!(distinct_offsets(&ColumnMajor::new((3, 4))), 12);
    assert_eq!(distinct_offsets(&ArbitraryStrideRowMajor::new((3, 4), (9, 2))), 12);
    // Neither stride nests the other, yet no two cells share an offset.
    assert_eq!(distinct_offsets(&ArbitraryStrideRowMajor::new((2, 3), (3, 2))), 6);
    assert_eq!(distinct_offsets(&ArbitraryStrideColumnMajor::new((3, 2), (1, 3))), 6);
}

#[test]
fn layout_construction_is_idempotent() {
    let a = ArbitraryStrideRowMajor::new((3, 4), (10, 2));
    let b = ArbitraryStrideRowMajor::new((3, 4), (10, 2));
    for index in 0..12 {
        assert_eq!(a.convert_1d_2d(index), b.convert_1d_2d(index));
        assert_eq!(a.convert_1d_raw(index), b.convert_1d_raw(index));
    }
    for row in 0..3 {
        for col in 0..4 {
            assert_eq!(a.convert_2d_raw(row, col), b.convert_2d_raw(row, col));
            assert_eq!(a.convert_2d_1d(row, col), b.convert_2d_1d(row, col));
        }
    }
}
