use simd_filter::frame::{DataFrame, ShapeError};
use simd_filter::mock::{generate_mock_df, repeat_pattern, Animal, MOCK_REPEATS, MOCK_ROWS};
use simd_filter::naive::naive_filter_implementation;
use simd_filter::simd::{normalize_mask, simd_filter_implementation};

#[test]
fn a_rectangular_table_is_accepted() {
    let df = DataFrame::new(vec![vec![0, 1, 3], vec![4, 4, 4]], 3).unwrap();
    assert_eq!(df.nrow(), 3);
    assert_eq!(df.ncol(), 2);
    assert_eq!(df.column(0), &vec![0, 1, 3]);
    assert_eq!(df.column(1), &vec![4, 4, 4]);
}

#[test]
fn a_table_may_have_no_columns() {
    let df = DataFrame::new(Vec::new(), 12).unwrap();
    assert_eq!(df.nrow(), 12);
    assert_eq!(df.ncol(), 0);
}

#[test]
fn a_table_may_have_no_rows() {
    let df = DataFrame::new(vec![Vec::new(), Vec::new(), Vec::new()], 0).unwrap();
    assert_eq!(df.nrow(), 0);
    assert_eq!(df.ncol(), 3);
}

#[test]
fn a_short_column_is_refused() {
    let refused = DataFrame::new(vec![vec![0, 1, 3], vec![4, 4]], 3);
    assert_eq!(refused.err(), Some(ShapeError { column: 1, expected: 3, found: 2 }));
}

#[test]
fn a_long_column_is_refused() {
    let refused = DataFrame::new(vec![vec![0, 1, 3, 4], vec![4, 4, 4]], 3);
    assert_eq!(refused.err(), Some(ShapeError { column: 0, expected: 3, found: 4 }));
}

#[test]
fn the_first_bad_column_is_named() {
    let refused = DataFrame::new(vec![vec![1, 1], vec![1], vec![1, 1], vec![1, 1, 1]], 2);
    assert_eq!(refused.err(), Some(ShapeError { column: 1, expected: 2, found: 1 }));
}

#[test]
fn columns_of_one_length_that_is_not_the_row_count_are_refused() {
    let refused = DataFrame::new(vec![vec![1, 1], vec![1, 1]], 3);
    assert_eq!(refused.err(), Some(ShapeError { column: 0, expected: 3, found: 2 }));
}

#[test]
fn animal_codes_are_sparse() {
    assert_eq!(Animal::Cow.code(), 0);
    assert_eq!(Animal::Dog.code(), 1);
    assert_eq!(Animal::Cat.code(), 3);
    assert_eq!(Animal::Bat.code(), 4);
}

#[test]
fn a_pattern_is_repeated_in_order() {
    let pattern = [Animal::Bat, Animal::Dog, Animal::Dog, Animal::Cat];
    assert_eq!(repeat_pattern(pattern, 3), vec![4, 1, 1, 3, 4, 1, 1, 3, 4, 1, 1, 3]);
    assert_eq!(repeat_pattern(pattern, 1), vec![4, 1, 1, 3]);
    assert_eq!(repeat_pattern(pattern, 0), Vec::<i32>::new());
}

#[test]
fn the_sample_table_has_four_columns_of_patterns() {
    assert_eq!(MOCK_REPEATS, 100_000);
    assert_eq!(MOCK_ROWS, 400_000);
    let df = generate_mock_df();
    assert_eq!(df.nrow(), 400_000);
    assert_eq!(df.ncol(), 4);
    let patterns = [[0, 1, 3, 4], [1, 1, 1, 4], [4, 1, 1, 4], [3, 3, 3, 4]];
    for c in 0..4 {
        let column = df.column(c);
        assert_eq!(column.len(), 400_000);
        assert_eq!(&column[..4], &patterns[c][..]);
        assert_eq!(&column[399_996..], &patterns[c][..]);
        assert!((0..400_000).all(|row| column[row] == patterns[c][row % 4]));
    }
}

#[test]
fn bats_in_the_sample_table() {
    let df = generate_mock_df();
    let mask = naive_filter_implementation(&df, Animal::Bat.code());
    assert_eq!(mask.len(), 400_000);
    assert_eq!(&mask[..8], &[true, false, false, true, true, false, false, true]);
    assert!((0..400_000).all(|row| mask[row] == (row % 4 == 0 || row % 4 == 3)));
    let lanes = simd_filter_implementation(&df, Animal::Bat.code());
    assert_eq!(&lanes[..8], &[-1, 0, 0, -1, -1, 0, 0, -1]);
    assert_eq!(normalize_mask(&lanes), mask);
}

#[test]
fn cows_and_cats_in_the_sample_table() {
    let df = generate_mock_df();
    let cows = normalize_mask(&simd_filter_implementation(&df, Animal::Cow.code()));
    assert!((0..400_000).all(|row| cows[row] == (row % 4 == 0)));
    let cats = naive_filter_implementation(&df, Animal::Cat.code());
    assert!((0..400_000).all(|row| cats[row] == (row % 4 != 3)));
    let none = naive_filter_implementation(&df, 2);
    assert!(none.iter().all(|&flag| !flag));
}
