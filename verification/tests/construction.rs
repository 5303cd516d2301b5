use radius_index::{rows_have_width, IndexError, PyKdTree};

#[test]
fn dimensions_other_than_two_or_three_are_invalid() {
    for dimensions in [0, 1, 4, 5, 100, usize::MAX] {
        let empty: Vec<Vec<f32>> = Vec::new();
        assert_eq!(PyKdTree::new(dimensions, empty).err(), Some(IndexError::InvalidDimension));
        let fitting = vec![vec![0.0f32; dimensions.min(8)]];
        assert_eq!(PyKdTree::new(dimensions, fitting).err(), Some(IndexError::InvalidDimension));
    }
}

#[test]
fn an_invalid_dimension_is_reported_before_a_wrong_point() {
    let points = vec![vec![1.0f32, 2.0, 3.0]];
    assert_eq!(PyKdTree::new(4, points).err(), Some(IndexError::InvalidDimension));
}

#[test]
fn points_of_the_wrong_width_are_a_mismatch() {
    let flat = vec![vec![0.0f32, 0.0], vec![1.0, 1.0]];
    assert_eq!(PyKdTree::new(3, flat).err(), Some(IndexError::DimensionMismatch));
    let deep = vec![vec![0.0f32, 0.0, 0.0]];
    assert_eq!(PyKdTree::new(2, deep).err(), Some(IndexError::DimensionMismatch));
}

#[test]
fn one_wrong_point_among_many_is_a_mismatch() {
    let mut points = vec![vec![0.0f32, 0.0]; 10];
    points[6] = vec![0.0];
    assert_eq!(PyKdTree::new(2, points).err(), Some(IndexError::DimensionMismatch));
    let mut last = vec![vec![0.0f32, 0.0, 0.0]; 10];
    last[9] = Vec::new();
    assert_eq!(PyKdTree::new(3, last).err(), Some(IndexError::DimensionMismatch));
}

#[test]
fn no_points_build_an_empty_index() {
    for dimensions in [2, 3] {
        let empty: Vec<Vec<f32>> = Vec::new();
        let index = PyKdTree::new(dimensions, empty).unwrap();
        assert_eq!(index.size(), 0);
        assert_eq!(index.dimensions(), dimensions);
        assert!(index.points().is_empty());
    }
}

#[test]
fn the_index_keeps_the_points_in_the_order_given() {
    let points = vec![vec![9.0f32, 1.0, 4.0], vec![0.5, 0.25, 0.125], vec![9.0, 1.0, 4.0]];
    let index = PyKdTree::new(3, points.clone()).unwrap();
    assert_eq!(index.size(), 3);
    assert_eq!(index.dimensions(), 3);
    assert_eq!(index.points(), &points);
}

#[test]
fn rows_have_width_checks_every_row() {
    let rows = vec![vec![1u8, 2], vec![3, 4], vec![5, 6]];
    assert!(rows_have_width(&rows, 2));
    assert!(!rows_have_width(&rows, 3));
    let ragged = vec![vec![1u8, 2], vec![3], vec![5, 6]];
    assert!(!rows_have_width(&ragged, 2));
    assert!(!rows_have_width(&ragged, 1));
    let none: Vec<Vec<u8>> = Vec::new();
    assert!(rows_have_width(&none, 2));
    assert!(rows_have_width(&none, 0));
}
