use radius_index::{IndexError, Neighbour, PairMatch, PyKdTree, RadiusMatch};
use std::sync::Mutex;

type Search = fn(&Vec<i32>, u32) -> Vec<Neighbour<u32>>;

fn line_index(n: i32) -> PyKdTree<i32> {
    PyKdTree::new(2, (0..n).map(|x| vec![x, 0]).collect()).unwrap()
}

// Points sit at x = 0, 1, 2, .. on a line; the distance is the difference in x.
fn line_search(n: i32) -> impl Fn(&Vec<i32>, u32) -> Vec<Neighbour<u32>> + Sync {
    move |query: &Vec<i32>, distance: u32| {
        (0..n)
            .filter(|x| x.abs_diff(query[0]) <= distance)
            .map(|x| Neighbour { item: x as u64, distance: x.abs_diff(query[0]) })
            .collect()
    }
}

#[test]
fn serial_radius_rows_come_in_query_order() {
    let index = line_index(4);
    let search = line_search(4);
    let queries = vec![vec![3, 0], vec![0, 0]];
    let rows = index.within_unsorted(1u32, &queries, false, Some(&search)).unwrap();
    assert_eq!(
        rows,
        vec![
            RadiusMatch { query_index: 0, point_index: 2, distance: 1 },
            RadiusMatch { query_index: 0, point_index: 3, distance: 0 },
            RadiusMatch { query_index: 1, point_index: 0, distance: 0 },
            RadiusMatch { query_index: 1, point_index: 1, distance: 1 },
        ]
    );
}

#[test]
fn serial_pair_rows_come_in_point_order() {
    let index = line_index(4);
    let search = line_search(4);
    let rows = index.query_pairs(2u32, false, Some(&search)).unwrap();
    assert_eq!(
        rows,
        vec![
            PairMatch { index_i: 0, index_j: 1, distance: 1 },
            PairMatch { index_i: 0, index_j: 2, distance: 2 },
            PairMatch { index_i: 1, index_j: 2, distance: 1 },
            PairMatch { index_i: 1, index_j: 3, distance: 2 },
            PairMatch { index_i: 2, index_j: 3, distance: 1 },
        ]
    );
}

#[test]
fn parallel_rows_are_the_serial_rows_in_some_order() {
    let index = line_index(40);
    let search = line_search(40);
    let queries: Vec<Vec<i32>> = (0..25).map(|x| vec![2 * x, 0]).collect();

    let serial = index.within_unsorted(3u32, &queries, false, Some(&search)).unwrap();
    let mut parallel = index.within_unsorted(3u32, &queries, true, Some(&search)).unwrap();
    let mut sorted = serial.clone();
    sorted.sort_by_key(|r| (r.query_index, r.point_index));
    parallel.sort_by_key(|r| (r.query_index, r.point_index));
    assert!(!serial.is_empty());
    assert_eq!(parallel, sorted);

    let serial = index.query_pairs(3u32, false, Some(&search)).unwrap();
    let mut parallel = index.query_pairs(3u32, true, Some(&search)).unwrap();
    let mut sorted = serial.clone();
    sorted.sort_by_key(|r| (r.index_i, r.index_j));
    parallel.sort_by_key(|r| (r.index_i, r.index_j));
    assert_eq!(serial.len(), 39 + 38 + 37);
    assert_eq!(parallel, sorted);
}

#[test]
fn each_query_point_is_searched_once_with_the_distance_given() {
    for parallel in [false, true] {
        let index = line_index(3);
        let seen: Mutex<Vec<(Vec<i32>, u32)>> = Mutex::new(Vec::new());
        let search = |query: &Vec<i32>, distance: u32| -> Vec<Neighbour<u32>> {
            seen.lock().unwrap().push((query.clone(), distance));
            Vec::new()
        };
        let queries = vec![vec![7, 1], vec![8, 2], vec![9, 3], vec![7, 1]];
        let rows = index.within_unsorted(6u32, &queries, parallel, Some(&search)).unwrap();
        assert!(rows.is_empty());
        let mut calls = seen.into_inner().unwrap();
        calls.sort();
        assert_eq!(
            calls,
            vec![(vec![7, 1], 6), (vec![7, 1], 6), (vec![8, 2], 6), (vec![9, 3], 6)]
        );
    }
}

#[test]
fn each_stored_point_is_searched_from_once() {
    for parallel in [false, true] {
        let index = PyKdTree::new(3, vec![vec![1, 2, 3], vec![4, 5, 6]]).unwrap();
        let seen: Mutex<Vec<(Vec<i32>, u32)>> = Mutex::new(Vec::new());
        let search = |query: &Vec<i32>, distance: u32| -> Vec<Neighbour<u32>> {
            seen.lock().unwrap().push((query.clone(), distance));
            Vec::new()
        };
        assert!(index.query_pairs(9u32, parallel, Some(&search)).unwrap().is_empty());
        let mut calls = seen.into_inner().unwrap();
        calls.sort();
        assert_eq!(calls, vec![(vec![1, 2, 3], 9), (vec![4, 5, 6], 9)]);
    }
}

#[test]
fn an_empty_index_answers_without_searching() {
    for dimensions in [2, 3] {
        let index: PyKdTree<i32> = PyKdTree::new(dimensions, Vec::new()).unwrap();
        let search = |_: &Vec<i32>, _: u32| -> Vec<Neighbour<u32>> {
            panic!("nothing to search");
        };
        let queries = vec![vec![0; dimensions]; 3];
        let none: Option<&Search> = None;
        for parallel in [false, true] {
            assert_eq!(index.within_unsorted(1u32, &queries, parallel, Some(&search)), Ok(vec![]));
            assert_eq!(index.within_unsorted(1u32, &queries, parallel, none), Ok(vec![]));
            assert_eq!(index.query_pairs(1u32, parallel, Some(&search)), Ok(vec![]));
            assert_eq!(index.query_pairs(1u32, parallel, none), Ok(vec![]));
        }
    }
}

#[test]
fn query_points_of_the_wrong_width_are_a_mismatch() {
    let index = line_index(3);
    let search = line_search(3);
    let none: Option<&Search> = None;
    let deep = vec![vec![0, 0], vec![1, 1, 1]];
    assert_eq!(
        index.within_unsorted(1u32, &deep, false, Some(&search)),
        Err(IndexError::DimensionMismatch)
    );
    assert_eq!(
        index.within_unsorted(1u32, &deep, true, Some(&search)),
        Err(IndexError::DimensionMismatch)
    );
    assert_eq!(index.within_unsorted(1u32, &deep, false, none), Err(IndexError::DimensionMismatch));

    let empty: PyKdTree<i32> = PyKdTree::new(3, Vec::new()).unwrap();
    let flat = vec![vec![0, 0]];
    assert_eq!(
        empty.within_unsorted(1u32, &flat, false, Some(&search)),
        Err(IndexError::DimensionMismatch)
    );
}

#[test]
fn stored_points_without_a_tree_are_uninitialized() {
    let index = line_index(3);
    let none: Option<&Search> = None;
    for parallel in [false, true] {
        assert_eq!(index.query_pairs(1u32, parallel, none), Err(IndexError::UninitializedIndex));
        assert_eq!(
            index.within_unsorted(1u32, &vec![vec![0, 0]], parallel, none),
            Err(IndexError::UninitializedIndex)
        );
        assert_eq!(
            index.within_unsorted(1u32, &Vec::new(), parallel, none),
            Err(IndexError::UninitializedIndex)
        );
    }
}

#[test]
fn no_query_points_give_no_rows() {
    let index = line_index(3);
    let search = line_search(3);
    for parallel in [false, true] {
        assert_eq!(index.within_unsorted(1u32, &Vec::new(), parallel, Some(&search)), Ok(vec![]));
    }
}

#[test]
fn a_query_that_matches_nothing_has_no_row() {
    let index = line_index(3);
    let search = line_search(3);
    let queries = vec![vec![100, 0], vec![1, 0], vec![-100, 0]];
    let rows = index.within_unsorted(0u32, &queries, false, Some(&search)).unwrap();
    assert_eq!(rows, vec![RadiusMatch { query_index: 1, point_index: 1, distance: 0 }]);
}

#[test]
fn pairs_are_reported_once_with_the_smaller_index_first() {
    let index = line_index(6);
    let search = line_search(6);
    for parallel in [false, true] {
        let rows = index.query_pairs(2u32, parallel, Some(&search)).unwrap();
        for i in 0..6u64 {
            for j in 0..6u64 {
                let times = rows.iter().filter(|r| r.index_i == i && r.index_j == j).count();
                let close = i != j && i.abs_diff(j) <= 2;
                assert_eq!(times, if close && i < j { 1 } else { 0 });
            }
        }
        assert!(rows.iter().all(|r| r.distance as u64 == r.index_j - r.index_i));
    }
}
