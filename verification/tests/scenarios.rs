use kiddo::{ImmutableKdTree, SquaredEuclidean};
use radius_index::{IndexError, Neighbour, PairMatch, PyKdTree, RadiusMatch};

fn search_2d(
    tree: &ImmutableKdTree<f32, 2>,
    query: &Vec<f32>,
    distance: f32,
) -> Vec<Neighbour<f32>> {
    tree.within_unsorted::<SquaredEuclidean>(&[query[0], query[1]], distance * distance)
        .into_iter()
        .map(|n| Neighbour { item: n.item, distance: n.distance.sqrt() })
        .collect()
}

fn search_3d(
    tree: &ImmutableKdTree<f32, 3>,
    query: &Vec<f32>,
    distance: f32,
) -> Vec<Neighbour<f32>> {
    tree.within_unsorted::<SquaredEuclidean>(&[query[0], query[1], query[2]], distance * distance)
        .into_iter()
        .map(|n| Neighbour { item: n.item, distance: n.distance.sqrt() })
        .collect()
}

fn tree_2d(index: &PyKdTree<f32>) -> ImmutableKdTree<f32, 2> {
    let points: Vec<[f32; 2]> = index.points().iter().map(|p| [p[0], p[1]]).collect();
    ImmutableKdTree::new_from_slice(&points)
}

fn tree_3d(index: &PyKdTree<f32>) -> ImmutableKdTree<f32, 3> {
    let points: Vec<[f32; 3]> = index.points().iter().map(|p| [p[0], p[1], p[2]]).collect();
    ImmutableKdTree::new_from_slice(&points)
}

fn three_points() -> Vec<Vec<f32>> {
    vec![vec![0.0, 0.0], vec![3.0, 4.0], vec![10.0, 10.0]]
}

#[test]
fn pairs_at_the_threshold_are_included() {
    let index = PyKdTree::new(2, three_points()).unwrap();
    let tree = tree_2d(&index);
    let search = |q: &Vec<f32>, d: f32| search_2d(&tree, q, d);
    for parallel in [false, true] {
        let rows = index.query_pairs(5.0f32, parallel, Some(&search)).unwrap();
        assert_eq!(rows, vec![PairMatch { index_i: 0, index_j: 1, distance: 5.0 }]);
    }
}

#[test]
fn radius_query_includes_the_query_point_itself() {
    let index = PyKdTree::new(2, three_points()).unwrap();
    let tree = tree_2d(&index);
    let search = |q: &Vec<f32>, d: f32| search_2d(&tree, q, d);
    for parallel in [false, true] {
        let mut rows =
            index.within_unsorted(5.0f32, &vec![vec![0.0, 0.0]], parallel, Some(&search)).unwrap();
        rows.sort_by_key(|r| r.point_index);
        assert_eq!(
            rows,
            vec![
                RadiusMatch { query_index: 0, point_index: 0, distance: 0.0 },
                RadiusMatch { query_index: 0, point_index: 1, distance: 5.0 },
            ]
        );
    }
}

#[test]
fn distant_points_in_space_form_no_pair() {
    let index = PyKdTree::new(3, vec![vec![0.0f32, 0.0, 0.0], vec![1.0, 1.0, 1.0]]).unwrap();
    let tree = tree_3d(&index);
    let search = |q: &Vec<f32>, d: f32| search_3d(&tree, q, d);
    for parallel in [false, true] {
        let rows = index.query_pairs(0.5f32, parallel, Some(&search)).unwrap();
        assert!(rows.is_empty());
    }
}

#[test]
fn points_without_a_tree_cannot_be_searched() {
    let index = PyKdTree::new(2, three_points()).unwrap();
    let none: Option<&fn(&Vec<f32>, f32) -> Vec<Neighbour<f32>>> = None;
    assert_eq!(index.query_pairs(5.0f32, false, none), Err(IndexError::UninitializedIndex));
    assert_eq!(
        index.within_unsorted(5.0f32, &vec![vec![0.0, 0.0]], false, none),
        Err(IndexError::UninitializedIndex)
    );
}
