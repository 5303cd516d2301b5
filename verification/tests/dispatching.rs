use radius_index::{chunk_size, dispatch, dispatch_with_workers, run_chunk};
use std::sync::atomic::{AtomicUsize, Ordering};

fn rows_of_item(i: usize) -> Vec<(usize, usize)> {
    (0..i % 4).map(|k| (i, k)).collect()
}

fn expected_rows(n: usize) -> Vec<(usize, usize)> {
    (0..n).flat_map(rows_of_item).collect()
}

#[test]
fn chunk_size_is_an_even_share_rounded_down() {
    assert_eq!(chunk_size(10, 4), 2);
    assert_eq!(chunk_size(100, 8), 12);
    assert_eq!(chunk_size(9, 1), 9);
    assert_eq!(chunk_size(8, 8), 1);
    assert_eq!(chunk_size(16, 8), 2);
}

#[test]
fn chunk_size_is_never_zero() {
    assert_eq!(chunk_size(3, 8), 1);
    assert_eq!(chunk_size(0, 4), 1);
    assert_eq!(chunk_size(0, 0), 1);
    assert_eq!(chunk_size(1, usize::MAX), 1);
}

#[test]
fn chunk_size_without_workers_is_the_whole_workload() {
    assert_eq!(chunk_size(7, 0), 7);
}

#[test]
fn run_chunk_joins_the_results_in_item_order() {
    let rows = run_chunk(&vec![5, 2, 7], &rows_of_item);
    assert_eq!(rows, vec![(5, 0), (2, 0), (2, 1), (7, 0), (7, 1), (7, 2)]);
}

#[test]
fn run_chunk_of_no_items_is_empty() {
    let rows = run_chunk(&Vec::new(), &rows_of_item);
    assert!(rows.is_empty());
}

#[test]
fn serial_dispatch_keeps_item_order() {
    let rows = dispatch(23, false, &rows_of_item);
    assert_eq!(rows, expected_rows(23));
}

#[test]
fn parallel_dispatch_returns_the_rows_of_a_serial_run() {
    let mut rows = dispatch(23, true, &rows_of_item);
    rows.sort();
    let mut expected = expected_rows(23);
    expected.sort();
    assert_eq!(rows, expected);
}

#[test]
fn dispatch_of_no_items_is_empty() {
    assert!(dispatch(0, false, &rows_of_item).is_empty());
    assert!(dispatch(0, true, &rows_of_item).is_empty());
    assert!(dispatch_with_workers(0, 3, &rows_of_item).is_empty());
}

#[test]
fn any_worker_count_returns_the_same_rows() {
    let mut expected = expected_rows(37);
    expected.sort();
    for workers in [0, 1, 2, 3, 5, 36, 37, 38, 1000] {
        let mut rows = dispatch_with_workers(37, workers, &rows_of_item);
        rows.sort();
        assert_eq!(rows, expected);
    }
}

#[test]
fn every_item_is_handed_to_the_job_exactly_once() {
    for parallel in [false, true] {
        let calls: Vec<AtomicUsize> = (0..50).map(|_| AtomicUsize::new(0)).collect();
        let job = |i: usize| -> Vec<usize> {
            calls[i].fetch_add(1, Ordering::SeqCst);
            vec![i]
        };
        let rows = dispatch(50, parallel, &job);
        assert_eq!(rows.len(), 50);
        assert!(calls.iter().all(|c| c.load(Ordering::SeqCst) == 1));
    }
}
