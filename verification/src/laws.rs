use crate::error::IndexError;
use crate::index::{all_have_width, build_error, valid_dimension, PyKdTree};
use crate::query::{
    found_for, is_pair_result, is_radius_result, may_find, pair_query_error, pair_rows,
    radius_query_error, radius_rows,
};
use crate::records::{
    pair_row, pair_rows_of, radius_row, radius_rows_of, Neighbour, PairMatch, RadiusMatch,
};
use crate::seq_facts::{
    lemma_filter_map_contains_iff, lemma_filter_map_no_duplicates, lemma_flatten_contains,
    lemma_flatten_no_duplicates,
};
use vstd::prelude::*;

verus! {

/// A dimensionality other than 2 or 3 is refused as such, whatever the
/// points are. With 2 or 3 dimensions, one point of another width is enough
/// for the points to be refused.
pub proof fn lemma_dimensions_are_checked<C>(dimensions: usize, points: Seq<Vec<C>>, k: int)
    ensures
        !valid_dimension(dimensions) ==> build_error(dimensions, points) == Some(
            IndexError::InvalidDimension,
        ),
        valid_dimension(dimensions) && 0 <= k < points.len() && points[k]@.len() != dimensions
            ==> build_error(dimensions, points) == Some(IndexError::DimensionMismatch),
{
}

/// No points at all are no error: in 2 and in 3 dimensions the empty index
/// can be built.
pub proof fn lemma_no_points_build<C>(dimensions: usize)
    requires
        valid_dimension(dimensions),
    ensures
        build_error(dimensions, Seq::<Vec<C>>::empty()) is None,
{
}

/// An index without points fails no query for want of a tree: a radius
/// query for points of the right width and a pair enumeration both succeed,
/// with a tree or without.
pub proof fn lemma_empty_index_needs_no_tree<C>(
    index: &PyKdTree<C>,
    queries: Seq<Vec<C>>,
    has_tree: bool,
)
    requires
        index.len() == 0,
        all_have_width(queries, index.dims()),
    ensures
        radius_query_error(index, queries, has_tree) is None,
        pair_query_error(index, has_tree) is None,
{
}

/// `found` names no stored point twice.
pub open spec fn names_once<D>(found: Seq<Neighbour<D>>) -> bool {
    forall|a: int, b: int|
        0 <= a < b < found.len() ==> (#[trigger] found[a]).item != (#[trigger] found[b]).item
}

/// Two pairs name the same two points in the same order.
pub open spec fn same_pair<D>(x: PairMatch<D>, y: PairMatch<D>) -> bool {
    x.index_i == y.index_i && x.index_j == y.index_j
}

/// The rows of one query point are its neighbours, tagged.
proof fn lemma_radius_rows_of_contains<D>(q: usize, found: Seq<Neighbour<D>>, row: RadiusMatch<D>)
    ensures
        radius_rows_of(q, found).contains(row) <==> row.query_index == q && found.contains(
            Neighbour { item: row.point_index, distance: row.distance },
        ),
{
    let rows = radius_rows_of(q, found);
    let n = Neighbour { item: row.point_index, distance: row.distance };
    if rows.contains(row) {
        let p = choose|p: int| 0 <= p < rows.len() && rows[p] == row;
        assert(found[p] == n);
    }
    if row.query_index == q && found.contains(n) {
        let p = choose|p: int| 0 <= p < found.len() && found[p] == n;
        assert(rows[p] == row);
    }
}

/// The pairs of one stored point are its later neighbours, tagged.
proof fn lemma_pair_rows_of_contains<D>(i: u64, found: Seq<Neighbour<D>>, row: PairMatch<D>)
    ensures
        pair_rows_of(i, found).contains(row) <==> row.index_i == i && i < row.index_j
            && found.contains(Neighbour { item: row.index_j, distance: row.distance }),
{
    let keep = |n: Neighbour<D>| pair_row(i, n);
    let n = Neighbour { item: row.index_j, distance: row.distance };
    lemma_filter_map_contains_iff(found, keep, row);
    if pair_rows_of(i, found).contains(row) {
        let p = choose|p: int| 0 <= p < found.len() && keep(#[trigger] found[p]) == Some(row);
        assert(found[p] == n);
    }
    if row.index_i == i && i < row.index_j && found.contains(n) {
        let p = choose|p: int| 0 <= p < found.len() && found[p] == n;
        assert(keep(found[p]) == Some(row));
    }
}

/// A radius query reports what the searches reported, and nothing else: a
/// row stands in the result exactly if the search for its query point named
/// its point, at its distance.
pub proof fn lemma_radius_rows_are_the_reports<D>(
    found: Seq<Seq<Neighbour<D>>>,
    row: RadiusMatch<D>,
)
    requires
        found.len() <= usize::MAX,
    ensures
        radius_rows(found).contains(row) <==> row.query_index < found.len()
            && found[row.query_index as int].contains(
            Neighbour { item: row.point_index, distance: row.distance },
        ),
{
    let parts = Seq::new(found.len(), |q: int| radius_rows_of(q as usize, found[q]));
    lemma_flatten_contains(parts, row);
    if radius_rows(found).contains(row) {
        let k = choose|k: int| 0 <= k < parts.len() && (#[trigger] parts[k]).contains(row);
        lemma_radius_rows_of_contains(k as usize, found[k], row);
    }
    if row.query_index < found.len() {
        let k = row.query_index as int;
        lemma_radius_rows_of_contains(k as usize, found[k], row);
        assert(parts[k] == radius_rows_of(k as usize, found[k]));
    }
}

/// A pair enumeration reports a pair exactly if the search from its first
/// point named its second point, at its distance, and the second point is
/// stored after the first. So a row never pairs a point with itself, and
/// never lists the larger index first.
pub proof fn lemma_pair_rows_are_the_later_reports<D>(
    found: Seq<Seq<Neighbour<D>>>,
    row: PairMatch<D>,
)
    requires
        found.len() <= usize::MAX,
    ensures
        pair_rows(found).contains(row) <==> row.index_i < found.len() && row.index_i
            < row.index_j && found[row.index_i as int].contains(
            Neighbour { item: row.index_j, distance: row.distance },
        ),
{
    let parts = Seq::new(found.len(), |i: int| pair_rows_of(i as u64, found[i]));
    lemma_flatten_contains(parts, row);
    if pair_rows(found).contains(row) {
        let k = choose|k: int| 0 <= k < parts.len() && (#[trigger] parts[k]).contains(row);
        lemma_pair_rows_of_contains(k as u64, found[k], row);
    }
    if row.index_i < found.len() {
        let k = row.index_i as int;
        lemma_pair_rows_of_contains(k as u64, found[k], row);
        assert(parts[k] == pair_rows_of(k as u64, found[k]));
    }
}

/// Where no search names a point twice, a pair enumeration lists no row
/// twice, and two rows that name the same pair are the same row.
pub proof fn lemma_pair_rows_name_no_pair_twice<D>(found: Seq<Seq<Neighbour<D>>>)
    requires
        found.len() <= usize::MAX,
        forall|i: int| 0 <= i < found.len() ==> names_once(#[trigger] found[i]),
    ensures
        pair_rows(found).no_duplicates(),
        forall|x: PairMatch<D>, y: PairMatch<D>|
            pair_rows(found).contains(x) && pair_rows(found).contains(y) && same_pair(x, y) ==> x
                == y,
{
    let parts = Seq::new(found.len(), |i: int| pair_rows_of(i as u64, found[i]));
    assert forall|k: int| 0 <= k < parts.len() implies (#[trigger] parts[k]).no_duplicates() by {
        let keep = |n: Neighbour<D>| pair_row(k as u64, n);
        assert(names_once(found[k]));
        lemma_filter_map_no_duplicates(found[k], keep);
    }
    assert forall|i: int, j: int, x: PairMatch<D>|
        #![trigger parts[i].contains(x), parts[j].contains(x)]
        0 <= i < j < parts.len() && parts[i].contains(x) implies !parts[j].contains(x) by {
        lemma_pair_rows_of_contains(i as u64, found[i], x);
        lemma_pair_rows_of_contains(j as u64, found[j], x);
    }
    lemma_flatten_no_duplicates(parts);
    assert forall|x: PairMatch<D>, y: PairMatch<D>|
        pair_rows(found).contains(x) && pair_rows(found).contains(y) && same_pair(
            x,
            y,
        ) implies x == y by {
        lemma_pair_rows_are_the_later_reports(found, x);
        lemma_pair_rows_are_the_later_reports(found, y);
        let from = found[x.index_i as int];
        assert(names_once(from));
        let nx = Neighbour { item: x.index_j, distance: x.distance };
        let ny = Neighbour { item: y.index_j, distance: y.distance };
        let px = choose|p: int| 0 <= p < from.len() && from[p] == nx;
        let py = choose|p: int| 0 <= p < from.len() && from[p] == ny;
        assert(from[px].item == from[py].item);
        assert(px == py);
    }
}

/// Two sequences that hold the same rows, whatever their order, hold the
/// same values, and neither repeats a row unless the other does.
proof fn lemma_same_rows<T>(a: Seq<T>, b: Seq<T>)
    requires
        a.to_multiset() == b.to_multiset(),
    ensures
        forall|x: T| a.contains(x) <==> b.contains(x),
        b.no_duplicates() ==> a.no_duplicates(),
{
    broadcast use vstd::seq_lib::group_to_multiset_ensures;

    assert forall|x: T| a.contains(x) <==> b.contains(x) by {
        assert(a.contains(x) <==> a.to_multiset().count(x) > 0);
        assert(b.contains(x) <==> b.to_multiset().count(x) > 0);
    }
    if b.no_duplicates() {
        b.lemma_multiset_has_no_duplicates();
        a.lemma_multiset_has_no_duplicates_conv();
    }
}

/// The search answers each of `queries` in one way only: two reports it may
/// make for the same query point are the same report.
pub open spec fn search_is_determined<C, D, F: Fn(&Vec<C>, D) -> Vec<Neighbour<D>>>(
    search: &F,
    queries: Seq<Vec<C>>,
    distance: D,
) -> bool {
    forall|q: int, f1: Seq<Neighbour<D>>, f2: Seq<Neighbour<D>>|
        #![trigger
            may_find(search, &queries[q], distance, f1),
            may_find(search, &queries[q], distance, f2)
        ]
        0 <= q < queries.len() && may_find(search, &queries[q], distance, f1) && may_find(
            search,
            &queries[q],
            distance,
            f2,
        ) ==> f1 == f2
}

/// No report the search may make from one of `points` names a point twice.
pub open spec fn search_names_once<C, D, F: Fn(&Vec<C>, D) -> Vec<Neighbour<D>>>(
    search: &F,
    points: Seq<Vec<C>>,
    distance: D,
) -> bool {
    forall|i: int, f: Seq<Neighbour<D>>|
        0 <= i < points.len() && #[trigger] may_find(search, &points[i], distance, f)
            ==> names_once(f)
}

/// Every report the search may make from the stored point `from` names the
/// stored point `to`: the search finds `to` within `distance` of `from`.
pub open spec fn always_finds<C, D, F: Fn(&Vec<C>, D) -> Vec<Neighbour<D>>>(
    search: &F,
    points: Seq<Vec<C>>,
    distance: D,
    from: int,
    to: u64,
) -> bool {
    forall|f: Seq<Neighbour<D>>| #[trigger]
        may_find(search, &points[from], distance, f) ==> exists|k: int|
            0 <= k < f.len() && (#[trigger] f[k]).item == to
}

/// Exactly one row of `rows` names the pair `(i, j)`.
pub open spec fn appears_once<D>(rows: Seq<PairMatch<D>>, i: u64, j: u64) -> bool {
    exists|k: int|
        {
            &&& 0 <= k < rows.len()
            &&& (#[trigger] rows[k]).index_i == i
            &&& rows[k].index_j == j
            &&& forall|m: int|
                0 <= m < rows.len() && m != k ==> !((#[trigger] rows[m]).index_i == i
                    && rows[m].index_j == j)
        }
}

/// No row of `rows` names the pair `(i, j)`.
pub open spec fn never_appears<D>(rows: Seq<PairMatch<D>>, i: u64, j: u64) -> bool {
    forall|k: int|
        0 <= k < rows.len() ==> !((#[trigger] rows[k]).index_i == i && rows[k].index_j == j)
}

/// Serial and parallel runs of a radius query give the same rows. A result
/// of a serial run is a result of a parallel run as it stands, and every
/// result of a parallel run holds, as a multiset, the rows of a result of a
/// serial run: `twin`.
pub proof fn lemma_radius_modes_give_the_same_rows<
    C,
    D,
    F: Fn(&Vec<C>, D) -> Vec<Neighbour<D>>,
>(
    search: &F,
    queries: Seq<Vec<C>>,
    distance: D,
    rows: Seq<RadiusMatch<D>>,
) -> (twin: Seq<RadiusMatch<D>>)
    requires
        is_radius_result(search, queries, distance, rows, false),
    ensures
        is_radius_result(search, queries, distance, twin, true),
        is_radius_result(search, queries, distance, twin, false),
        twin.to_multiset() == rows.to_multiset(),
{
    let found = choose|found: Seq<Seq<Neighbour<D>>>|
        {
            &&& found_for(search, queries, distance, found)
            &&& rows.to_multiset() == radius_rows(found).to_multiset()
            &&& false ==> rows == radius_rows(found)
        };
    radius_rows(found)
}

/// Serial and parallel runs of a pair enumeration give the same rows. A
/// result of a serial run is a result of a parallel run as it stands, and
/// every result of a parallel run holds, as a multiset, the rows of a result
/// of a serial run: `twin`.
pub proof fn lemma_pair_modes_give_the_same_rows<C, D, F: Fn(&Vec<C>, D) -> Vec<Neighbour<D>>>(
    search: &F,
    points: Seq<Vec<C>>,
    distance: D,
    rows: Seq<PairMatch<D>>,
) -> (twin: Seq<PairMatch<D>>)
    requires
        is_pair_result(search, points, distance, rows, false),
    ensures
        is_pair_result(search, points, distance, twin, true),
        is_pair_result(search, points, distance, twin, false),
        twin.to_multiset() == rows.to_multiset(),
{
    let found = choose|found: Seq<Seq<Neighbour<D>>>|
        {
            &&& found_for(search, points, distance, found)
            &&& rows.to_multiset() == pair_rows(found).to_multiset()
            &&& false ==> rows == pair_rows(found)
        };
    pair_rows(found)
}

/// With a search that answers each query point in one way only, a serial
/// and a parallel run of the same radius query return the same multiset of
/// rows.
pub proof fn lemma_radius_modes_agree<C, D, F: Fn(&Vec<C>, D) -> Vec<Neighbour<D>>>(
    search: &F,
    queries: Seq<Vec<C>>,
    distance: D,
    serial: Seq<RadiusMatch<D>>,
    parallel: Seq<RadiusMatch<D>>,
)
    requires
        search_is_determined(search, queries, distance),
        is_radius_result(search, queries, distance, serial, true),
        is_radius_result(search, queries, distance, parallel, false),
    ensures
        serial.to_multiset() == parallel.to_multiset(),
{
    let a = choose|found: Seq<Seq<Neighbour<D>>>|
        {
            &&& found_for(search, queries, distance, found)
            &&& serial.to_multiset() == radius_rows(found).to_multiset()
            &&& true ==> serial == radius_rows(found)
        };
    let b = choose|found: Seq<Seq<Neighbour<D>>>|
        {
            &&& found_for(search, queries, distance, found)
            &&& parallel.to_multiset() == radius_rows(found).to_multiset()
            &&& false ==> parallel == radius_rows(found)
        };
    assert forall|q: int| 0 <= q < queries.len() implies a[q] == b[q] by {
        assert(may_find(search, &queries[q], distance, a[q]));
        assert(may_find(search, &queries[q], distance, b[q]));
    }
    assert(a =~= b);
}

/// With a search that answers from each stored point in one way only, a
/// serial and a parallel run of the same pair enumeration return the same
/// multiset of rows.
pub proof fn lemma_pair_modes_agree<C, D, F: Fn(&Vec<C>, D) -> Vec<Neighbour<D>>>(
    search: &F,
    points: Seq<Vec<C>>,
    distance: D,
    serial: Seq<PairMatch<D>>,
    parallel: Seq<PairMatch<D>>,
)
    requires
        search_is_determined(search, points, distance),
        is_pair_result(search, points, distance, serial, true),
        is_pair_result(search, points, distance, parallel, false),
    ensures
        serial.to_multiset() == parallel.to_multiset(),
{
    let a = choose|found: Seq<Seq<Neighbour<D>>>|
        {
            &&& found_for(search, points, distance, found)
            &&& serial.to_multiset() == pair_rows(found).to_multiset()
            &&& true ==> serial == pair_rows(found)
        };
    let b = choose|found: Seq<Seq<Neighbour<D>>>|
        {
            &&& found_for(search, points, distance, found)
            &&& parallel.to_multiset() == pair_rows(found).to_multiset()
            &&& false ==> parallel == pair_rows(found)
        };
    assert forall|i: int| 0 <= i < points.len() implies a[i] == b[i] by {
        assert(may_find(search, &points[i], distance, a[i]));
        assert(may_find(search, &points[i], distance, b[i]));
    }
    assert(a =~= b);
}

/// Every row of a radius query stands for a report: its query index counts
/// a query point, and a search for that query point named the row's point at
/// the row's distance.
pub proof fn lemma_radius_row_was_reported<C, D, F: Fn(&Vec<C>, D) -> Vec<Neighbour<D>>>(
    search: &F,
    queries: Seq<Vec<C>>,
    distance: D,
    rows: Seq<RadiusMatch<D>>,
    in_order: bool,
    k: int,
)
    requires
        queries.len() <= usize::MAX,
        is_radius_result(search, queries, distance, rows, in_order),
        0 <= k < rows.len(),
    ensures
        rows[k].query_index < queries.len(),
        exists|f: Seq<Neighbour<D>>|
            may_find(search, &queries[rows[k].query_index as int], distance, f) && f.contains(
                Neighbour { item: rows[k].point_index, distance: rows[k].distance },
            ),
{
    let found = choose|found: Seq<Seq<Neighbour<D>>>|
        {
            &&& found_for(search, queries, distance, found)
            &&& rows.to_multiset() == radius_rows(found).to_multiset()
            &&& in_order ==> rows == radius_rows(found)
        };
    lemma_same_rows(rows, radius_rows(found));
    assert(rows.contains(rows[k]));
    lemma_radius_rows_are_the_reports(found, rows[k]);
    let q = rows[k].query_index as int;
    assert(may_find(search, &queries[q], distance, found[q]));
}

/// A stored point that every search for query point `q` names, at one
/// distance, has its row in the result of a radius query.
pub proof fn lemma_reported_point_has_its_row<C, D, F: Fn(&Vec<C>, D) -> Vec<Neighbour<D>>>(
    search: &F,
    queries: Seq<Vec<C>>,
    distance: D,
    rows: Seq<RadiusMatch<D>>,
    in_order: bool,
    q: usize,
    n: Neighbour<D>,
)
    requires
        queries.len() <= usize::MAX,
        is_radius_result(search, queries, distance, rows, in_order),
        q < queries.len(),
        forall|f: Seq<Neighbour<D>>| #[trigger]
            may_find(search, &queries[q as int], distance, f) ==> f.contains(n),
    ensures
        rows.contains(radius_row(q, n)),
{
    let found = choose|found: Seq<Seq<Neighbour<D>>>|
        {
            &&& found_for(search, queries, distance, found)
            &&& rows.to_multiset() == radius_rows(found).to_multiset()
            &&& in_order ==> rows == radius_rows(found)
        };
    lemma_same_rows(rows, radius_rows(found));
    assert(may_find(search, &queries[q as int], distance, found[q as int]));
    lemma_radius_rows_are_the_reports(found, radius_row(q, n));
}

/// Every row of a pair enumeration lists the smaller index first, so it
/// pairs no point with itself; its first index counts a stored point; and a
/// search from that point named the second point at the row's distance.
pub proof fn lemma_pair_row_invariants<C, D, F: Fn(&Vec<C>, D) -> Vec<Neighbour<D>>>(
    search: &F,
    points: Seq<Vec<C>>,
    distance: D,
    rows: Seq<PairMatch<D>>,
    in_order: bool,
    k: int,
)
    requires
        points.len() <= usize::MAX,
        is_pair_result(search, points, distance, rows, in_order),
        0 <= k < rows.len(),
    ensures
        rows[k].index_i < rows[k].index_j,
        rows[k].index_i < points.len(),
        exists|f: Seq<Neighbour<D>>|
            may_find(search, &points[rows[k].index_i as int], distance, f) && f.contains(
                Neighbour { item: rows[k].index_j, distance: rows[k].distance },
            ),
{
    let found = choose|found: Seq<Seq<Neighbour<D>>>|
        {
            &&& found_for(search, points, distance, found)
            &&& rows.to_multiset() == pair_rows(found).to_multiset()
            &&& in_order ==> rows == pair_rows(found)
        };
    lemma_same_rows(rows, pair_rows(found));
    assert(rows.contains(rows[k]));
    lemma_pair_rows_are_the_later_reports(found, rows[k]);
    let i = rows[k].index_i as int;
    assert(may_find(search, &points[i], distance, found[i]));
}

/// Where no search names a point twice, no two rows of a pair enumeration
/// name the same pair.
pub proof fn lemma_no_pair_twice<C, D, F: Fn(&Vec<C>, D) -> Vec<Neighbour<D>>>(
    search: &F,
    points: Seq<Vec<C>>,
    distance: D,
    rows: Seq<PairMatch<D>>,
    in_order: bool,
    a: int,
    b: int,
)
    requires
        points.len() <= usize::MAX,
        is_pair_result(search, points, distance, rows, in_order),
        search_names_once(search, points, distance),
        0 <= a < b < rows.len(),
    ensures
        !same_pair(rows[a], rows[b]),
{
    let found = choose|found: Seq<Seq<Neighbour<D>>>|
        {
            &&& found_for(search, points, distance, found)
            &&& rows.to_multiset() == pair_rows(found).to_multiset()
            &&& in_order ==> rows == pair_rows(found)
        };
    assert forall|i: int| 0 <= i < found.len() implies names_once(#[trigger] found[i]) by {
        assert(may_find(search, &points[i], distance, found[i]));
    }
    lemma_pair_rows_name_no_pair_twice(found);
    lemma_same_rows(rows, pair_rows(found));
    assert(rows.contains(rows[a]) && rows.contains(rows[b]));
}

/// Two stored points within `distance` of each other appear in a pair
/// enumeration exactly once: where the search from the point stored first
/// always finds the point stored later, the result names the pair once, with
/// the smaller index first, and never the other way round, whatever the
/// search from the later point finds.
pub proof fn lemma_close_pair_appears_once<C, D, F: Fn(&Vec<C>, D) -> Vec<Neighbour<D>>>(
    search: &F,
    points: Seq<Vec<C>>,
    distance: D,
    rows: Seq<PairMatch<D>>,
    in_order: bool,
    i: u64,
    j: u64,
)
    requires
        points.len() <= usize::MAX,
        is_pair_result(search, points, distance, rows, in_order),
        search_names_once(search, points, distance),
        i < j,
        i < points.len(),
        always_finds(search, points, distance, i as int, j),
    ensures
        appears_once(rows, i, j),
        never_appears(rows, j, i),
{
    let found = choose|found: Seq<Seq<Neighbour<D>>>|
        {
            &&& found_for(search, points, distance, found)
            &&& rows.to_multiset() == pair_rows(found).to_multiset()
            &&& in_order ==> rows == pair_rows(found)
        };
    let all = pair_rows(found);
    assert forall|p: int| 0 <= p < found.len() implies names_once(#[trigger] found[p]) by {
        assert(may_find(search, &points[p], distance, found[p]));
    }
    lemma_pair_rows_name_no_pair_twice(found);
    lemma_same_rows(rows, all);

    let from = found[i as int];
    assert(may_find(search, &points[i as int], distance, from));
    let at = choose|at: int| 0 <= at < from.len() && (#[trigger] from[at]).item == j;
    let row = PairMatch { index_i: i, index_j: j, distance: from[at].distance };
    assert(from.contains(Neighbour { item: j, distance: from[at].distance })) by {
        assert(from[at] == Neighbour { item: j, distance: from[at].distance });
    }
    lemma_pair_rows_are_the_later_reports(found, row);
    assert(rows.contains(row));
    let k = choose|k: int| 0 <= k < rows.len() && rows[k] == row;
    assert forall|m: int| 0 <= m < rows.len() && m != k implies !((#[trigger] rows[m]).index_i
        == i && rows[m].index_j == j) by {
        if rows[m].index_i == i && rows[m].index_j == j {
            assert(rows.contains(rows[m]));
            assert(same_pair(rows[m], row));
            assert(rows[m] == rows[k]);
        }
    }
    assert(rows[k].index_i == i && rows[k].index_j == j);
    assert forall|m: int| 0 <= m < rows.len() implies !((#[trigger] rows[m]).index_i == j
        && rows[m].index_j == i) by {
        assert(rows.contains(rows[m]));
        lemma_pair_rows_are_the_later_reports(found, rows[m]);
    }
}

} // verus!
