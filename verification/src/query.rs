use crate::chunks::workload;
use crate::dispatch::{dispatch, may_return, outcomes_on};
use crate::error::IndexError;
use crate::index::{all_have_width, rows_have_width, PyKdTree};
use crate::records::{
    keep_pairs, pair_rows_of, radius_rows_of, tag_matches, Neighbour, PairMatch, RadiusMatch,
};
use vstd::prelude::*;

verus! {

/// `found` is what one radius search for `query` with threshold `distance`
/// may report.
pub open spec fn may_find<C, D, F: Fn(&Vec<C>, D) -> Vec<Neighbour<D>>>(
    search: &F,
    query: &Vec<C>,
    distance: D,
    found: Seq<Neighbour<D>>,
) -> bool {
    exists|r: Vec<Neighbour<D>>| call_ensures(search, (query, distance), r) && r@ == found
}

/// `found` holds, for each of `queries` in turn, what one radius search for
/// it with threshold `distance` may report.
pub open spec fn found_for<C, D, F: Fn(&Vec<C>, D) -> Vec<Neighbour<D>>>(
    search: &F,
    queries: Seq<Vec<C>>,
    distance: D,
    found: Seq<Seq<Neighbour<D>>>,
) -> bool {
    &&& found.len() == queries.len()
    &&& forall|q: int|
        0 <= q < queries.len() ==> may_find(search, &queries[q], distance, #[trigger] found[q])
}

/// The rows of a radius query whose searches reported `found`: the rows of
/// the first query point, then those of the second, and so on.
pub open spec fn radius_rows<D>(found: Seq<Seq<Neighbour<D>>>) -> Seq<RadiusMatch<D>> {
    Seq::new(found.len(), |q: int| radius_rows_of(q as usize, found[q])).flatten()
}

/// The rows of a pair enumeration whose searches, one from each stored
/// point, reported `found`: the pairs of the first point, then those of the
/// second, and so on.
pub open spec fn pair_rows<D>(found: Seq<Seq<Neighbour<D>>>) -> Seq<PairMatch<D>> {
    Seq::new(found.len(), |i: int| pair_rows_of(i as u64, found[i])).flatten()
}

/// `rows` is a possible result of a radius query for `queries`: one search
/// was made for each query point, and `rows` holds exactly the rows of what
/// the searches reported; in query order if `in_order`, in any order
/// otherwise.
pub open spec fn is_radius_result<C, D, F: Fn(&Vec<C>, D) -> Vec<Neighbour<D>>>(
    search: &F,
    queries: Seq<Vec<C>>,
    distance: D,
    rows: Seq<RadiusMatch<D>>,
    in_order: bool,
) -> bool {
    exists|found: Seq<Seq<Neighbour<D>>>|
        {
            &&& found_for(search, queries, distance, found)
            &&& rows.to_multiset() == radius_rows(found).to_multiset()
            &&& in_order ==> rows == radius_rows(found)
        }
}

/// `rows` is a possible result of a pair enumeration over `points`: one
/// search was made from each point, and `rows` holds exactly the pairs of
/// what the searches reported; in point order if `in_order`, in any order
/// otherwise.
pub open spec fn is_pair_result<C, D, F: Fn(&Vec<C>, D) -> Vec<Neighbour<D>>>(
    search: &F,
    points: Seq<Vec<C>>,
    distance: D,
    rows: Seq<PairMatch<D>>,
    in_order: bool,
) -> bool {
    exists|found: Seq<Seq<Neighbour<D>>>|
        {
            &&& found_for(search, points, distance, found)
            &&& rows.to_multiset() == pair_rows(found).to_multiset()
            &&& in_order ==> rows == pair_rows(found)
        }
}

/// Why a radius query for `queries` fails, if it does. A query point of the
/// wrong width is reported first; a missing search structure only matters
/// when there are points to search.
pub open spec fn radius_query_error<C>(
    index: &PyKdTree<C>,
    queries: Seq<Vec<C>>,
    has_tree: bool,
) -> Option<IndexError> {
    if !all_have_width(queries, index.dims()) {
        Some(IndexError::DimensionMismatch)
    } else if index.len() > 0 && !has_tree {
        Some(IndexError::UninitializedIndex)
    } else {
        None
    }
}

/// Why a pair enumeration fails, if it does.
pub open spec fn pair_query_error<C>(index: &PyKdTree<C>, has_tree: bool) -> Option<IndexError> {
    if index.len() > 0 && !has_tree {
        Some(IndexError::UninitializedIndex)
    } else {
        None
    }
}

/// Rows of one query point: what `tag_matches` makes of one search.
pub open spec fn is_radius_part<C, D, F: Fn(&Vec<C>, D) -> Vec<Neighbour<D>>>(
    search: &F,
    queries: Seq<Vec<C>>,
    distance: D,
    q: usize,
    part: Seq<RadiusMatch<D>>,
) -> bool {
    exists|found: Seq<Neighbour<D>>|
        may_find(search, &queries[q as int], distance, found) && part == radius_rows_of(q, found)
}

/// Pairs of one stored point: what `keep_pairs` makes of one search.
pub open spec fn is_pair_part<C, D, F: Fn(&Vec<C>, D) -> Vec<Neighbour<D>>>(
    search: &F,
    points: Seq<Vec<C>>,
    distance: D,
    i: usize,
    part: Seq<PairMatch<D>>,
) -> bool {
    exists|found: Seq<Neighbour<D>>|
        may_find(search, &points[i as int], distance, found) && part == pair_rows_of(
            i as u64,
            found,
        )
}

/// Parts that are each the rows of one query point, gathered, are a result
/// of the radius query.
proof fn lemma_radius_parts_make_a_result<C, D, F: Fn(&Vec<C>, D) -> Vec<Neighbour<D>>>(
    search: &F,
    queries: Seq<Vec<C>>,
    distance: D,
    parts: Seq<Seq<RadiusMatch<D>>>,
    rows: Seq<RadiusMatch<D>>,
    in_order: bool,
)
    requires
        queries.len() <= usize::MAX,
        parts.len() == queries.len(),
        forall|q: int|
            0 <= q < queries.len() ==> is_radius_part(
                search,
                queries,
                distance,
                q as usize,
                #[trigger] parts[q],
            ),
        rows.to_multiset() == parts.flatten().to_multiset(),
        in_order ==> rows == parts.flatten(),
    ensures
        is_radius_result(search, queries, distance, rows, in_order),
{
    let found = Seq::new(
        queries.len(),
        |q: int|
            choose|f: Seq<Neighbour<D>>|
                may_find(search, &queries[q], distance, f) && parts[q] == radius_rows_of(
                    q as usize,
                    f,
                ),
    );
    assert forall|q: int| 0 <= q < queries.len() implies may_find(
        search,
        &queries[q],
        distance,
        #[trigger] found[q],
    ) && parts[q] == radius_rows_of(q as usize, found[q]) by {
        assert(is_radius_part(search, queries, distance, q as usize, parts[q]));
    }
    assert(Seq::new(found.len(), |q: int| radius_rows_of(q as usize, found[q])) =~= parts);
    assert(found_for(search, queries, distance, found));
    assert(radius_rows(found) == parts.flatten());
}

/// Parts that are each the pairs of one stored point, gathered, are a
/// result of the pair enumeration.
proof fn lemma_pair_parts_make_a_result<C, D, F: Fn(&Vec<C>, D) -> Vec<Neighbour<D>>>(
    search: &F,
    points: Seq<Vec<C>>,
    distance: D,
    parts: Seq<Seq<PairMatch<D>>>,
    rows: Seq<PairMatch<D>>,
    in_order: bool,
)
    requires
        points.len() <= usize::MAX,
        parts.len() == points.len(),
        forall|i: int|
            0 <= i < points.len() ==> is_pair_part(
                search,
                points,
                distance,
                i as usize,
                #[trigger] parts[i],
            ),
        rows.to_multiset() == parts.flatten().to_multiset(),
        in_order ==> rows == parts.flatten(),
    ensures
        is_pair_result(search, points, distance, rows, in_order),
{
    let found = Seq::new(
        points.len(),
        |i: int|
            choose|f: Seq<Neighbour<D>>|
                may_find(search, &points[i], distance, f) && parts[i] == pair_rows_of(
                    i as u64,
                    f,
                ),
    );
    assert forall|i: int| 0 <= i < points.len() implies may_find(
        search,
        &points[i],
        distance,
        #[trigger] found[i],
    ) && parts[i] == pair_rows_of(i as u64, found[i]) by {
        assert(is_pair_part(search, points, distance, i as usize, parts[i]));
    }
    assert(Seq::new(found.len(), |i: int| pair_rows_of(i as u64, found[i])) =~= parts);
    assert(found_for(search, points, distance, found));
    assert(pair_rows(found) == parts.flatten());
}

impl<C> PyKdTree<C> {
    /// Finds, for each of `queries`, the stored points within `distance` of
    /// it. `tree` is the radius search over the stored points; it is called
    /// once for each query point, with that point and `distance`, and every
    /// neighbour it reports becomes one row, the query point itself included
    /// where it is stored. With `parallel` the query points are spread over
    /// the worker pool.
    ///
    /// An index without points answers with no rows and makes no search.
    pub fn within_unsorted<D, F>(
        &self,
        distance: D,
        queries: &Vec<Vec<C>>,
        parallel: bool,
        tree: Option<&F>,
    ) -> (out: Result<Vec<RadiusMatch<D>>, IndexError>)
        where
            C: Sync,
            D: Copy + Send + Sync,
            F: Fn(&Vec<C>, D) -> Vec<Neighbour<D>> + Sync,
        requires
            self.wf(),
            tree matches Some(search) ==> forall|query: &Vec<C>|
                query@.len() == self.dims() ==> call_requires(search, (query, distance)),
        ensures
            match out {
                Ok(rows) => {
                    &&& radius_query_error(self, queries@, tree is Some) is None
                    &&& self.len() == 0 ==> rows@ == Seq::<RadiusMatch<D>>::empty()
                    &&& self.len() > 0 ==> is_radius_result(
                        tree->0,
                        queries@,
                        distance,
                        rows@,
                        !parallel,
                    )
                },
                Err(e) => radius_query_error(self, queries@, tree is Some) == Some(e),
            },
    {
        if !rows_have_width(queries, self.dimensions()) {
            return Err(IndexError::DimensionMismatch);
        }
        if self.size() == 0 {
            return Ok(Vec::new());
        }
        match tree {
            None => Err(IndexError::UninitializedIndex),
            Some(search) => {
                let job = |q: usize| -> (part: Vec<RadiusMatch<D>>)
                    requires
                        q < queries.len(),
                    ensures
                        is_radius_part(search, queries@, distance, q, part@),
                    {
                        let found = search(&queries[q], distance);
                        assert(may_find(search, &queries@[q as int], distance, found@));
                        tag_matches(q, &found)
                    };
                let rows = dispatch(queries.len(), parallel, &job);
                proof {
                    let n = queries.len() as nat;
                    let parts = if parallel {
                        choose|parts: Seq<Seq<RadiusMatch<D>>>|
                            outcomes_on(&job, workload(n), parts) && rows@.to_multiset()
                                == parts.flatten().to_multiset()
                    } else {
                        choose|parts: Seq<Seq<RadiusMatch<D>>>|
                            outcomes_on(&job, workload(n), parts) && rows@ == parts.flatten()
                    };
                    assert forall|q: int| 0 <= q < n implies is_radius_part(
                        search,
                        queries@,
                        distance,
                        q as usize,
                        #[trigger] parts[q],
                    ) by {
                        assert(may_return(&job, workload(n)[q], parts[q]));
                    }
                    lemma_radius_parts_make_a_result(
                        search,
                        queries@,
                        distance,
                        parts,
                        rows@,
                        !parallel,
                    );
                }
                Ok(rows)
            },
        }
    }

    /// Finds all unordered pairs of stored points within `distance` of each
    /// other. `tree` is the radius search over the stored points; it is
    /// called once from each stored point, with that point and `distance`,
    /// and of what it reports from point `i` only the neighbours stored after
    /// `i` are kept. So a pair found from both its ends is reported once, the
    /// smaller index first, and no point is paired with itself. With
    /// `parallel` the stored points are spread over the worker pool.
    ///
    /// An index without points answers with no rows and makes no search.
    pub fn query_pairs<D, F>(&self, distance: D, parallel: bool, tree: Option<&F>) -> (out: Result<
        Vec<PairMatch<D>>,
        IndexError,
    >)
        where
            C: Sync,
            D: Copy + Send + Sync,
            F: Fn(&Vec<C>, D) -> Vec<Neighbour<D>> + Sync,
        requires
            self.wf(),
            tree matches Some(search) ==> forall|query: &Vec<C>|
                query@.len() == self.dims() ==> call_requires(search, (query, distance)),
        ensures
            match out {
                Ok(rows) => {
                    &&& pair_query_error(self, tree is Some) is None
                    &&& self.len() == 0 ==> rows@ == Seq::<PairMatch<D>>::empty()
                    &&& self.len() > 0 ==> is_pair_result(
                        tree->0,
                        self.store(),
                        distance,
                        rows@,
                        !parallel,
                    )
                },
                Err(e) => pair_query_error(self, tree is Some) == Some(e),
            },
    {
        let points = self.points();
        if points.len() == 0 {
            return Ok(Vec::new());
        }
        match tree {
            None => Err(IndexError::UninitializedIndex),
            Some(search) => {
                let job = |i: usize| -> (part: Vec<PairMatch<D>>)
                    requires
                        i < points.len(),
                    ensures
                        is_pair_part(search, points@, distance, i, part@),
                    {
                        let found = search(&points[i], distance);
                        assert(may_find(search, &points@[i as int], distance, found@));
                        keep_pairs(i as u64, &found)
                    };
                let rows = dispatch(points.len(), parallel, &job);
                proof {
                    let n = points.len() as nat;
                    let parts = if parallel {
                        choose|parts: Seq<Seq<PairMatch<D>>>|
                            outcomes_on(&job, workload(n), parts) && rows@.to_multiset()
                                == parts.flatten().to_multiset()
                    } else {
                        choose|parts: Seq<Seq<PairMatch<D>>>|
                            outcomes_on(&job, workload(n), parts) && rows@ == parts.flatten()
                    };
                    assert forall|i: int| 0 <= i < n implies is_pair_part(
                        search,
                        points@,
                        distance,
                        i as usize,
                        #[trigger] parts[i],
                    ) by {
                        assert(may_return(&job, workload(n)[i], parts[i]));
                    }
                    lemma_pair_parts_make_a_result(
                        search,
                        points@,
                        distance,
                        parts,
                        rows@,
                        !parallel,
                    );
                }
                Ok(rows)
            },
        }
    }
}

} // verus!
