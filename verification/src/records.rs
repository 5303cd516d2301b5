use vstd::prelude::*;

verus! {

/// One point reported by a radius search: its position in the point store
/// and its distance from the query point.
#[derive(Copy, Debug, PartialEq)]
pub struct Neighbour<D> {
    pub item: u64,
    pub distance: D,
}

impl<D: Copy> Clone for Neighbour<D> {
    fn clone(&self) -> (copy: Self)
        ensures
            copy == *self,
    {
        *self
    }
}

/// One row of a radius query: the point at `point_index` lies at `distance`
/// from the query point at `query_index`.
#[derive(Copy, Debug, PartialEq)]
pub struct RadiusMatch<D> {
    pub query_index: usize,
    pub point_index: u64,
    pub distance: D,
}

impl<D: Copy> Clone for RadiusMatch<D> {
    fn clone(&self) -> (copy: Self)
        ensures
            copy == *self,
    {
        *self
    }
}

/// One row of a pair enumeration: the points at `index_i` and `index_j` lie
/// at `distance` from each other.
#[derive(Copy, Debug, PartialEq)]
pub struct PairMatch<D> {
    pub index_i: u64,
    pub index_j: u64,
    pub distance: D,
}

impl<D: Copy> Clone for PairMatch<D> {
    fn clone(&self) -> (copy: Self)
        ensures
            copy == *self,
    {
        *self
    }
}

/// The row that stands for `n` in the result of query `query_index`.
pub open spec fn radius_row<D>(query_index: usize, n: Neighbour<D>) -> RadiusMatch<D> {
    RadiusMatch { query_index, point_index: n.item, distance: n.distance }
}

/// The rows of one query: every neighbour found, in the order found, tagged
/// with the query's position. Nothing is dropped, the query point itself
/// included.
pub open spec fn radius_rows_of<D>(query_index: usize, found: Seq<Neighbour<D>>) -> Seq<
    RadiusMatch<D>,
> {
    found.map_values(|n: Neighbour<D>| radius_row(query_index, n))
}

/// The pair that `n` gives when found from point `i`, if it gives one: only
/// a neighbour stored after `i` does.
pub open spec fn pair_row<D>(i: u64, n: Neighbour<D>) -> Option<PairMatch<D>> {
    if n.item > i {
        Some(PairMatch { index_i: i, index_j: n.item, distance: n.distance })
    } else {
        None
    }
}

/// The pairs that point `i` contributes: its neighbours stored after it, in
/// the order found.
pub open spec fn pair_rows_of<D>(i: u64, found: Seq<Neighbour<D>>) -> Seq<PairMatch<D>> {
    found.filter_map(|n: Neighbour<D>| pair_row(i, n))
}

/// Tags the neighbours found for one query point with that query's position.
pub fn tag_matches<D: Copy>(query_index: usize, found: &Vec<Neighbour<D>>) -> (rows: Vec<
    RadiusMatch<D>,
>)
    ensures
        rows@ == radius_rows_of(query_index, found@),
{
    let mut rows: Vec<RadiusMatch<D>> = Vec::new();
    let mut k: usize = 0;
    while k < found.len()
        invariant
            k <= found.len(),
            rows@.len() == k,
            forall|j: int| 0 <= j < k ==> rows@[j] == radius_row(query_index, found@[j]),
        decreases found.len() - k,
    {
        let n: Neighbour<D> = found[k];
        rows.push(RadiusMatch { query_index, point_index: n.item, distance: n.distance });
        k += 1;
    }
    assert(rows@ =~= radius_rows_of(query_index, found@));
    rows
}

/// Keeps, of the neighbours found from point `i`, those stored after `i`,
/// each as the pair it forms with `i`.
pub fn keep_pairs<D: Copy>(i: u64, found: &Vec<Neighbour<D>>) -> (rows: Vec<PairMatch<D>>)
    ensures
        rows@ == pair_rows_of(i, found@),
{
    let mut rows: Vec<PairMatch<D>> = Vec::new();
    let mut k: usize = 0;
    while k < found.len()
        invariant
            k <= found.len(),
            rows@ == pair_rows_of(i, found@.take(k as int)),
        decreases found.len() - k,
    {
        let n: Neighbour<D> = found[k];
        proof {
            found@.lemma_filter_map_take_succ(|n: Neighbour<D>| pair_row(i, n), k as int);
        }
        if n.item > i {
            rows.push(PairMatch { index_i: i, index_j: n.item, distance: n.distance });
        }
        k += 1;
    }
    assert(found@.take(k as int) =~= found@);
    rows
}

} // verus!
