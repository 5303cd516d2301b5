use crate::error::IndexError;
use vstd::prelude::*;

verus! {

/// Every row of `rows` has exactly `width` coordinates.
pub open spec fn all_have_width<C>(rows: Seq<Vec<C>>, width: nat) -> bool {
    forall|k: int| 0 <= k < rows.len() ==> (#[trigger] rows[k])@.len() == width
}

/// The index is defined for planes and for space only.
pub open spec fn valid_dimension(dimensions: usize) -> bool {
    dimensions == 2 || dimensions == 3
}

/// Why building an index of `dimensions` dimensions over `points` fails, if
/// it does. A wrong dimensionality is reported before a wrong point.
pub open spec fn build_error<C>(dimensions: usize, points: Seq<Vec<C>>) -> Option<IndexError> {
    if !valid_dimension(dimensions) {
        Some(IndexError::InvalidDimension)
    } else if !all_have_width(points, dimensions as nat) {
        Some(IndexError::DimensionMismatch)
    } else {
        None
    }
}

/// Tells whether every row has exactly `width` coordinates.
pub fn rows_have_width<C>(rows: &Vec<Vec<C>>, width: usize) -> (ok: bool)
    ensures
        ok == all_have_width(rows@, width as nat),
{
    let mut k: usize = 0;
    while k < rows.len()
        invariant
            k <= rows.len(),
            all_have_width(rows@.take(k as int), width as nat),
        decreases rows.len() - k,
    {
        if rows[k].len() != width {
            return false;
        }
        assert forall|j: int| 0 <= j < k + 1 implies (#[trigger] rows@.take(k + 1)[j])@.len()
            == width by {
            if j < k {
                assert(rows@.take(k + 1)[j] == rows@.take(k as int)[j]);
            }
        }
        k += 1;
    }
    assert(rows@.take(k as int) =~= rows@);
    true
}

/// A spatial index over a fixed set of points of one dimensionality, as it
/// stands behind the Python class of the same name.
///
/// The index is the point store: the points in the order they were given,
/// which is the order all results count in. It is built once and never
/// changes afterwards. The search tree over the points is kept by the
/// caller, who hands its radius search to every query.
pub struct PyKdTree<C> {
    dimensions: usize,
    points: Vec<Vec<C>>,
}

impl<C> PyKdTree<C> {
    /// The dimensionality the index was built for.
    pub closed spec fn dims(&self) -> nat {
        self.dimensions as nat
    }

    /// The point store: the indexed points, by position.
    pub closed spec fn store(&self) -> Seq<Vec<C>> {
        self.points@
    }

    /// The number of indexed points.
    pub open spec fn len(&self) -> nat {
        self.store().len()
    }

    /// The index has 2 or 3 dimensions, and every stored point has that many
    /// coordinates.
    pub open spec fn wf(&self) -> bool {
        &&& self.dims() == 2 || self.dims() == 3
        &&& all_have_width(self.store(), self.dims())
    }

    /// Builds the index of `dimensions` dimensions over `points`, keeping
    /// their order. No points at all give a valid, empty index.
    pub fn new(dimensions: usize, points: Vec<Vec<C>>) -> (out: Result<Self, IndexError>)
        ensures
            match out {
                Ok(index) => {
                    &&& build_error(dimensions, points@) is None
                    &&& index.wf()
                    &&& index.dims() == dimensions
                    &&& index.store() == points@
                },
                Err(e) => build_error(dimensions, points@) == Some(e),
            },
    {
        if dimensions != 2 && dimensions != 3 {
            return Err(IndexError::InvalidDimension);
        }
        if !rows_have_width(&points, dimensions) {
            return Err(IndexError::DimensionMismatch);
        }
        Ok(PyKdTree { dimensions, points })
    }

    /// The number of indexed points; 0 for an empty index.
    pub fn size(&self) -> (n: usize)
        ensures
            n == self.len(),
    {
        self.points.len()
    }

    /// The dimensionality of the index.
    pub fn dimensions(&self) -> (d: usize)
        ensures
            d == self.dims(),
    {
        self.dimensions
    }

    /// The indexed points, in the order they were given.
    pub fn points(&self) -> (rows: &Vec<Vec<C>>)
        ensures
            rows@ == self.store(),
    {
        &self.points
    }
}

} // verus!
