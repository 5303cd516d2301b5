use vstd::prelude::*;

verus! {

/// Why a call on the index failed.
#[derive(Clone, Copy, Debug, PartialEq, Eq, Structural)]
pub enum IndexError {
    /// The requested dimensionality is neither 2 nor 3.
    InvalidDimension,
    /// A point or a query point does not have as many coordinates as the
    /// index has dimensions.
    DimensionMismatch,
    /// The index holds points but no search structure was supplied for them.
    UninitializedIndex,
}

} // verus!
