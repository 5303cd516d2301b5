//! A build-once, query-many spatial index over 2-D or 3-D point sets.
//!
//! The index owns the point store, checks every call against its fixed
//! dimensionality, and turns the neighbour lists of a radius search into the
//! two kinds of rows callers ask for: matches per query point, and unordered
//! pairs of indexed points. The search itself is handed in as a function, so
//! the index never computes with a coordinate or a distance; it is generic
//! over both.
//!
//! - `index`: the point store and its construction.
//! - `query`: radius queries and pair enumeration, and what counts as a
//!   result of each.
//! - `records`: the rows, and how one search's report becomes rows.
//! - `dispatch`, `chunks`: running a workload serially or in chunks on the
//!   worker pool.
//! - `laws`: what holds of every result.
//!
//! Everything is verified except two calls into rayon, in `dispatch`: the
//! size of the worker pool, of which nothing is assumed, and the run of the
//! chunks on the pool, which is assumed to return the rows of every chunk.

pub mod chunks;
pub mod dispatch;
pub mod error;
pub mod index;
pub mod laws;
pub mod query;
pub mod records;
mod seq_facts;

pub use chunks::chunk_size;
pub use dispatch::{dispatch, dispatch_with_workers, run_chunk};
pub use error::IndexError;
pub use index::{rows_have_width, PyKdTree};
pub use records::{keep_pairs, tag_matches, Neighbour, PairMatch, RadiusMatch};
