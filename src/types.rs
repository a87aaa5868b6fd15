//! Basic types used throughout the crate.
use vstd::prelude::*;

verus! {

/// The index type used throughout this crate.
pub type IndexType = usize;

} // verus!
