//! The two ways in which setting up a filter can fail.

use vstd::prelude::*;

verus! {

/// Why a filter could not be configured or built.
#[derive(Clone, Copy, Debug, PartialEq, Eq, Structural)]
pub enum FilterError {
    /// A configuration value lies outside its domain.
    InvalidParameter,
    /// The random source could not deliver the seed.
    RandomSourceError,
}

} // verus!
