//! What can go wrong in a synthesis.

use vstd::prelude::*;

verus! {

/// Why a light curve could not be computed. `E` is the error type of the Roche
/// geometry in use.
#[derive(Debug)]
pub enum PhoebeError<E> {
    /// The Roche geometry failed.
    Roche(E),
    /// The parameters describe no system that shines.
    InvalidParams(String),
}

impl<E> From<E> for PhoebeError<E> {
    fn from(e: E) -> (r: Self) {
        PhoebeError::Roche(e)
    }
}

impl<E> vstd::std_specs::convert::FromSpecImpl<E> for PhoebeError<E> {
    open spec fn obeys_from_spec() -> bool {
        true
    }

    open spec fn from_spec(e: E) -> Self {
        PhoebeError::Roche(e)
    }
}

} // verus!
