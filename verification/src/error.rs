//! The error taxonomy of the automaton core.

use vstd::prelude::*;

verus! {

/// Everything that can go wrong in the core.
///
/// - `InvalidDimension`: a grid was requested with a zero width or height.
/// - `EmptyPattern`: a pattern source held no rows, or rows of length zero.
/// - `MalformedPattern`: a pattern source held rows of unequal length.
/// - `NoActivePrefab`: a placement operation ran while no prefab was held.
#[derive(Clone, Copy, Debug, PartialEq, Eq, Structural)]
pub enum LifeError {
    InvalidDimension,
    EmptyPattern,
    MalformedPattern,
    NoActivePrefab,
}

} // verus!
