//! The binary state of one grid square.

use vstd::prelude::*;

verus! {

/// State of a single grid square: `Dead` or `Alive`, nothing else.
#[derive(Clone, Copy, Debug, PartialEq, Eq, Structural)]
pub enum Cell {
    Dead,
    Alive,
}

/// The opposite state: `Dead` for `Alive`, `Alive` for `Dead`.
pub open spec fn flipped(c: Cell) -> Cell {
    match c {
        Cell::Dead => Cell::Alive,
        Cell::Alive => Cell::Dead,
    }
}

impl Cell {
    /// Flip this cell between `Alive` and `Dead`.
    pub fn toggle(&mut self)
        ensures
            *final(self) == flipped(*old(self)),
    {
        *self = match *self {
            Cell::Dead => Cell::Alive,
            Cell::Alive => Cell::Dead,
        };
    }
}

/// Flipping a cell twice returns it to its original state.
pub proof fn lemma_flip_involution(c: Cell)
    ensures
        flipped(flipped(c)) == c,
{
}

} // verus!
