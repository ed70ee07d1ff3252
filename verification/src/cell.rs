use vstd::prelude::*;

verus! {

/// The state of one grid cell: every cell is either dead or alive.
#[derive(Clone, Copy, Debug, PartialEq, Eq, Structural)]
pub enum Cell {
    Dead,
    Alive,
}

/// The flipped value of a cell: `Dead` and `Alive` exchange places.
pub open spec fn toggled(c: Cell) -> Cell {
    match c {
        Cell::Dead => Cell::Alive,
        Cell::Alive => Cell::Dead,
    }
}

impl Cell {
    /// Flips this cell between `Dead` and `Alive` in place.
    pub fn toggle(&mut self)
        ensures
            *final(self) == toggled(*old(self)),
    {
        *self = match *self {
            Cell::Dead => Cell::Alive,
            _ => Cell::Dead,
        };
    }
}

} // verus!
