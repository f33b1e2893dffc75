use vstd::prelude::*;

verus! {

/// State of a single grid cell. `Alive` weighs 1 and `Dead` weighs 0 when
/// live neighbors are summed.
#[derive(Clone, Copy, PartialEq, Eq, Structural, Debug)]
pub enum Cell {
    Dead,
    Alive,
}

impl Cell {
    /// Numeric weight of this cell in a neighbor sum.
    pub open spec fn weight(self) -> int {
        if self is Alive {
            1
        } else {
            0
        }
    }

    /// The opposite state.
    pub open spec fn flipped(self) -> Cell {
        match self {
            Cell::Alive => Cell::Dead,
            Cell::Dead => Cell::Alive,
        }
    }

    /// Flip this cell between `Alive` and `Dead`.
    pub fn toggle(&mut self)
        ensures
            *final(self) == old(self).flipped(),
    {
        *self = match *self {
            Cell::Alive => Cell::Dead,
            Cell::Dead => Cell::Alive,
        };
    }
}

} // verus!
