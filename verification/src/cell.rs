//! The two-valued cell state, its byte encoding and the transition rule.

use vstd::prelude::*;

verus! {

/// The state of one cell of the grid.
#[derive(Clone, Copy, Debug, PartialEq, Eq, Structural)]
pub enum Cell {
    Dead,
    Alive,
}

impl Cell {
    /// The byte that stands for this state in a cell buffer: 0 for `Dead`,
    /// 1 for `Alive`.
    pub open spec fn byte(self) -> u8 {
        match self {
            Cell::Dead => 0u8,
            Cell::Alive => 1u8,
        }
    }

    /// The state a byte of a cell buffer stands for.
    pub open spec fn of_byte(b: u8) -> Cell {
        if b == 0 {
            Cell::Dead
        } else {
            Cell::Alive
        }
    }

    /// The other state.
    pub open spec fn toggled(self) -> Cell {
        match self {
            Cell::Dead => Cell::Alive,
            Cell::Alive => Cell::Dead,
        }
    }

    /// The state of a cell in the next generation, given its current state
    /// and the number of its live neighbours: a cell is alive in the next
    /// generation exactly if it has three live neighbours, or is alive now and
    /// has two.
    pub open spec fn next_state(self, live_neighbors: int) -> Cell {
        if live_neighbors == 3 || (self == Cell::Alive && live_neighbors == 2) {
            Cell::Alive
        } else {
            Cell::Dead
        }
    }

    /// Flips the cell between `Dead` and `Alive`.
    pub fn toggle(&mut self)
        ensures
            *final(self) == old(self).toggled(),
    {
        *self = match *self {
            Cell::Dead => Cell::Alive,
            Cell::Alive => Cell::Dead,
        };
    }

    /// Encodes the cell as its buffer byte.
    pub fn to_byte(self) -> (b: u8)
        ensures
            b == self.byte(),
    {
        match self {
            Cell::Dead => 0,
            Cell::Alive => 1,
        }
    }
}

} // verus!
