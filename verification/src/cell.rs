//! Cells, their coordinates, and the transition rule for a single cell.

use vstd::prelude::*;

verus! {

/// The state of one cell of the grid.
#[derive(Clone, Copy, Debug, PartialEq, Eq, Structural)]
pub enum Cell {
    Dead,
    Alive,
}

/// The position of a cell: row first, then column.
#[derive(Clone, Copy, Debug, PartialEq, Eq, Structural)]
pub struct CellCoordinates(pub u16, pub u16);

impl Cell {
    /// What a cell adds to the live-neighbor count of an adjacent cell.
    pub open spec fn live(self) -> int {
        match self {
            Cell::Dead => 0,
            Cell::Alive => 1,
        }
    }

    /// The other state.
    pub open spec fn toggled(self) -> Cell {
        match self {
            Cell::Dead => Cell::Alive,
            Cell::Alive => Cell::Dead,
        }
    }

    /// The cell that a uniform boolean sample stands for.
    pub open spec fn of_sample(sample: bool) -> Cell {
        if sample {
            Cell::Alive
        } else {
            Cell::Dead
        }
    }

    /// The state of a cell in the next generation, given its state now and
    /// the number of its neighbors that are alive now: a cell is alive in the
    /// next generation exactly if it has three live neighbors, or is alive
    /// and has two.
    pub open spec fn successor(self, live_neighbors: int) -> Cell {
        if live_neighbors == 3 || (self == Cell::Alive && live_neighbors == 2) {
            Cell::Alive
        } else {
            Cell::Dead
        }
    }

    /// Flips the cell between dead and alive.
    pub fn toggle(&mut self)
        ensures
            *final(self) == old(self).toggled(),
    {
        *self = match *self {
            Cell::Dead => Cell::Alive,
            Cell::Alive => Cell::Dead,
        };
    }

    /// Turns a uniform boolean sample into a cell: `true` gives a live cell.
    pub fn from_sample(sample: bool) -> (cell: Cell)
        ensures
            cell == Cell::of_sample(sample),
    {
        if sample {
            Cell::Alive
        } else {
            Cell::Dead
        }
    }

    /// The number that the cell adds to a live-neighbor count.
    pub fn count(self) -> (n: u8)
        ensures
            n == self.live(),
    {
        match self {
            Cell::Dead => 0,
            Cell::Alive => 1,
        }
    }

    /// Applies the rule of the game to one cell.
    pub fn next_state(self, live_neighbors: u8) -> (next: Cell)
        ensures
            next == self.successor(live_neighbors as int),
    {
        match (self, live_neighbors) {
            // A live cell with fewer than two live neighbors dies, as if by underpopulation.
            (Cell::Alive, x) if x < 2 => Cell::Dead,
            // A live cell with two or three live neighbors lives on.
            (Cell::Alive, 2) | (Cell::Alive, 3) => Cell::Alive,
            // A live cell with more than three live neighbors dies, as if by overpopulation.
            (Cell::Alive, x) if x > 3 => Cell::Dead,
            // A dead cell with exactly three live neighbors becomes alive, as if by reproduction.
            (Cell::Dead, 3) => Cell::Alive,
            // Every other cell stays as it is.
            (otherwise, _) => otherwise,
        }
    }
}

/// The transition table of the game, row by row, for every cell and every
/// neighbor count.
pub proof fn lemma_transition_table(cell: Cell, live_neighbors: int)
    ensures
        cell == Cell::Alive && live_neighbors < 2 ==> cell.successor(live_neighbors) == Cell::Dead,
        cell == Cell::Alive && (live_neighbors == 2 || live_neighbors == 3) ==> cell.successor(
            live_neighbors,
        ) == Cell::Alive,
        cell == Cell::Alive && live_neighbors > 3 ==> cell.successor(live_neighbors) == Cell::Dead,
        cell == Cell::Dead && live_neighbors == 3 ==> cell.successor(live_neighbors) == Cell::Alive,
        cell == Cell::Dead && live_neighbors != 3 ==> cell.successor(live_neighbors) == cell,
{
}

} // verus!
