//! The mathematical model of a universe: what a universe is and what each of
//! its operations does, stated over integers and sequences.

use crate::cell::{Cell, CellCoordinates};
use crate::torus::{cell_index, lemma_wrap_step, next, previous, within_reach, wrap};
use vstd::prelude::*;

verus! {

/// What a universe looks like from outside: its dimensions, the cells of the
/// current generation in row-major order, and the list of changed cells.
pub struct UniverseView {
    pub width: int,
    pub height: int,
    pub cells: Seq<Cell>,
    pub changed_cells: Seq<CellCoordinates>,
}

impl UniverseView {
    /// Both dimensions are positive, there is one cell for each position, and
    /// every changed cell lies on the grid.
    pub open spec fn wf(self) -> bool {
        &&& 0 < self.width <= u16::MAX
        &&& 0 < self.height <= u16::MAX
        &&& self.cells.len() == self.width * self.height
        &&& forall|i: int|
            0 <= i < self.changed_cells.len() ==> self.on_grid(#[trigger] self.changed_cells[i])
    }

    /// Whether `at` names a cell of this universe.
    pub open spec fn on_grid(self, at: CellCoordinates) -> bool {
        at.0 < self.height && at.1 < self.width
    }

    /// The coordinates of the cell that is stored at `index`.
    pub open spec fn coordinates(self, index: int) -> CellCoordinates {
        CellCoordinates((index / self.width) as u16, (index % self.width) as u16)
    }

    /// The coordinates of every cell, in row-major order.
    pub open spec fn all_coordinates(self) -> Seq<CellCoordinates> {
        Seq::new(self.cells.len(), |i: int| self.coordinates(i))
    }

    /// The cell at (`row`, `column`), which must lie on the grid.
    pub open spec fn cell(self, row: int, column: int) -> Cell {
        self.cells[cell_index(self.width, row, column)]
    }

    /// The cell at (`row`, `column`) on the torus: a row or column beyond an
    /// edge continues at the opposite edge.
    pub open spec fn wrapped_cell(self, row: int, column: int) -> Cell {
        self.cell(wrap(row, self.height), wrap(column, self.width))
    }

    /// How many of the eight cells around (`row`, `column`) are alive.
    pub open spec fn live_neighbor_count(self, row: int, column: int) -> int {
        self.wrapped_cell(row - 1, column - 1).live() + self.wrapped_cell(row - 1, column).live()
            + self.wrapped_cell(row - 1, column + 1).live() + self.wrapped_cell(
            row,
            column - 1,
        ).live() + self.wrapped_cell(row, column + 1).live() + self.wrapped_cell(
            row + 1,
            column - 1,
        ).live() + self.wrapped_cell(row + 1, column).live() + self.wrapped_cell(
            row + 1,
            column + 1,
        ).live()
    }

    /// The state in the next generation of the cell stored at `index`.
    pub open spec fn next_cell(self, index: int) -> Cell {
        self.cells[index].successor(
            self.live_neighbor_count(index / self.width, index % self.width),
        )
    }

    /// The next generation.
    pub open spec fn next_cells(self) -> Seq<Cell> {
        Seq::new(self.cells.len(), |i: int| self.next_cell(i))
    }

    /// The coordinates of those among the first `n` cells, in row-major
    /// order, whose state in the next generation differs from their state now.
    pub open spec fn tick_changes(self, n: int) -> Seq<CellCoordinates>
        decreases n,
    {
        if n <= 0 {
            Seq::empty()
        } else if self.next_cell(n - 1) != self.cells[n - 1] {
            self.tick_changes(n - 1).push(self.coordinates(n - 1))
        } else {
            self.tick_changes(n - 1)
        }
    }

    /// A universe of the given dimensions in which every cell is dead and no
    /// change is recorded.
    pub open spec fn empty(width: int, height: int) -> UniverseView {
        UniverseView {
            width,
            height,
            cells: Seq::new((width * height) as nat, |i: int| Cell::Dead),
            changed_cells: Seq::empty(),
        }
    }

    /// A universe of the given dimensions whose cells are given by `samples`,
    /// one sample for each cell in row-major order, with no change recorded.
    pub open spec fn sampled(width: int, height: int, samples: Seq<bool>) -> UniverseView {
        UniverseView {
            width,
            height,
            cells: Seq::new((width * height) as nat, |i: int| Cell::of_sample(samples[i])),
            changed_cells: Seq::empty(),
        }
    }

    /// One step of the game: every cell moves to its next state, and the
    /// cells that changed are added to the list of changed cells.
    pub open spec fn tick(self) -> UniverseView {
        UniverseView {
            cells: self.next_cells(),
            changed_cells: self.changed_cells + self.tick_changes(self.cells.len() as int),
            ..self
        }
    }

    /// The cells in `cells` are alive, whatever they were; the others are as
    /// before. The list of changed cells is `cells`.
    pub open spec fn set_cells(self, cells: Seq<CellCoordinates>) -> UniverseView {
        UniverseView {
            cells: Seq::new(
                self.cells.len(),
                |i: int|
                    if cells.contains(self.coordinates(i)) {
                        Cell::Alive
                    } else {
                        self.cells[i]
                    },
            ),
            changed_cells: cells,
            ..self
        }
    }

    /// The cell at (`row`, `column`) is flipped and added to the list of
    /// changed cells.
    pub open spec fn toggle_cell(self, row: int, column: int) -> UniverseView {
        let index = cell_index(self.width, row, column);
        UniverseView {
            cells: self.cells.update(index, self.cells[index].toggled()),
            changed_cells: self.changed_cells.push(CellCoordinates(row as u16, column as u16)),
            ..self
        }
    }

    /// Every cell is given by its sample, and every cell is listed as changed.
    pub open spec fn reset(self, samples: Seq<bool>) -> UniverseView {
        UniverseView {
            cells: Seq::new(self.cells.len(), |i: int| Cell::of_sample(samples[i])),
            changed_cells: self.all_coordinates(),
            ..self
        }
    }

    /// Every cell is dead, and every cell is listed as changed.
    pub open spec fn clear(self) -> UniverseView {
        UniverseView {
            cells: Seq::new(self.cells.len(), |i: int| Cell::Dead),
            changed_cells: self.all_coordinates(),
            ..self
        }
    }

    /// Whether the cell stored at `index` lies in the square of `2 * size + 1`
    /// rows and columns around (`row`, `column`) on the torus.
    pub open spec fn in_square(self, row: int, column: int, size: int, index: int) -> bool {
        &&& within_reach(index / self.width, row, size, self.height)
        &&& within_reach(index % self.width, column, size, self.width)
    }

    /// The cells in the square around (`row`, `column`) are dead; the others,
    /// and the list of changed cells, are as before.
    pub open spec fn clear_square(self, row: int, column: int, size: int) -> UniverseView {
        UniverseView {
            cells: Seq::new(
                self.cells.len(),
                |i: int|
                    if self.in_square(row, column, size, i) {
                        Cell::Dead
                    } else {
                        self.cells[i]
                    },
            ),
            ..self
        }
    }
}

/// Recording a change at a cell of the grid keeps the universe well formed.
pub proof fn lemma_record_change(universe: UniverseView, at: CellCoordinates)
    requires
        universe.wf(),
        universe.on_grid(at),
    ensures
        (UniverseView { changed_cells: universe.changed_cells.push(at), ..universe }).wf(),
{
    let after = UniverseView { changed_cells: universe.changed_cells.push(at), ..universe };
    assert forall|i: int| 0 <= i < after.changed_cells.len() implies after.on_grid(
        #[trigger] after.changed_cells[i],
    ) by {
        if i < universe.changed_cells.len() {
            assert(after.changed_cells[i] == universe.changed_cells[i]);
        }
    }
}

/// The neighbors of a cell of the grid, written without wrapping: the row
/// above the first row is the last row, the row below the last row is the
/// first, and likewise for the columns to the left and to the right.
pub proof fn lemma_neighbors_wrap_at_edges(universe: UniverseView, row: int, column: int)
    requires
        universe.wf(),
        0 <= row < universe.height,
        0 <= column < universe.width,
    ensures
        universe.live_neighbor_count(row, column) == {
            let north = previous(row, universe.height);
            let south = next(row, universe.height);
            let west = previous(column, universe.width);
            let east = next(column, universe.width);
            universe.cell(north, west).live() + universe.cell(north, column).live()
                + universe.cell(north, east).live() + universe.cell(row, west).live()
                + universe.cell(row, east).live() + universe.cell(south, west).live()
                + universe.cell(south, column).live() + universe.cell(south, east).live()
        },
        0 <= universe.live_neighbor_count(row, column) <= 8,
{
    lemma_wrap_step(row, universe.height);
    lemma_wrap_step(column, universe.width);
}

} // verus!
