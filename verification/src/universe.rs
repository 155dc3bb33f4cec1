//! The universe: two cell buffers of which one holds the current generation,
//! and the operations that read and change it.

use crate::cell::{Cell, CellCoordinates};
use crate::model::{lemma_neighbors_wrap_at_edges, lemma_record_change, UniverseView};
use crate::torus::{
    cell_index, lemma_cell_index, lemma_cell_of_index, lemma_reach_grows, lemma_reach_negative,
    offset_position, within_reach, wrap_offset,
};
use vstd::prelude::*;

verus! {

/// The width of a universe of the default size.
pub const U_WIDTH: u16 = 128;

/// The height of a universe of the default size.
pub const U_HEIGHT: u16 = 128;

/// Which of the two buffers holds the current generation.
#[derive(Clone, Copy, Debug, PartialEq, Eq, Structural)]
enum ActiveArray {
    First,
    Second,
}

impl ActiveArray {
    spec fn other(self) -> ActiveArray {
        match self {
            ActiveArray::First => ActiveArray::Second,
            ActiveArray::Second => ActiveArray::First,
        }
    }
}

/// A grid of cells that wraps around at its edges, with the list of the cells
/// that the latest operations changed.
pub struct Universe {
    width: u16,
    height: u16,
    first: Vec<Cell>,
    second: Vec<Cell>,
    active: ActiveArray,
    changed_cells: Vec<CellCoordinates>,
}

impl View for Universe {
    type V = UniverseView;

    closed spec fn view(&self) -> UniverseView {
        UniverseView {
            width: self.width as int,
            height: self.height as int,
            cells: self.buffer(self.active)@,
            changed_cells: self.changed_cells@,
        }
    }
}

impl Universe {
    /// The buffer that `which` selects.
    spec fn buffer(&self, which: ActiveArray) -> Vec<Cell> {
        match which {
            ActiveArray::First => self.first,
            ActiveArray::Second => self.second,
        }
    }

    /// The buffer that the next generation is written to has room for it.
    pub closed spec fn scratch_wf(&self) -> bool {
        self.buffer(self.active.other())@.len() == self.buffer(self.active)@.len()
    }

    /// What every universe satisfies: its view is well formed, and so is the
    /// buffer that the view does not show.
    pub open spec fn wf(&self) -> bool {
        &&& self@.wf()
        &&& self.scratch_wf()
    }

    /// The place of the cell at (`row`, `column`) in the buffers.
    fn get_index(&self, row: u16, column: u16) -> (index: usize)
        requires
            self.wf(),
            row < self.height,
            column < self.width,
        ensures
            index == cell_index(self@.width, row as int, column as int),
            index < self@.cells.len(),
    {
        proof {
            lemma_cell_index(self.width as int, self.height as int, row as int, column as int);
            assert(self.width * self.height <= 0xFFFF * 0xFFFF) by (nonlinear_arith)
                requires
                    self.width <= 0xFFFF,
                    self.height <= 0xFFFF,
            ;
        }
        row as usize * self.width as usize + column as usize
    }

    /// The buffer of the current generation.
    fn active_cells(&self) -> (cells: &Vec<Cell>)
        ensures
            cells@ == self@.cells,
    {
        match self.active {
            ActiveArray::First => &self.first,
            ActiveArray::Second => &self.second,
        }
    }

    /// Writes `cell` at `index` into the buffer that `which` selects.
    fn store(&mut self, which: ActiveArray, index: usize, cell: Cell)
        requires
            index < old(self).buffer(which)@.len(),
        ensures
            final(self).buffer(which)@ == old(self).buffer(which)@.update(index as int, cell),
            final(self).buffer(which.other()) == old(self).buffer(which.other()),
            final(self).width == old(self).width,
            final(self).height == old(self).height,
            final(self).active == old(self).active,
            final(self).changed_cells == old(self).changed_cells,
            old(self).wf() ==> final(self).wf(),
    {
        let ghost before = self@;
        match which {
            ActiveArray::First => {
                self.first[index] = cell;
            },
            ActiveArray::Second => {
                self.second[index] = cell;
            },
        }
        proof {
            assert(self@.changed_cells == before.changed_cells);
        }
    }

    /// Initializes a universe of the given size in which every cell is dead.
    pub fn new_empty_with_dimensions(width: u16, height: u16) -> (universe: Universe)
        requires
            width > 0,
            height > 0,
        ensures
            universe.wf(),
            universe@ == UniverseView::empty(width as int, height as int),
    {
        assert(width * height <= 0xFFFF * 0xFFFF) by (nonlinear_arith)
            requires
                width <= 0xFFFF,
                height <= 0xFFFF,
        ;
        let num_cells = width as usize * height as usize;

        let active_cells = vec![Cell::Dead; num_cells];
        let secondary_cells = vec![Cell::Dead; num_cells];
        let changed_cells = Vec::with_capacity(num_cells);

        let universe = Universe {
            width,
            height,
            first: active_cells,
            second: secondary_cells,
            active: ActiveArray::First,
            changed_cells,
        };
        assert(universe@.cells =~= UniverseView::empty(width as int, height as int).cells);
        universe
    }

    /// Initializes a universe of the given size whose cells are given by
    /// `samples`: one uniform boolean sample for each cell, in row-major order.
    pub fn new_with_dimensions(width: u16, height: u16, samples: &[bool]) -> (universe: Universe)
        requires
            width > 0,
            height > 0,
            samples@.len() == width * height,
        ensures
            universe.wf(),
            universe@ == UniverseView::sampled(width as int, height as int, samples@),
    {
        let num_cells = samples.len();

        let mut active_cells: Vec<Cell> = Vec::with_capacity(num_cells);
        for i in 0..num_cells
            invariant
                num_cells == samples@.len(),
                active_cells@.len() == i,
                forall|j: int| 0 <= j < i ==> active_cells@[j] == Cell::of_sample(samples@[j]),
        {
            active_cells.push(Cell::from_sample(samples[i]));
        }

        let secondary_cells = vec![Cell::Dead; num_cells];
        let changed_cells = Vec::with_capacity(num_cells);

        let universe = Universe {
            width,
            height,
            first: active_cells,
            second: secondary_cells,
            active: ActiveArray::First,
            changed_cells,
        };
        assert(universe@.cells =~= UniverseView::sampled(
            width as int,
            height as int,
            samples@,
        ).cells);
        universe
    }

    /// Creates a universe of the default size, `U_WIDTH` by `U_HEIGHT`, whose
    /// cells are given by `samples`.
    pub fn new(samples: &[bool]) -> (universe: Universe)
        requires
            samples@.len() == U_WIDTH * U_HEIGHT,
        ensures
            universe.wf(),
            universe@ == UniverseView::sampled(U_WIDTH as int, U_HEIGHT as int, samples@),
    {
        let width = U_WIDTH;
        let height = U_HEIGHT;

        Universe::new_with_dimensions(width, height, samples)
    }

    /// Gets the number of changed cells, as far as it fits in 32 bits: a
    /// longer list is counted modulo 2^32.
    pub fn changed_cells_length(&self) -> (length: u32)
        ensures
            length == self@.changed_cells.len() % 0x1_0000_0000,
    {
        let length: u64 = self.changed_cells.len() as u64;
        assert((length as u32) == length % 0x1_0000_0000) by (bit_vector);
        #[verifier::truncate]
        (length as u32)
    }

    /// Gets the width of the universe.
    pub fn width(&self) -> (width: u16)
        ensures
            width == self@.width,
    {
        self.width
    }

    /// Gets the height of the universe.
    pub fn height(&self) -> (height: u16)
        ensures
            height == self@.height,
    {
        self.height
    }

    /// Counts the live cells among the eight neighbors of the cell at
    /// (`row`, `column`); the neighbors of a cell at an edge continue at the
    /// opposite edge.
    pub fn live_neighbor_count(&self, row: u16, column: u16) -> (count: u8)
        requires
            self.wf(),
            row < self@.height,
            column < self@.width,
        ensures
            count == self@.live_neighbor_count(row as int, column as int),
            count <= 8,
    {
        let north = if row == 0 {
            self.height - 1
        } else {
            row - 1
        };
        let south = if row == self.height - 1 {
            0
        } else {
            row + 1
        };
        let west = if column == 0 {
            self.width - 1
        } else {
            column - 1
        };
        let east = if column == self.width - 1 {
            0
        } else {
            column + 1
        };
        proof {
            lemma_neighbors_wrap_at_edges(self@, row as int, column as int);
        }
        let cells = self.active_cells();
        let mut count: u8 = 0;

        let nw = self.get_index(north, west);
        count += cells[nw].count();

        let n = self.get_index(north, column);
        count += cells[n].count();

        let ne = self.get_index(north, east);
        count += cells[ne].count();

        let w = self.get_index(row, west);
        count += cells[w].count();

        let e = self.get_index(row, east);
        count += cells[e].count();

        let sw = self.get_index(south, west);
        count += cells[sw].count();

        let s = self.get_index(south, column);
        count += cells[s].count();

        let se = self.get_index(south, east);
        count += cells[se].count();

        count
    }

    /// Advances the universe by one generation. Every cell is judged by the
    /// generation before the step; the cells that changed are added to the
    /// list of changed cells, in row-major order.
    pub fn tick(&mut self)
        requires
            old(self).wf(),
        ensures
            final(self).wf(),
            final(self)@ == old(self)@.tick(),
    {
        let old_inactive = if self.active == ActiveArray::First {
            ActiveArray::Second
        } else {
            ActiveArray::First
        };
        let ghost before = self@;
        let ghost mut done: int = 0;
        let height = self.height;
        let width = self.width;

        for row in 0..height
            invariant
                self.wf(),
                self@.cells == before.cells,
                self.height == height == before.height,
                self.width == width == before.width,
                old_inactive == self.active.other(),
                done == row * width,
                self.buffer(old_inactive)@.len() == before.cells.len(),
                self.changed_cells@ == before.changed_cells + before.tick_changes(done),
                forall|i: int| 0 <= i < done ==> self.buffer(old_inactive)@[i] == before.next_cell(i),
        {
            for col in 0..width
                invariant
                    self.wf(),
                    row < height,
                    self@.cells == before.cells,
                    self.height == height == before.height,
                    self.width == width == before.width,
                    old_inactive == self.active.other(),
                    done == row * width + col,
                    self.buffer(old_inactive)@.len() == before.cells.len(),
                    self.changed_cells@ == before.changed_cells + before.tick_changes(done),
                    forall|i: int|
                        0 <= i < done ==> self.buffer(old_inactive)@[i] == before.next_cell(i),
            {
                let idx = self.get_index(row, col);
                let cell = self.active_cells()[idx];
                let num_live_neighbors = self.live_neighbor_count(row, col);
                let cell_next_state = cell.next_state(num_live_neighbors);
                proof {
                    lemma_cell_index(width as int, height as int, row as int, col as int);
                    assert(before.next_cell(done) == cell_next_state);
                    assert(before.coordinates(done) == CellCoordinates(row, col));
                }

                if cell != cell_next_state {
                    proof {
                        lemma_record_change(self@, CellCoordinates(row, col));
                    }
                    self.changed_cells.push(CellCoordinates(row, col));
                }
                self.store(old_inactive, idx, cell_next_state);
                proof {
                    done = done + 1;
                }
            }
            proof {
                assert((row + 1) * width == row * width + width) by (nonlinear_arith);
            }
        }

        let ghost last = self@;
        self.active = old_inactive;
        proof {
            assert(self@.changed_cells == last.changed_cells);
            assert(done == before.cells.len()) by (nonlinear_arith)
                requires
                    done == height * width,
                    before.cells.len() == width * height,
            ;
            assert(self@.cells =~= before.next_cells());
        }
    }

    /// Whether the sweep of `clear_square` has reached the cell stored at
    /// `index`, once the rows up to `rows_done - 1` steps away are finished
    /// and, in the rows exactly `rows_done` steps away, the columns up to
    /// `columns_done - 1` steps away.
    spec fn swept(
        before: UniverseView,
        row: int,
        column: int,
        size: int,
        rows_done: int,
        columns_done: int,
        index: int,
    ) -> bool {
        let r = index / before.width;
        let c = index % before.width;
        ||| within_reach(r, row, rows_done - 1, before.height) && within_reach(
            c,
            column,
            size,
            before.width,
        )
        ||| (r == offset_position(row, -rows_done, before.height) || r == offset_position(
            row,
            rows_done,
            before.height,
        )) && within_reach(c, column, columns_done - 1, before.width)
    }

    /// Sets every cell to dead in the square of `2 * size + 1` rows and
    /// columns around the cell at (`row`, `column`); the square continues at
    /// the opposite edge where it crosses an edge. The list of changed cells
    /// stays as it is.
    pub fn clear_square(&mut self, row: u16, column: u16, size: i16)
        requires
            old(self).wf(),
        ensures
            final(self).wf(),
            final(self)@ == old(self)@.clear_square(row as int, column as int, size as int),
    {
        let ghost before = self@;
        let height = self.height;
        let width = self.width;
        let active = self.active;

        let mut row_cnt: i32 = 0;
        while row_cnt <= size as i32
            invariant
                self.wf(),
                self.height == height == before.height,
                self.width == width == before.width,
                self.active == active,
                self@.changed_cells == before.changed_cells,
                before.wf(),
                0 <= row_cnt <= size + 1 || (size < 0 && row_cnt == 0),
                forall|i: int|
                    0 <= i < before.cells.len() ==> self@.cells[i] == if Self::swept(
                        before,
                        row as int,
                        column as int,
                        size as int,
                        row_cnt as int,
                        0,
                        i,
                    ) {
                        Cell::Dead
                    } else {
                        before.cells[i]
                    },
            decreases size + 1 - row_cnt,
        {
            let prev_row = wrap_offset(row, -row_cnt, height);
            let post_row = wrap_offset(row, row_cnt, height);

            let mut col_cnt: i32 = 0;
            while col_cnt <= size as i32
                invariant
                    self.wf(),
                    self.height == height == before.height,
                    self.width == width == before.width,
                    self.active == active,
                    self@.changed_cells == before.changed_cells,
                    before.wf(),
                    0 <= row_cnt <= size,
                    0 <= col_cnt <= size + 1,
                    prev_row == offset_position(row as int, -row_cnt as int, height as int),
                    post_row == offset_position(row as int, row_cnt as int, height as int),
                    prev_row < height,
                    post_row < height,
                    forall|i: int|
                        0 <= i < before.cells.len() ==> self@.cells[i] == if Self::swept(
                            before,
                            row as int,
                            column as int,
                            size as int,
                            row_cnt as int,
                            col_cnt as int,
                            i,
                        ) {
                            Cell::Dead
                        } else {
                            before.cells[i]
                        },
                decreases size + 1 - col_cnt,
            {
                let prev_col = wrap_offset(column, -col_cnt, width);
                let post_col = wrap_offset(column, col_cnt, width);
                let ghost start = self@;

                if row_cnt == 0 && col_cnt == 0 {
                    let idx = self.get_index(post_row, post_col);
                    self.store(active, idx, Cell::Dead);
                } else {
                    let mut idx = self.get_index(prev_row, prev_col);
                    self.store(active, idx, Cell::Dead);
                    idx = self.get_index(prev_row, post_col);
                    self.store(active, idx, Cell::Dead);
                    idx = self.get_index(post_row, prev_col);
                    self.store(active, idx, Cell::Dead);
                    idx = self.get_index(post_row, post_col);
                    self.store(active, idx, Cell::Dead);
                }
                proof {
                    let columns_done = col_cnt + 1;
                    lemma_cell_index(width as int, height as int, prev_row as int, prev_col as int);
                    lemma_cell_index(width as int, height as int, prev_row as int, post_col as int);
                    lemma_cell_index(width as int, height as int, post_row as int, prev_col as int);
                    lemma_cell_index(width as int, height as int, post_row as int, post_col as int);
                    assert forall|i: int| 0 <= i < before.cells.len() implies self@.cells[i]
                        == if Self::swept(
                        before,
                        row as int,
                        column as int,
                        size as int,
                        row_cnt as int,
                        columns_done,
                        i,
                    ) {
                        Cell::Dead
                    } else {
                        before.cells[i]
                    } by {
                        lemma_cell_of_index(width as int, height as int, i);
                        lemma_reach_grows(i % (width as int), column as int, col_cnt as int, width as int);
                        let hit = (i / (width as int) == prev_row || i / (width as int) == post_row)
                            && (i % (width as int) == prev_col || i % (width as int) == post_col);
                        assert(self@.cells[i] == if hit {
                            Cell::Dead
                        } else {
                            start.cells[i]
                        });
                    }
                }
                col_cnt += 1;
            }
            proof {
                let columns_done = size + 1;
                let rows_done = row_cnt + 1;
                assert forall|i: int| 0 <= i < before.cells.len() implies (Self::swept(
                    before,
                    row as int,
                    column as int,
                    size as int,
                    row_cnt as int,
                    columns_done,
                    i,
                ) <==> Self::swept(
                    before,
                    row as int,
                    column as int,
                    size as int,
                    rows_done,
                    0,
                    i,
                )) by {
                    lemma_reach_grows(i / (width as int), row as int, row_cnt as int, height as int);
                    lemma_reach_negative(i % (width as int), column as int, -1, width as int);
                }
            }
            row_cnt += 1;
        }
        proof {
            assert forall|i: int| 0 <= i < before.cells.len() implies (Self::swept(
                before,
                row as int,
                column as int,
                size as int,
                row_cnt as int,
                0,
                i,
            ) <==> before.in_square(row as int, column as int, size as int, i)) by {
                lemma_reach_negative(i % (width as int), column as int, -1, width as int);
                if size < 0 {
                    lemma_reach_negative(i / (width as int), row as int, size as int, height as int);
                    lemma_reach_negative(i / (width as int), row as int, -1, height as int);
                }
            }
            assert(self@.cells =~= before.clear_square(
                row as int,
                column as int,
                size as int,
            ).cells);
        }
    }

    /// Gets the dead and alive values of the whole universe, row by row.
    pub fn get_cells(&self) -> (cells: &[Cell])
        ensures
            cells@ == self@.cells,
    {
        self.active_cells().as_slice()
    }

    /// Gives a read-only view of the cells of the current generation.
    pub fn cells(&self) -> (cells: &[Cell])
        ensures
            cells@ == self@.cells,
    {
        self.active_cells().as_slice()
    }

    /// Gets all changed cells, in the order in which they were recorded.
    pub fn changed_cells(&self) -> (changed: &[CellCoordinates])
        ensures
            changed@ == self@.changed_cells,
    {
        self.changed_cells.as_slice()
    }

    /// Forgets the changed cells recorded so far.
    pub fn changed_cells_clear(&mut self)
        requires
            old(self).wf(),
        ensures
            final(self).wf(),
            final(self)@ == (UniverseView { changed_cells: Seq::empty(), ..old(self)@ }),
    {
        self.changed_cells.clear();
    }

    /// Flips the cell at (`row`, `column`) and adds it to the list of changed
    /// cells, which is not cleared first.
    pub fn toggle_cell(&mut self, row: u16, column: u16)
        requires
            old(self).wf(),
            row < old(self)@.height,
            column < old(self)@.width,
        ensures
            final(self).wf(),
            final(self)@ == old(self)@.toggle_cell(row as int, column as int),
    {
        let idx = self.get_index(row, column);
        let mut cell = self.active_cells()[idx];
        cell.toggle();
        let active = self.active;
        self.store(active, idx, cell);
        proof {
            lemma_record_change(self@, CellCoordinates(row, column));
        }
        self.changed_cells.push(CellCoordinates(row, column));
    }

    /// Sets the given cells alive and lists each of them as changed, whether
    /// or not it was alive before. The list of changed cells is cleared first.
    pub fn set_cells(&mut self, cells: &[CellCoordinates])
        requires
            old(self).wf(),
            forall|k: int| 0 <= k < cells@.len() ==> old(self)@.on_grid(#[trigger] cells@[k]),
        ensures
            final(self).wf(),
            final(self)@ == old(self)@.set_cells(cells@),
    {
        let ghost before = self@;
        let active = self.active;
        self.changed_cells.clear();
        for k in 0..cells.len()
            invariant
                self.wf(),
                before.wf(),
                self.active == active,
                self@.width == before.width,
                self@.height == before.height,
                self@.cells.len() == before.cells.len(),
                self@.changed_cells == cells@.subrange(0, k as int),
                forall|j: int| 0 <= j < cells@.len() ==> before.on_grid(#[trigger] cells@[j]),
                forall|i: int|
                    0 <= i < before.cells.len() ==> self@.cells[i] == if cells@.subrange(
                        0,
                        k as int,
                    ).contains(before.coordinates(i)) {
                        Cell::Alive
                    } else {
                        before.cells[i]
                    },
        {
            let coordinates = cells[k];
            let ghost start = self@;
            let idx = self.get_index(coordinates.0, coordinates.1);
            self.store(active, idx, Cell::Alive);
            proof {
                lemma_record_change(self@, coordinates);
            }
            self.changed_cells.push(coordinates);
            proof {
                let earlier = cells@.subrange(0, k as int);
                let now = cells@.subrange(0, k + 1);
                assert(now == earlier.push(coordinates));
                lemma_cell_index(
                    before.width,
                    before.height,
                    coordinates.0 as int,
                    coordinates.1 as int,
                );
                assert forall|i: int| 0 <= i < before.cells.len() implies self@.cells[i]
                    == if now.contains(before.coordinates(i)) {
                    Cell::Alive
                } else {
                    before.cells[i]
                } by {
                    lemma_cell_of_index(before.width, before.height, i);
                    let at = before.coordinates(i);
                    if earlier.contains(at) {
                        let j = choose|j: int| 0 <= j < earlier.len() && earlier[j] == at;
                        assert(now[j] == at);
                    }
                    if at == coordinates {
                        assert(now[k as int] == at);
                    }
                    if now.contains(at) {
                        let j = choose|j: int| 0 <= j < now.len() && now[j] == at;
                        if j < k {
                            assert(earlier[j] == at);
                        }
                    }
                    assert(self@.cells[i] == if i == idx {
                        Cell::Alive
                    } else {
                        start.cells[i]
                    });
                }
            }
        }
        proof {
            assert(cells@.subrange(0, cells@.len() as int) == cells@);
            assert(self@.cells =~= before.set_cells(cells@).cells);
        }
    }

    /// Rewrites every cell, row by row, and lists every cell as changed: each
    /// cell is given by its sample where samples are handed in, and is dead
    /// where none are. The list of changed cells is cleared first.
    fn fill(&mut self, samples: Option<&[bool]>)
        requires
            old(self).wf(),
            samples matches Some(given) ==> given@.len() == old(self)@.cells.len(),
        ensures
            final(self).wf(),
            final(self)@ == match samples {
                Some(given) => old(self)@.reset(given@),
                None => old(self)@.clear(),
            },
    {
        let ghost before = self@;
        let ghost mut done: int = 0;
        let height = self.height;
        let width = self.width;
        let active = self.active;
        self.changed_cells.clear();

        for row in 0..height
            invariant
                self.wf(),
                before.wf(),
                self.active == active,
                self.height == height == before.height,
                self.width == width == before.width,
                self@.cells.len() == before.cells.len(),
                samples matches Some(given) ==> given@.len() == before.cells.len(),
                done == row * width,
                self@.changed_cells == before.all_coordinates().subrange(0, done),
                forall|i: int|
                    0 <= i < done ==> self@.cells[i] == match samples {
                        Some(given) => Cell::of_sample(given@[i]),
                        None => Cell::Dead,
                    },
        {
            for col in 0..width
                invariant
                    self.wf(),
                    before.wf(),
                    row < height,
                    self.active == active,
                    self.height == height == before.height,
                    self.width == width == before.width,
                    self@.cells.len() == before.cells.len(),
                    samples matches Some(given) ==> given@.len() == before.cells.len(),
                    done == row * width + col,
                    self@.changed_cells == before.all_coordinates().subrange(0, done),
                    forall|i: int|
                        0 <= i < done ==> self@.cells[i] == match samples {
                            Some(given) => Cell::of_sample(given@[i]),
                            None => Cell::Dead,
                        },
            {
                let idx = self.get_index(row, col);
                let cell = match samples {
                    Some(given) => Cell::from_sample(given[idx]),
                    None => Cell::Dead,
                };
                self.store(active, idx, cell);
                proof {
                    lemma_cell_index(width as int, height as int, row as int, col as int);
                    lemma_record_change(self@, CellCoordinates(row, col));
                    assert(before.coordinates(done) == CellCoordinates(row, col));
                    assert(before.all_coordinates().subrange(0, done + 1)
                        == before.all_coordinates().subrange(0, done).push(
                        CellCoordinates(row, col),
                    ));
                }
                self.changed_cells.push(CellCoordinates(row, col));
                proof {
                    done = done + 1;
                }
            }
            proof {
                assert((row + 1) * width == row * width + width) by (nonlinear_arith);
            }
        }
        proof {
            assert(done == before.cells.len()) by (nonlinear_arith)
                requires
                    done == height * width,
                    before.cells.len() == width * height,
            ;
            assert(before.all_coordinates().subrange(0, done) == before.all_coordinates());
            match samples {
                Some(given) => {
                    assert(self@.cells =~= before.reset(given@).cells);
                },
                None => {
                    assert(self@.cells =~= before.clear().cells);
                },
            }
        }
    }

    /// Gives every cell the state that its sample stands for, and lists every
    /// cell as changed. `samples` holds one uniform boolean sample for each
    /// cell, in row-major order.
    pub fn reset(&mut self, samples: &[bool])
        requires
            old(self).wf(),
            samples@.len() == old(self)@.cells.len(),
        ensures
            final(self).wf(),
            final(self)@ == old(self)@.reset(samples@),
    {
        self.fill(Some(samples));
    }

    /// Sets every cell to dead, and lists every cell as changed.
    pub fn clear(&mut self)
        requires
            old(self).wf(),
        ensures
            final(self).wf(),
            final(self)@ == old(self)@.clear(),
    {
        self.fill(None);
    }
}

} // verus!
