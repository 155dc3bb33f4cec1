//! Patterns that can be stamped onto a universe: the glider and the pulsar.

use crate::cell::CellCoordinates;
use crate::model::UniverseView;
use crate::torus::{offset_position, wrap_offset};
use crate::universe::Universe;
use vstd::prelude::*;

verus! {

/// The cells of a glider, as (row, column) offsets from the cell it is
/// inserted at.
pub open spec fn glider_offsets() -> Seq<(int, int)> {
    seq![(-1, 0), (0, 1), (1, -1), (1, 0), (1, 1)]
}

/// The columns, relative to the center, of the live cells in the rows one and
/// six steps above and below the center of a pulsar.
pub open spec fn pulsar_outer_columns() -> Seq<i32> {
    seq![-4i32, -3i32, -2i32, 2i32, 3i32, 4i32]
}

/// The columns, relative to the center, of the live cells in the rows two,
/// three and four steps above and below the center of a pulsar.
pub open spec fn pulsar_inner_columns() -> Seq<i32> {
    seq![-6i32, -1i32, 1i32, 6i32]
}

/// The offsets of the cells in one row of a pattern.
pub open spec fn band(row_offset: int, column_offsets: Seq<i32>) -> Seq<(int, int)> {
    Seq::new(column_offsets.len(), |k: int| (row_offset, column_offsets[k] as int))
}

/// The cells of a pulsar, as (row, column) offsets from its center, from the
/// top row to the bottom row.
pub open spec fn pulsar_offsets() -> Seq<(int, int)> {
    band(-6, pulsar_outer_columns()) + band(-4, pulsar_inner_columns()) + band(
        -3,
        pulsar_inner_columns(),
    ) + band(-2, pulsar_inner_columns()) + band(-1, pulsar_outer_columns()) + band(
        1,
        pulsar_outer_columns(),
    ) + band(2, pulsar_inner_columns()) + band(3, pulsar_inner_columns()) + band(
        4,
        pulsar_inner_columns(),
    ) + band(6, pulsar_outer_columns())
}

impl UniverseView {
    /// The cell that lies `offset.0` rows and `offset.1` columns from
    /// (`row`, `column`) on the torus.
    pub open spec fn at_offset(self, row: int, column: int, offset: (int, int)) -> CellCoordinates {
        CellCoordinates(
            offset_position(row, offset.0, self.height) as u16,
            offset_position(column, offset.1, self.width) as u16,
        )
    }

    /// The cells of a pattern placed at (`row`, `column`), in the order of
    /// its offsets.
    pub open spec fn pattern_cells(
        self,
        row: int,
        column: int,
        offsets: Seq<(int, int)>,
    ) -> Seq<CellCoordinates> {
        Seq::new(offsets.len(), |k: int| self.at_offset(row, column, offsets[k]))
    }

    /// A pattern that fits in the square of `2 * size + 1` rows and columns
    /// around (`row`, `column`) is inserted there: the square is cleared, and
    /// then the cells of the pattern are set alive and listed as changed.
    pub open spec fn insert_pattern(
        self,
        row: int,
        column: int,
        size: int,
        offsets: Seq<(int, int)>,
    ) -> UniverseView {
        self.clear_square(row, column, size).set_cells(self.pattern_cells(row, column, offsets))
    }

    /// A glider is inserted around (`row`, `column`).
    pub open spec fn insert_glider(self, row: int, column: int) -> UniverseView {
        self.insert_pattern(row, column, 1, glider_offsets())
    }

    /// A pulsar is inserted around (`row`, `column`).
    pub open spec fn insert_pulsar(self, row: int, column: int) -> UniverseView {
        self.insert_pattern(row, column, 7, pulsar_offsets())
    }
}

impl Universe {
    /// Appends to `cells` the cells of one row of a pattern placed at
    /// (`row`, `column`).
    fn push_band(
        &self,
        cells: &mut Vec<CellCoordinates>,
        row: u16,
        column: u16,
        row_offset: i32,
        column_offsets: &[i32],
    )
        requires
            self.wf(),
            forall|k: int| 0 <= k < old(cells)@.len() ==> self@.on_grid(#[trigger] old(cells)@[k]),
        ensures
            final(cells)@ == old(cells)@ + self@.pattern_cells(
                row as int,
                column as int,
                band(row_offset as int, column_offsets@),
            ),
            forall|k: int| 0 <= k < final(cells)@.len() ==> self@.on_grid(#[trigger] final(cells)@[k]),
    {
        let width = self.width();
        let height = self.height();
        let ghost offsets = band(row_offset as int, column_offsets@);
        let ghost pattern = self@.pattern_cells(row as int, column as int, offsets);
        let tmp_row = wrap_offset(row, row_offset, height);
        for k in 0..column_offsets.len()
            invariant
                self.wf(),
                width == self@.width,
                height == self@.height,
                tmp_row == offset_position(row as int, row_offset as int, height as int),
                tmp_row < height,
                offsets == band(row_offset as int, column_offsets@),
                pattern == self@.pattern_cells(row as int, column as int, offsets),
                cells@ == old(cells)@ + pattern.subrange(0, k as int),
                forall|j: int| 0 <= j < cells@.len() ==> self@.on_grid(#[trigger] cells@[j]),
        {
            let tmp_col = wrap_offset(column, column_offsets[k], width);
            cells.push(CellCoordinates(tmp_row, tmp_col));
            proof {
                assert(pattern[k as int] == CellCoordinates(tmp_row, tmp_col));
                assert(pattern.subrange(0, k + 1) == pattern.subrange(0, k as int).push(
                    pattern[k as int],
                ));
            }
        }
        proof {
            assert(pattern.subrange(0, pattern.len() as int) == pattern);
        }
    }

    /// Inserts a glider around the cell at (`row`, `column`): the three by
    /// three square around the cell is cleared, then the five cells of the
    /// glider are set alive and listed as changed. Rows and columns beyond an
    /// edge continue at the opposite edge.
    pub fn insert_glider(&mut self, row: u16, column: u16)
        requires
            old(self).wf(),
        ensures
            final(self).wf(),
            final(self)@ == old(self)@.insert_glider(row as int, column as int),
    {
        let width = self.width();
        let height = self.height();
        let ghost before = self@;

        let row_here = wrap_offset(row, 0, height);
        let column_here = wrap_offset(column, 0, width);
        let row_above = wrap_offset(row, -1, height);
        let row_below = wrap_offset(row, 1, height);
        let column_before = wrap_offset(column, -1, width);
        let column_after = wrap_offset(column, 1, width);

        // clear surrounding cells
        self.clear_square(row, column, 1);
        // set glider cells
        let cells = [
            CellCoordinates(row_above, column_here),
            CellCoordinates(row_here, column_after),
            CellCoordinates(row_below, column_before),
            CellCoordinates(row_below, column_here),
            CellCoordinates(row_below, column_after),
        ];
        proof {
            assert(cells@ =~= before.pattern_cells(row as int, column as int, glider_offsets()));
        }
        self.set_cells(cells.as_slice());
    }

    /// Inserts a pulsar around the cell at (`row`, `column`): the square of
    /// fifteen rows and columns around the cell is cleared, then the
    /// forty-eight cells of the pulsar are set alive and listed as changed.
    /// Rows and columns beyond an edge continue at the opposite edge.
    pub fn insert_pulsar(&mut self, row: u16, column: u16)
        requires
            old(self).wf(),
        ensures
            final(self).wf(),
            final(self)@ == old(self)@.insert_pulsar(row as int, column as int),
    {
        let ghost before = self@;
        let outer: [i32; 6] = [-4, -3, -2, 2, 3, 4];
        let inner: [i32; 4] = [-6, -1, 1, 6];
        proof {
            assert(outer@ =~= pulsar_outer_columns());
            assert(inner@ =~= pulsar_inner_columns());
        }
        let mut cells: Vec<CellCoordinates> = Vec::new();

        self.clear_square(row, column, 7);

        /* top rows */
        self.push_band(&mut cells, row, column, -6, outer.as_slice());
        self.push_band(&mut cells, row, column, -4, inner.as_slice());
        self.push_band(&mut cells, row, column, -3, inner.as_slice());
        self.push_band(&mut cells, row, column, -2, inner.as_slice());
        self.push_band(&mut cells, row, column, -1, outer.as_slice());

        /* bottom rows */
        self.push_band(&mut cells, row, column, 1, outer.as_slice());
        self.push_band(&mut cells, row, column, 2, inner.as_slice());
        self.push_band(&mut cells, row, column, 3, inner.as_slice());
        self.push_band(&mut cells, row, column, 4, inner.as_slice());
        self.push_band(&mut cells, row, column, 6, outer.as_slice());

        proof {
            assert(cells@ =~= before.pattern_cells(row as int, column as int, pulsar_offsets()));
        }
        self.set_cells(cells.as_slice());
    }
}

} // verus!
