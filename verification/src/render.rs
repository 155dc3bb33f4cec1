//! A textual rendering of a universe, for debugging and headless display.

use crate::cell::Cell;
use crate::model::UniverseView;
use crate::torus::lemma_cell_index;
use crate::universe::Universe;
use vstd::prelude::*;
use vstd::string::StringExecFns;

verus! {

/// The glyph that stands for a cell: a hollow square for a dead cell, a
/// filled square for a live one.
pub open spec fn glyph(cell: Cell) -> char {
    match cell {
        Cell::Dead => '\u{25FB}',
        Cell::Alive => '\u{25FC}',
    }
}

impl UniverseView {
    /// The first `columns` glyphs of the line that renders row `row`.
    pub open spec fn rendered_cells(self, row: int, columns: int) -> Seq<char> {
        Seq::new(columns as nat, |column: int| glyph(self.cell(row, column)))
    }

    /// The line that renders row `row`: one glyph for each cell, then a line
    /// break.
    pub open spec fn rendered_row(self, row: int) -> Seq<char> {
        self.rendered_cells(row, self.width).push('\n')
    }

    /// The lines that render the first `rows` rows, one after the other.
    pub open spec fn rendered_rows(self, rows: int) -> Seq<char>
        decreases rows,
    {
        if rows <= 0 {
            Seq::empty()
        } else {
            self.rendered_rows(rows - 1) + self.rendered_row(rows - 1)
        }
    }

    /// The text that renders the universe: its rows from first to last, each
    /// as a line of glyphs.
    pub open spec fn render(self) -> Seq<char> {
        self.rendered_rows(self.height)
    }
}

impl Universe {
    /// Renders the universe in its current state as text: a line for each
    /// row, a glyph for each cell.
    pub fn render(&self) -> (text: String)
        requires
            self.wf(),
        ensures
            text@ == self@.render(),
    {
        let width = self.width();
        let height = self.height();
        let cells = self.get_cells();
        let mut text = String::new();
        proof {
            reveal_strlit("\u{25FB}");
            reveal_strlit("\u{25FC}");
            reveal_strlit("\n");
        }
        for row in 0..height
            invariant
                self.wf(),
                width == self@.width,
                height == self@.height,
                cells@ == self@.cells,
                "\u{25FB}"@ == seq!['\u{25FB}'],
                "\u{25FC}"@ == seq!['\u{25FC}'],
                "\n"@ == seq!['\n'],
                text@ == self@.rendered_rows(row as int),
        {
            for column in 0..width
                invariant
                    self.wf(),
                    row < height,
                    width == self@.width,
                    height == self@.height,
                    cells@ == self@.cells,
                    "\u{25FB}"@ == seq!['\u{25FB}'],
                    "\u{25FC}"@ == seq!['\u{25FC}'],
                    text@ == self@.rendered_rows(row as int) + self@.rendered_cells(
                        row as int,
                        column as int,
                    ),
            {
                proof {
                    lemma_cell_index(width as int, height as int, row as int, column as int);
                    assert(width * height <= 0xFFFF * 0xFFFF) by (nonlinear_arith)
                        requires
                            width <= 0xFFFF,
                            height <= 0xFFFF,
                    ;
                }
                let cell = cells[row as usize * width as usize + column as usize];
                let symbol = if cell == Cell::Dead {
                    "\u{25FB}"
                } else {
                    "\u{25FC}"
                };
                text.append(symbol);
                proof {
                    assert(self@.rendered_cells(row as int, column + 1) == self@.rendered_cells(
                        row as int,
                        column as int,
                    ).push(glyph(cell)));
                    assert(text@ == self@.rendered_rows(row as int) + self@.rendered_cells(
                        row as int,
                        column + 1,
                    ));
                }
            }
            text.append("\n");
            proof {
                assert(text@ == self@.rendered_rows(row as int) + self@.rendered_row(row as int));
            }
        }
        text
    }
}

} // verus!
