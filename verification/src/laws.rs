//! Laws of the game: what holds of every universe, proved from the model.

use crate::cell::{Cell, CellCoordinates};
use crate::model::UniverseView;
use crate::patterns::{glider_offsets, pulsar_offsets};
use crate::torus::{lemma_cell_index, lemma_cell_of_index};
use vstd::prelude::*;

verus! {

/// A step of the game is a function of the current generation alone: two
/// universes of the same dimensions with the same cells have the same next
/// generation and record the same changes, whatever they had recorded before.
pub proof fn lemma_tick_is_deterministic(a: UniverseView, b: UniverseView)
    requires
        a.width == b.width,
        a.height == b.height,
        a.cells == b.cells,
    ensures
        a.tick().cells == b.tick().cells,
        a.tick_changes(a.cells.len() as int) == b.tick_changes(b.cells.len() as int),
{
    let both = UniverseView { changed_cells: Seq::empty(), ..a };
    lemma_tick_ignores_changes(a, both, a.cells.len() as int);
    lemma_tick_ignores_changes(b, both, b.cells.len() as int);
    assert(a.tick().cells =~= both.tick().cells);
    assert(b.tick().cells =~= both.tick().cells);
}

/// The changes that a step records do not depend on the changes recorded
/// before it.
proof fn lemma_tick_ignores_changes(a: UniverseView, b: UniverseView, n: int)
    requires
        a.width == b.width,
        a.height == b.height,
        a.cells == b.cells,
    ensures
        a.tick_changes(n) == b.tick_changes(n),
        forall|i: int| a.next_cell(i) == b.next_cell(i),
    decreases n,
{
    if n > 0 {
        lemma_tick_ignores_changes(a, b, n - 1);
    }
}

/// Every cell of the next generation follows the rule of the game, applied
/// to the cell and to the number of its live neighbors in this generation.
pub proof fn lemma_tick_applies_rule(universe: UniverseView, row: int, column: int)
    requires
        universe.wf(),
        0 <= row < universe.height,
        0 <= column < universe.width,
    ensures
        universe.tick().cell(row, column) == universe.cell(row, column).successor(
            universe.live_neighbor_count(row, column),
        ),
{
    lemma_cell_index(universe.width, universe.height, row, column);
}

/// A step records exactly the cells that changed: among the first `n` cells,
/// the cell stored at `index` is listed if and only if its next state differs
/// from its state now.
pub proof fn lemma_tick_records_changed_cells(universe: UniverseView, n: int, index: int)
    requires
        universe.wf(),
        0 <= n <= universe.cells.len(),
        0 <= index < universe.cells.len(),
    ensures
        universe.tick_changes(n).contains(universe.coordinates(index)) <==> (index < n
            && universe.next_cell(index) != universe.cells[index]),
    decreases n,
{
    if n > 0 {
        lemma_tick_records_changed_cells(universe, n - 1, index);
        lemma_cell_of_index(universe.width, universe.height, index);
        lemma_cell_of_index(universe.width, universe.height, n - 1);
        let at = universe.coordinates(index);
        let earlier = universe.tick_changes(n - 1);
        let now = universe.tick_changes(n);
        if universe.next_cell(n - 1) != universe.cells[n - 1] {
            assert(now == earlier.push(universe.coordinates(n - 1)));
            if earlier.contains(at) {
                let k = choose|k: int| 0 <= k < earlier.len() && earlier[k] == at;
                assert(now[k] == at);
            }
            if index == n - 1 {
                assert(now[earlier.len() as int] == at);
            }
            if now.contains(at) {
                let k = choose|k: int| 0 <= k < now.len() && now[k] == at;
                if k < earlier.len() {
                    assert(earlier[k] == at);
                } else {
                    assert(universe.coordinates(n - 1) == at);
                    assert(index == n - 1);
                }
            }
        }
    }
}

/// Clearing twice is the same as clearing once, and leaves every cell dead.
pub proof fn lemma_clear_is_idempotent(universe: UniverseView)
    ensures
        universe.clear().clear() == universe.clear(),
        forall|i: int| 0 <= i < universe.cells.len() ==> universe.clear().cells[i] == Cell::Dead,
{
    assert(universe.clear().clear().cells =~= universe.clear().cells);
    assert(universe.clear().clear().changed_cells =~= universe.clear().changed_cells);
}

/// Toggling a cell twice restores every cell of the universe; both toggles
/// are recorded as changes.
pub proof fn lemma_toggle_twice_restores(universe: UniverseView, row: int, column: int)
    requires
        universe.wf(),
        0 <= row < universe.height,
        0 <= column < universe.width,
    ensures
        universe.toggle_cell(row, column).toggle_cell(row, column).cells == universe.cells,
        universe.toggle_cell(row, column).cell(row, column) == universe.cell(row, column).toggled(),
        universe.toggle_cell(row, column).toggle_cell(row, column).changed_cells
            == universe.changed_cells.push(CellCoordinates(row as u16, column as u16)).push(
            CellCoordinates(row as u16, column as u16),
        ),
{
    lemma_cell_index(universe.width, universe.height, row, column);
    assert(universe.toggle_cell(row, column).toggle_cell(row, column).cells =~= universe.cells);
}

/// After setting cells, the list of changed cells is exactly the list of the
/// cells that were set, whatever the universe held and had recorded before.
pub proof fn lemma_set_cells_tracks_changes(universe: UniverseView, cells: Seq<CellCoordinates>)
    ensures
        universe.set_cells(cells).changed_cells == cells,
        universe.set_cells(seq![CellCoordinates(0, 0)]).changed_cells == seq![
            CellCoordinates(0, 0),
        ],
{
}

/// After setting cells, a cell of the grid is alive exactly if it was set or
/// was alive before.
pub proof fn lemma_set_cells_sets_alive(
    universe: UniverseView,
    cells: Seq<CellCoordinates>,
    row: int,
    column: int,
)
    requires
        universe.wf(),
        0 <= row < universe.height,
        0 <= column < universe.width,
    ensures
        universe.set_cells(cells).cell(row, column) == Cell::Alive <==> cells.contains(
            CellCoordinates(row as u16, column as u16),
        ) || universe.cell(row, column) == Cell::Alive,
{
    lemma_cell_index(universe.width, universe.height, row, column);
}

/// In a universe where every cell is dead, inserting a pattern leaves
/// exactly the cells of the pattern alive, and lists them as changed in the
/// order of the pattern's offsets.
pub proof fn lemma_pattern_on_empty(
    universe: UniverseView,
    row: int,
    column: int,
    size: int,
    offsets: Seq<(int, int)>,
    r: int,
    c: int,
)
    requires
        universe.wf(),
        forall|i: int| 0 <= i < universe.cells.len() ==> universe.cells[i] == Cell::Dead,
        0 <= r < universe.height,
        0 <= c < universe.width,
    ensures
        universe.insert_pattern(row, column, size, offsets).changed_cells
            == universe.pattern_cells(row, column, offsets),
        universe.insert_pattern(row, column, size, offsets).cell(r, c) == Cell::Alive
            <==> universe.pattern_cells(row, column, offsets).contains(
            CellCoordinates(r as u16, c as u16),
        ),
{
    lemma_cell_index(universe.width, universe.height, r, c);
}

/// Inserting a glider at any cell of a universe where every cell is dead
/// leaves alive exactly the five cells of the glider: the cell above, the
/// cell to the right, and the three cells below, each wrapped at the edges.
pub proof fn lemma_glider_on_empty(universe: UniverseView, row: int, column: int, r: int, c: int)
    requires
        universe.wf(),
        forall|i: int| 0 <= i < universe.cells.len() ==> universe.cells[i] == Cell::Dead,
        0 <= r < universe.height,
        0 <= c < universe.width,
    ensures
        universe.insert_glider(row, column).changed_cells == seq![
            universe.at_offset(row, column, (-1, 0)),
            universe.at_offset(row, column, (0, 1)),
            universe.at_offset(row, column, (1, -1)),
            universe.at_offset(row, column, (1, 0)),
            universe.at_offset(row, column, (1, 1)),
        ],
        universe.insert_glider(row, column).cell(r, c) == Cell::Alive
            <==> universe.insert_glider(row, column).changed_cells.contains(
            CellCoordinates(r as u16, c as u16),
        ),
{
    lemma_pattern_on_empty(universe, row, column, 1, glider_offsets(), r, c);
    assert(universe.pattern_cells(row, column, glider_offsets()) =~= seq![
        universe.at_offset(row, column, (-1, 0)),
        universe.at_offset(row, column, (0, 1)),
        universe.at_offset(row, column, (1, -1)),
        universe.at_offset(row, column, (1, 0)),
        universe.at_offset(row, column, (1, 1)),
    ]);
}

/// Inserting a pulsar at any cell of a universe where every cell is dead
/// leaves alive exactly the cells of the pulsar, and lists its forty-eight
/// cells as changed.
pub proof fn lemma_pulsar_on_empty(universe: UniverseView, row: int, column: int, r: int, c: int)
    requires
        universe.wf(),
        forall|i: int| 0 <= i < universe.cells.len() ==> universe.cells[i] == Cell::Dead,
        0 <= r < universe.height,
        0 <= c < universe.width,
    ensures
        universe.insert_pulsar(row, column).changed_cells == universe.pattern_cells(
            row,
            column,
            pulsar_offsets(),
        ),
        universe.insert_pulsar(row, column).changed_cells.len() == 48,
        universe.insert_pulsar(row, column).cell(r, c) == Cell::Alive
            <==> universe.insert_pulsar(row, column).changed_cells.contains(
            CellCoordinates(r as u16, c as u16),
        ),
{
    lemma_pattern_on_empty(universe, row, column, 7, pulsar_offsets(), r, c);
    lemma_pulsar_offsets();
}

/// The forty-eight cells of a pulsar, as (row, column) offsets from its
/// center, row by row from the top.
pub proof fn lemma_pulsar_offsets()
    ensures
        pulsar_offsets() == seq![
            (-6int, -4int),
            (-6int, -3int),
            (-6int, -2int),
            (-6int, 2int),
            (-6int, 3int),
            (-6int, 4int),
            (-4int, -6int),
            (-4int, -1int),
            (-4int, 1int),
            (-4int, 6int),
            (-3int, -6int),
            (-3int, -1int),
            (-3int, 1int),
            (-3int, 6int),
            (-2int, -6int),
            (-2int, -1int),
            (-2int, 1int),
            (-2int, 6int),
            (-1int, -4int),
            (-1int, -3int),
            (-1int, -2int),
            (-1int, 2int),
            (-1int, 3int),
            (-1int, 4int),
            (1int, -4int),
            (1int, -3int),
            (1int, -2int),
            (1int, 2int),
            (1int, 3int),
            (1int, 4int),
            (2int, -6int),
            (2int, -1int),
            (2int, 1int),
            (2int, 6int),
            (3int, -6int),
            (3int, -1int),
            (3int, 1int),
            (3int, 6int),
            (4int, -6int),
            (4int, -1int),
            (4int, 1int),
            (4int, 6int),
            (6int, -4int),
            (6int, -3int),
            (6int, -2int),
            (6int, 2int),
            (6int, 3int),
            (6int, 4int),
        ],
        pulsar_offsets().len() == 48,
{
    assert(pulsar_offsets().len() == 48);
    assert(pulsar_offsets() =~= seq![
        (-6int, -4int),
        (-6int, -3int),
        (-6int, -2int),
        (-6int, 2int),
        (-6int, 3int),
        (-6int, 4int),
        (-4int, -6int),
        (-4int, -1int),
        (-4int, 1int),
        (-4int, 6int),
        (-3int, -6int),
        (-3int, -1int),
        (-3int, 1int),
        (-3int, 6int),
        (-2int, -6int),
        (-2int, -1int),
        (-2int, 1int),
        (-2int, 6int),
        (-1int, -4int),
        (-1int, -3int),
        (-1int, -2int),
        (-1int, 2int),
        (-1int, 3int),
        (-1int, 4int),
        (1int, -4int),
        (1int, -3int),
        (1int, -2int),
        (1int, 2int),
        (1int, 3int),
        (1int, 4int),
        (2int, -6int),
        (2int, -1int),
        (2int, 1int),
        (2int, 6int),
        (3int, -6int),
        (3int, -1int),
        (3int, 1int),
        (3int, 6int),
        (4int, -6int),
        (4int, -1int),
        (4int, 1int),
        (4int, 6int),
        (6int, -4int),
        (6int, -3int),
        (6int, -2int),
        (6int, 2int),
        (6int, 3int),
        (6int, 4int),
    ]);
}

} // verus!
