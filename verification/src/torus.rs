//! Arithmetic on a ring of positions: coordinates that wrap around at the edges,
//! and the row-major numbering of the cells of a grid.

use vstd::arithmetic::div_mod::{lemma_fundamental_div_mod, lemma_fundamental_div_mod_converse, lemma_mod_bound};
use vstd::prelude::*;

verus! {

/// The position that `x` falls on when positions repeat every `n` steps.
/// For `n > 0` the result lies in `0..n`, also for a negative `x`.
pub open spec fn wrap(x: int, n: int) -> int {
    x % n
}

/// The place of the cell at (`row`, `column`) in a row-major buffer whose rows
/// hold `width` cells.
pub open spec fn cell_index(width: int, row: int, column: int) -> int {
    row * width + column
}

/// The position reached from `base` after `offset` steps, forwards or backwards.
pub open spec fn offset_position(base: int, offset: int, n: int) -> int {
    wrap(base + offset, n)
}

/// Whether `position` can be reached from `center` in at most `radius` steps,
/// forwards or backwards, on a ring of `n` positions.
pub open spec fn within_reach(position: int, center: int, radius: int, n: int) -> bool {
    exists|d: int| -radius <= d <= radius && position == #[trigger] offset_position(center, d, n)
}

/// A position of the ring is left where it is.
pub proof fn lemma_wrap_fixes_positions(x: int, n: int)
    requires
        0 <= x < n,
    ensures
        wrap(x, n) == x,
{
    lemma_fundamental_div_mod_converse(x, n, 0, x);
}

/// One step back from the first position is the last one, and one step on
/// from the last position is the first.
pub proof fn lemma_wrap_at_edges(n: int)
    requires
        n > 0,
    ensures
        wrap(0 - 1, n) == n - 1,
        wrap((n - 1) + 1, n) == 0,
{
    lemma_fundamental_div_mod_converse(-1, n, -1, n - 1);
    lemma_fundamental_div_mod_converse(n, n, 1, 0);
}

/// The position before `x` on a ring of `n` positions: before the first
/// position comes the last.
pub open spec fn previous(x: int, n: int) -> int {
    if x == 0 {
        n - 1
    } else {
        x - 1
    }
}

/// The position after `x` on a ring of `n` positions: after the last position
/// comes the first.
pub open spec fn next(x: int, n: int) -> int {
    if x == n - 1 {
        0
    } else {
        x + 1
    }
}

/// Inside the ring, a step back or on wraps only at the two edges.
pub proof fn lemma_wrap_step(x: int, n: int)
    requires
        0 <= x < n,
    ensures
        wrap(x - 1, n) == previous(x, n),
        wrap(x + 1, n) == next(x, n),
        wrap(x, n) == x,
        0 <= previous(x, n) < n,
        0 <= next(x, n) < n,
{
    lemma_wrap_fixes_positions(x, n);
    lemma_wrap_at_edges(n);
    if x > 0 {
        lemma_wrap_fixes_positions(x - 1, n);
    }
    if x < n - 1 {
        lemma_wrap_fixes_positions(x + 1, n);
    }
}

/// Nothing is within a negative number of steps.
pub proof fn lemma_reach_negative(position: int, center: int, radius: int, n: int)
    requires
        radius < 0,
    ensures
        !within_reach(position, center, radius, n),
{
}

/// One more step reaches, beyond what was within reach before, the two
/// positions that lie exactly `radius` steps back and `radius` steps on.
pub proof fn lemma_reach_grows(position: int, center: int, radius: int, n: int)
    requires
        radius >= 0,
    ensures
        within_reach(position, center, radius, n) <==> (within_reach(
            position,
            center,
            radius - 1,
            n,
        ) || position == offset_position(center, -radius, n) || position == offset_position(
            center,
            radius,
            n,
        )),
{
    if within_reach(position, center, radius, n) {
        let d = choose|d: int|
            -radius <= d <= radius && position == #[trigger] offset_position(center, d, n);
        if -radius < d < radius {
            assert(-(radius - 1) <= d <= radius - 1 && position == offset_position(center, d, n));
        }
    }
    if within_reach(position, center, radius - 1, n) {
        let d = choose|d: int|
            -(radius - 1) <= d <= radius - 1 && position == #[trigger] offset_position(
                center,
                d,
                n,
            );
        assert(-radius <= d <= radius && position == offset_position(center, d, n));
    }
    if position == offset_position(center, -radius, n) {
        assert(-radius <= -radius <= radius && position == offset_position(center, -radius, n));
    }
    if position == offset_position(center, radius, n) {
        assert(-radius <= radius <= radius && position == offset_position(center, radius, n));
    }
}

/// The cells of a `width` by `height` grid are numbered one to one by
/// `cell_index`: the index lies in the buffer, and row and column are read
/// back from it by division and remainder.
pub proof fn lemma_cell_index(width: int, height: int, row: int, column: int)
    requires
        0 <= row < height,
        0 <= column < width,
    ensures
        0 <= cell_index(width, row, column) < width * height,
        cell_index(width, row, column) / width == row,
        cell_index(width, row, column) % width == column,
{
    assert(row * width + width <= height * width) by (nonlinear_arith)
        requires
            0 <= row < height,
            0 < width,
    ;
    assert(0 <= row * width) by (nonlinear_arith)
        requires
            0 <= row,
            0 < width,
    ;
    assert(height * width == width * height) by (nonlinear_arith);
    lemma_fundamental_div_mod_converse(row * width + column, width, row, column);
}

/// Every index of the buffer is the index of exactly one cell of the grid.
pub proof fn lemma_cell_of_index(width: int, height: int, index: int)
    requires
        0 < width,
        0 <= index < width * height,
    ensures
        0 <= index / width < height,
        0 <= index % width < width,
        cell_index(width, index / width, index % width) == index,
{
    lemma_fundamental_div_mod(index, width);
    lemma_mod_bound(index, width);
    let q = index / width;
    assert(width * q == q * width) by (nonlinear_arith);
    assert(0 <= q < height) by (nonlinear_arith)
        requires
            0 < width,
            0 <= index < width * height,
            index == width * q + index % width,
            0 <= index % width < width,
    ;
}

/// Moves `offset` steps from `base` on a ring of `modulus` positions.
pub fn wrap_offset(base: u16, offset: i32, modulus: u16) -> (r: u16)
    requires
        modulus > 0,
    ensures
        r == offset_position(base as int, offset as int, modulus as int),
        r < modulus,
{
    let m: i64 = modulus as i64;
    let x: i64 = base as i64 + offset as i64;
    let rem: i64 = x % m;
    proof {
        lemma_mod_bound(x as int, m as int);
        if x < 0 {
            // The remainder of a negative number keeps its sign: fold it back into the ring.
            let y = -(x as int);
            lemma_fundamental_div_mod(y, m as int);
            lemma_mod_bound(y, m as int);
            let q = y / (m as int);
            if y % (m as int) == 0 {
                assert(x == (-q) * m + 0) by (nonlinear_arith)
                    requires
                        y == m * q + 0,
                        x == -y,
                ;
                lemma_fundamental_div_mod_converse(x as int, m as int, -q, 0);
            } else {
                let r = m - y % (m as int);
                assert(x == (-q - 1) * m + r) by (nonlinear_arith)
                    requires
                        y == m * q + (m - r),
                        x == -y,
                ;
                lemma_fundamental_div_mod_converse(x as int, m as int, -q - 1, r);
            }
        }
    }
    let folded: i64 = if rem < 0 { rem + m } else { rem };
    folded as u16
}

} // verus!
