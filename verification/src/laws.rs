//! Proved laws of the update rule: locality of the per-cell rule, no
//! spontaneous life on a dead grid, death of an isolated cell, stability
//! of the 2x2 block, and wraparound neighbor counting across the edges.

use vstd::prelude::*;

verus! {

use crate::canvas::Canvas;
use crate::canvas::Cell;
use crate::canvas::wrap;

/// The per-cell rule is local: two grids of the same dimensions that agree
/// on the 3x3 wrapped neighborhood of (`x`, `y`) give that cell the same
/// next state, whatever their other cells hold.
pub proof fn lemma_next_state_local(g1: Canvas, g2: Canvas, x: int, y: int)
    requires
        g1.wf(),
        g2.wf(),
        g1.dx == g2.dx,
        g1.dy == g2.dy,
        0 <= x < g1.dx,
        0 <= y < g1.dy,
        forall|a: int, b: int|
            0 <= a < 3 && 0 <= b < 3 ==> g1.neighbor_cell(x, y, a, b) == g2.neighbor_cell(
                x,
                y,
                a,
                b,
            ),
    ensures
        g1.next_state(x, y) == g2.next_state(x, y),
{
    assert forall|a: int, b: int| 0 <= a < 3 && 0 <= b < 3 implies g1.neighbor_term(x, y, a, b)
        == g2.neighbor_term(x, y, a, b) by {
        assert(g1.neighbor_cell(x, y, a, b) == g2.neighbor_cell(x, y, a, b));
    }
    assert(wrap(x + 1 - 1, g1.dx as int) == x);
    assert(wrap(y + 1 - 1, g1.dy as int) == y);
    assert(g1.neighbor_cell(x, y, 1, 1) == g2.neighbor_cell(x, y, 1, 1));
    assert(g1.cell(x, y) == g2.cell(x, y));
}

/// No spontaneous life: on a fully dead grid, every cell's next state is
/// dead, so the whole-grid update maps a dead grid to a dead grid.
pub proof fn lemma_dead_grid_stays_dead(g: Canvas)
    requires
        g.wf(),
        forall|u: int, v: int| 0 <= u < g.dx && 0 <= v < g.dy ==> g.cell(u, v) is Death,
    ensures
        forall|x: int, y: int|
            0 <= x < g.dx && 0 <= y < g.dy ==> g.next_state(x, y) == Cell::Death,
{
    assert forall|x: int, y: int|
        0 <= x < g.dx && 0 <= y < g.dy implies g.next_state(x, y) == Cell::Death by {
        assert forall|a: int, b: int| 0 <= a < 3 && 0 <= b < 3 implies g.neighbor_term(x, y, a, b)
            == 0 by {
            assert(g.cell(wrap(x + a - 1, g.dx as int), wrap(y + b - 1, g.dy as int)) is Death);
        }
    }
}

/// Isolation death: a live cell with no live cell anywhere else in its 3x3
/// wrapped neighborhood is dead after one update. On a grid only one cell
/// wide or one cell tall the neighborhood wraps onto the cell itself, so
/// such grids are left out.
pub proof fn lemma_isolated_cell_dies(g: Canvas, x: int, y: int)
    requires
        g.wf(),
        g.dx >= 2,
        g.dy >= 2,
        0 <= x < g.dx,
        0 <= y < g.dy,
        g.cell(x, y) is Life,
        forall|a: int, b: int|
            0 <= a < 3 && 0 <= b < 3 && !(a == 1 && b == 1) ==> g.neighbor_cell(x, y, a, b)
                is Death,
    ensures
        g.next_state(x, y) == Cell::Death,
{
    assert forall|a: int, b: int|
        0 <= a < 3 && 0 <= b < 3 && !(a == 1 && b == 1) implies g.neighbor_term(x, y, a, b)
        == 0 by {
        assert(g.neighbor_cell(x, y, a, b) is Death);
    }
    assert(wrap(x + 1 - 1, g.dx as int) == x);
    assert(wrap(y + 1 - 1, g.dy as int) == y);
    assert(g.neighbor_term(x, y, 1, 1) == 1);
    assert(g.neighbor_count(x, y) == 0);
}

/// Still life: on a grid whose live cells are exactly a 2x2 block (away
/// from the wrapping seam, on a grid at least 3 cells wide and tall so
/// that the block is not wrap-adjacent to itself), every cell keeps its
/// state under the update rule.
#[verifier::rlimit(100)]
pub proof fn lemma_block_still_life(g: Canvas, x: int, y: int)
    requires
        g.wf(),
        g.dx >= 3,
        g.dy >= 3,
        0 <= x,
        x + 1 < g.dx,
        0 <= y,
        y + 1 < g.dy,
        forall|u: int, v: int|
            0 <= u < g.dx && 0 <= v < g.dy ==> (g.cell(u, v) is Life <==> (x <= u <= x + 1 && y <= v
                <= y + 1)),
    ensures
        forall|u: int, v: int|
            0 <= u < g.dx && 0 <= v < g.dy ==> g.next_state(u, v) == g.cell(u, v),
{
    assert forall|u: int, v: int|
        0 <= u < g.dx && 0 <= v < g.dy implies g.next_state(u, v) == g.cell(u, v) by {
        assert forall|a: int, b: int| 0 <= a < 3 && 0 <= b < 3 implies g.neighbor_term(u, v, a, b)
            == (if x <= wrap(u + a - 1, g.dx as int) <= x + 1 && y <= wrap(v + b - 1, g.dy as int)
            <= y + 1 {
            1int
        } else {
            0int
        }) by {
            assert(g.cell(wrap(u + a - 1, g.dx as int), wrap(v + b - 1, g.dy as int)) is Life <==> (
            x <= wrap(u + a - 1, g.dx as int) <= x + 1 && y <= wrap(v + b - 1, g.dy as int) <= y
                + 1));
        }
        assert(wrap(u + 1 - 1, g.dx as int) == u);
        assert(wrap(v + 1 - 1, g.dy as int) == v);
    }
}

/// Wraparound correctness: a live cell at (0, 0) is counted as a neighbor
/// of the three cells that touch it only across the grid's edges —
/// (dx-1, dy-1), (dx-1, 0) and (0, dy-1).
pub proof fn lemma_wraparound_corner(g: Canvas)
    requires
        g.wf(),
        g.dx >= 2,
        g.dy >= 2,
        g.cell(0, 0) is Life,
    ensures
        g.neighbor_count(g.dx - 1, g.dy - 1) >= 1,
        g.neighbor_count(g.dx - 1, 0) >= 1,
        g.neighbor_count(0, g.dy - 1) >= 1,
{
    let dx = g.dx as int;
    let dy = g.dy as int;
    assert(g.neighbor_term(dx - 1, dy - 1, 2, 2) == 1);
    assert(g.neighbor_term(dx - 1, dy - 1, 1, 1) == g.live(dx - 1, dy - 1));
    assert(g.neighbor_term(dx - 1, 0, 2, 1) == 1);
    assert(g.neighbor_term(dx - 1, 0, 1, 1) == g.live(dx - 1, 0));
    assert(g.neighbor_term(0, dy - 1, 1, 2) == 1);
    assert(g.neighbor_term(0, dy - 1, 1, 1) == g.live(0, dy - 1));
}

} // verus!
