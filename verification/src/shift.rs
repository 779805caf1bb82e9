//! The board has no edge: moving a pattern around the torus moves its
//! neighbour counts and its future with it.

use vstd::prelude::*;
use crate::grid::{lemma_index, lemma_position, lemma_step, Grid};
use crate::ring::{lemma_wrap_add, lemma_wrap_on_ring, lemma_wrap_range, wrap};

verus! {

impl Grid {
    /// This board with every cell moved `dr` rows down and `dc` columns to
    /// the right, going around the edges.
    pub open spec fn shifted(self, dr: int, dc: int) -> Grid {
        Grid {
            cells: Seq::new(
                self.cells.len(),
                |i: int|
                    self.at(
                        wrap(i / (self.width as int) - dr, self.height),
                        wrap(i % (self.width as int) - dc, self.width),
                    ),
            ),
            ..self
        }
    }
}

/// Moving by `d`, stepping `a` aside and moving back by `d` is stepping `a`
/// aside.
proof fn lemma_there_and_back(i: int, d: int, a: int, n: nat)
    requires
        n > 0,
    ensures
        wrap(wrap(wrap(i + d, n) + a, n) - d, n) == wrap(i + a, n),
{
    lemma_wrap_add(wrap(i + d, n) + a, -d, n);
    lemma_wrap_add(i + d, a - d, n);
}

/// On the moved board, the cell at a position is the cell that was `dr` rows
/// up and `dc` columns to the left of it.
pub proof fn lemma_shifted_at(g: Grid, dr: int, dc: int, row: int, col: int)
    requires
        g.wf(),
        g.in_bounds(row, col),
    ensures
        g.shifted(dr, dc).wf(),
        g.shifted(dr, dc).at(row, col) == g.at(wrap(row - dr, g.height), wrap(col - dc, g.width)),
{
    lemma_index(g, row, col);
}

/// A cell that is moved keeps its neighbours: the cell of the moved board
/// at the place where the cell at `(row, col)` went has as many live
/// neighbours as that cell had.  So a cell in a corner, whose neighbours lie
/// at the far edges, is counted like a cell in the middle of the board.
pub proof fn lemma_shifted_neighbours(g: Grid, dr: int, dc: int, row: int, col: int)
    requires
        g.wf(),
        g.in_bounds(row, col),
    ensures
        g.shifted(dr, dc).live_neighbours(wrap(row + dr, g.height), wrap(col + dc, g.width))
            == g.live_neighbours(row, col),
{
    let s = g.shifted(dr, dc);
    let h = g.height;
    let w = g.width;
    let to_row = wrap(row + dr, h);
    let to_col = wrap(col + dc, w);
    assert forall|a: int, b: int| #[trigger]
        s.neighbour(to_row, to_col, a, b) == g.neighbour(row, col, a, b) by {
        let r = wrap(to_row + a, h);
        let c = wrap(to_col + b, w);
        lemma_wrap_range(to_row + a, h);
        lemma_wrap_range(to_col + b, w);
        lemma_shifted_at(g, dr, dc, r, c);
        lemma_there_and_back(row, dr, a, h);
        lemma_there_and_back(col, dc, b, w);
    }
}

/// Moving the board and then stepping gives the same board as stepping and
/// then moving: what becomes of a pattern does not depend on where it lies.
pub proof fn lemma_shifted_step(g: Grid, dr: int, dc: int)
    requires
        g.wf(),
    ensures
        g.shifted(dr, dc).step() == g.step().shifted(dr, dc),
{
    let s = g.shifted(dr, dc);
    let h = g.height;
    let w = g.width;
    lemma_step(g);
    assert forall|i: int| 0 <= i < g.cells.len() implies
        s.step().cells[i] == g.step().shifted(dr, dc).cells[i] by {
        let to_row = i / (w as int);
        let to_col = i % (w as int);
        lemma_position(g, i);
        let row = wrap(to_row - dr, h);
        let col = wrap(to_col - dc, w);
        lemma_wrap_range(to_row - dr, h);
        lemma_wrap_range(to_col - dc, w);
        lemma_shifted_at(g, dr, dc, to_row, to_col);
        lemma_shifted_neighbours(g, dr, dc, row, col);
        lemma_wrap_add(to_row - dr, dr, h);
        lemma_wrap_add(to_col - dc, dc, w);
        lemma_wrap_on_ring(to_row, h);
        lemma_wrap_on_ring(to_col, w);
        assert(wrap(row + dr, h) == to_row);
        assert(wrap(col + dc, w) == to_col);
    }
    assert(s.step().cells =~= g.step().shifted(dr, dc).cells);
}

} // verus!
