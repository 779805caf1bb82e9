//! The block: four live cells in a square, which no step changes.

use vstd::prelude::*;
use crate::cell::Cell;
use crate::grid::{lemma_neighbours, lemma_position, Grid};
use crate::ring::{lemma_wrap_once, wrap};

verus! {

/// Whether `x` is `first` or the position after it on a ring of `n`.
pub open spec fn in_pair(x: int, first: int, n: nat) -> bool {
    x == first || x == wrap(first + 1, n)
}

/// Whether `(row, col)` lies in the square of two by two cells whose upper
/// left cell is `(top, left)`.  The square may lie across an edge of the
/// board and go on at the other side.
pub open spec fn in_block(g: Grid, top: int, left: int, row: int, col: int) -> bool {
    in_pair(row, top, g.height) && in_pair(col, left, g.width)
}

/// Whether the live cells of the board are just those of the square whose
/// upper left cell is `(top, left)`.
pub open spec fn is_block(g: Grid, top: int, left: int) -> bool {
    forall|row: int, col: int|
        g.in_bounds(row, col) ==> (#[trigger] g.at(row, col) == Cell::Alive
            <==> in_block(g, top, left, row, col))
}

/// On a ring of at least four positions, of the two positions beside one of
/// a pair exactly one belongs to the pair, and of the two beside any other
/// position at most one.
proof fn lemma_beside_pair(x: int, first: int, n: nat)
    requires
        n >= 4,
        0 <= x < n,
        0 <= first < n,
    ensures
        0 <= wrap(x - 1, n) < n,
        0 <= wrap(x + 1, n) < n,
        wrap(x + 0, n) == x,
        in_pair(x, first, n)
            ==> in_pair(wrap(x - 1, n), first, n) != in_pair(wrap(x + 1, n), first, n),
        !in_pair(x, first, n)
            ==> !(in_pair(wrap(x - 1, n), first, n) && in_pair(wrap(x + 1, n), first, n)),
{
    lemma_wrap_once(x - 1, n);
    lemma_wrap_once(x + 0, n);
    lemma_wrap_once(x + 1, n);
    lemma_wrap_once(first + 1, n);
}

/// On a board that holds a block and nothing else, the rule leaves every
/// cell as it is: a cell of the block has three live neighbours, any other
/// cell at most two.
proof fn lemma_block_cell(g: Grid, top: int, left: int, row: int, col: int)
    requires
        g.wf(),
        g.width >= 4,
        g.height >= 4,
        g.in_bounds(top, left),
        is_block(g, top, left),
        g.in_bounds(row, col),
    ensures
        g.at(row, col) == Cell::Alive ==> g.live_neighbours(row, col) == 3,
        g.at(row, col) == Cell::Dead ==> g.live_neighbours(row, col) <= 2,
        g.next_cell(row, col) == g.at(row, col),
{
    lemma_beside_pair(row, top, g.height);
    lemma_beside_pair(col, left, g.width);
    lemma_neighbours(g, row, col);
    assert(g.at(row, col) == Cell::Alive <==> in_block(g, top, left, row, col));
}

/// A square of two by two live cells, alone on a board of at least four
/// rows and four columns, is a still life: the next generation has the same
/// cells.  This holds wherever the square lies, across an edge too.
pub proof fn lemma_block_is_still(g: Grid, top: int, left: int)
    requires
        g.wf(),
        g.width >= 4,
        g.height >= 4,
        g.in_bounds(top, left),
        is_block(g, top, left),
    ensures
        g.step().cells == g.cells,
        g.step().population() == g.population(),
{
    assert forall|i: int| 0 <= i < g.cells.len() implies g.step().cells[i] == g.cells[i] by {
        let row = i / (g.width as int);
        let col = i % (g.width as int);
        lemma_position(g, i);
        lemma_block_cell(g, top, left, row, col);
    }
    assert(g.step().cells =~= g.cells);
}

} // verus!
