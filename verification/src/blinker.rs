//! The blinker: three live cells in a line, which turn about the middle
//! one with every step.

use vstd::prelude::*;
use crate::cell::Cell;
use crate::grid::{lemma_neighbours, lemma_position, lemma_step, Grid};
use crate::ring::{lemma_wrap_once, wrap};

verus! {

/// Whether `x` is `middle` or one of the two positions beside it on a ring
/// of `n`.
pub open spec fn in_triple(x: int, middle: int, n: nat) -> bool {
    x == wrap(middle - 1, n) || x == middle || x == wrap(middle + 1, n)
}

/// Whether the live cells of the board are just three in a row: the cell at
/// `(row, col)` and the cells to its left and to its right.
pub open spec fn is_flat(g: Grid, row: int, col: int) -> bool {
    forall|r: int, c: int|
        g.in_bounds(r, c) ==> (#[trigger] g.at(r, c) == Cell::Alive
            <==> r == row && in_triple(c, col, g.width))
}

/// Whether the live cells of the board are just three in a column: the cell
/// at `(row, col)` and the cells above and below it.
pub open spec fn is_upright(g: Grid, row: int, col: int) -> bool {
    forall|r: int, c: int|
        g.in_bounds(r, c) ==> (#[trigger] g.at(r, c) == Cell::Alive
            <==> in_triple(r, row, g.height) && c == col)
}

/// On a ring of at least four positions, of a position `x` and the three
/// positions about `middle`:
/// - `x` is one of the three just when `middle` is `x` or lies beside `x`,
///   and `middle` is never in two of these places at once;
/// - both positions beside the middle are among the three;
/// - of the two positions beside either end of the three, one is among the
///   three and the other is not.
proof fn lemma_beside_triple(x: int, middle: int, n: nat)
    requires
        n >= 4,
        0 <= x < n,
        0 <= middle < n,
    ensures
        0 <= wrap(x - 1, n) < n,
        0 <= wrap(x + 1, n) < n,
        wrap(x + 0, n) == x,
        in_triple(x, middle, n)
            <==> wrap(x - 1, n) == middle || x == middle || wrap(x + 1, n) == middle,
        !(wrap(x - 1, n) == middle && wrap(x + 1, n) == middle),
        !(wrap(x - 1, n) == middle && x == middle),
        !(wrap(x + 1, n) == middle && x == middle),
        x == middle
            ==> in_triple(wrap(x - 1, n), middle, n) && in_triple(wrap(x + 1, n), middle, n),
        x != middle && in_triple(x, middle, n)
            ==> in_triple(wrap(x - 1, n), middle, n) != in_triple(wrap(x + 1, n), middle, n),
{
    lemma_wrap_once(x - 1, n);
    lemma_wrap_once(x + 0, n);
    lemma_wrap_once(x + 1, n);
    lemma_wrap_once(middle - 1, n);
    lemma_wrap_once(middle + 1, n);
}

/// What the rule makes of one cell of a board that holds three live cells
/// in a row and nothing else.
proof fn lemma_flat_cell(g: Grid, row: int, col: int, r: int, c: int)
    requires
        g.wf(),
        g.width >= 4,
        g.height >= 4,
        g.in_bounds(row, col),
        is_flat(g, row, col),
        g.in_bounds(r, c),
    ensures
        g.next_cell(r, c) == Cell::Alive <==> in_triple(r, row, g.height) && c == col,
{
    lemma_beside_triple(r, row, g.height);
    lemma_beside_triple(c, col, g.width);
    lemma_neighbours(g, r, c);
}

/// What the rule makes of one cell of a board that holds three live cells
/// in a column and nothing else.
proof fn lemma_upright_cell(g: Grid, row: int, col: int, r: int, c: int)
    requires
        g.wf(),
        g.width >= 4,
        g.height >= 4,
        g.in_bounds(row, col),
        is_upright(g, row, col),
        g.in_bounds(r, c),
    ensures
        g.next_cell(r, c) == Cell::Alive <==> r == row && in_triple(c, col, g.width),
{
    lemma_beside_triple(r, row, g.height);
    lemma_beside_triple(c, col, g.width);
    lemma_neighbours(g, r, c);
}

/// Three live cells in a row, alone on a board of at least four rows and
/// four columns, are three live cells in a column one generation later,
/// about the same middle cell.
pub proof fn lemma_flat_turns_upright(g: Grid, row: int, col: int)
    requires
        g.wf(),
        g.width >= 4,
        g.height >= 4,
        g.in_bounds(row, col),
        is_flat(g, row, col),
    ensures
        is_upright(g.step(), row, col),
{
    lemma_step(g);
    assert forall|r: int, c: int| g.step().in_bounds(r, c) implies
        (#[trigger] g.step().at(r, c) == Cell::Alive
            <==> in_triple(r, row, g.step().height) && c == col) by {
        lemma_flat_cell(g, row, col, r, c);
    }
}

/// Three live cells in a column, alone on a board of at least four rows and
/// four columns, are three live cells in a row one generation later, about
/// the same middle cell.
pub proof fn lemma_upright_turns_flat(g: Grid, row: int, col: int)
    requires
        g.wf(),
        g.width >= 4,
        g.height >= 4,
        g.in_bounds(row, col),
        is_upright(g, row, col),
    ensures
        is_flat(g.step(), row, col),
{
    lemma_step(g);
    assert forall|r: int, c: int| g.step().in_bounds(r, c) implies
        (#[trigger] g.step().at(r, c) == Cell::Alive
            <==> r == row && in_triple(c, col, g.step().width)) by {
        lemma_upright_cell(g, row, col, r, c);
    }
}

/// The blinker has period two: after two generations the three cells in a
/// row are back where they were.
pub proof fn lemma_blinker_returns(g: Grid, row: int, col: int)
    requires
        g.wf(),
        g.width >= 4,
        g.height >= 4,
        g.in_bounds(row, col),
        is_flat(g, row, col),
    ensures
        g.steps(2).cells == g.cells,
{
    let once = g.step();
    let twice = once.step();
    lemma_step(g);
    lemma_step(once);
    lemma_flat_turns_upright(g, row, col);
    lemma_upright_turns_flat(once, row, col);
    assert(g.steps(2) == twice) by {
        assert(g.steps(2) == g.steps(1).step());
        assert(g.steps(1) == g.steps(0).step());
    }
    assert forall|i: int| 0 <= i < g.cells.len() implies twice.cells[i] == g.cells[i] by {
        lemma_position(g, i);
        let r = i / (g.width as int);
        let c = i % (g.width as int);
        assert(twice.at(r, c) == Cell::Alive <==> g.at(r, c) == Cell::Alive);
    }
    assert(twice.cells =~= g.cells);
}

} // verus!
