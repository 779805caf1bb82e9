//! Counting the live cells of a sequence.

use vstd::prelude::*;
use crate::cell::Cell;

verus! {

/// How many cells of `cells` are alive: the sum of what each cell adds.
pub open spec fn count_alive(cells: Seq<Cell>) -> nat
    decreases cells.len(),
{
    if cells.len() == 0 {
        0
    } else {
        count_alive(cells.drop_last()) + cells.last().value()
    }
}

/// The count of live cells is the number of cells that are equal to
/// [`Cell::Alive`].
pub proof fn lemma_count_alive_is_filter(cells: Seq<Cell>)
    ensures
        count_alive(cells) == cells.filter(|cell: Cell| cell == Cell::Alive).len(),
    decreases cells.len(),
{
    reveal(Seq::filter);
    if cells.len() > 0 {
        lemma_count_alive_is_filter(cells.drop_last());
    }
}

/// No more cells are alive than there are cells.
pub proof fn lemma_count_alive_bound(cells: Seq<Cell>)
    ensures
        count_alive(cells) <= cells.len(),
    decreases cells.len(),
{
    if cells.len() > 0 {
        lemma_count_alive_bound(cells.drop_last());
    }
}

/// Where every cell is dead, none is alive.
pub proof fn lemma_count_alive_none(cells: Seq<Cell>)
    requires
        forall|i: int| 0 <= i < cells.len() ==> cells[i] == Cell::Dead,
    ensures
        count_alive(cells) == 0,
    decreases cells.len(),
{
    if cells.len() > 0 {
        lemma_count_alive_none(cells.drop_last());
    }
}

/// Replacing one cell changes the count by the difference between what
/// the new cell adds and what the old one added.
pub proof fn lemma_count_alive_update(cells: Seq<Cell>, i: int, cell: Cell)
    requires
        0 <= i < cells.len(),
    ensures
        count_alive(cells.update(i, cell)) == count_alive(cells) - cells[i].value()
            + cell.value(),
    decreases cells.len(),
{
    let updated = cells.update(i, cell);
    if i == cells.len() - 1 {
        assert(updated.drop_last() =~= cells.drop_last());
    } else {
        lemma_count_alive_update(cells.drop_last(), i, cell);
        assert(updated.drop_last() =~= cells.drop_last().update(i, cell));
    }
}

} // verus!
