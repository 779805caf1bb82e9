//! A single cell and the rule that decides its fate.

use vstd::prelude::*;
use crate::entropy::{seeds_alive, ALIVE_BELOW, NEGATIVE_INFINITY, NEGATIVE_ZERO};

verus! {

/// One position of the board: either dead or alive.
#[derive(Clone, Copy, Debug, PartialEq, Eq, Structural)]
pub enum Cell {
    Dead,
    Alive,
}

impl Cell {
    /// What this cell adds to a head count: one when alive, nothing when dead.
    pub open spec fn value(self) -> nat {
        match self {
            Cell::Dead => 0,
            Cell::Alive => 1,
        }
    }

    /// The other state.
    pub open spec fn flipped(self) -> Cell {
        match self {
            Cell::Dead => Cell::Alive,
            Cell::Alive => Cell::Dead,
        }
    }

    /// The state of this cell one generation later, given how many of its
    /// eight neighbours are alive now: a live cell survives with two or three
    /// live neighbours, a dead cell comes alive with exactly three, and every
    /// other cell is dead.
    pub open spec fn next_state(self, live_neighbours: nat) -> Cell {
        match self {
            Cell::Alive => if live_neighbours == 2 || live_neighbours == 3 {
                Cell::Alive
            } else {
                Cell::Dead
            },
            Cell::Dead => if live_neighbours == 3 {
                Cell::Alive
            } else {
                Cell::Dead
            },
        }
    }

    /// The cell that a random draw seeds: alive when the draw is less than
    /// a fifth, dead otherwise.
    pub open spec fn seeded(draw: u64) -> Cell {
        if seeds_alive(draw) {
            Cell::Alive
        } else {
            Cell::Dead
        }
    }

    /// The cell as a number: one when alive, zero when dead.
    pub fn as_u8(self) -> (n: u8)
        ensures
            n == self.value(),
    {
        match self {
            Cell::Dead => 0,
            Cell::Alive => 1,
        }
    }

    /// Seeds a cell from a random draw, given as the encoding of a double.
    pub fn from_draw(draw: u64) -> (cell: Cell)
        ensures
            cell == Cell::seeded(draw),
    {
        if draw < ALIVE_BELOW || (NEGATIVE_ZERO <= draw && draw <= NEGATIVE_INFINITY) {
            Cell::Alive
        } else {
            Cell::Dead
        }
    }

    /// Switches the cell between dead and alive.
    pub fn toggle(&mut self)
        ensures
            *final(self) == old(self).flipped(),
    {
        *self = match *self {
            Cell::Dead => Cell::Alive,
            Cell::Alive => Cell::Dead,
        };
    }

    /// Applies the rule of the game to one cell.  The cases are tried in
    /// order: underpopulation, survival, overpopulation, reproduction, and
    /// finally "stays as it is".
    pub fn evolve(self, live_neighbours: u8) -> (next: Cell)
        ensures
            next == self.next_state(live_neighbours as nat),
    {
        match (self, live_neighbours) {
            (Cell::Alive, x) if x < 2 => Cell::Dead,
            (Cell::Alive, 2) | (Cell::Alive, 3) => Cell::Alive,
            (Cell::Alive, x) if x > 3 => Cell::Dead,
            (Cell::Dead, 3) => Cell::Alive,
            (otherwise, _) => otherwise,
        }
    }
}

} // verus!
