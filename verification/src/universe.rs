//! The board that runs: a vector of cells with its dimensions and its
//! count of generations, and the operations on it.  Each operation is proved
//! to do to the board what the model in [`crate::grid`] says.

use vstd::prelude::*;
use crate::cell::Cell;
use crate::entropy::random_draws;
use crate::grid::{
    lemma_dead_population, lemma_index, lemma_toggled, lemma_with_alive_push, row_major, Grid,
};
use crate::population::{count_alive, lemma_count_alive_bound, lemma_count_alive_is_filter};
use crate::ring::{lemma_wrap_once, wrap};

verus! {

/// A board of the game: `width * height` cells on a torus, kept in row-major
/// order, and the number of generations it has gone through.
///
/// A board always holds exactly one cell for each position, and never more
/// than `u32::MAX` cells.
pub struct Universe {
    width: u32,
    height: u32,
    cells: Vec<Cell>,
    ticks: u32,
}

impl View for Universe {
    type V = Grid;

    closed spec fn view(&self) -> Grid {
        Grid {
            width: self.width as nat,
            height: self.height as nat,
            cells: self.cells@,
            ticks: self.ticks as nat,
        }
    }
}

impl Universe {
    /// What holds of every board: one cell for each position, and no more
    /// cells than a `u32` can count.
    #[verifier::type_invariant]
    spec fn inv(self) -> bool {
        &&& self.cells@.len() == self.width * self.height
        &&& self.width * self.height <= u32::MAX
    }

    /// A board of the given dimensions with every cell dead, at generation
    /// zero.  Either dimension may be zero: the board then has no cells.
    pub fn new(width: u32, height: u32) -> (universe: Universe)
        requires
            width * height <= u32::MAX,
        ensures
            universe@ == Grid::dead(width as nat, height as nat),
            universe@.population() == 0,
            universe@.wf(),
    {
        let cells = dead_cells((width * height) as usize);
        proof {
            assert(cells@ =~= Grid::dead(width as nat, height as nat).cells);
            lemma_dead_population(width as nat, height as nat);
        }
        Universe { width, height, cells, ticks: 0 }
    }

    /// A board of 64 by 64 cells at generation zero, each cell alive or dead
    /// by a random draw of its own, so that about one cell in five is alive.
    /// Which cells are alive depends on the draws, and no more can be said
    /// of it here; [`Universe::randomize_from`] says what each draw does.
    pub fn default() -> (universe: Universe)
        ensures
            universe@.width == 64,
            universe@.height == 64,
            universe@.ticks == 0,
            universe@.wf(),
    {
        let mut universe = Universe::new(64, 64);
        universe.randomize();
        universe
    }

    /// Starts the board afresh with a random population: each cell is alive
    /// or dead by a draw of its own from the host's random number generator,
    /// made in row-major order.  The dimensions stay and the count of
    /// generations is zero again.  Which cells are alive depends on the
    /// draws; [`Universe::randomize_from`] says what each draw does.
    pub fn randomize(&mut self)
        ensures
            final(self)@.width == old(self)@.width,
            final(self)@.height == old(self)@.height,
            final(self)@.ticks == 0,
            final(self)@.wf(),
    {
        proof {
            use_type_invariant(&*self);
        }
        let draws = random_draws(self.cells.len());
        self.randomize_from(draws.as_slice());
    }

    /// Starts the board afresh with the population that the given draws
    /// seed, one draw for each cell in row-major order.  A draw is the
    /// encoding of a double, and the cell is alive when that double is less
    /// than a fifth.  The dimensions stay and the count of generations is
    /// zero again.
    pub fn randomize_from(&mut self, draws: &[u64])
        requires
            draws@.len() == old(self)@.width * old(self)@.height,
        ensures
            final(self)@ == old(self)@.seeded(draws@),
            final(self)@.wf(),
    {
        proof {
            use_type_invariant(&*self);
        }
        let len: usize = draws.len();
        let mut cells: Vec<Cell> = Vec::new();
        let mut i: usize = 0;
        while i < len
            invariant
                i <= len,
                len == draws@.len(),
                cells@.len() == i,
                forall|k: int| 0 <= k < i ==> cells@[k] == Cell::seeded(#[trigger] draws@[k]),
            decreases len - i,
        {
            cells.push(Cell::from_draw(draws[i]));
            i += 1;
        }
        assert(cells@ =~= self@.seeded(draws@).cells);
        self.ticks = 0;
        self.cells = cells;
    }

    /// Makes every cell dead and starts counting generations anew.
    pub fn clear(&mut self)
        ensures
            final(self)@ == Grid::dead(old(self)@.width, old(self)@.height),
            final(self)@.population() == 0,
            final(self)@.wf(),
    {
        proof {
            use_type_invariant(&*self);
        }
        self.ticks = 0;
        self.cells = dead_cells((self.width * self.height) as usize);
        proof {
            assert(self.cells@ =~= Grid::dead(self.width as nat, self.height as nat).cells);
            lemma_dead_population(self.width as nat, self.height as nat);
        }
    }

    /// Does what [`Universe::clear`] does, going by the number of cells that
    /// the board holds rather than by its dimensions.
    pub fn reset_universe(&mut self)
        ensures
            final(self)@ == Grid::dead(old(self)@.width, old(self)@.height),
            final(self)@.population() == 0,
            final(self)@.wf(),
    {
        proof {
            use_type_invariant(&*self);
        }
        self.ticks = 0;
        self.cells = dead_cells(self.cells.len());
        proof {
            assert(self.cells@ =~= Grid::dead(self.width as nat, self.height as nat).cells);
            lemma_dead_population(self.width as nat, self.height as nat);
        }
    }

    /// Gives the board a new width.  Nothing of the old board is kept: every
    /// cell is dead afterwards and the count of generations is zero.
    pub fn set_width(&mut self, width: u32)
        requires
            width * old(self)@.height <= u32::MAX,
        ensures
            final(self)@ == Grid::dead(width as nat, old(self)@.height),
            final(self)@.population() == 0,
            final(self)@.wf(),
    {
        *self = Universe::new(width, self.height);
    }

    /// Gives the board a new height.  Nothing of the old board is kept:
    /// every cell is dead afterwards and the count of generations is zero.
    pub fn set_height(&mut self, height: u32)
        requires
            old(self)@.width * height <= u32::MAX,
        ensures
            final(self)@ == Grid::dead(old(self)@.width, height as nat),
            final(self)@.population() == 0,
            final(self)@.wf(),
    {
        *self = Universe::new(self.width, height);
    }

    /// Advances the board by `ticks` generations, one [`Universe::tick`]
    /// after the other.
    pub fn fast_forward_to(&mut self, ticks: u32)
        requires
            old(self)@.ticks + ticks <= u32::MAX,
        ensures
            final(self)@ == old(self)@.steps(ticks as nat),
            final(self)@.wf(),
    {
        let ghost before = self@;
        let mut done: u32 = 0;
        while done < ticks
            invariant
                done <= ticks,
                before.ticks + ticks <= u32::MAX,
                self@ == before.steps(done as nat),
                self@.ticks == before.ticks + done,
            decreases ticks - done,
        {
            self.tick();
            done += 1;
        }
        proof {
            use_type_invariant(&*self);
        }
    }

    /// The number of live cells, summed over the whole board.
    pub fn population(&self) -> (population: u32)
        ensures
            population == self@.population(),
            population == self@.cells.filter(|cell: Cell| cell == Cell::Alive).len(),
    {
        proof {
            use_type_invariant(self);
            lemma_count_alive_is_filter(self.cells@);
        }
        let mut population: u32 = 0;
        let mut i: usize = 0;
        while i < self.cells.len()
            invariant
                i <= self.cells@.len(),
                self.cells@.len() <= u32::MAX,
                population == count_alive(self.cells@.take(i as int)),
                population <= i,
            decreases self.cells@.len() - i,
        {
            proof {
                let longer = self.cells@.take(i + 1);
                assert(longer.drop_last() =~= self.cells@.take(i as int));
                lemma_count_alive_bound(longer);
            }
            population += self.cells[i].as_u8() as u32;
            i += 1;
        }
        assert(self.cells@.take(i as int) =~= self.cells@);
        population
    }

    /// Makes the cell at each of the given `(row, column)` positions alive
    /// and leaves every other cell as it is.  A position may be given more
    /// than once.
    pub fn set_cells(&mut self, cells: &[(u32, u32)])
        requires
            forall|k: int|
                0 <= k < cells@.len() ==> old(self)@.in_bounds(
                    (#[trigger] cells@[k]).0 as int,
                    cells@[k].1 as int,
                ),
        ensures
            final(self)@ == old(self)@.with_alive(cells@),
            final(self)@.wf(),
    {
        proof {
            use_type_invariant(&*self);
        }
        let ghost before = self@;
        let mut k: usize = 0;
        assert(self@.cells =~= before.with_alive(cells@.take(0)).cells);
        while k < cells.len()
            invariant
                k <= cells@.len(),
                before.wf(),
                forall|j: int|
                    0 <= j < cells@.len() ==> before.in_bounds(
                        (#[trigger] cells@[j]).0 as int,
                        cells@[j].1 as int,
                    ),
                self@ == before.with_alive(cells@.take(k as int)),
            decreases cells@.len() - k,
        {
            let (row, col): (u32, u32) = cells[k];
            let idx: usize = self.get_index(row, col);
            proof {
                use_type_invariant(&*self);
            }
            self.cells[idx] = Cell::Alive;
            proof {
                lemma_with_alive_push(before, cells@.take(k as int), row, col);
                assert(cells@.take(k + 1) =~= cells@.take(k as int).push((row, col)));
                assert(self@.cells =~= before.with_alive(cells@.take(k + 1)).cells);
            }
            k += 1;
        }
        assert(cells@.take(k as int) =~= cells@);
    }

    /// The cells in row-major order, for a renderer to read.
    pub fn cells(&self) -> (cells: &[Cell])
        ensures
            cells@ == self@.cells,
            self@.wf(),
    {
        proof {
            use_type_invariant(self);
        }
        self.cells.as_slice()
    }

    /// The cells in row-major order: the cell at `(row, column)` is the one
    /// with index `row * width + column`.
    pub fn get_cells(&self) -> (cells: &[Cell])
        ensures
            cells@ == self@.cells,
            self@.wf(),
    {
        proof {
            use_type_invariant(self);
        }
        self.cells.as_slice()
    }

    /// The number of columns.
    pub fn width(&self) -> (width: u32)
        ensures
            width == self@.width,
    {
        self.width
    }

    /// The number of rows.
    pub fn height(&self) -> (height: u32)
        ensures
            height == self@.height,
    {
        self.height
    }

    /// The number of generations computed since the board was last started
    /// afresh.
    pub fn ticks(&self) -> (ticks: u32)
        ensures
            ticks == self@.ticks,
    {
        self.ticks
    }

    /// Where the cell at `(row, column)` stands among the cells.
    fn get_index(&self, row: u32, column: u32) -> (index: usize)
        requires
            self@.in_bounds(row as int, column as int),
        ensures
            index == self@.index(row as int, column as int),
            index < self@.cells.len(),
    {
        proof {
            use_type_invariant(self);
            lemma_index(self@, row as int, column as int);
            reveal(row_major);
        }
        (row * self.width + column) as usize
    }

    /// The number of live cells among the eight neighbours of the cell at
    /// `(row, column)`.  The board is a torus: the row above the first is
    /// the last, and so for the other three edges.  The neighbours at an
    /// edge are found by comparing, not by dividing.  A position on the
    /// board is asked for, and there is one only where the board has a row
    /// and a column, so no dimension is zero here.
    pub fn live_neighbour_count(&self, row: u32, column: u32) -> (count: u8)
        requires
            self@.in_bounds(row as int, column as int),
        ensures
            count == self@.live_neighbours(row as int, column as int),
    {
        proof {
            use_type_invariant(self);
        }
        let ghost height = self.height as nat;
        let ghost width = self.width as nat;
        let mut count: u8 = 0;

        let north: u32 = if row == 0 {
            self.height - 1
        } else {
            row - 1
        };

        let south: u32 = if row == self.height - 1 {
            0
        } else {
            row + 1
        };

        let west: u32 = if column == 0 {
            self.width - 1
        } else {
            column - 1
        };

        let east: u32 = if column == self.width - 1 {
            0
        } else {
            column + 1
        };

        proof {
            lemma_wrap_once(row - 1, height);
            lemma_wrap_once(row + 0, height);
            lemma_wrap_once(row + 1, height);
            lemma_wrap_once(column - 1, width);
            lemma_wrap_once(column + 0, width);
            lemma_wrap_once(column + 1, width);
            assert(north == wrap(row - 1, height));
            assert(row == wrap(row + 0, height));
            assert(south == wrap(row + 1, height));
            assert(west == wrap(column - 1, width));
            assert(column == wrap(column + 0, width));
            assert(east == wrap(column + 1, width));
        }

        let n: usize = self.get_index(north, column);
        count += self.cells[n].as_u8();

        let ne: usize = self.get_index(north, east);
        count += self.cells[ne].as_u8();

        let e: usize = self.get_index(row, east);
        count += self.cells[e].as_u8();

        let se: usize = self.get_index(south, east);
        count += self.cells[se].as_u8();

        let s: usize = self.get_index(south, column);
        count += self.cells[s].as_u8();

        let sw: usize = self.get_index(south, west);
        count += self.cells[sw].as_u8();

        let w: usize = self.get_index(row, west);
        count += self.cells[w].as_u8();

        let nw: usize = self.get_index(north, west);
        count += self.cells[nw].as_u8();

        count
    }

    /// Replaces the board by its next generation and counts one generation
    /// more.  The new cells are gathered in a vector of their own, which
    /// takes the place of the old one at the end, so that every cell of the
    /// new generation is computed from the old generation alone.  The new
    /// board is a function of the old one: equal boards have equal next
    /// generations.
    pub fn tick(&mut self)
        requires
            old(self)@.ticks < u32::MAX,
        ensures
            final(self)@ == old(self)@.step(),
            final(self)@.wf(),
    {
        proof {
            use_type_invariant(&*self);
        }
        let ghost before = self@;
        let mut next: Vec<Cell> = Vec::new();
        let mut row: u32 = 0;
        while row < self.height
            invariant
                *self == *old(self),
                self@ == before,
                before.wf(),
                row <= self.height,
                next@.len() == row * self.width,
                forall|i: int|
                    0 <= i < next@.len() ==> #[trigger] next@[i] == before.next_cell(
                        i / (before.width as int),
                        i % (before.width as int),
                    ),
            decreases self.height - row,
        {
            let mut col: u32 = 0;
            while col < self.width
                invariant
                    *self == *old(self),
                    self@ == before,
                    before.wf(),
                    row < self.height,
                    col <= self.width,
                    next@.len() == row * self.width + col,
                    forall|i: int|
                        0 <= i < next@.len() ==> #[trigger] next@[i] == before.next_cell(
                            i / (before.width as int),
                            i % (before.width as int),
                        ),
                decreases self.width - col,
            {
                let idx: usize = self.get_index(row, col);
                let cell: Cell = self.cells[idx];
                let live_neighbours: u8 = self.live_neighbour_count(row, col);
                proof {
                    reveal(row_major);
                    lemma_index(before, row as int, col as int);
                }
                next.push(cell.evolve(live_neighbours));
                col += 1;
            }
            assert((row + 1) * self.width == row * self.width + self.width) by (nonlinear_arith);
            row += 1;
        }
        assert(next@ =~= before.step().cells) by {
            assert(self.height * self.width == self.width * self.height) by (nonlinear_arith);
        }
        self.ticks += 1;
        self.cells = next;
    }

    /// Switches the cell at `(row, column)` between dead and alive.  No
    /// other cell changes, and the population goes up or down by one.
    pub fn toggle_cell(&mut self, row: u32, column: u32)
        requires
            old(self)@.in_bounds(row as int, column as int),
        ensures
            final(self)@ == old(self)@.toggled(row as int, column as int),
            final(self)@.wf(),
            old(self)@.at(row as int, column as int) == Cell::Dead
                ==> final(self)@.population() == old(self)@.population() + 1,
            old(self)@.at(row as int, column as int) == Cell::Alive
                ==> final(self)@.population() == old(self)@.population() - 1,
    {
        let idx: usize = self.get_index(row, column);
        proof {
            use_type_invariant(&*self);
            lemma_toggled(self@, row as int, column as int);
        }
        self.cells[idx].toggle();
    }
}

/// `len` dead cells.
fn dead_cells(len: usize) -> (cells: Vec<Cell>)
    ensures
        cells@.len() == len,
        forall|i: int| 0 <= i < len ==> cells@[i] == Cell::Dead,
{
    let mut cells: Vec<Cell> = Vec::new();
    let mut i: usize = 0;
    while i < len
        invariant
            i <= len,
            cells@.len() == i,
            forall|k: int| 0 <= k < i ==> cells@[k] == Cell::Dead,
        decreases len - i,
    {
        cells.push(Cell::Dead);
        i += 1;
    }
    cells
}

} // verus!
