//! The mathematical model of the board: a torus of cells, its neighbour
//! counts and the step from one generation to the next.

use vstd::prelude::*;
use crate::cell::Cell;
use crate::population::{count_alive, lemma_count_alive_none, lemma_count_alive_update};
use crate::ring::wrap;

verus! {

/// A board as contracts see it: its dimensions, the cells in row-major
/// order and the number of generations computed so far.
pub ghost struct Grid {
    pub width: nat,
    pub height: nat,
    pub cells: Seq<Cell>,
    pub ticks: nat,
}

/// Where the cell at `(row, col)` stands when the rows of a board that
/// is `width` columns wide are laid out one after the other.
#[verifier::opaque]
pub open spec fn row_major(width: nat, row: int, col: int) -> int {
    row * width + col
}

impl Grid {
    /// There is exactly one cell for each position.
    pub open spec fn wf(self) -> bool {
        self.cells.len() == self.width * self.height
    }

    /// Whether `(row, col)` names a position of this board.
    pub open spec fn in_bounds(self, row: int, col: int) -> bool {
        0 <= row < self.height && 0 <= col < self.width
    }

    /// Where the cell at `(row, col)` stands in `cells`.
    pub open spec fn index(self, row: int, col: int) -> int {
        row_major(self.width, row, col)
    }

    /// The cell at `(row, col)`.
    pub open spec fn at(self, row: int, col: int) -> Cell {
        self.cells[self.index(row, col)]
    }

    /// The cell that lies `dr` rows and `dc` columns away from `(row, col)`,
    /// going around the edges of the board.
    pub open spec fn neighbour(self, row: int, col: int, dr: int, dc: int) -> Cell {
        self.at(wrap(row + dr, self.height), wrap(col + dc, self.width))
    }

    /// The number of live cells among the eight neighbours of `(row, col)`.
    /// On a board with fewer than three rows or columns a cell can be met
    /// more than once, and is then counted each time.
    pub open spec fn live_neighbours(self, row: int, col: int) -> nat {
        self.neighbour(row, col, -1, 0).value()
            + self.neighbour(row, col, -1, 1).value()
            + self.neighbour(row, col, 0, 1).value()
            + self.neighbour(row, col, 1, 1).value()
            + self.neighbour(row, col, 1, 0).value()
            + self.neighbour(row, col, 1, -1).value()
            + self.neighbour(row, col, 0, -1).value()
            + self.neighbour(row, col, -1, -1).value()
    }

    /// The cell at `(row, col)` one generation later.
    pub open spec fn next_cell(self, row: int, col: int) -> Cell {
        self.at(row, col).next_state(self.live_neighbours(row, col))
    }

    /// The next generation: every cell is replaced by what the rule makes of
    /// it and of its neighbours in this generation.
    pub open spec fn step(self) -> Grid {
        Grid {
            width: self.width,
            height: self.height,
            cells: Seq::new(
                self.cells.len(),
                |i: int| self.next_cell(i / (self.width as int), i % (self.width as int)),
            ),
            ticks: self.ticks + 1,
        }
    }

    /// The board after `n` generations, one step after the other.
    pub open spec fn steps(self, n: nat) -> Grid
        decreases n,
    {
        if n == 0 {
            self
        } else {
            self.steps((n - 1) as nat).step()
        }
    }

    /// The number of live cells.
    pub open spec fn population(self) -> nat {
        count_alive(self.cells)
    }

    /// A fresh board of the given dimensions on which nothing lives.
    pub open spec fn dead(width: nat, height: nat) -> Grid {
        Grid { width, height, cells: Seq::new(width * height, |i: int| Cell::Dead), ticks: 0 }
    }

    /// A board of the same dimensions, started afresh with one random draw
    /// for each cell, in row-major order.
    pub open spec fn seeded(self, draws: Seq<u64>) -> Grid {
        Grid {
            width: self.width,
            height: self.height,
            cells: Seq::new(self.cells.len(), |i: int| Cell::seeded(draws[i])),
            ticks: 0,
        }
    }

    /// Whether one of the positions in `coords` is that of the cell with
    /// index `i`.
    pub open spec fn names(self, coords: Seq<(u32, u32)>, i: int) -> bool {
        exists|k: int|
            0 <= k < coords.len() && self.index(
                (#[trigger] coords[k]).0 as int,
                coords[k].1 as int,
            ) == i
    }

    /// This board with the cell at each of the positions in `coords` alive
    /// and every other cell as it was.
    pub open spec fn with_alive(self, coords: Seq<(u32, u32)>) -> Grid {
        Grid {
            cells: Seq::new(
                self.cells.len(),
                |i: int|
                    if self.names(coords, i) {
                        Cell::Alive
                    } else {
                        self.cells[i]
                    },
            ),
            ..self
        }
    }

    /// This board with the cell at `(row, col)` switched to its other state.
    pub open spec fn toggled(self, row: int, col: int) -> Grid {
        Grid {
            cells: self.cells.update(self.index(row, col), self.at(row, col).flipped()),
            ..self
        }
    }
}

/// A position of the board has its index among the cells, and the index
/// gives the position back.
pub proof fn lemma_index(g: Grid, row: int, col: int)
    requires
        g.wf(),
        g.in_bounds(row, col),
    ensures
        0 <= g.index(row, col) < g.cells.len(),
        g.index(row, col) / (g.width as int) == row,
        g.index(row, col) % (g.width as int) == col,
{
    reveal(row_major);
    let w = g.width as int;
    let h = g.height as int;
    assert(row * w + w <= h * w) by (nonlinear_arith)
        requires
            0 <= row < h,
            0 <= w,
    ;
    assert(0 <= row * w) by (nonlinear_arith)
        requires
            0 <= row,
            0 <= w,
    ;
    assert(w * h == h * w) by (nonlinear_arith);
    vstd::arithmetic::div_mod::lemma_fundamental_div_mod_converse(g.index(row, col), w, row, col);
}

/// Two positions of the board with the same index are the same position.
pub proof fn lemma_index_injective(g: Grid, row1: int, col1: int, row2: int, col2: int)
    requires
        g.wf(),
        g.in_bounds(row1, col1),
        g.in_bounds(row2, col2),
        g.index(row1, col1) == g.index(row2, col2),
    ensures
        row1 == row2,
        col1 == col2,
{
    lemma_index(g, row1, col1);
    lemma_index(g, row2, col2);
}

/// Every index among the cells is that of one position of the board: the
/// quotient by the width is its row, the remainder its column.
pub proof fn lemma_position(g: Grid, i: int)
    requires
        g.wf(),
        0 <= i < g.cells.len(),
    ensures
        g.in_bounds(i / (g.width as int), i % (g.width as int)),
        g.index(i / (g.width as int), i % (g.width as int)) == i,
{
    reveal(row_major);
    let w = g.width as int;
    let h = g.height as int;
    assert(w > 0 && h > 0) by (nonlinear_arith)
        requires
            0 <= i < w * h,
            w >= 0,
            h >= 0,
    ;
    vstd::arithmetic::div_mod::lemma_fundamental_div_mod(i, w);
    vstd::arithmetic::div_mod::lemma_mod_bound(i, w);
    let q = i / w;
    assert(w * q == q * w) by (nonlinear_arith);
    assert(0 <= q < h) by (nonlinear_arith)
        requires
            0 <= i < w * h,
            i == q * w + i % w,
            0 <= i % w < w,
            w > 0,
    ;
}

/// Toggling a cell switches that cell, leaves every other cell as it was,
/// and changes the population by exactly one: up when the cell was dead,
/// down when it was alive.
pub proof fn lemma_toggled(g: Grid, row: int, col: int)
    requires
        g.wf(),
        g.in_bounds(row, col),
    ensures
        g.toggled(row, col).wf(),
        g.toggled(row, col).at(row, col) == g.at(row, col).flipped(),
        forall|r: int, c: int|
            g.in_bounds(r, c) && (r != row || c != col) ==> #[trigger] g.toggled(row, col).at(r, c)
                == g.at(r, c),
        g.at(row, col) == Cell::Dead ==> g.toggled(row, col).population() == g.population() + 1,
        g.at(row, col) == Cell::Alive ==> g.toggled(row, col).population() == g.population() - 1,
{
    let t = g.toggled(row, col);
    lemma_index(g, row, col);
    lemma_count_alive_update(g.cells, g.index(row, col), g.at(row, col).flipped());
    assert forall|r: int, c: int| g.in_bounds(r, c) && (r != row || c != col) implies
        #[trigger] t.at(r, c) == g.at(r, c) by {
        lemma_index(g, r, c);
        if g.index(r, c) == g.index(row, col) {
            lemma_index_injective(g, r, c, row, col);
        }
    }
}

/// The eight neighbours of a position, each named by where it lies.
pub proof fn lemma_neighbours(g: Grid, row: int, col: int)
    ensures
        g.neighbour(row, col, -1, 0) == g.at(wrap(row - 1, g.height), wrap(col + 0, g.width)),
        g.neighbour(row, col, -1, 1) == g.at(wrap(row - 1, g.height), wrap(col + 1, g.width)),
        g.neighbour(row, col, 0, 1) == g.at(wrap(row + 0, g.height), wrap(col + 1, g.width)),
        g.neighbour(row, col, 1, 1) == g.at(wrap(row + 1, g.height), wrap(col + 1, g.width)),
        g.neighbour(row, col, 1, 0) == g.at(wrap(row + 1, g.height), wrap(col + 0, g.width)),
        g.neighbour(row, col, 1, -1) == g.at(wrap(row + 1, g.height), wrap(col - 1, g.width)),
        g.neighbour(row, col, 0, -1) == g.at(wrap(row + 0, g.height), wrap(col - 1, g.width)),
        g.neighbour(row, col, -1, -1) == g.at(wrap(row - 1, g.height), wrap(col - 1, g.width)),
{
    assert(row + (-1) == row - 1);
    assert(col + (-1) == col - 1);
}

/// A step keeps the dimensions and the number of cells, and counts one
/// generation more.  Each cell of the new board is what the rule makes of
/// the cell at its position and of that cell's neighbours on the old board.
pub proof fn lemma_step(g: Grid)
    requires
        g.wf(),
    ensures
        g.step().wf(),
        g.step().width == g.width,
        g.step().height == g.height,
        g.step().ticks == g.ticks + 1,
        forall|row: int, col: int|
            g.in_bounds(row, col) ==> #[trigger] g.step().at(row, col) == g.next_cell(row, col),
{
    assert forall|row: int, col: int| g.in_bounds(row, col) implies
        #[trigger] g.step().at(row, col) == g.next_cell(row, col) by {
        lemma_index(g, row, col);
    }
}

/// Two boards that agree in every respect before a step agree after it:
/// the next generation depends on nothing but the present one.
pub proof fn lemma_step_deterministic(a: Grid, b: Grid)
    requires
        a.width == b.width,
        a.height == b.height,
        a.ticks == b.ticks,
        a.cells =~= b.cells,
    ensures
        a.step() == b.step(),
{
}

/// Any number of steps keeps the dimensions and counts as many
/// generations more.
pub proof fn lemma_steps(g: Grid, n: nat)
    requires
        g.wf(),
    ensures
        g.steps(n).wf(),
        g.steps(n).width == g.width,
        g.steps(n).height == g.height,
        g.steps(n).ticks == g.ticks + n,
    decreases n,
{
    if n > 0 {
        lemma_steps(g, (n - 1) as nat);
        lemma_step(g.steps((n - 1) as nat));
    }
}

/// Going `m` generations forward and then `n` more is going `m + n`
/// generations forward.
pub proof fn lemma_steps_add(g: Grid, m: nat, n: nat)
    ensures
        g.steps(m).steps(n) == g.steps(m + n),
    decreases n,
{
    if n > 0 {
        lemma_steps_add(g, m, (n - 1) as nat);
        assert(g.steps(m + n) == g.steps((m + n - 1) as nat).step());
    }
}

/// Nothing lives on a fresh board.
pub proof fn lemma_dead_population(width: nat, height: nat)
    ensures
        Grid::dead(width, height).wf(),
        Grid::dead(width, height).population() == 0,
{
    lemma_count_alive_none(Grid::dead(width, height).cells);
}

/// On the board that [`Grid::with_alive`] gives, a cell is alive just when
/// its position is one of those given or it was alive before.
pub proof fn lemma_with_alive(g: Grid, coords: Seq<(u32, u32)>, row: u32, col: u32)
    requires
        g.wf(),
        g.in_bounds(row as int, col as int),
        forall|k: int|
            0 <= k < coords.len() ==> g.in_bounds(
                (#[trigger] coords[k]).0 as int,
                coords[k].1 as int,
            ),
    ensures
        g.with_alive(coords).wf(),
        g.with_alive(coords).at(row as int, col as int) == Cell::Alive
            <==> coords.contains((row, col)) || g.at(row as int, col as int) == Cell::Alive,
{
    let i = g.index(row as int, col as int);
    lemma_index(g, row as int, col as int);
    if coords.contains((row, col)) {
        let k = choose|k: int| 0 <= k < coords.len() && coords[k] == (row, col);
        assert(g.index(coords[k].0 as int, coords[k].1 as int) == i);
    }
    if g.names(coords, i) {
        let k = choose|k: int|
            0 <= k < coords.len() && g.index(
                (#[trigger] coords[k]).0 as int,
                coords[k].1 as int,
            ) == i;
        lemma_index_injective(g, coords[k].0 as int, coords[k].1 as int, row as int, col as int);
        assert(coords[k] == (row, col));
    }
}

/// Making the cell at one more position alive is the same as making all
/// of them alive at once.
pub proof fn lemma_with_alive_push(g: Grid, coords: Seq<(u32, u32)>, row: u32, col: u32)
    requires
        g.wf(),
        g.in_bounds(row as int, col as int),
    ensures
        g.with_alive(coords.push((row, col))).cells == g.with_alive(coords).cells.update(
            g.index(row as int, col as int),
            Cell::Alive,
        ),
{
    let longer = coords.push((row, col));
    let idx = g.index(row as int, col as int);
    lemma_index(g, row as int, col as int);
    assert forall|i: int| 0 <= i < g.cells.len() implies
        g.names(longer, i) == (g.names(coords, i) || i == idx) by {
        if g.names(coords, i) {
            let k = choose|k: int|
                0 <= k < coords.len() && g.index(
                    (#[trigger] coords[k]).0 as int,
                    coords[k].1 as int,
                ) == i;
            assert(longer[k] == coords[k]);
        }
        if i == idx {
            assert(longer[coords.len() as int] == (row, col));
        }
        if g.names(longer, i) {
            let k = choose|k: int|
                0 <= k < longer.len() && g.index(
                    (#[trigger] longer[k]).0 as int,
                    longer[k].1 as int,
                ) == i;
            if k < coords.len() {
                assert(longer[k] == coords[k]);
            }
        }
    }
    assert(g.with_alive(longer).cells =~= g.with_alive(coords).cells.update(idx, Cell::Alive));
}

/// A board without rows or without columns has no cells, and a step leaves
/// it so.
pub proof fn lemma_empty_board(g: Grid)
    requires
        g.wf(),
        g.width == 0 || g.height == 0,
    ensures
        g.cells.len() == 0,
        g.population() == 0,
        g.step().cells == g.cells,
{
    assert(g.width * g.height == 0) by (nonlinear_arith)
        requires
            g.width == 0 || g.height == 0,
    ;
    assert(g.step().cells =~= g.cells);
}

} // verus!
