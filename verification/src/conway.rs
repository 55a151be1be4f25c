//! A rectangular grid of cells and one step of the game-of-life rule: a
//! live cell survives with two or three live neighbours, a dead cell comes
//! alive with exactly three, and every other cell is dead afterwards.

use vstd::prelude::*;

verus! {

/// A rectangular grid, stored row by row in one flat vector.
pub struct Grid<T> {
    rows: usize,
    cols: usize,
    grid: Vec<T>,
}

/// A singleton position list, used to spell out the neighbour order.
pub open spec fn maybe_pos(cond: bool, r: int, c: int) -> Seq<(usize, usize)> {
    if cond {
        seq![(r as usize, c as usize)]
    } else {
        Seq::<(usize, usize)>::empty()
    }
}

/// The in-bounds neighbours of `(row, col)` on a `rows` by `cols` grid, in
/// reading order: the row above, the two sides, the row below.
pub open spec fn neighbours_spec(rows: int, cols: int, row: int, col: int) -> Seq<(usize, usize)> {
    maybe_pos(row > 0 && col > 0, row - 1, col - 1) + maybe_pos(row > 0, row - 1, col) + maybe_pos(
        row > 0 && col + 1 < cols,
        row - 1,
        col + 1,
    ) + maybe_pos(col > 0, row, col - 1) + maybe_pos(col + 1 < cols, row, col + 1) + maybe_pos(
        row + 1 < rows && col > 0,
        row + 1,
        col - 1,
    ) + maybe_pos(row + 1 < rows, row + 1, col) + maybe_pos(
        row + 1 < rows && col + 1 < cols,
        row + 1,
        col + 1,
    )
}

/// The position of cell `(row, col)` in the flat row-by-row vector of a
/// grid with `cols` columns.
pub open spec fn flat_index(row: int, col: int, cols: int) -> int {
    row * cols + col
}

/// Every in-bounds position lands inside the flat vector.
pub proof fn lemma_flat_index_bounds(rows: int, cols: int)
    ensures
        forall|i: int, j: int|
            0 <= i < rows && 0 <= j < cols ==> 0 <= #[trigger] flat_index(i, j, cols)
                && flat_index(i, j, cols) < rows * cols,
{
    assert forall|i: int, j: int| 0 <= i < rows && 0 <= j < cols implies 0 <= #[trigger] flat_index(
        i,
        j,
        cols,
    ) && flat_index(i, j, cols) < rows * cols by {
        assert(0 <= i * cols + j < rows * cols) by (nonlinear_arith)
            requires
                0 <= i < rows,
                0 <= j < cols,
        ;
    }
}

impl<T: Copy + core::default::Default> Grid<T> {
    /// The number of rows.
    pub closed spec fn spec_rows(&self) -> int {
        self.rows as int
    }

    /// The number of columns.
    pub closed spec fn spec_cols(&self) -> int {
        self.cols as int
    }

    /// The cells, row by row.
    pub closed spec fn cells(&self) -> Seq<T> {
        self.grid@
    }

    /// The flat vector holds exactly one cell per position.
    pub open spec fn wf(&self) -> bool {
        self.cells().len() == self.spec_rows() * self.spec_cols()
    }

    /// The cell at a position.
    pub open spec fn cell_at(&self, row: int, col: int) -> T {
        self.cells()[flat_index(row, col, self.spec_cols())]
    }

    /// A fresh grid of the given size, every cell default-initialized.
    pub fn new(rows: usize, cols: usize) -> (g: Self)
        requires
            rows * cols <= usize::MAX,
        ensures
            g.wf(),
            g.spec_rows() == rows,
            g.spec_cols() == cols,
            forall|i: int|
                0 <= i < rows * cols ==> call_ensures(T::default, (), #[trigger] g.cells()[i]),
    {
        let total = rows * cols;
        let mut grid: Vec<T> = Vec::new();
        while grid.len() < total
            invariant
                grid@.len() <= total,
                forall|i: int|
                    0 <= i < grid@.len() ==> call_ensures(T::default, (), #[trigger] grid@[i]),
            decreases total - grid@.len(),
        {
            grid.push(T::default());
        }
        Grid { rows, cols, grid }
    }

    /// A grid of the given size whose cells are copied from `grid`, which
    /// must hold exactly one value per position, row by row.
    pub fn from_slice(grid: &[T], rows: usize, cols: usize) -> (g: Self)
        requires
            grid@.len() == rows * cols,
        ensures
            g.wf(),
            g.spec_rows() == rows,
            g.spec_cols() == cols,
            g.cells() == grid@,
    {
        let mut cells: Vec<T> = Vec::new();
        let mut i: usize = 0;
        while i < grid.len()
            invariant
                i <= grid@.len(),
                cells@ =~= grid@.take(i as int),
            decreases grid@.len() - i,
        {
            cells.push(grid[i]);
            i += 1;
        }
        proof {
            assert(cells@ =~= grid@);
        }
        Grid { rows, cols, grid: cells }
    }

    /// The size as (rows, columns).
    pub fn size(&self) -> (s: (usize, usize))
        ensures
            s.0 == self.spec_rows(),
            s.1 == self.spec_cols(),
    {
        (self.rows, self.cols)
    }

    /// The cell at `(row, col)`.
    pub fn get(&self, row: usize, col: usize) -> (r: &T)
        requires
            self.wf(),
            row < self.spec_rows(),
            col < self.spec_cols(),
        ensures
            *r == self.cell_at(row as int, col as int),
    {
        let n = self.grid.len();
        proof {
            assert(row * self.spec_cols() + col < self.spec_rows() * self.spec_cols())
                by (nonlinear_arith)
                requires
                    row < self.spec_rows(),
                    col < self.spec_cols(),
            ;
            assert(n == self.spec_rows() * self.spec_cols());
        }
        &self.grid[row * self.cols + col]
    }

    /// Replaces the cell at `(row, col)` with `value`.
    pub fn set(&mut self, value: T, row: usize, col: usize)
        requires
            old(self).wf(),
            row < old(self).spec_rows(),
            col < old(self).spec_cols(),
        ensures
            final(self).wf(),
            final(self).spec_rows() == old(self).spec_rows(),
            final(self).spec_cols() == old(self).spec_cols(),
            final(self).cells() == old(self).cells().update(
                row * old(self).spec_cols() + col,
                value,
            ),
    {
        let n = self.grid.len();
        proof {
            assert(row * self.spec_cols() + col < self.spec_rows() * self.spec_cols())
                by (nonlinear_arith)
                requires
                    row < self.spec_rows(),
                    col < self.spec_cols(),
            ;
            assert(n == self.spec_rows() * self.spec_cols());
        }
        self.grid[row * self.cols + col] = value;
    }

    /// The in-bounds neighbours of `(row, col)`, in reading order.
    #[verifier::rlimit(60)]
    pub fn neighbours(&self, row: usize, col: usize) -> (r: Vec<(usize, usize)>)
        requires
            row < self.spec_rows(),
            col < self.spec_cols(),
        ensures
            r@ == neighbours_spec(self.spec_rows(), self.spec_cols(), row as int, col as int),
            forall|t: int|
                0 <= t < r@.len() ==> (#[trigger] r@[t]).0 < self.spec_rows() && r@[t].1
                    < self.spec_cols(),
    {
        let mut neighbours: Vec<(usize, usize)> = Vec::new();
        if row > 0 && col > 0 {
            neighbours.push((row - 1, col - 1));
        }
        if row > 0 {
            neighbours.push((row - 1, col));
        }
        if row > 0 && col + 1 < self.cols {
            neighbours.push((row - 1, col + 1));
        }
        if col > 0 {
            neighbours.push((row, col - 1));
        }
        if col + 1 < self.cols {
            neighbours.push((row, col + 1));
        }
        if row + 1 < self.rows && col > 0 {
            neighbours.push((row + 1, col - 1));
        }
        if row + 1 < self.rows {
            neighbours.push((row + 1, col));
        }
        if row + 1 < self.rows && col + 1 < self.cols {
            neighbours.push((row + 1, col + 1));
        }
        proof {
            assert(neighbours@ =~= neighbours_spec(
                self.spec_rows(),
                self.spec_cols(),
                row as int,
                col as int,
            ));
        }
        neighbours
    }
}

/// A cell: dead or alive.
#[derive(Clone, Copy, PartialEq, Eq, Structural, Debug)]
pub enum Cell {
    Dead,
    Alive,
}

impl core::default::Default for Cell {
    /// A fresh cell is dead.
    fn default() -> (r: Self)
        ensures
            r == Cell::Dead,
    {
        Cell::Dead
    }
}

/// How many of the cells at positions `ps` are alive, on a grid with `cols`
/// columns whose cells, row by row, are `cells`.
pub open spec fn count_alive(cells: Seq<Cell>, cols: int, ps: Seq<(usize, usize)>) -> int
    decreases ps.len(),
{
    if ps.len() == 0 {
        0
    } else {
        count_alive(cells, cols, ps.drop_last()) + (if cells[ps.last().0 * cols + ps.last().1]
            is Alive {
            1int
        } else {
            0int
        })
    }
}

/// The game-of-life rule for one cell of grid `g`.
pub open spec fn step_cell(g: Grid<Cell>, row: int, col: int) -> Cell {
    let n = count_alive(
        g.cells(),
        g.spec_cols(),
        neighbours_spec(g.spec_rows(), g.spec_cols(), row, col),
    );
    match g.cell_at(row, col) {
        Cell::Alive => if n == 2 || n == 3 {
            Cell::Alive
        } else {
            Cell::Dead
        },
        Cell::Dead => if n == 3 {
            Cell::Alive
        } else {
            Cell::Dead
        },
    }
}

/// A game-of-life board.
pub struct GameOfLife {
    grid: Grid<Cell>,
}

impl GameOfLife {
    /// The current board.
    pub closed spec fn spec_grid(&self) -> Grid<Cell> {
        self.grid
    }

    /// Starts from a given board.
    pub fn from_grid(grid: Grid<Cell>) -> (g: Self)
        ensures
            g.spec_grid() == grid,
    {
        Self { grid }
    }

    /// The current board.
    pub fn get_grid(&self) -> (g: &Grid<Cell>)
        ensures
            *g == self.spec_grid(),
    {
        &self.grid
    }

    /// Advances the board one generation: every cell of the new board is the
    /// game-of-life rule applied to the old board.
    pub fn step(&mut self)
        requires
            old(self).spec_grid().wf(),
        ensures
            final(self).spec_grid().wf(),
            final(self).spec_grid().spec_rows() == old(self).spec_grid().spec_rows(),
            final(self).spec_grid().spec_cols() == old(self).spec_grid().spec_cols(),
            forall|i: int, j: int|
                0 <= i < old(self).spec_grid().spec_rows() && 0 <= j < old(
                    self,
                ).spec_grid().spec_cols() ==> final(self).spec_grid().cell_at(i, j) == step_cell(
                    old(self).spec_grid(),
                    i,
                    j,
                ),
    {
        let ghost g0 = self.grid;
        let (rows, cols) = self.grid.size();
        let mut cells: Vec<Cell> = Vec::new();
        let mut row: usize = 0;
        while row < rows
            invariant
                g0 == old(self).spec_grid(),
                self.grid == g0,
                g0.wf(),
                rows == g0.spec_rows(),
                cols == g0.spec_cols(),
                row <= rows,
                cells@.len() == row * cols,
                forall|i: int, j: int|
                    0 <= i < row && 0 <= j < cols ==> cells@[flat_index(i, j, cols as int)]
                        == step_cell(g0, i, j),
            decreases rows - row,
        {
            let mut col: usize = 0;
            proof {
                assert((row + 1) * cols == row * cols + cols) by (nonlinear_arith);
                assert(row * cols + cols <= rows * cols) by (nonlinear_arith)
                    requires
                        row < rows,
                        cols >= 0,
                ;
            }
            while col < cols
                invariant
                    g0 == old(self).spec_grid(),
                    self.grid == g0,
                    g0.wf(),
                    rows == g0.spec_rows(),
                    cols == g0.spec_cols(),
                    row < rows,
                    col <= cols,
                    row * cols + cols <= rows * cols,
                    cells@.len() == row * cols + col,
                    forall|i: int, j: int|
                        0 <= i < row && 0 <= j < cols ==> cells@[flat_index(i, j, cols as int)]
                            == step_cell(g0, i, j),
                    forall|j: int|
                        0 <= j < col ==> cells@[flat_index(row as int, j, cols as int)]
                            == step_cell(g0, row as int, j),
                decreases cols - col,
            {
                let ns = self.grid.neighbours(row, col);
                let mut cnt: usize = 0;
                let mut t: usize = 0;
                while t < ns.len()
                    invariant
                        self.grid == g0,
                        g0.wf(),
                        rows == g0.spec_rows(),
                        cols == g0.spec_cols(),
                        row < rows,
                        col < cols,
                        t <= ns@.len(),
                        cnt <= t,
                        forall|u: int|
                            0 <= u < ns@.len() ==> (#[trigger] ns@[u]).0 < rows && ns@[u].1 < cols,
                        cnt == count_alive(g0.cells(), cols as int, ns@.take(t as int)),
                    decreases ns@.len() - t,
                {
                    let (nr, nc) = ns[t];
                    if *self.grid.get(nr, nc) == Cell::Alive {
                        cnt += 1;
                    }
                    t += 1;
                    proof {
                        assert(ns@.take(t as int).drop_last() =~= ns@.take(t - 1));
                    }
                }
                proof {
                    assert(ns@.take(t as int) =~= ns@);
                }
                let here = *self.grid.get(row, col);
                let new_cell = if here == Cell::Alive {
                    if cnt == 2 || cnt == 3 {
                        Cell::Alive
                    } else {
                        Cell::Dead
                    }
                } else {
                    if cnt == 3 {
                        Cell::Alive
                    } else {
                        Cell::Dead
                    }
                };
                cells.push(new_cell);
                col += 1;
                proof {
                    lemma_flat_index_bounds(row as int, cols as int);
                    assert(cells@[flat_index(row as int, col - 1, cols as int)] == new_cell);
                }
            }
            row += 1;
            proof {
                assert(cells@.len() == row * cols) by (nonlinear_arith)
                    requires
                        cells@.len() == (row - 1) * cols + cols,
                ;
            }
        }
        self.grid = Grid { rows, cols, grid: cells };
        proof {
            lemma_flat_index_bounds(rows as int, cols as int);
        }
    }
}

} // verus!
