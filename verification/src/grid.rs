//! The automaton as mathematics: a grid of booleans on a torus, the count of
//! a position's live neighbours, and the generation that follows a grid.

use vstd::prelude::*;

verus! {

/// A grid: `height` rows of `width` cells, row after row. `true` is alive.
pub struct Grid {
    pub width: nat,
    pub height: nat,
    pub cells: Seq<bool>,
}

/// The rule of the game: a live cell with two or three live neighbours lives
/// on, a dead cell with exactly three comes alive, and every other cell is
/// dead in the next generation.
pub open spec fn survives(alive: bool, live_neighbors: int) -> bool {
    if alive {
        live_neighbors == 2 || live_neighbors == 3
    } else {
        live_neighbors == 3
    }
}

impl Grid {
    /// There is exactly one cell for each position.
    pub open spec fn wf(self) -> bool {
        self.cells.len() == self.width * self.height
    }

    /// Whether `(row, col)` is a position of the grid.
    pub open spec fn contains(self, row: int, col: int) -> bool {
        0 <= row < self.height && 0 <= col < self.width
    }

    /// Where the cell at `(row, col)` stands in `cells`.
    pub open spec fn index(self, row: int, col: int) -> int {
        row * self.width + col
    }

    /// Whether the cell at `(row, col)` is alive.
    pub open spec fn alive(self, row: int, col: int) -> bool {
        self.cells[self.index(row, col)]
    }

    /// What the cell that lies `drow` rows below and `dcol` columns to the
    /// right of `(row, col)`, going round the torus, adds to the count: 1 if
    /// it is alive, 0 if it is dead. The offset `(0, 0)` is the cell itself
    /// and adds nothing.
    pub open spec fn neighbor(self, row: int, col: int, drow: int, dcol: int) -> int {
        if drow == 0 && dcol == 0 {
            0
        } else if self.alive((row + drow) % (self.height as int), (col + dcol) % (self.width as int)) {
            1
        } else {
            0
        }
    }

    /// The sum of `neighbor` over the three column offsets `width - 1`, 0
    /// and 1, for one row offset.
    pub open spec fn neighbors_in_row(self, row: int, col: int, drow: int) -> int {
        self.neighbor(row, col, drow, self.width - 1) + self.neighbor(row, col, drow, 0)
            + self.neighbor(row, col, drow, 1)
    }

    /// The number of live neighbours of `(row, col)`: the sum of `neighbor`
    /// over the row offsets `height - 1`, 0 and 1 and the column offsets
    /// `width - 1`, 0 and 1. The offsets `height - 1` and `width - 1` stand
    /// for one step up and one step left. On a grid of one row or one column
    /// they are 0, so that a pair of them with 0 is left out as the cell
    /// itself; on a grid of two rows or two columns they are 1, so that a
    /// neighbour is counted twice. A grid without cells has no neighbours.
    pub open spec fn live_neighbors(self, row: int, col: int) -> int {
        if self.width == 0 || self.height == 0 {
            0
        } else {
            self.neighbors_in_row(row, col, self.height - 1) + self.neighbors_in_row(row, col, 0)
                + self.neighbors_in_row(row, col, 1)
        }
    }

    /// The next generation: every cell follows the rule, on the count of its
    /// live neighbours in this grid.
    pub open spec fn step(self) -> Grid {
        Grid {
            width: self.width,
            height: self.height,
            cells: Seq::new(
                self.cells.len(),
                |i: int|
                    survives(
                        self.cells[i],
                        self.live_neighbors(i / (self.width as int), i % (self.width as int)),
                    ),
            ),
        }
    }

    /// The grid after `n` generations.
    pub open spec fn steps(self, n: nat) -> Grid
        decreases n,
    {
        if n == 0 {
            self
        } else {
            self.step().steps((n - 1) as nat)
        }
    }

    /// The row one step up from `row`: the last row lies above the first.
    pub open spec fn above(self, row: int) -> int {
        if row == 0 {
            self.height - 1
        } else {
            row - 1
        }
    }

    /// The row one step down from `row`: the first row lies below the last.
    pub open spec fn below(self, row: int) -> int {
        if row + 1 == self.height {
            0
        } else {
            row + 1
        }
    }

    /// The column one step left of `col`: the last column lies left of the
    /// first.
    pub open spec fn left_of(self, col: int) -> int {
        if col == 0 {
            self.width - 1
        } else {
            col - 1
        }
    }

    /// The column one step right of `col`: the first column lies right of
    /// the last.
    pub open spec fn right_of(self, col: int) -> int {
        if col + 1 == self.width {
            0
        } else {
            col + 1
        }
    }

    /// 1 if the cell at `(row, col)` is alive, 0 if it is dead.
    pub open spec fn count(self, row: int, col: int) -> int {
        if self.alive(row, col) {
            1
        } else {
            0
        }
    }

    /// A grid of the given size in which every cell is dead.
    pub open spec fn dead(width: nat, height: nat) -> Grid {
        Grid { width, height, cells: Seq::new(width * height, |i: int| false) }
    }

    /// The grid of 64 rows and 64 columns whose cell `i` is alive exactly
    /// when `i` is a multiple of 2 or of 7.
    pub open spec fn patterned() -> Grid {
        Grid { width: 64, height: 64, cells: Seq::new(4096, |i: int| i % 2 == 0 || i % 7 == 0) }
    }

    /// The grid of 64 rows and 64 columns whose cell `i` is alive exactly
    /// when `draws` has an entry `i` and that entry is `true`.
    pub open spec fn drawn(draws: Seq<bool>) -> Grid {
        Grid {
            width: 64,
            height: 64,
            cells: Seq::new(4096, |i: int| i < draws.len() && draws[i]),
        }
    }

    /// Whether `coord`, a pair of row and column, is the position of cell `i`.
    pub open spec fn hits(self, coord: (u32, u32), i: int) -> bool {
        self.index(coord.0 as int, coord.1 as int) == i
    }

    /// Whether one of the first `n` pairs of `coords` is the position of
    /// cell `i`.
    pub open spec fn marked(self, coords: Seq<(u32, u32)>, n: int, i: int) -> bool {
        exists|k: int| 0 <= k < n && #[trigger] self.hits(coords[k], i)
    }

    /// This grid with the cells at `coords` alive and every other cell as it
    /// was.
    pub open spec fn with_alive(self, coords: Seq<(u32, u32)>) -> Grid {
        Grid {
            width: self.width,
            height: self.height,
            cells: Seq::new(
                self.cells.len(),
                |i: int| self.cells[i] || self.marked(coords, coords.len() as int, i),
            ),
        }
    }

    /// One row as text: a glyph for each cell, then a line feed.
    pub open spec fn row_text(self, row: int) -> Seq<char> {
        Seq::new(self.width, |col: int| glyph(self.alive(row, col))).push('\n')
    }

    /// The first `rows` rows as text, one after the other.
    pub open spec fn text(self, rows: nat) -> Seq<char>
        decreases rows,
    {
        if rows == 0 {
            Seq::empty()
        } else {
            self.text((rows - 1) as nat) + self.row_text(rows - 1)
        }
    }

    /// The whole grid as text.
    pub open spec fn rendered(self) -> Seq<char> {
        self.text(self.height)
    }
}

/// The glyph that shows a cell: a filled square for a live cell, a hollow
/// one for a dead cell.
pub open spec fn glyph(alive: bool) -> char {
    if alive {
        '\u{25FC}'
    } else {
        '\u{25FB}'
    }
}

/// A position of the grid has its cell inside `cells`, and the position can
/// be read back from the cell's index.
pub proof fn index_in_range(grid: Grid, row: int, col: int)
    requires
        grid.wf(),
        grid.contains(row, col),
    ensures
        0 <= grid.index(row, col) < grid.cells.len(),
        grid.index(row, col) / (grid.width as int) == row,
        grid.index(row, col) % (grid.width as int) == col,
{
    let w = grid.width as int;
    let h = grid.height as int;
    assert(row * w + w <= h * w) by (nonlinear_arith)
        requires
            0 <= row < h,
            0 < w,
    ;
    assert(0 <= row * w) by (nonlinear_arith)
        requires
            0 <= row,
            0 < w,
    ;
    assert(h * w == w * h) by (nonlinear_arith);
    vstd::arithmetic::div_mod::lemma_fundamental_div_mod_converse(row * w + col, w, row, col);
}

/// Every index into `cells` is the index of one position of the grid.
pub proof fn position_of_index(grid: Grid, i: int)
    requires
        grid.wf(),
        0 <= i < grid.cells.len(),
    ensures
        grid.contains(i / (grid.width as int), i % (grid.width as int)),
        grid.index(i / (grid.width as int), i % (grid.width as int)) == i,
{
    let w = grid.width as int;
    let h = grid.height as int;
    assert(w > 0 && h > 0) by (nonlinear_arith)
        requires
            0 <= i < w * h,
            0 <= w,
            0 <= h,
    ;
    vstd::arithmetic::div_mod::lemma_fundamental_div_mod(i, w);
    vstd::arithmetic::div_mod::lemma_mod_bound(i, w);
    vstd::arithmetic::div_mod::lemma_div_pos_is_pos(i, w);
    let q = i / w;
    assert(q < h) by (nonlinear_arith)
        requires
            0 <= i < w * h,
            i == w * q + (i % w),
            0 <= i % w < w,
            0 < w,
    ;
    assert(w * q == q * w) by (nonlinear_arith);
}

/// One more pair marks the cells that were marked before and the cell at the
/// new pair's position. No pairs mark no cell.
pub proof fn marked_one_more(grid: Grid, coords: Seq<(u32, u32)>, n: int, i: int)
    requires
        0 < n <= coords.len(),
    ensures
        grid.marked(coords, n, i) == (grid.marked(coords, n - 1, i) || grid.hits(coords[n - 1], i)),
        !grid.marked(coords, 0, i),
{
    if grid.marked(coords, n, i) {
        let k = choose|k: int| 0 <= k < n && #[trigger] grid.hits(coords[k], i);
        if k < n - 1 {
            assert(grid.marked(coords, n - 1, i));
        }
    }
    if grid.marked(coords, n - 1, i) {
        let k = choose|k: int| 0 <= k < n - 1 && #[trigger] grid.hits(coords[k], i);
        assert(0 <= k < n && grid.hits(coords[k], i));
    }
    if grid.hits(coords[n - 1], i) {
        assert(grid.marked(coords, n, i));
    }
}

/// The offsets `height - 1` and `width - 1` lead one step up and one step
/// left, the offset 1 one step down and one step right, and all of them wrap
/// at the edges of the grid.
pub proof fn offsets_wrap(grid: Grid, row: int, col: int)
    requires
        grid.contains(row, col),
    ensures
        (row + (grid.height - 1)) % (grid.height as int) == grid.above(row),
        (row + 0) % (grid.height as int) == row,
        (row + 1) % (grid.height as int) == grid.below(row),
        (col + (grid.width - 1)) % (grid.width as int) == grid.left_of(col),
        (col + 0) % (grid.width as int) == col,
        (col + 1) % (grid.width as int) == grid.right_of(col),
        grid.contains(grid.above(row), grid.left_of(col)),
        grid.contains(grid.below(row), grid.right_of(col)),
{
    step_wraps(row, grid.height as int);
    step_wraps(col, grid.width as int);
}

/// Modulo `n`, adding `n - 1` to a number below `n` is one step back and
/// adding 1 is one step forward, both going round.
proof fn step_wraps(x: int, n: int)
    requires
        0 <= x < n,
    ensures
        (x + (n - 1)) % n == (if x == 0 {
            n - 1
        } else {
            x - 1
        }),
        (x + 0) % n == x,
        (x + 1) % n == (if x + 1 == n {
            0
        } else {
            x + 1
        }),
{
    vstd::arithmetic::div_mod::lemma_small_mod(x as nat, n as nat);
    if x == 0 {
        vstd::arithmetic::div_mod::lemma_small_mod((n - 1) as nat, n as nat);
    } else {
        vstd::arithmetic::div_mod::lemma_fundamental_div_mod_converse(x + (n - 1), n, 1, x - 1);
    }
    if x + 1 == n {
        vstd::arithmetic::div_mod::lemma_fundamental_div_mod_converse(x + 1, n, 1, 0);
    } else {
        vstd::arithmetic::div_mod::lemma_small_mod((x + 1) as nat, n as nat);
    }
}

/// On a grid of at least two rows and two columns, the live neighbours of a
/// position are the live cells among the eight positions one step away from
/// it on the torus: above, below, left, right and on the four diagonals.
pub proof fn neighbors_on_torus(grid: Grid, row: int, col: int)
    requires
        grid.contains(row, col),
        grid.width >= 2,
        grid.height >= 2,
    ensures
        grid.live_neighbors(row, col) == grid.count(grid.above(row), grid.left_of(col)) + grid.count(
            grid.above(row),
            col,
        ) + grid.count(grid.above(row), grid.right_of(col)) + grid.count(row, grid.left_of(col))
            + grid.count(row, grid.right_of(col)) + grid.count(grid.below(row), grid.left_of(col))
            + grid.count(grid.below(row), col) + grid.count(grid.below(row), grid.right_of(col)),
{
    offsets_wrap(grid, row, col);
}

/// The first and the last row are neighbours, and so are the first and the
/// last column: on any grid with cells, a live cell in the corner opposite
/// to `(0, 0)` is counted among the neighbours of `(0, 0)`, and a live cell
/// across an edge from a position on the opposite edge is counted among that
/// position's neighbours.
pub proof fn edges_wrap(grid: Grid, row: int, col: int)
    requires
        grid.contains(row, col),
    ensures
        grid.alive(grid.height - 1, grid.width - 1) ==> grid.live_neighbors(0, 0) >= 1,
        grid.alive(0, 0) ==> grid.live_neighbors(grid.height - 1, grid.width - 1) >= 1,
        grid.alive(grid.height - 1, col) ==> grid.live_neighbors(0, col) >= 1,
        grid.alive(0, col) ==> grid.live_neighbors(grid.height - 1, col) >= 1,
        grid.alive(row, grid.width - 1) ==> grid.live_neighbors(row, 0) >= 1,
        grid.alive(row, 0) ==> grid.live_neighbors(row, grid.width - 1) >= 1,
{
    offsets_wrap(grid, 0, 0);
    offsets_wrap(grid, grid.height - 1, grid.width - 1);
    offsets_wrap(grid, 0, col);
    offsets_wrap(grid, grid.height - 1, col);
    offsets_wrap(grid, row, 0);
    offsets_wrap(grid, row, grid.width - 1);
}

/// The next generation has the size of this one, and so has every later one.
pub proof fn step_keeps_size(grid: Grid, n: nat)
    ensures
        grid.steps(n).width == grid.width,
        grid.steps(n).height == grid.height,
        grid.steps(n).cells.len() == grid.cells.len(),
        grid.wf() ==> grid.steps(n).wf(),
    decreases n,
{
    if n > 0 {
        step_keeps_size(grid.step(), (n - 1) as nat);
    }
}

/// Two grids with the same size and the same cells have the same next
/// generation, and the same generation after any number of steps.
pub proof fn step_is_determined(a: Grid, b: Grid, n: nat)
    requires
        a.width == b.width,
        a.height == b.height,
        a.cells.len() == b.cells.len(),
        forall|i: int| 0 <= i < a.cells.len() ==> a.cells[i] == b.cells[i],
    ensures
        a.step() == b.step(),
        a.steps(n) == b.steps(n),
{
    assert(a.cells =~= b.cells);
}

/// In the next generation the cell at a position is what the rule makes of
/// the cell at that position now and of the number of its live neighbours
/// now: no cell of the next generation is read.
pub proof fn step_reads_this_generation(grid: Grid, row: int, col: int)
    requires
        grid.wf(),
        grid.contains(row, col),
    ensures
        grid.step().alive(row, col) == survives(
            grid.alive(row, col),
            grid.live_neighbors(row, col),
        ),
{
    index_in_range(grid, row, col);
}

/// A dead grid has one cell for each position and none of them is alive.
pub proof fn dead_is_dead(width: nat, height: nat, row: int, col: int)
    requires
        Grid::dead(width, height).contains(row, col),
    ensures
        Grid::dead(width, height).wf(),
        !Grid::dead(width, height).alive(row, col),
{
    index_in_range(Grid::dead(width, height), row, col);
}

/// Making the cell at one position of a dead grid alive gives a grid in
/// which that cell is alive and no other.
pub proof fn one_cell_set(width: nat, height: nat, at: (u32, u32), row: int, col: int)
    requires
        Grid::dead(width, height).contains(at.0 as int, at.1 as int),
        Grid::dead(width, height).contains(row, col),
    ensures
        Grid::dead(width, height).with_alive(seq![at]).alive(row, col) <==> (row == at.0 && col
            == at.1),
{
    let grid = Grid::dead(width, height);
    let coords = seq![at];
    index_in_range(grid, row, col);
    index_in_range(grid, at.0 as int, at.1 as int);
    let i = grid.index(row, col);
    if row == at.0 && col == at.1 {
        assert(grid.hits(coords[0], i));
    }
    if grid.marked(coords, 1, i) {
        let k = choose|k: int| 0 <= k < 1 && #[trigger] grid.hits(coords[k], i);
        assert(k == 0);
    }
}

/// A cell has at most eight live neighbours.
pub proof fn neighbor_count_bound(grid: Grid, row: int, col: int)
    ensures
        0 <= grid.live_neighbors(row, col) <= 8,
{
}

} // verus!
