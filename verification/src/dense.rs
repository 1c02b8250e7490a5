//! The grid stored as one `Cell` per position.

use crate::cell::Cell;
use crate::grid::{glyph, index_in_range, marked_one_more, Grid};
use vstd::prelude::*;
use vstd::string::*;

verus! {

/// A Game of Life universe that keeps its cells in a vector, row after row.
pub struct Universe {
    width: u32,
    height: u32,
    cells: Vec<Cell>,
}

impl View for Universe {
    type V = Grid;

    closed spec fn view(&self) -> Grid {
        Grid {
            width: self.width as nat,
            height: self.height as nat,
            cells: Seq::new(self.cells@.len(), |i: int| self.cells@[i].alive()),
        }
    }
}

impl Universe {
    #[verifier::type_invariant]
    spec fn one_cell_per_position(self) -> bool {
        self.cells@.len() == self.width * self.height
    }

    /// A universe of 64 rows and 64 columns in which cell `i` is alive exactly
    /// when `i` is a multiple of 2 or of 7.
    pub fn new() -> (universe: Universe)
        ensures
            universe@ == Grid::patterned(),
            universe@.wf(),
    {
        let mut cells: Vec<Cell> = Vec::new();
        for i in 0..4096usize
            invariant
                cells@.len() == i,
                forall|k: int| 0 <= k < i ==> cells@[k].alive() == (k % 2 == 0 || k % 7 == 0),
        {
            cells.push(
                if i % 2 == 0 || i % 7 == 0 {
                    Cell::Alive
                } else {
                    Cell::Dead
                },
            );
        }
        let universe = Universe { width: 64, height: 64, cells };
        assert(universe@.cells =~= Grid::patterned().cells);
        universe
    }

    /// The grid as text: row after row, a glyph for each cell and a line feed
    /// after each row.
    pub fn render(&self) -> (text: String)
        ensures
            text@ == self@.rendered(),
    {
        proof {
            use_type_invariant(self);
        }
        let ghost grid = self@;
        let mut text = String::new();
        let mut row: u32 = 0;
        while row < self.height
            invariant
                grid == self@,
                grid.wf(),
                row <= self.height,
                text@ == grid.text(row as nat),
            decreases self.height - row,
        {
            let ghost before = text@;
            let mut col: u32 = 0;
            while col < self.width
                invariant
                    grid == self@,
                    grid.wf(),
                    row < self.height,
                    col <= self.width,
                    text@ == before + Seq::new(col as nat, |c: int| glyph(grid.alive(row as int, c))),
                decreases self.width - col,
            {
                let idx = self.get_index(row, col);
                let ghost line = text@;
                if self.cells[idx].to_bool() {
                    proof {
                        reveal_strlit("\u{25FC}");
                    }
                    text.append("\u{25FC}");
                } else {
                    proof {
                        reveal_strlit("\u{25FB}");
                    }
                    text.append("\u{25FB}");
                }
                assert(text@ =~= line.push(glyph(grid.alive(row as int, col as int))));
                col += 1;
                assert(text@ =~= before + Seq::new(
                    col as nat,
                    |c: int| glyph(grid.alive(row as int, c)),
                ));
            }
            proof {
                reveal_strlit("\n");
            }
            text.append("\n");
            assert(text@ =~= before + grid.row_text(row as int));
            row += 1;
        }
        text
    }

    /// The number of columns.
    pub fn width(&self) -> (width: u32)
        ensures
            width == self@.width,
            self@.wf(),
    {
        proof {
            use_type_invariant(self);
        }
        self.width
    }

    /// The number of rows.
    pub fn height(&self) -> (height: u32)
        ensures
            height == self@.height,
            self@.wf(),
    {
        proof {
            use_type_invariant(self);
        }
        self.height
    }

    /// Where the cell at `(row, col)` stands in the vector of cells.
    pub fn get_index(&self, row: u32, col: u32) -> (index: usize)
        requires
            self@.contains(row as int, col as int),
        ensures
            index == self@.index(row as int, col as int),
            index < self@.cells.len(),
    {
        proof {
            use_type_invariant(self);
            index_in_range(self@, row as int, col as int);
            assert(0 <= row * self.width) by (nonlinear_arith)
                requires
                    0 <= row,
                    0 <= self.width,
            ;
            assert(self.cells@.len() == self.cells.len());
        }
        row as usize * self.width as usize + col as usize
    }

    /// What the neighbour at the offset `(drow, dcol)` adds to the count of
    /// live neighbours of `(row, col)`.
    fn neighbor(&self, row: u32, col: u32, drow: u32, dcol: u32) -> (count: u8)
        requires
            self@.width > 0,
            self@.height > 0,
        ensures
            count == self@.neighbor(row as int, col as int, drow as int, dcol as int),
    {
        proof {
            use_type_invariant(self);
        }
        if drow == 0 && dcol == 0 {
            0
        } else {
            let nrow = ((row as u64 + drow as u64) % (self.height as u64)) as u32;
            let ncol = ((col as u64 + dcol as u64) % (self.width as u64)) as u32;
            let idx = self.get_index(nrow, ncol);
            self.cells[idx].to_u8()
        }
    }

    /// The number of live cells among the eight neighbours of `(row, col)` on
    /// the torus. Any `row` and `col` are taken: the neighbours' positions
    /// are reduced modulo the grid's size. On a grid without cells the count
    /// is 0.
    pub fn live_neighbot_count(&self, row: u32, col: u32) -> (count: u8)
        ensures
            count == self@.live_neighbors(row as int, col as int),
            count <= 8,
    {
        if self.width == 0 || self.height == 0 {
            return 0;
        }
        let up: u32 = self.height - 1;
        let left: u32 = self.width - 1;
        let drows: [u32; 3] = [up, 0, 1];
        let dcols: [u32; 3] = [left, 0, 1];
        let ghost grid = self@;
        let ghost r = row as int;
        let ghost c = col as int;
        let mut count: u8 = 0;
        for i in 0..3usize
            invariant
                grid == self@,
                grid.width > 0,
                grid.height > 0,
                left == grid.width - 1,
                drows[0] == up && drows[1] == 0 && drows[2] == 1,
                dcols[0] == left && dcols[1] == 0 && dcols[2] == 1,
                r == row,
                c == col,
                count == (if i > 0 {
                    grid.neighbors_in_row(r, c, up as int)
                } else {
                    0
                }) + (if i > 1 {
                    grid.neighbors_in_row(r, c, 0)
                } else {
                    0
                }) + (if i > 2 {
                    grid.neighbors_in_row(r, c, 1)
                } else {
                    0
                }),
        {
            let drow = drows[i];
            let ghost before = count;
            for j in 0..3usize
                invariant
                    grid == self@,
                    grid.width > 0,
                    grid.height > 0,
                    left == grid.width - 1,
                    dcols[0] == left && dcols[1] == 0 && dcols[2] == 1,
                    r == row,
                    c == col,
                    before <= 6,
                    count == before + (if j > 0 {
                        grid.neighbor(r, c, drow as int, left as int)
                    } else {
                        0
                    }) + (if j > 1 {
                        grid.neighbor(r, c, drow as int, 0)
                    } else {
                        0
                    }) + (if j > 2 {
                        grid.neighbor(r, c, drow as int, 1)
                    } else {
                        0
                    }),
            {
                let dcol = dcols[j];
                count += self.neighbor(row, col, drow, dcol);
            }
        }
        count
    }

    /// Advances the universe by one generation. Every cell's new state is
    /// computed from the cells as they were before the call.
    pub fn tick(&mut self)
        ensures
            final(self)@ == old(self)@.step(),
            final(self)@.wf(),
    {
        proof {
            use_type_invariant(&*self);
        }
        let ghost grid = self@;
        let mut next = self.cells.clone();
        let mut row: u32 = 0;
        while row < self.height
            invariant
                grid == self@,
                grid.wf(),
                row <= self.height,
                next@.len() == grid.cells.len(),
                forall|i: int|
                    0 <= i < row * self.width ==> next@[i].alive() == grid.step().cells[i],
            decreases self.height - row,
        {
            let mut col: u32 = 0;
            while col < self.width
                invariant
                    grid == self@,
                    grid.wf(),
                    row < self.height,
                    col <= self.width,
                    next@.len() == grid.cells.len(),
                    forall|i: int|
                        0 <= i < row * self.width + col ==> next@[i].alive()
                            == grid.step().cells[i],
                decreases self.width - col,
            {
                let idx = self.get_index(row, col);
                let cell = self.cells[idx];
                let live_count = self.live_neighbot_count(row, col);
                proof {
                    index_in_range(grid, row as int, col as int);
                }
                next[idx] = cell.next(live_count);
                col += 1;
            }
            row += 1;
            assert((row - 1) * self.width + self.width == row * self.width) by (nonlinear_arith);
        }
        self.cells = next;
        assert(self@.cells =~= grid.step().cells);
    }

    /// Gives the universe `width` columns and makes every cell dead. The
    /// number of cells must fit in `usize`.
    pub fn set_width(&mut self, width: u32)
        requires
            width * old(self)@.height <= usize::MAX,
        ensures
            final(self)@ == Grid::dead(width as nat, old(self)@.height),
            final(self)@.wf(),
    {
        let height = self.height;
        let cells = dead_cells(width as usize * height as usize);
        *self = Universe { width, height, cells };
        assert(self@.cells =~= Grid::dead(width as nat, height as nat).cells);
    }

    /// Gives the universe `height` rows and makes every cell dead. The
    /// number of cells must fit in `usize`.
    pub fn set_height(&mut self, height: u32)
        requires
            old(self)@.width * height <= usize::MAX,
        ensures
            final(self)@ == Grid::dead(old(self)@.width, height as nat),
            final(self)@.wf(),
    {
        let width = self.width;
        let cells = dead_cells(width as usize * height as usize);
        *self = Universe { width, height, cells };
        assert(self@.cells =~= Grid::dead(width as nat, height as nat).cells);
    }

    /// Makes the cell at each of `coords`, pairs of row and column, alive.
    /// Every other cell stays as it was. Each pair must be a position of the
    /// grid.
    pub fn set_cells(&mut self, coords: &[(u32, u32)])
        requires
            forall|k: int|
                0 <= k < coords@.len() ==> old(self)@.contains(
                    (#[trigger] coords@[k]).0 as int,
                    coords@[k].1 as int,
                ),
        ensures
            final(self)@ == old(self)@.with_alive(coords@),
            final(self)@.wf(),
    {
        proof {
            use_type_invariant(&*self);
        }
        let ghost grid = self@;
        let mut k: usize = 0;
        while k < coords.len()
            invariant
                k <= coords@.len(),
                self.width == grid.width,
                self.height == grid.height,
                self.cells@.len() == grid.cells.len(),
                grid.wf(),
                forall|j: int|
                    0 <= j < coords@.len() ==> grid.contains(
                        (#[trigger] coords@[j]).0 as int,
                        coords@[j].1 as int,
                    ),
                forall|i: int|
                    0 <= i < grid.cells.len() ==> (#[trigger] self.cells@[i]).alive() == (
                    grid.cells[i] || grid.marked(coords@, k as int, i)),
            decreases coords@.len() - k,
        {
            let (row, col) = coords[k];
            let idx = self.get_index(row, col);
            let ghost before = self.cells@;
            self.cells[idx] = Cell::Alive;
            k += 1;
            proof {
                assert forall|i: int| 0 <= i < grid.cells.len() implies (
                #[trigger] self.cells@[i]).alive() == (grid.cells[i] || grid.marked(
                    coords@,
                    k as int,
                    i,
                )) by {
                    marked_one_more(grid, coords@, k as int, i);
                    assert(before[i].alive() == (grid.cells[i] || grid.marked(coords@, k - 1, i)));
                }
            }
        }
        assert(k == coords@.len());
        assert(self@.cells =~= grid.with_alive(coords@).cells);
    }

    /// The cells, row after row.
    pub fn cells(&self) -> (cells: &[Cell])
        ensures
            cells@.len() == self@.cells.len(),
            forall|i: int| 0 <= i < cells@.len() ==> cells@[i].alive() == self@.cells[i],
            self@.wf(),
    {
        proof {
            use_type_invariant(self);
        }
        self.cells.as_slice()
    }
}

/// A vector of `len` dead cells.
fn dead_cells(len: usize) -> (cells: Vec<Cell>)
    ensures
        cells@.len() == len,
        forall|i: int| 0 <= i < len ==> cells@[i] == Cell::Dead,
{
    let mut cells: Vec<Cell> = Vec::new();
    for i in 0..len
        invariant
            cells@.len() == i,
            forall|k: int| 0 <= k < i ==> cells@[k] == Cell::Dead,
    {
        cells.push(Cell::Dead);
    }
    cells
}

} // verus!
