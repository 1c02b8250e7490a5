//! Two patterns whose fate is known: the block, which never changes, and the
//! blinker, which turns by a quarter with every generation.

use crate::grid::{
    index_in_range, neighbors_on_torus, offsets_wrap, position_of_index, step_keeps_size, survives,
    Grid,
};
use vstd::prelude::*;

verus! {

/// Whether the live cells of `grid` are exactly the four cells of the square
/// whose upper left corner is `(row, col)`. The square may lie across an edge
/// of the grid.
pub open spec fn is_block(grid: Grid, row: int, col: int) -> bool {
    &&& grid.wf()
    &&& grid.contains(row, col)
    &&& forall|r: int, c: int|
        grid.contains(r, c) ==> (#[trigger] grid.alive(r, c) <==> (r == row || r == grid.below(row))
            && (c == col || c == grid.right_of(col)))
}

/// Whether the live cells of `grid` are exactly the cell at `(row, col)` and
/// the cells to its left and to its right.
pub open spec fn is_flat_blinker(grid: Grid, row: int, col: int) -> bool {
    &&& grid.wf()
    &&& grid.contains(row, col)
    &&& forall|r: int, c: int|
        grid.contains(r, c) ==> (#[trigger] grid.alive(r, c) <==> r == row && (c == grid.left_of(col)
            || c == col || c == grid.right_of(col)))
}

/// Whether the live cells of `grid` are exactly the cell at `(row, col)` and
/// the cells above and below it.
pub open spec fn is_upright_blinker(grid: Grid, row: int, col: int) -> bool {
    &&& grid.wf()
    &&& grid.contains(row, col)
    &&& forall|r: int, c: int|
        grid.contains(r, c) ==> (#[trigger] grid.alive(r, c) <==> c == col && (r == grid.above(row)
            || r == row || r == grid.below(row)))
}

/// What is known of the cell with index `i` and of the cells around it: its
/// position, the positions one step away from it, and the count of its live
/// neighbours as a sum over those positions.
proof fn around(grid: Grid, i: int) -> (at: (int, int))
    requires
        grid.wf(),
        grid.width >= 2,
        grid.height >= 2,
        0 <= i < grid.cells.len(),
    ensures
        at == (i / (grid.width as int), i % (grid.width as int)),
        grid.contains(at.0, at.1),
        grid.index(at.0, at.1) == i,
        grid.alive(at.0, at.1) == grid.cells[i],
        grid.step().cells[i] == survives(grid.cells[i], grid.live_neighbors(at.0, at.1)),
        0 <= grid.above(at.0) < grid.height,
        0 <= grid.below(at.0) < grid.height,
        0 <= grid.left_of(at.1) < grid.width,
        0 <= grid.right_of(at.1) < grid.width,
        grid.live_neighbors(at.0, at.1) == grid.count(grid.above(at.0), grid.left_of(at.1))
            + grid.count(grid.above(at.0), at.1) + grid.count(grid.above(at.0), grid.right_of(at.1))
            + grid.count(at.0, grid.left_of(at.1)) + grid.count(at.0, grid.right_of(at.1))
            + grid.count(grid.below(at.0), grid.left_of(at.1)) + grid.count(grid.below(at.0), at.1)
            + grid.count(grid.below(at.0), grid.right_of(at.1)),
{
    position_of_index(grid, i);
    let at = (i / (grid.width as int), i % (grid.width as int));
    neighbors_on_torus(grid, at.0, at.1);
    offsets_wrap(grid, at.0, at.1);
    at
}

/// A block on a grid of at least four rows and four columns is the same in
/// the next generation.
pub proof fn block_stays(grid: Grid, row: int, col: int)
    requires
        is_block(grid, row, col),
        grid.width >= 4,
        grid.height >= 4,
    ensures
        grid.step() == grid,
{
    assert forall|i: int| 0 <= i < grid.cells.len() implies grid.step().cells[i]
        == grid.cells[i] by {
        around(grid, i);
    }
    assert(grid.step().cells =~= grid.cells);
}

/// A block on a grid of at least four rows and four columns is the same after
/// any number of generations.
pub proof fn block_is_still(grid: Grid, row: int, col: int, n: nat)
    requires
        is_block(grid, row, col),
        grid.width >= 4,
        grid.height >= 4,
    ensures
        grid.steps(n) == grid,
    decreases n,
{
    if n > 0 {
        block_stays(grid, row, col);
        block_is_still(grid, row, col, (n - 1) as nat);
    }
}

/// A flat blinker on a grid of at least five rows and five columns is, in the
/// next generation, the upright blinker with the same middle cell.
pub proof fn flat_blinker_turns(grid: Grid, row: int, col: int)
    requires
        is_flat_blinker(grid, row, col),
        grid.width >= 5,
        grid.height >= 5,
    ensures
        is_upright_blinker(grid.step(), row, col),
{
    let next = grid.step();
    step_keeps_size(grid, 1);
    assert(grid.steps(1) == next) by {
        reveal_with_fuel(Grid::steps, 2);
    }
    assert forall|r: int, c: int| next.contains(r, c) implies (#[trigger] next.alive(r, c) <==> c
        == col && (r == next.above(row) || r == row || r == next.below(row))) by {
        index_in_range(grid, r, c);
        around(grid, grid.index(r, c));
    }
}

/// An upright blinker on a grid of at least five rows and five columns is, in
/// the next generation, the flat blinker with the same middle cell.
pub proof fn upright_blinker_turns(grid: Grid, row: int, col: int)
    requires
        is_upright_blinker(grid, row, col),
        grid.width >= 5,
        grid.height >= 5,
    ensures
        is_flat_blinker(grid.step(), row, col),
{
    let next = grid.step();
    step_keeps_size(grid, 1);
    assert(grid.steps(1) == next) by {
        reveal_with_fuel(Grid::steps, 2);
    }
    assert forall|r: int, c: int| next.contains(r, c) implies (#[trigger] next.alive(r, c) <==> r
        == row && (c == next.left_of(col) || c == col || c == next.right_of(col))) by {
        index_in_range(grid, r, c);
        around(grid, grid.index(r, c));
    }
}

/// A blinker on a grid of at least five rows and five columns is the same
/// again after two generations, and so after any even number of them; after
/// an odd number it is what it is after one.
pub proof fn blinker_returns(grid: Grid, row: int, col: int, n: nat)
    requires
        is_flat_blinker(grid, row, col) || is_upright_blinker(grid, row, col),
        grid.width >= 5,
        grid.height >= 5,
    ensures
        grid.step().step() == grid,
        grid.steps(2 * n) == grid,
        grid.steps(2 * n + 1) == grid.step(),
    decreases n,
{
    let once = grid.step();
    let twice = once.step();
    step_keeps_size(grid, 1);
    step_keeps_size(once, 1);
    assert(grid.steps(1) == once && once.steps(1) == twice) by {
        reveal_with_fuel(Grid::steps, 2);
    }
    if is_flat_blinker(grid, row, col) {
        flat_blinker_turns(grid, row, col);
        upright_blinker_turns(once, row, col);
    } else {
        upright_blinker_turns(grid, row, col);
        flat_blinker_turns(once, row, col);
    }
    assert forall|i: int| 0 <= i < grid.cells.len() implies twice.cells[i] == grid.cells[i] by {
        position_of_index(grid, i);
        let r = i / (grid.width as int);
        let c = i % (grid.width as int);
        assert(twice.alive(r, c) == grid.alive(r, c));
    }
    assert(twice.cells =~= grid.cells);
    if n > 0 {
        blinker_returns(grid, row, col, (n - 1) as nat);
        assert(grid.steps(2 * n) == twice.steps((2 * n - 2) as nat)) by {
            reveal_with_fuel(Grid::steps, 3);
        }
        assert(grid.steps(2 * n + 1) == twice.steps((2 * n - 1) as nat)) by {
            reveal_with_fuel(Grid::steps, 3);
        }
    } else {
        assert(grid.steps(0) == grid && grid.steps(1) == once) by {
            reveal_with_fuel(Grid::steps, 2);
        }
    }
}

} // verus!
