//! The state of one position of the grid.

use crate::grid::survives;
use vstd::prelude::*;
use vstd::std_specs::convert::FromSpecImpl;

verus! {

/// A cell is either dead or alive.
#[derive(Debug, Clone, Copy, PartialEq, Eq, Structural)]
pub enum Cell {
    Dead,
    Alive,
}

impl Cell {
    /// Whether the cell is alive, as a mathematical boolean.
    pub open spec fn alive(self) -> bool {
        self == Cell::Alive
    }

    /// The cell that stands for a boolean: `true` is alive.
    pub open spec fn of(alive: bool) -> Cell {
        if alive {
            Cell::Alive
        } else {
            Cell::Dead
        }
    }

    /// The number that stands for the cell: 0 for dead, 1 for alive.
    pub open spec fn bit(self) -> int {
        if self.alive() {
            1
        } else {
            0
        }
    }

    /// The cell that a number stands for: 0 is dead, 1 is alive, and no other
    /// number is a cell.
    pub open spec fn of_bit(bit: int) -> Option<Cell> {
        if bit == 0 {
            Some(Cell::Dead)
        } else if bit == 1 {
            Some(Cell::Alive)
        } else {
            None
        }
    }

    /// `true` for a live cell, `false` for a dead one.
    pub fn to_bool(&self) -> (alive: bool)
        ensures
            alive == self.alive(),
    {
        match *self {
            Cell::Dead => false,
            Cell::Alive => true,
        }
    }

    /// 1 for a live cell, 0 for a dead one.
    pub fn to_u8(&self) -> (bit: u8)
        ensures
            bit == self.bit(),
    {
        match *self {
            Cell::Dead => 0,
            Cell::Alive => 1,
        }
    }

    /// The cell that a stored number stands for: 0 is dead, 1 is alive, and no
    /// other number is a cell.
    pub fn from_u8(bit: u8) -> (cell: Option<Cell>)
        ensures
            cell == Cell::of_bit(bit as int),
    {
        if bit == 0 {
            Some(Cell::Dead)
        } else if bit == 1 {
            Some(Cell::Alive)
        } else {
            None
        }
    }

    /// The cell's state in the next generation, given how many of its
    /// neighbours are alive now: a live cell with fewer than two live
    /// neighbours dies, one with two or three lives on, one with more than
    /// three dies, and a dead cell with exactly three comes alive.
    pub fn next(self, live_neighbors: u8) -> (cell: Cell)
        ensures
            cell.alive() == survives(self.alive(), live_neighbors as int),
    {
        match self {
            Cell::Alive => if live_neighbors < 2 {
                Cell::Dead
            } else if live_neighbors == 2 || live_neighbors == 3 {
                Cell::Alive
            } else {
                Cell::Dead
            },
            Cell::Dead => if live_neighbors == 3 {
                Cell::Alive
            } else {
                Cell::Dead
            },
        }
    }
}

impl From<bool> for Cell {
    fn from(alive: bool) -> (cell: Cell) {
        if alive {
            Cell::Alive
        } else {
            Cell::Dead
        }
    }
}

impl FromSpecImpl<bool> for Cell {
    open spec fn obeys_from_spec() -> bool {
        true
    }

    open spec fn from_spec(alive: bool) -> Cell {
        Cell::of(alive)
    }
}

impl From<Cell> for bool {
    fn from(cell: Cell) -> (alive: bool) {
        match cell {
            Cell::Alive => true,
            Cell::Dead => false,
        }
    }
}

impl FromSpecImpl<Cell> for bool {
    open spec fn obeys_from_spec() -> bool {
        true
    }

    open spec fn from_spec(cell: Cell) -> bool {
        cell.alive()
    }
}

/// Turning a cell into a boolean and back, or a boolean into a cell and back,
/// loses nothing.
pub proof fn bool_round_trip(cell: Cell, alive: bool)
    ensures
        Cell::of(cell.alive()) == cell,
        Cell::of(alive).alive() == alive,
{
}

/// A cell's number is 0 or 1 and gives the cell back; a number gives a cell
/// exactly when it is 0 or 1, and that cell's number is the number.
pub proof fn bit_round_trip(cell: Cell, bit: int)
    ensures
        0 <= cell.bit() <= 1,
        Cell::of_bit(cell.bit()) == Some(cell),
        Cell::of_bit(bit).is_some() <==> bit == 0 || bit == 1,
        Cell::of_bit(bit).is_some() ==> Cell::of_bit(bit).unwrap().bit() == bit,
{
}

} // verus!
