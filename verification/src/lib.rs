//! Conway's Game of Life on a finite torus.
//!
//! The rules of the automaton are stated once, over a mathematical grid, in
//! [`grid`]. Two stores carry a grid at run time and are proved against that
//! statement: [`dense`] keeps one [`Cell`] per position, [`packed`] keeps one
//! bit per position.

pub mod bitset;
pub mod cell;
pub mod dense;
pub mod grid;
pub mod packed;
pub mod patterns;

pub use cell::Cell;
