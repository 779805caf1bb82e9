//! Conway's Game of Life on a board of fixed size whose edges are joined,
//! so that the board is a torus.
//!
//! [`Universe`] is the board that runs.  What each of its operations does
//! is stated over [`Grid`], the board as a mathematical value, and proved:
//! a step of the game, the count of live neighbours around the edges, the
//! population, and the ways to set a board up.
//!
//! Beside the operations stand laws of the game that hold of every board:
//! the block is a still life ([`still_life`]), the blinker turns and comes
//! back ([`blinker`]), and a pattern fares the same wherever on the torus
//! it lies ([`shift`]).

pub mod blinker;
pub mod cell;
pub mod entropy;
pub mod grid;
pub mod population;
pub mod ring;
pub mod shift;
pub mod still_life;
pub mod universe;

pub use cell::Cell;
pub use grid::Grid;
pub use universe::Universe;
