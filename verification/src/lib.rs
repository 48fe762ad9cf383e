//! Conway's Game of Life on a fixed-size toroidal grid.
//!
//! The crate is split into the cell model ([`cell`]), the mathematical model
//! of a grid and of one generation step ([`grid`]), the theorems that hold of
//! that model ([`laws`]) and of two well-known patterns ([`patterns`]), and
//! the executable engine ([`universe`]) whose operations are specified
//! against the model.

pub mod cell;
pub mod grid;
pub mod laws;
pub mod patterns;
pub mod universe;

pub use cell::Cell;
pub use grid::Grid;
pub use universe::Universe;
