//! Conway's Game of Life on a bounded rectangular grid.
//!
//! `grid` holds the cell model, the neighbour count and the generation rule;
//! `pattern` turns the lines of a text pattern into a grid; `game` holds the
//! time-gated simulation engine; `lemmas` states what holds of them across calls.
pub mod grid;
pub mod game;
pub mod pattern;
pub mod lemmas;
