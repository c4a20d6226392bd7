//! Validation of a completed 9x9 Sudoku board: extraction of rows, columns and
//! boxes, and a check that each of them holds no value twice.

pub mod cell;
pub mod board;
pub mod check;
