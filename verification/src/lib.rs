//! An elementary cellular automaton on a ring of cells.
//!
//! A row of boolean cells evolves under an 8-bit rule: the next state of a
//! cell is the rule bit selected by the 3-bit encoding of its neighborhood
//! (left neighbor, the cell itself, right neighbor). The row wraps around:
//! the left neighbor of the first cell is the last cell, and the right
//! neighbor of the last cell is the first.

pub mod automaton;
pub mod render;
