//! A three-dimensional cellular automaton engine.
//!
//! A lattice is a dense cuboid grid of small-integer cells that evolves one
//! synchronous generation at a time under an immutable rule set: dead cells
//! are born when their live-neighbor count is listed in `creates`, terminal
//! live cells persist when their count is listed in `survives`, and decaying
//! cells step down by one each generation regardless of their neighbors.
#![allow(non_camel_case_types)]
#![allow(non_snake_case)]

mod engine;
mod laws;
mod model;

pub use engine::Rules;
pub use engine::cellular_automata;
