//! Game-state engine of a snake game played on a square board with
//! wraparound edges.

pub mod grid;
pub mod world;
