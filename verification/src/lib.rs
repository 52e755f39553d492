//! Population dynamics of humans and zombies on a grid of cells.
//!
//! Every cell holds one faction (or nobody), a head count, the direction its
//! occupants intend to move in, and two scent fields that the factions follow
//! or flee. One tick replaces each cell by a function of the cell and of its
//! neighbours as they were before the tick.
//!
//! - [`rules`] is the mathematical model of one cell's transition.
//! - [`zombie_state`] holds the cell record and the transition in machine
//!   integers, proved equal to the model.
//! - [`grid`] holds the cells, finds a cell's neighbours and makes a tick.
//! - [`seed`] peoples the cells at the start.
//! - [`laws`] states what holds of every tick.

mod arith;
pub mod grid;
pub mod laws;
pub mod rules;
pub mod seed;
pub mod zombie_state;

pub use grid::Grid;
pub use zombie_state::{delta_to_direction, GridVec, Status, ZombieState};
