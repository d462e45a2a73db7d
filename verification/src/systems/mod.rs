//! The solvers that advance the simulation by one step.

pub mod interaction;
pub mod physics;
pub mod stepping;
