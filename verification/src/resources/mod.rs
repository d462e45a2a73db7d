//! Configuration shared by every solver.

pub mod parameters;

pub use parameters::SimulationParameters;
