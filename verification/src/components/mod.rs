//! The simulated bodies: particles and the tool.

pub mod particle;
pub mod tool;

pub use particle::Particle;
pub use tool::Tool;
