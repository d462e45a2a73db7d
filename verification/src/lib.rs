//! A fixed-point simulation of cohesive granular material: spherical
//! particles under gravity, pairwise cohesion, repulsion and friction, a
//! floor, and a rigid box-shaped tool that pushes them around.
//!
//! Every quantity is a [`utils::fixed::Fixed`], a signed decimal number with
//! nine fractional digits whose operations saturate instead of overflowing,
//! so that no solver can fail and every step is reproducible bit for bit.
//! Contracts are stated over the integers those numbers hold: each type has
//! a view into plain integers, and each solver is specified by a function
//! of those views.
//!
//! One tick, [`systems::stepping::step`], resets every acceleration to
//! gravity, adds the forces between particles and those of the tool, and
//! then advances the particles. The solvers can also be called one by one.

pub mod components;
pub mod resources;
pub mod scenario;
pub mod systems;
pub mod utils;
