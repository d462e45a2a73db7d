//! Physical constants of one run.

use vstd::prelude::*;
use crate::utils::fixed::{Fixed, SCALE};
use crate::utils::vector::Vec3;

verus! {

/// Everything a run is configured with. Read by every solver, changed by
/// none.
#[derive(Clone, Copy, Debug, PartialEq, Eq, Structural)]
pub struct SimulationParameters {
    /// Particles along each horizontal edge of the initial bed.
    pub grid_size: usize,
    /// Radius at which two particles start to overlap.
    pub particle_radius: Fixed,
    /// Mass of each particle.
    pub particle_mass: Fixed,
    /// Radius of a fully compressed particle.
    pub min_radius: Fixed,
    /// Density of loose material.
    pub surface_density: Fixed,
    /// Density of fully compacted material.
    pub max_density: Fixed,
    /// Scales attraction and repulsion between particles.
    pub cohesion_coefficient: Fixed,
    /// Scales tangential resistance between particles and on the floor.
    pub friction_coefficient: Fixed,
    /// Reach of cohesion, as a multiple of the particle radius.
    pub attraction_radius_factor: Fixed,
    /// Gravitational acceleration.
    pub gravity: Vec3,
    /// Seconds per step.
    pub time_step: Fixed,
    /// Spring constant of tool contact.
    pub tool_stiffness: Fixed,
    /// Damping constant of tool contact.
    pub tool_damping: Fixed,
}

impl SimulationParameters {
    /// Parameters make physical sense: sizes, mass and time step are
    /// positive, a particle is no smaller than its compressed size, cohesion
    /// reaches at least as far as the particle itself, and no coefficient is
    /// negative.
    pub open spec fn wf(&self) -> bool {
        &&& 0 < self.min_radius@ <= self.particle_radius@
        &&& self.particle_mass@ > 0
        &&& self.cohesion_coefficient@ >= 0
        &&& self.friction_coefficient@ >= 0
        &&& self.attraction_radius_factor@ >= SCALE
        &&& self.time_step@ > 0
        &&& self.tool_stiffness@ >= 0
        &&& self.tool_damping@ >= 0
    }

    /// Whether the parameters make physical sense.
    pub fn is_valid(&self) -> (r: bool)
        ensures
            r == self.wf(),
    {
        let zero = Fixed::zero();
        self.min_radius.gt(zero) && !self.particle_radius.lt(self.min_radius)
            && self.particle_mass.gt(zero) && !self.cohesion_coefficient.lt(zero)
            && !self.friction_coefficient.lt(zero) && !self.attraction_radius_factor.lt(
            Fixed::one(),
        ) && self.time_step.gt(zero) && !self.tool_stiffness.lt(zero) && !self.tool_damping.lt(
            zero,
        )
    }
}

impl Default for SimulationParameters {
    /// Lunar regolith: 7 mm grains of half a gram under lunar gravity,
    /// stepped 240 times a second.
    fn default() -> (r: SimulationParameters)
        ensures
            r.wf(),
            r.grid_size == 16,
            r.particle_radius@ == 7_000_000,
            r.particle_mass@ == 500_000,
            r.min_radius@ == 5_000_000,
            r.surface_density@ == 1_270_000_000_000,
            r.max_density@ == 1_820_000_000_000,
            r.cohesion_coefficient@ == 40_000,
            r.friction_coefficient@ == 342_000_000,
            r.attraction_radius_factor@ == 1_100_000_000,
            r.gravity@.x == 0,
            r.gravity@.y == -1_625_000_000,
            r.gravity@.z == 0,
            r.time_step@ == 4_166_666,
            r.tool_stiffness@ == 500_000_000_000,
            r.tool_damping@ == 700_000_000,
    {
        SimulationParameters {
            grid_size: 16,
            particle_radius: Fixed::from_raw(7_000_000),
            particle_mass: Fixed::from_raw(500_000),
            min_radius: Fixed::from_raw(5_000_000),
            surface_density: Fixed::from_raw(1_270_000_000_000),
            max_density: Fixed::from_raw(1_820_000_000_000),
            cohesion_coefficient: Fixed::from_raw(40_000),
            friction_coefficient: Fixed::from_raw(342_000_000),
            attraction_radius_factor: Fixed::from_raw(1_100_000_000),
            gravity: Vec3::new(Fixed::zero(), Fixed::from_raw(-1_625_000_000), Fixed::zero()),
            time_step: Fixed::from_raw(4_166_666),
            tool_stiffness: Fixed::from_raw(500_000_000_000),
            tool_damping: Fixed::from_raw(700_000_000),
        }
    }
}

} // verus!
