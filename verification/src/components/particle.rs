//! One grain of the simulated material.

use vstd::prelude::*;
use crate::utils::fixed::Fixed;
use crate::utils::vector::{v_zero, Vec3, V3};

verus! {

/// The mathematical content of a particle, in raw units.
pub struct ParticleModel {
    pub position: V3,
    pub velocity: V3,
    pub acceleration: V3,
    pub mass: int,
    pub radius: int,
    pub min_radius: int,
    pub density: int,
}

impl ParticleModel {
    /// A particle has positive mass and is no smaller than its compressed
    /// radius.
    pub open spec fn wf(self) -> bool {
        self.mass > 0 && self.min_radius <= self.radius
    }
}

/// The mathematical content of a collection of particles.
pub open spec fn models(particles: Seq<Particle>) -> Seq<ParticleModel> {
    Seq::new(particles.len(), |i: int| particles[i]@)
}

/// A spherical grain.
#[derive(Clone, Copy, Debug, PartialEq, Eq, Structural)]
pub struct Particle {
    /// Centre, in metres.
    pub position: Vec3,
    /// Metres per second.
    pub velocity: Vec3,
    /// Scratch accumulator, reset to gravity once per step.
    pub acceleration: Vec3,
    /// Kilograms, fixed at creation.
    pub mass: Fixed,
    /// Current effective radius.
    pub radius: Fixed,
    /// Radius under full compression.
    pub min_radius: Fixed,
    /// Current density; carried along, not yet fed back into any force.
    pub density: Fixed,
}

impl View for Particle {
    type V = ParticleModel;

    open spec fn view(&self) -> ParticleModel {
        ParticleModel {
            position: self.position@,
            velocity: self.velocity@,
            acceleration: self.acceleration@,
            mass: self.mass@,
            radius: self.radius@,
            min_radius: self.min_radius@,
            density: self.density@,
        }
    }
}

/// Why a particle could not be created.
#[derive(Clone, Copy, Debug, PartialEq, Eq, Structural)]
pub enum ParticleError {
    /// The mass is zero or negative.
    NonPositiveMass,
    /// The radius is below the compressed radius.
    RadiusBelowMinimum,
}

impl Particle {
    /// See [`ParticleModel::wf`].
    pub open spec fn wf(&self) -> bool {
        self@.wf()
    }

    /// A particle at rest at `position`. Rejects a mass that is not positive,
    /// then a radius below `min_radius`.
    pub fn new(position: Vec3, mass: Fixed, radius: Fixed, min_radius: Fixed, density: Fixed) -> (r:
        Result<Particle, ParticleError>)
        ensures
            mass@ <= 0 ==> r == Err::<Particle, ParticleError>(ParticleError::NonPositiveMass),
            mass@ > 0 && radius@ < min_radius@ ==> r == Err::<Particle, ParticleError>(
                ParticleError::RadiusBelowMinimum,
            ),
            mass@ > 0 && radius@ >= min_radius@ ==> r.is_ok() && r.unwrap().wf() && r.unwrap()@
                == (ParticleModel {
                position: position@,
                velocity: v_zero(),
                acceleration: v_zero(),
                mass: mass@,
                radius: radius@,
                min_radius: min_radius@,
                density: density@,
            }),
    {
        if !mass.gt(Fixed::zero()) {
            Err(ParticleError::NonPositiveMass)
        } else if radius.lt(min_radius) {
            Err(ParticleError::RadiusBelowMinimum)
        } else {
            Ok(
                Particle {
                    position,
                    velocity: Vec3::zero(),
                    acceleration: Vec3::zero(),
                    mass,
                    radius,
                    min_radius,
                    density,
                },
            )
        }
    }

    /// Whether the particle satisfies its invariant.
    pub fn is_valid(&self) -> (r: bool)
        ensures
            r == self.wf(),
    {
        self.mass.gt(Fixed::zero()) && !self.radius.lt(self.min_radius)
    }
}

} // verus!
