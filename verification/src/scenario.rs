//! The initial state of a run: a bed of particles in three staggered
//! layers, and the tool above it.

use vstd::prelude::*;
use crate::components::particle::{Particle, ParticleError, ParticleModel};
use crate::components::tool::{Tool, ToolModel};
use crate::resources::parameters::SimulationParameters;
use crate::utils::fixed::{sat_add, sat_mul, saturate, Fixed, SCALE};
use crate::utils::quaternion::q_identity;
use crate::utils::vector::{v_zero, Vec3, V3};

verus! {

/// Layers of particles in the bed.
pub const LAYERS: usize = 3;

/// Distance between neighbours in the bed, in particle radii: slightly more
/// than a diameter.
pub const SPACING: i64 = 2_100_000_000;

/// Distance between the columns of the bed, in spacings.
pub const COLUMN_PITCH: i64 = 866_000_000;

/// Distance between the layers of the bed, in spacings.
pub const LAYER_PITCH: i64 = 816_000_000;

/// Height at which the tool starts, above the middle of the first column.
pub const TOOL_HEIGHT: i64 = 300_000_000;

/// The whole number `n` as a raw value, saturated.
pub open spec fn whole(n: int) -> int {
    saturate(n * SCALE)
}

/// The column of the bed in which particle number `m` lies.
pub open spec fn column_of(m: int, params: SimulationParameters) -> int {
    m / (LAYERS * params.grid_size)
}

/// The row of the bed in which particle number `m` lies.
pub open spec fn row_of(m: int, params: SimulationParameters) -> int {
    (m / (LAYERS as int)) % (params.grid_size as int)
}

/// The layer of the bed in which particle number `m` lies.
pub open spec fn layer_of(m: int) -> int {
    m % (LAYERS as int)
}

/// How far along one axis the particle at `index` lies: `index` times the
/// spacing times the pitch of that axis, shifted by one radius if `shifted`.
pub open spec fn bed_coordinate(
    index: int,
    pitch: int,
    shifted: bool,
    params: SimulationParameters,
) -> int {
    let spacing = sat_mul(params.particle_radius@, SPACING as int);
    sat_add(
        sat_mul(sat_mul(whole(index), spacing), pitch),
        if shifted {
            params.particle_radius@
        } else {
            0
        },
    )
}

/// Where particle number `m` of the bed lies. Columns run along the first
/// axis, layers along the second, rows along the third; every other row
/// is shifted along the columns and every other layer along the rows, so
/// that the particles pack closely.
pub open spec fn bed_position(m: int, params: SimulationParameters) -> V3 {
    let row = row_of(m, params);
    let layer = layer_of(m);
    V3 {
        x: bed_coordinate(column_of(m, params), COLUMN_PITCH as int, row % 2 == 1, params),
        y: bed_coordinate(layer, LAYER_PITCH as int, false, params),
        z: bed_coordinate(row, SCALE as int, layer % 2 == 1, params),
    }
}

/// Particle number `m` of the bed: at rest at its place, with the mass,
/// radius and compressed radius of the parameters and the density of
/// loose material.
pub open spec fn bed_particle(m: int, params: SimulationParameters) -> ParticleModel {
    ParticleModel {
        position: bed_position(m, params),
        velocity: v_zero(),
        acceleration: v_zero(),
        mass: params.particle_mass@,
        radius: params.particle_radius@,
        min_radius: params.min_radius@,
        density: params.surface_density@,
    }
}

fn whole_number(n: usize) -> (r: Fixed)
    ensures
        r@ == whole(n as int),
{
    if n > 1_000_000_000 {
        proof {
            assert(n * SCALE > 1_000_000_000_000_000_000) by (nonlinear_arith)
                requires
                    n > 1_000_000_000,
                    SCALE == 1_000_000_000,
            ;
        }
        Fixed::from_raw(1_000_000_000_000_000_000)
    } else {
        Fixed::from_int(n as i64)
    }
}

fn bed_coordinate_of(
    index: usize,
    pitch: i64,
    shifted: bool,
    parameters: &SimulationParameters,
) -> (r: Fixed)
    requires
        0 <= pitch <= SCALE,
    ensures
        r@ == bed_coordinate(index as int, pitch as int, shifted, *parameters),
{
    let spacing = parameters.particle_radius.mul(Fixed::from_raw(SPACING));
    let along = whole_number(index).mul(spacing).mul(Fixed::from_raw(pitch));
    let shift = if shifted {
        parameters.particle_radius
    } else {
        Fixed::zero()
    };
    along.add(shift)
}

/// The bed of particles a run starts with: `grid_size` columns of
/// `grid_size` rows of three layers, numbered layer by layer within a row
/// and row by row within a column. With an empty grid there is nothing to
/// create; otherwise parameters whose mass is not positive, or whose
/// particle radius is below the compressed radius, are rejected.
pub fn initial_particles(parameters: &SimulationParameters) -> (r: Result<
    Vec<Particle>,
    ParticleError,
>)
    requires
        LAYERS * parameters.grid_size * parameters.grid_size <= usize::MAX,
    ensures
        parameters.grid_size == 0 ==> r.is_ok() && r.unwrap().len() == 0,
        parameters.grid_size > 0 && parameters.particle_mass@ <= 0 ==> r == Err::<
            Vec<Particle>,
            ParticleError,
        >(ParticleError::NonPositiveMass),
        parameters.grid_size > 0 && parameters.particle_mass@ > 0 && parameters.particle_radius@
            < parameters.min_radius@ ==> r == Err::<Vec<Particle>, ParticleError>(
            ParticleError::RadiusBelowMinimum,
        ),
        parameters.grid_size > 0 && parameters.particle_mass@ > 0 && parameters.particle_radius@
            >= parameters.min_radius@ ==> r.is_ok() && r.unwrap().len() == LAYERS
            * parameters.grid_size * parameters.grid_size && forall|m: int|
            0 <= m < r.unwrap().len() ==> (#[trigger] r.unwrap()[m])@ == bed_particle(
                m,
                *parameters,
            ) && r.unwrap()[m].wf(),
{
    let size = parameters.grid_size;
    let mut bed: Vec<Particle> = Vec::new();
    if size == 0 {
        return Ok(bed);
    }
    proof {
        assert(LAYERS * size <= LAYERS * size * size) by (nonlinear_arith)
            requires
                size >= 1,
        ;
    }
    let per_column: usize = LAYERS * size;
    let total: usize = per_column * size;
    let mut m: usize = 0;
    while m < total
        invariant
            m <= total,
            size == parameters.grid_size,
            size > 0,
            per_column == LAYERS * size,
            total == LAYERS * size * size,
            bed.len() == m,
            m > 0 ==> parameters.particle_mass@ > 0 && parameters.particle_radius@
                >= parameters.min_radius@,
            forall|n: int|
                0 <= n < m ==> (#[trigger] bed[n])@ == bed_particle(n, *parameters) && bed[n].wf(),
        decreases total - m,
    {
        let column = m / per_column;
        let row = (m / LAYERS) % size;
        let layer = m % LAYERS;
        let position = Vec3::new(
            bed_coordinate_of(column, COLUMN_PITCH, row % 2 == 1, parameters),
            bed_coordinate_of(layer, LAYER_PITCH, false, parameters),
            bed_coordinate_of(row, SCALE, layer % 2 == 1, parameters),
        );
        match Particle::new(
            position,
            parameters.particle_mass,
            parameters.particle_radius,
            parameters.min_radius,
            parameters.surface_density,
        ) {
            Ok(particle) => {
                bed.push(particle);
            },
            Err(e) => {
                return Err(e);
            },
        }
        m += 1;
    }
    Ok(bed)
}

/// The tool a run starts with: at rest above the bed, unrotated.
pub fn initial_tool() -> (r: Tool)
    ensures
        r@ == (ToolModel {
            position: V3 { x: 0, y: TOOL_HEIGHT as int, z: 0 },
            rotation: q_identity(),
            velocity: v_zero(),
            forces: v_zero(),
            torque: v_zero(),
        }),
{
    Tool::new(Vec3::new(Fixed::zero(), Fixed::from_raw(TOOL_HEIGHT), Fixed::zero()))
}

} // verus!
