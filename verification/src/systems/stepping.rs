//! One tick of the whole simulation.

use vstd::prelude::*;
use crate::components::particle::{models, Particle, ParticleModel};
use crate::components::tool::Tool;
use crate::resources::parameters::SimulationParameters;
use crate::systems::interaction::{
    handle_tool_interaction, particle_after_tool, steered, tool_after_pass, unloaded,
    ToolInputIntent,
};
use crate::systems::physics::{
    advance_particles, advanced, all_pair_forces, applied, handle_particle_interactions,
    lemma_applied_len, release_particles, released,
};
use crate::utils::fixed::Fixed;
use crate::utils::quaternion::near_unit;

verus! {

/// The particles with every acceleration set to gravity.
pub open spec fn released_all(particles: Seq<ParticleModel>, params: SimulationParameters) -> Seq<
    ParticleModel,
> {
    Seq::new(particles.len(), |i: int| released(particles[i], params))
}

/// The particles released, then each given the acceleration due to the
/// particles around it.
pub open spec fn gathered(particles: Seq<ParticleModel>, params: SimulationParameters) -> Seq<
    ParticleModel,
> {
    let free = released_all(particles, params);
    applied(free, all_pair_forces(free, params), all_pair_forces(free, params).len() as int)
}

/// Advances the simulation by one tick of length `dt`. Accelerations are
/// reset to gravity; the forces between particles are added, then those of
/// the tool, which is first steered as `input` asks; at last every particle
/// is advanced under what it has gathered. All forces are read off the
/// positions and velocities on entry. Without a tool, the tool's part is
/// left out. Afterwards no particle reaches below the floor, and a tool
/// whose rotation had unit length still has one.
pub fn step(
    particles: &mut Vec<Particle>,
    tool: &mut Option<Tool>,
    parameters: &SimulationParameters,
    dt: Fixed,
    input: &ToolInputIntent,
)
    ensures
        final(particles).len() == old(particles).len(),
        old(tool).is_none() ==> final(tool).is_none() && forall|i: int|
            0 <= i < old(particles).len() ==> (#[trigger] final(particles)[i])@ == advanced(
                gathered(models(old(particles)@), *parameters)[i],
                dt@,
                *parameters,
            ),
        old(tool).is_some() ==> {
            let moved = steered(old(tool).unwrap()@, *input);
            let pushed = gathered(models(old(particles)@), *parameters);
            &&& final(tool).is_some()
            &&& final(tool).unwrap()@ == tool_after_pass(
                unloaded(moved),
                pushed,
                *parameters,
                old(particles).len() as int,
            )
            &&& forall|i: int|
                0 <= i < old(particles).len() ==> (#[trigger] final(particles)[i])@ == advanced(
                    particle_after_tool(moved, pushed[i], *parameters),
                    dt@,
                    *parameters,
                )
            &&& near_unit(old(tool).unwrap()@.rotation) ==> near_unit(
                final(tool).unwrap()@.rotation,
            )
        },
        forall|i: int|
            0 <= i < old(particles).len() ==> (#[trigger] final(particles)[i]).position.y@
                >= final(particles)[i].radius@,
{
    let ghost pushed = gathered(models(old(particles)@), *parameters);
    release_particles(particles, parameters);
    proof {
        assert(models(particles@) =~= released_all(models(old(particles)@), *parameters));
    }
    handle_particle_interactions(particles, parameters);
    proof {
        let free = released_all(models(old(particles)@), *parameters);
        lemma_applied_len(
            free,
            all_pair_forces(free, *parameters),
            all_pair_forces(free, *parameters).len() as int,
        );
        assert(models(particles@) == pushed);
        assert forall|i: int| 0 <= i < particles.len() implies (#[trigger] particles[i])@
            == pushed[i] by {
            assert(models(particles@)[i] == particles[i]@);
        }
    }
    handle_tool_interaction(tool, particles, parameters, input);
    advance_particles(particles, dt, parameters);
}

} // verus!
