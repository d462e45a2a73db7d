//! Integration under gravity with floor contact, and the forces between
//! pairs of particles.

use vstd::prelude::*;
use crate::components::particle::{models, Particle, ParticleModel};
use crate::resources::parameters::SimulationParameters;
use crate::utils::fixed::{
    lemma_reciprocal_antitone, lemma_sat_mul_monotone, lemma_sat_mul_zero, sat_add,
    sat_div, sat_mul, sat_sub, saturate, Fixed, LIMIT, SCALE,
};
use crate::utils::quaternion::HALF;
use crate::utils::vector::{
    v_add, v_dot, v_length, v_neg, v_normalized, v_scale, v_sub, v_unscale, Vec3, V3,
};

verus! {

/// Share of its velocity a particle keeps from one step to the next.
pub const DAMPING: i64 = 980_000_000;

/// Speed below which tangential motion raises no friction.
pub const SLIP_THRESHOLD: i64 = 1_000_000;

/// Width of the band above the closest approach of two particles in which
/// repulsion is linear.
pub const GUARD_BAND: i64 = 100_000;

/// Stiffness of the linear repulsion inside the guard band.
pub const GUARD_STIFFNESS: i64 = 100_000_000_000;

/// Strength of attraction relative to repulsion.
pub const ATTRACTION_SHARE: i64 = 100_000_000;

/// Share of the friction coefficient that acts between two particles.
pub const FRICTION_SHARE: i64 = 800_000_000;

/// Distance between the centres of two particles that just touch.
pub open spec fn touching_distance(params: SimulationParameters) -> int {
    saturate(2 * params.particle_radius@)
}

/// Distance between the centres of two fully compressed particles.
pub open spec fn closest_distance(params: SimulationParameters) -> int {
    saturate(2 * params.min_radius@)
}

/// Distance between two centres from which on they no longer interact.
pub open spec fn reach(params: SimulationParameters) -> int {
    saturate(2 * sat_mul(params.particle_radius@, params.attraction_radius_factor@))
}

/// Linear repulsion inside the guard band: `GUARD_STIFFNESS` times the depth
/// below the top of the band.
pub open spec fn guard_repulsion(distance: int, params: SimulationParameters) -> int {
    sat_mul(
        GUARD_STIFFNESS as int,
        sat_sub(sat_add(closest_distance(params), GUARD_BAND as int), distance),
    )
}

/// Repulsion of two overlapping particles above the guard band:
/// `cohesion * (1 / (distance - closest) - 1 / (touching - closest))`,
/// which vanishes where the particles just touch and grows as they near
/// their closest approach.
pub open spec fn repulsion(distance: int, params: SimulationParameters) -> int {
    sat_mul(
        params.cohesion_coefficient@,
        sat_sub(
            sat_div(SCALE as int, sat_sub(distance, closest_distance(params))),
            sat_div(SCALE as int, sat_sub(touching_distance(params), closest_distance(params))),
        ),
    )
}

/// Attraction of two particles that are apart but within reach:
/// `cohesion / 10 * (1 / (distance - closest) - 1 / (reach - closest))`,
/// which vanishes at the edge of the reach.
pub open spec fn attraction(distance: int, params: SimulationParameters) -> int {
    sat_mul(
        sat_mul(params.cohesion_coefficient@, ATTRACTION_SHARE as int),
        sat_sub(
            sat_div(SCALE as int, sat_sub(distance, closest_distance(params))),
            sat_div(SCALE as int, sat_sub(reach(params), closest_distance(params))),
        ),
    )
}

/// Whether two particles at this distance overlap inside the guard band.
pub open spec fn in_guard_band(distance: int, params: SimulationParameters) -> bool {
    distance < touching_distance(params) && distance < sat_add(
        closest_distance(params),
        GUARD_BAND as int,
    )
}

/// Whether two particles at this distance overlap above the guard band.
pub open spec fn in_overlap(distance: int, params: SimulationParameters) -> bool {
    distance < touching_distance(params) && distance >= sat_add(
        closest_distance(params),
        GUARD_BAND as int,
    )
}

/// The force along the line from one particle to another at the given
/// distance, positive when it drives them apart.
pub open spec fn normal_force(distance: int, params: SimulationParameters) -> int {
    if in_guard_band(distance, params) {
        guard_repulsion(distance, params)
    } else if in_overlap(distance, params) {
        repulsion(distance, params)
    } else {
        -attraction(distance, params)
    }
}

/// Strength of the friction that goes with a normal force: the friction
/// coefficient times the length of the force times `FRICTION_SHARE`.
pub open spec fn friction_strength(force: V3, params: SimulationParameters) -> int {
    sat_mul(sat_mul(params.friction_coefficient@, v_length(force)), FRICTION_SHARE as int)
}

/// The part of the velocity of `b` relative to `a` that is at right angles
/// to `direction`.
pub open spec fn tangential_velocity(a: ParticleModel, b: ParticleModel, direction: V3) -> V3 {
    let relative = v_sub(b.velocity, a.velocity);
    v_sub(relative, v_scale(direction, v_dot(relative, direction)))
}

/// The force that `a` puts on `b`, or `None` if they are out of reach of
/// each other. It is the normal force along the direction from `a` to `b`,
/// plus, where they slide past each other faster than `SLIP_THRESHOLD`, a
/// friction force against the sliding. `b` puts the opposite force on `a`.
pub open spec fn pair_force(
    a: ParticleModel,
    b: ParticleModel,
    params: SimulationParameters,
) -> Option<V3> {
    let displacement = v_sub(b.position, a.position);
    let distance = v_length(displacement);
    if distance < reach(params) {
        let direction = v_normalized(displacement);
        let force = v_scale(direction, normal_force(distance, params));
        let sliding = tangential_velocity(a, b, direction);
        if v_length(sliding) > SLIP_THRESHOLD {
            Some(
                v_add(
                    force,
                    v_scale(v_neg(v_normalized(sliding)), friction_strength(force, params)),
                ),
            )
        } else {
            Some(force)
        }
    } else {
        None
    }
}

/// The velocity change that floor friction gives a particle sliding with
/// the horizontal velocity `sliding` for a time `dt` under gravity `g`:
/// against the sliding, of size `friction * |g| * dt`. The mass cancels.
pub open spec fn floor_friction(sliding: V3, g: V3, dt: int, params: SimulationParameters) -> V3 {
    v_scale(
        v_neg(v_normalized(sliding)),
        sat_mul(sat_mul(params.friction_coefficient@, v_length(g)), dt),
    )
}

/// The velocity of a particle that hit the floor with velocity `v`: the
/// vertical part reversed at half its size, so that a particle that came
/// down leaves upward, and friction against the horizontal part where that
/// is faster than `SLIP_THRESHOLD`.
pub open spec fn rebound(v: V3, g: V3, dt: int, params: SimulationParameters) -> V3 {
    let bounced = V3 { x: v.x, y: sat_mul(v.y, -HALF), z: v.z };
    let sliding = V3 { x: v.x, y: 0, z: v.z };
    if v_length(sliding) > SLIP_THRESHOLD {
        v_add(bounced, floor_friction(sliding, g, dt, params))
    } else {
        bounced
    }
}

/// The particle `p` after a time `dt`: its velocity gains its acceleration,
/// its position its new velocity, the velocity is damped, and a particle
/// that sank into the floor is set on it and rebounds.
pub open spec fn advanced(
    p: ParticleModel,
    dt: int,
    params: SimulationParameters,
) -> ParticleModel {
    let velocity = v_add(p.velocity, v_scale(p.acceleration, dt));
    let position = v_add(p.position, v_scale(velocity, dt));
    let damped = v_scale(velocity, DAMPING as int);
    if position.y < p.radius {
        ParticleModel {
            position: V3 { x: position.x, y: p.radius, z: position.z },
            velocity: rebound(damped, params.gravity@, dt, params),
            ..p
        }
    } else {
        ParticleModel { position, velocity: damped, ..p }
    }
}

/// The particle `p` with its acceleration set to gravity.
pub open spec fn released(p: ParticleModel, params: SimulationParameters) -> ParticleModel {
    ParticleModel { acceleration: params.gravity@, ..p }
}

/// The particle `p` after one free step: released, then advanced by the
/// time step.
pub open spec fn updated(p: ParticleModel, params: SimulationParameters) -> ParticleModel {
    advanced(released(p, params), params.time_step@, params)
}

/// Advances one particle by `dt` under the acceleration it has gathered.
pub fn advance_particle(particle: &mut Particle, dt: Fixed, parameters: &SimulationParameters)
    ensures
        final(particle)@ == advanced(old(particle)@, dt@, *parameters),
        final(particle).position.y@ >= final(particle).radius@,
{
    let velocity = particle.velocity.add(particle.acceleration.scale(dt));
    let position = particle.position.add(velocity.scale(dt));
    let damped = velocity.scale(Fixed::from_raw(DAMPING));
    particle.position = position;
    particle.velocity = damped;
    if position.y.lt(particle.radius) {
        particle.position.y = particle.radius;
        particle.velocity.y = damped.y.mul(Fixed::from_raw(-HALF));
        let sliding = Vec3::new(damped.x, Fixed::zero(), damped.z);
        if sliding.length().gt(Fixed::from_raw(SLIP_THRESHOLD)) {
            let strength = parameters.friction_coefficient.mul(parameters.gravity.length()).mul(dt);
            particle.velocity = particle.velocity.add(sliding.normalize().neg().scale(strength));
        }
    }
}

/// The force along the line between two particles at the given distance.
pub fn normal_force_at(distance: Fixed, parameters: &SimulationParameters) -> (r: Fixed)
    ensures
        r@ == normal_force(distance@, *parameters),
{
    let touching = parameters.particle_radius.twice();
    let closest = parameters.min_radius.twice();
    let one = Fixed::one();
    if distance.lt(touching) {
        let band_top = closest.add(Fixed::from_raw(GUARD_BAND));
        if distance.lt(band_top) {
            Fixed::from_raw(GUARD_STIFFNESS).mul(band_top.sub(distance))
        } else {
            parameters.cohesion_coefficient.mul(
                one.div(distance.sub(closest)).sub(one.div(touching.sub(closest))),
            )
        }
    } else {
        let limit = parameters.particle_radius.mul(parameters.attraction_radius_factor).twice();
        parameters.cohesion_coefficient.mul(Fixed::from_raw(ATTRACTION_SHARE)).mul(
            one.div(distance.sub(closest)).sub(one.div(limit.sub(closest))),
        ).neg()
    }
}

/// The force that particle `a` puts on particle `b`, if they are within
/// reach of each other.
pub fn pair_interaction(
    a: &Particle,
    b: &Particle,
    parameters: &SimulationParameters,
) -> (r: Option<Vec3>)
    ensures
        r.is_some() == pair_force(a@, b@, *parameters).is_some(),
        r.is_some() ==> r.unwrap()@ == pair_force(a@, b@, *parameters).unwrap(),
{
    let displacement = b.position.sub(a.position);
    let distance = displacement.length();
    let limit = parameters.particle_radius.mul(parameters.attraction_radius_factor).twice();
    if distance.lt(limit) {
        let direction = displacement.normalize();
        let force = direction.scale(normal_force_at(distance, parameters));
        let relative = b.velocity.sub(a.velocity);
        let sliding = relative.sub(direction.scale(relative.dot(direction)));
        if sliding.length().gt(Fixed::from_raw(SLIP_THRESHOLD)) {
            let strength = parameters.friction_coefficient.mul(force.length()).mul(
                Fixed::from_raw(FRICTION_SHARE),
            );
            Some(force.add(sliding.normalize().neg().scale(strength)))
        } else {
            Some(force)
        }
    } else {
        None
    }
}

/// A force bound for one particle, in raw units.
pub struct Push {
    /// Index of the particle in the collection.
    pub target: int,
    /// The force, not yet divided by the particle's mass.
    pub force: V3,
}

/// A force bound for one particle.
#[derive(Clone, Copy, Debug, PartialEq, Eq, Structural)]
pub struct AppliedForce {
    /// Index of the particle in the collection.
    pub target: usize,
    /// The force, not yet divided by the particle's mass.
    pub force: Vec3,
}

impl View for AppliedForce {
    type V = Push;

    open spec fn view(&self) -> Push {
        Push { target: self.target as int, force: self.force@ }
    }
}

/// The mathematical content of a list of forces.
pub open spec fn pushes_of(forces: Seq<AppliedForce>) -> Seq<Push> {
    Seq::new(forces.len(), |k: int| forces[k]@)
}

/// The two forces that the interaction of particles `i` and `j` gives rise
/// to: first the one on `i`, then the opposite one on `j`. Empty if the
/// two are out of reach of each other.
pub open spec fn pair_entries(
    particles: Seq<ParticleModel>,
    params: SimulationParameters,
    i: int,
    j: int,
) -> Seq<Push> {
    match pair_force(particles[i], particles[j], params) {
        Some(f) => seq![Push { target: i, force: v_neg(f) }, Push { target: j, force: f }],
        None => Seq::empty(),
    }
}

/// The forces between particle `i` and the particles after it up to, but
/// not including, `j`, by rising index.
pub open spec fn row_forces(
    particles: Seq<ParticleModel>,
    params: SimulationParameters,
    i: int,
    j: int,
) -> Seq<Push>
    decreases j - i,
{
    if j <= i + 1 {
        Seq::empty()
    } else {
        row_forces(particles, params, i, j - 1) + pair_entries(particles, params, i, j - 1)
    }
}

/// The forces between each of the first `i` particles and all particles
/// after it.
pub open spec fn forces_before_row(
    particles: Seq<ParticleModel>,
    params: SimulationParameters,
    i: int,
) -> Seq<Push>
    decreases i,
{
    if i <= 0 {
        Seq::empty()
    } else {
        forces_before_row(particles, params, i - 1) + row_forces(
            particles,
            params,
            i - 1,
            particles.len() as int,
        )
    }
}

/// The forces between all unordered pairs of particles, every pair taken
/// once, all read off the same state.
pub open spec fn all_pair_forces(
    particles: Seq<ParticleModel>,
    params: SimulationParameters,
) -> Seq<Push> {
    forces_before_row(particles, params, particles.len() as int)
}

/// The particle `p` with the force `force` added to its acceleration,
/// divided by its mass.
pub open spec fn accelerated(p: ParticleModel, force: V3) -> ParticleModel {
    ParticleModel { acceleration: v_add(p.acceleration, v_unscale(force, p.mass)), ..p }
}

/// The particles after the first `n` of the forces have been applied in
/// order, each to its target. A force whose target does not exist is
/// passed over.
pub open spec fn applied(particles: Seq<ParticleModel>, forces: Seq<Push>, n: int) -> Seq<
    ParticleModel,
>
    decreases n,
{
    if n <= 0 {
        particles
    } else {
        let before = applied(particles, forces, n - 1);
        let push = forces[n - 1];
        if 0 <= push.target < before.len() {
            before.update(push.target, accelerated(before[push.target], push.force))
        } else {
            before
        }
    }
}

/// Applying forces neither adds nor removes particles.
pub proof fn lemma_applied_len(particles: Seq<ParticleModel>, forces: Seq<Push>, n: int)
    ensures
        applied(particles, forces, n).len() == particles.len(),
    decreases n,
{
    if n > 0 {
        lemma_applied_len(particles, forces, n - 1);
    }
}

/// Applying forces changes accelerations and nothing else.
pub proof fn lemma_applied_keeps_state(particles: Seq<ParticleModel>, forces: Seq<Push>, n: int)
    ensures
        applied(particles, forces, n).len() == particles.len(),
        forall|i: int|
            0 <= i < particles.len() ==> (#[trigger] applied(particles, forces, n)[i])
                == (ParticleModel {
                acceleration: applied(particles, forces, n)[i].acceleration,
                ..particles[i]
            }),
    decreases n,
{
    if n > 0 {
        lemma_applied_keeps_state(particles, forces, n - 1);
    }
}

/// Computes the forces between all pairs of particles within reach of each
/// other, without changing any particle.
pub fn compute_pair_forces(particles: &Vec<Particle>, parameters: &SimulationParameters) -> (forces:
    Vec<AppliedForce>)
    ensures
        pushes_of(forces@) == all_pair_forces(models(particles@), *parameters),
{
    let n = particles.len();
    let ghost ps = models(particles@);
    let mut forces: Vec<AppliedForce> = Vec::new();
    let mut i: usize = 0;
    assert(pushes_of(forces@) =~= Seq::<Push>::empty());
    while i < n
        invariant
            i <= n,
            n == particles.len(),
            ps == models(particles@),
            pushes_of(forces@) == forces_before_row(ps, *parameters, i as int),
        decreases n - i,
    {
        let ghost done = pushes_of(forces@);
        let mut j: usize = i + 1;
        assert(done + row_forces(ps, *parameters, i as int, j as int) =~= done);
        while j < n
            invariant
                i < j <= n,
                n == particles.len(),
                ps == models(particles@),
                pushes_of(forces@) == done + row_forces(ps, *parameters, i as int, j as int),
            decreases n - j,
        {
            let ghost so_far = pushes_of(forces@);
            let ghost row = row_forces(ps, *parameters, i as int, j as int);
            match pair_interaction(&particles[i], &particles[j], parameters) {
                Some(f) => {
                    let on_first = AppliedForce { target: i, force: f.neg() };
                    let on_second = AppliedForce { target: j, force: f };
                    forces.push(on_first);
                    forces.push(on_second);
                    assert(pushes_of(forces@) =~= so_far + seq![on_first@, on_second@]);
                    assert(so_far + seq![on_first@, on_second@] =~= done + (row
                        + seq![on_first@, on_second@]));
                },
                None => {
                    assert(done + (row + Seq::<Push>::empty()) =~= so_far);
                },
            }
            j += 1;
        }
        i += 1;
    }
    forces
}

/// Applies the forces in order, each to the acceleration of its target. A
/// force whose target does not exist is passed over.
pub fn apply_forces(particles: &mut Vec<Particle>, forces: &Vec<AppliedForce>)
    ensures
        final(particles).len() == old(particles).len(),
        models(final(particles)@) == applied(
            models(old(particles)@),
            pushes_of(forces@),
            forces.len() as int,
        ),
{
    let ghost before = models(particles@);
    let ghost pushes = pushes_of(forces@);
    let n = forces.len();
    let mut k: usize = 0;
    while k < n
        invariant
            k <= n,
            n == forces.len(),
            pushes == pushes_of(forces@),
            particles.len() == before.len(),
            models(particles@) == applied(before, pushes, k as int),
        decreases n - k,
    {
        let entry = forces[k];
        let ghost current = models(particles@);
        if entry.target < particles.len() {
            let mut p = particles[entry.target];
            p.acceleration = p.acceleration.add(entry.force.unscale(p.mass));
            particles.set(entry.target, p);
            assert(models(particles@) =~= current.update(
                entry.target as int,
                accelerated(current[entry.target as int], entry.force@),
            ));
        }
        k += 1;
    }
}

/// Adds to every particle the acceleration due to the particles around it.
/// All forces are computed from the state on entry before any is applied,
/// so the outcome does not depend on what an earlier pair did to a later
/// one.
pub fn handle_particle_interactions(
    particles: &mut Vec<Particle>,
    parameters: &SimulationParameters,
)
    ensures
        final(particles).len() == old(particles).len(),
        models(final(particles)@) == applied(
            models(old(particles)@),
            all_pair_forces(models(old(particles)@), *parameters),
            all_pair_forces(models(old(particles)@), *parameters).len() as int,
        ),
        forall|i: int|
            0 <= i < old(particles).len() ==> (#[trigger] final(particles)[i])@ == (ParticleModel {
                acceleration: final(particles)[i]@.acceleration,
                ..old(particles)[i]@
            }),
{
    let forces = compute_pair_forces(particles, parameters);
    apply_forces(particles, &forces);
    proof {
        let before = models(old(particles)@);
        lemma_applied_keeps_state(before, pushes_of(forces@), forces.len() as int);
        assert forall|i: int| 0 <= i < old(particles).len() implies (#[trigger] particles[i])@ == (
        ParticleModel { acceleration: particles[i]@.acceleration, ..old(particles)[i]@ }) by {
            assert(models(particles@)[i] == particles[i]@);
            assert(before[i] == old(particles)[i]@);
        }
    }
}

/// Sets the acceleration of every particle to gravity, dropping whatever
/// the previous step had gathered.
pub fn release_particles(particles: &mut Vec<Particle>, parameters: &SimulationParameters)
    ensures
        final(particles).len() == old(particles).len(),
        forall|i: int|
            0 <= i < old(particles).len() ==> (#[trigger] final(particles)[i])@ == released(
                old(particles)[i]@,
                *parameters,
            ),
{
    let ghost before = particles@;
    let n = particles.len();
    let mut i: usize = 0;
    while i < n
        invariant
            i <= n,
            n == before.len(),
            particles.len() == n,
            forall|k: int|
                0 <= k < i ==> (#[trigger] particles[k])@ == released(before[k]@, *parameters),
            forall|k: int| i <= k < n ==> particles[k] == before[k],
        decreases n - i,
    {
        let mut p = particles[i];
        p.acceleration = parameters.gravity;
        particles.set(i, p);
        i += 1;
    }
}

/// Advances every particle by `dt` under the acceleration it has gathered.
/// Afterwards no particle reaches below the floor.
pub fn advance_particles(
    particles: &mut Vec<Particle>,
    dt: Fixed,
    parameters: &SimulationParameters,
)
    ensures
        final(particles).len() == old(particles).len(),
        forall|i: int|
            0 <= i < old(particles).len() ==> (#[trigger] final(particles)[i])@ == advanced(
                old(particles)[i]@,
                dt@,
                *parameters,
            ),
        forall|i: int|
            0 <= i < old(particles).len() ==> (#[trigger] final(particles)[i]).position.y@
                >= final(particles)[i].radius@,
{
    let ghost before = particles@;
    let n = particles.len();
    let mut i: usize = 0;
    while i < n
        invariant
            i <= n,
            n == before.len(),
            particles.len() == n,
            forall|k: int|
                0 <= k < i ==> (#[trigger] particles[k])@ == advanced(before[k]@, dt@, *parameters),
            forall|k: int|
                0 <= k < i ==> (#[trigger] particles[k]).position.y@ >= particles[k].radius@,
            forall|k: int| i <= k < n ==> particles[k] == before[k],
        decreases n - i,
    {
        let mut p = particles[i];
        advance_particle(&mut p, dt, parameters);
        particles.set(i, p);
        i += 1;
    }
}

/// One free step of every particle: its acceleration is set to gravity,
/// then it is advanced by the time step. Afterwards no particle reaches
/// below the floor, however fast it fell.
pub fn update_particles(particles: &mut Vec<Particle>, parameters: &SimulationParameters)
    ensures
        final(particles).len() == old(particles).len(),
        forall|i: int|
            0 <= i < old(particles).len() ==> (#[trigger] final(particles)[i])@ == updated(
                old(particles)[i]@,
                *parameters,
            ),
        forall|i: int|
            0 <= i < old(particles).len() ==> (#[trigger] final(particles)[i]).position.y@
                >= final(particles)[i].radius@,
{
    release_particles(particles, parameters);
    advance_particles(particles, parameters.time_step, parameters);
}

/// The bounce is inelastic and reverses: whatever the friction, the
/// vertical velocity after the floor is minus half of what it was on
/// impact, rounded toward zero. A particle that came down does not leave
/// downward, and one that came down by two raw units or more leaves upward.
pub proof fn lemma_rebound_reverses(v: V3, g: V3, dt: int, params: SimulationParameters)
    ensures
        rebound(v, g, dt, params).y == sat_mul(v.y, -HALF),
        v.y <= 0 ==> rebound(v, g, dt, params).y >= 0,
        v.y <= -2 ==> rebound(v, g, dt, params).y > 0,
        v.y >= 0 ==> rebound(v, g, dt, params).y <= 0,
{
    let strength = sat_mul(sat_mul(params.friction_coefficient@, v_length(g)), dt);
    lemma_sat_mul_zero(strength);
    let half = -HALF as int;
    assert(v.y * half == -(v.y * HALF)) by (nonlinear_arith)
        requires
            half == -HALF,
    ;
    if v.y <= -2 {
        assert(v.y * half >= SCALE) by (nonlinear_arith)
            requires
                v.y <= -2,
                half == -500_000_000,
                SCALE == 1_000_000_000,
        ;
        vstd::arithmetic::div_mod::lemma_div_is_ordered(SCALE as int, v.y * half, SCALE as int);
    }
    if v.y <= 0 {
        assert(v.y * half >= 0) by (nonlinear_arith)
            requires
                v.y <= 0,
                half == -500_000_000,
        ;
        vstd::arithmetic::div_mod::lemma_div_is_ordered(0, v.y * half, SCALE as int);
    }
    if v.y >= 0 {
        assert(v.y * half <= 0) by (nonlinear_arith)
            requires
                v.y >= 0,
                half == -500_000_000,
        ;
        vstd::arithmetic::div_mod::lemma_div_is_ordered(0, -(v.y * half), SCALE as int);
    }
}

/// No solver of this module touches what makes a particle valid: its mass
/// and its two radii stay as they are.
pub proof fn lemma_motion_keeps_particles_valid(
    p: ParticleModel,
    force: V3,
    dt: int,
    params: SimulationParameters,
)
    ensures
        released(p, params).wf() == p.wf(),
        accelerated(p, force).wf() == p.wf(),
        advanced(p, dt, params).wf() == p.wf(),
        updated(p, params).wf() == p.wf(),
{
}

/// Newton's third law. Whenever two particles interact, the forces on the
/// two, before either is divided by a mass, add up to exactly zero.
pub proof fn lemma_pair_forces_cancel(
    particles: Seq<ParticleModel>,
    params: SimulationParameters,
    i: int,
    j: int,
)
    ensures
        pair_entries(particles, params, i, j).len() == 0 || pair_entries(
            particles,
            params,
            i,
            j,
        ).len() == 2,
        pair_entries(particles, params, i, j).len() == 2 ==> {
            let on_first = pair_entries(particles, params, i, j)[0];
            let on_second = pair_entries(particles, params, i, j)[1];
            &&& on_first.target == i
            &&& on_second.target == j
            &&& on_first.force.x + on_second.force.x == 0
            &&& on_first.force.y + on_second.force.y == 0
            &&& on_first.force.z + on_second.force.z == 0
        },
{
}

/// The exact sum of a list of forces, without saturation.
pub open spec fn total_force(forces: Seq<Push>) -> V3
    decreases forces.len(),
{
    if forces.len() == 0 {
        V3 { x: 0, y: 0, z: 0 }
    } else {
        let rest = total_force(forces.drop_last());
        let last = forces.last().force;
        V3 { x: rest.x + last.x, y: rest.y + last.y, z: rest.z + last.z }
    }
}

/// The total of two lists of forces joined is the sum of their totals.
pub proof fn lemma_total_force_joined(a: Seq<Push>, b: Seq<Push>)
    ensures
        total_force(a + b).x == total_force(a).x + total_force(b).x,
        total_force(a + b).y == total_force(a).y + total_force(b).y,
        total_force(a + b).z == total_force(a).z + total_force(b).z,
    decreases b.len(),
{
    if b.len() == 0 {
        assert(a + b =~= a);
    } else {
        assert((a + b).drop_last() =~= a + b.drop_last());
        assert((a + b).last() == b.last());
        lemma_total_force_joined(a, b.drop_last());
    }
}

/// The forces of one interaction add up to zero.
pub proof fn lemma_pair_entries_total(
    particles: Seq<ParticleModel>,
    params: SimulationParameters,
    i: int,
    j: int,
)
    ensures
        total_force(pair_entries(particles, params, i, j)) == (V3 { x: 0, y: 0, z: 0 }),
{
    let e = pair_entries(particles, params, i, j);
    if e.len() == 2 {
        assert(e.drop_last().len() == 1);
        assert(e.drop_last().drop_last().len() == 0);
        assert(e.drop_last().last() == e[0]);
        assert(total_force(e.drop_last().drop_last()) == (V3 { x: 0, y: 0, z: 0 }));
        assert(total_force(e.drop_last()).x == e[0].force.x);
    }
}

/// The forces between one particle and those after it add up to zero.
pub proof fn lemma_row_forces_total(
    particles: Seq<ParticleModel>,
    params: SimulationParameters,
    i: int,
    j: int,
)
    ensures
        total_force(row_forces(particles, params, i, j)) == (V3 { x: 0, y: 0, z: 0 }),
    decreases j - i,
{
    if j > i + 1 {
        lemma_row_forces_total(particles, params, i, j - 1);
        lemma_pair_entries_total(particles, params, i, j - 1);
        lemma_total_force_joined(
            row_forces(particles, params, i, j - 1),
            pair_entries(particles, params, i, j - 1),
        );
    }
}

/// Momentum is exchanged, never created: over any collection of
/// particles, all the forces that the particles put on each other in one
/// step add up to exactly zero.
pub proof fn lemma_pair_forces_total(particles: Seq<ParticleModel>, params: SimulationParameters)
    ensures
        total_force(all_pair_forces(particles, params)) == (V3 { x: 0, y: 0, z: 0 }),
{
    lemma_rows_total(particles, params, particles.len() as int);
}

proof fn lemma_rows_total(particles: Seq<ParticleModel>, params: SimulationParameters, i: int)
    ensures
        total_force(forces_before_row(particles, params, i)) == (V3 { x: 0, y: 0, z: 0 }),
    decreases i,
{
    if i > 0 {
        lemma_rows_total(particles, params, i - 1);
        lemma_row_forces_total(particles, params, i - 1, particles.len() as int);
        lemma_total_force_joined(
            forces_before_row(particles, params, i - 1),
            row_forces(particles, params, i - 1, particles.len() as int),
        );
    }
}

/// Repulsion never grows with distance: of two distances beyond the
/// closest approach, the nearer one is repelled at least as strongly. So
/// repulsion is largest at the bottom of the overlap, just above the guard
/// band.
pub proof fn lemma_repulsion_decreases(near: int, far: int, params: SimulationParameters)
    requires
        params.cohesion_coefficient@ >= 0,
        closest_distance(params) < near <= far,
    ensures
        repulsion(near, params) >= repulsion(far, params),
{
    let closest = closest_distance(params);
    let floor = sat_div(SCALE as int, sat_sub(touching_distance(params), closest));
    lemma_reciprocal_antitone(sat_sub(near, closest), sat_sub(far, closest));
    lemma_sat_mul_monotone(
        params.cohesion_coefficient@,
        sat_sub(sat_div(SCALE as int, sat_sub(far, closest)), floor),
        sat_sub(sat_div(SCALE as int, sat_sub(near, closest)), floor),
    );
}

/// Repulsion falls strictly with distance wherever the arithmetic can
/// tell the two forces apart: the cohesion coefficient times the
/// difference of the reciprocals at the two distances amounts to at least
/// one whole, and the weaker force is not saturated.
pub proof fn lemma_repulsion_strictly_decreases(near: int, far: int, params: SimulationParameters)
    requires
        closest_distance(params) < near < far <= touching_distance(params),
        params.cohesion_coefficient@ * (sat_div(
            SCALE as int,
            sat_sub(near, closest_distance(params)),
        ) - sat_div(SCALE as int, sat_sub(far, closest_distance(params)))) >= SCALE,
        repulsion(far, params) < LIMIT,
    ensures
        repulsion(near, params) > repulsion(far, params),
{
    let closest = closest_distance(params);
    let gamma = params.cohesion_coefficient@;
    let at_near = sat_div(SCALE as int, sat_sub(near, closest));
    let at_far = sat_div(SCALE as int, sat_sub(far, closest));
    let at_touch = sat_div(SCALE as int, sat_sub(touching_distance(params), closest));
    lemma_reciprocal_antitone(sat_sub(near, closest), sat_sub(far, closest));
    lemma_reciprocal_antitone(sat_sub(far, closest), sat_sub(touching_distance(params), closest));
    let t_near = at_near - at_touch;
    let t_far = at_far - at_touch;
    assert(sat_sub(at_near, at_touch) == t_near);
    assert(sat_sub(at_far, at_touch) == t_far);
    assert(gamma > 0) by (nonlinear_arith)
        requires
            gamma * (at_near - at_far) >= SCALE,
            at_near - at_far >= 0,
            SCALE > 0,
    ;
    assert(gamma * t_near >= gamma * t_far + SCALE && gamma * t_far >= 0) by (nonlinear_arith)
        requires
            gamma * (at_near - at_far) >= SCALE,
            t_near == at_near - at_touch,
            t_far == at_far - at_touch,
            t_far >= 0,
            gamma > 0,
    ;
    vstd::arithmetic::div_mod::lemma_div_plus_one(gamma * t_far, SCALE as int);
    vstd::arithmetic::div_mod::lemma_div_is_ordered(
        gamma * t_far + SCALE,
        gamma * t_near,
        SCALE as int,
    );
    vstd::arithmetic::div_mod::lemma_div_is_ordered(0, gamma * t_far, SCALE as int);
}

/// Repulsion vanishes where two particles just touch, and pushes apart
/// wherever they are closer than that and beyond their closest approach.
pub proof fn lemma_repulsion_pushes(distance: int, params: SimulationParameters)
    requires
        params.cohesion_coefficient@ >= 0,
        closest_distance(params) < distance <= touching_distance(params),
    ensures
        repulsion(touching_distance(params), params) == 0,
        repulsion(distance, params) >= 0,
{
    lemma_sat_mul_zero(params.cohesion_coefficient@);
    lemma_repulsion_decreases(distance, touching_distance(params), params);
}

/// Attraction vanishes at the edge of the reach.
pub proof fn lemma_attraction_vanishes_at_reach(params: SimulationParameters)
    ensures
        attraction(reach(params), params) == 0,
{
    lemma_sat_mul_zero(sat_mul(params.cohesion_coefficient@, ATTRACTION_SHARE as int));
}

/// Within reach, two particles that do not overlap are drawn together: the
/// force along the line between them is attraction, turned against the
/// direction from one to the other.
pub proof fn lemma_attraction_pulls(distance: int, params: SimulationParameters)
    requires
        params.cohesion_coefficient@ >= 0,
        closest_distance(params) < distance <= reach(params),
        touching_distance(params) <= distance,
    ensures
        attraction(distance, params) >= 0,
        normal_force(distance, params) == -attraction(distance, params),
        normal_force(distance, params) <= 0,
{
    let closest = closest_distance(params);
    let share = sat_mul(params.cohesion_coefficient@, ATTRACTION_SHARE as int);
    lemma_sat_mul_zero(params.cohesion_coefficient@);
    lemma_sat_mul_monotone(params.cohesion_coefficient@, 0, ATTRACTION_SHARE as int);
    lemma_reciprocal_antitone(sat_sub(distance, closest), sat_sub(reach(params), closest));
    lemma_sat_mul_zero(share);
    lemma_sat_mul_monotone(
        share,
        0,
        sat_sub(
            sat_div(SCALE as int, sat_sub(distance, closest)),
            sat_div(SCALE as int, sat_sub(reach(params), closest)),
        ),
    );
}

/// Whether a coefficient `g` tells apart the reciprocals of any two
/// distinct gaps up to `widest`: scaled by `g`, they differ by more than
/// one whole, so that the difference survives rounding.
pub open spec fn resolves(g: int, widest: int) -> bool {
    g > 0 && widest > 0 && g * (SCALE * SCALE) >= (SCALE + g) * (widest * widest)
}

/// A coefficient that resolves the gaps up to `widest` scales the
/// reciprocals of two distinct gaps to values more than one whole apart.
pub proof fn lemma_reciprocal_gap(g: int, narrow: int, wide: int, widest: int)
    requires
        0 < narrow < wide <= widest,
        resolves(g, widest),
    ensures
        g * (sat_div(SCALE as int, narrow) - sat_div(SCALE as int, wide)) >= SCALE,
        widest < LIMIT,
{
    let n = SCALE * SCALE;
    assert(n == 1_000_000_000_000_000_000) by (nonlinear_arith)
        requires
            n == SCALE * SCALE,
            SCALE == 1_000_000_000,
    ;
    let r1 = n / narrow;
    let r2 = n / wide;
    vstd::arithmetic::div_mod::lemma_fundamental_div_mod(n, narrow);
    vstd::arithmetic::div_mod::lemma_fundamental_div_mod(n, wide);
    vstd::arithmetic::div_mod::lemma_div_is_ordered_by_denominator(n, 1, narrow);
    vstd::arithmetic::div_mod::lemma_div_is_ordered_by_denominator(n, 1, wide);
    vstd::arithmetic::div_mod::lemma_div_is_ordered(0, n, narrow);
    vstd::arithmetic::div_mod::lemma_div_is_ordered(0, n, wide);
    assert(0int / narrow == 0 && 0int / wide == 0) by (nonlinear_arith)
        requires
            narrow > 0,
            wide > 0,
    ;
    assert(sat_div(SCALE as int, narrow) == r1);
    assert(sat_div(SCALE as int, wide) == r2);
    let e1 = n % narrow;
    let e2 = n % wide;
    let d = r1 - r2;
    let p = narrow * wide;
    let w2 = widest * widest;
    assert(0 < p <= w2) by (nonlinear_arith)
        requires
            p == narrow * wide,
            w2 == widest * widest,
            0 < narrow < wide <= widest,
    ;
    assert((d + 1) * p > n) by (nonlinear_arith)
        requires
            n == narrow * r1 + e1,
            n == wide * r2 + e2,
            0 <= e1 < narrow,
            0 <= e2,
            narrow + 1 <= wide,
            n > 0,
            d == r1 - r2,
            p == narrow * wide,
    ;
    assert(g * d > SCALE) by (nonlinear_arith)
        requires
            (d + 1) * p > n,
            0 < p <= w2,
            g > 0,
            g * n >= (SCALE + g) * w2,
            SCALE > 0,
    ;
    assert(widest < LIMIT) by (nonlinear_arith)
        requires
            g > 0,
            g * n >= (SCALE + g) * w2,
            w2 == widest * widest,
            widest > 0,
            n == 1_000_000_000_000_000_000,
            SCALE == 1_000_000_000,
            LIMIT == 1_000_000_000_000_000_000,
    ;
}

/// Where the cohesion coefficient resolves the overlap, repulsion falls
/// strictly from the closest approach to where two particles just touch,
/// and pushes apart everywhere before that, as long as the weaker force
/// is not saturated.
pub proof fn lemma_repulsion_strict_where_resolved(
    near: int,
    far: int,
    params: SimulationParameters,
)
    requires
        resolves(
            params.cohesion_coefficient@,
            touching_distance(params) - closest_distance(params),
        ),
        closest_distance(params) < near < far <= touching_distance(params),
        repulsion(far, params) < LIMIT,
    ensures
        repulsion(near, params) > repulsion(far, params) >= 0,
{
    let closest = closest_distance(params);
    let widest = touching_distance(params) - closest;
    lemma_reciprocal_gap(params.cohesion_coefficient@, near - closest, far - closest, widest);
    lemma_repulsion_strictly_decreases(near, far, params);
    lemma_repulsion_pushes(far, params);
}

/// Attraction falls strictly with distance wherever the arithmetic can
/// tell the two forces apart: a tenth of the cohesion coefficient times
/// the difference of the reciprocals at the two distances amounts to at
/// least one whole, and the weaker force is not saturated.
pub proof fn lemma_attraction_strictly_decreases(near: int, far: int, params: SimulationParameters)
    requires
        closest_distance(params) < near < far <= reach(params),
        sat_mul(params.cohesion_coefficient@, ATTRACTION_SHARE as int) * (sat_div(
            SCALE as int,
            sat_sub(near, closest_distance(params)),
        ) - sat_div(SCALE as int, sat_sub(far, closest_distance(params)))) >= SCALE,
        attraction(far, params) < LIMIT,
    ensures
        attraction(near, params) > attraction(far, params),
{
    let closest = closest_distance(params);
    let share = sat_mul(params.cohesion_coefficient@, ATTRACTION_SHARE as int);
    let at_near = sat_div(SCALE as int, sat_sub(near, closest));
    let at_far = sat_div(SCALE as int, sat_sub(far, closest));
    let at_edge = sat_div(SCALE as int, sat_sub(reach(params), closest));
    lemma_reciprocal_antitone(sat_sub(near, closest), sat_sub(far, closest));
    lemma_reciprocal_antitone(sat_sub(far, closest), sat_sub(reach(params), closest));
    let t_near = at_near - at_edge;
    let t_far = at_far - at_edge;
    assert(sat_sub(at_near, at_edge) == t_near);
    assert(sat_sub(at_far, at_edge) == t_far);
    assert(share > 0) by (nonlinear_arith)
        requires
            share * (at_near - at_far) >= SCALE,
            at_near - at_far >= 0,
            SCALE > 0,
    ;
    assert(share * t_near >= share * t_far + SCALE && share * t_far >= 0) by (nonlinear_arith)
        requires
            share * (at_near - at_far) >= SCALE,
            t_near == at_near - at_edge,
            t_far == at_far - at_edge,
            t_far >= 0,
            share > 0,
    ;
    vstd::arithmetic::div_mod::lemma_div_plus_one(share * t_far, SCALE as int);
    vstd::arithmetic::div_mod::lemma_div_is_ordered(
        share * t_far + SCALE,
        share * t_near,
        SCALE as int,
    );
    vstd::arithmetic::div_mod::lemma_div_is_ordered(0, share * t_far, SCALE as int);
}

/// Where a tenth of the cohesion coefficient resolves the reach,
/// attraction is strictly positive everywhere short of the edge of the
/// reach and falls strictly toward it, as long as the weaker force is not
/// saturated; and between touching and the reach the force along the line
/// between two particles draws them together.
pub proof fn lemma_attraction_strict_where_resolved(
    near: int,
    far: int,
    params: SimulationParameters,
)
    requires
        resolves(
            sat_mul(params.cohesion_coefficient@, ATTRACTION_SHARE as int),
            reach(params) - closest_distance(params),
        ),
        closest_distance(params) < near < far <= reach(params),
        attraction(far, params) < LIMIT,
    ensures
        attraction(near, params) > attraction(far, params) >= 0,
        touching_distance(params) <= near ==> normal_force(near, params) < 0,
{
    let closest = closest_distance(params);
    let widest = reach(params) - closest;
    let share = sat_mul(params.cohesion_coefficient@, ATTRACTION_SHARE as int);
    lemma_reciprocal_gap(share, near - closest, far - closest, widest);
    lemma_attraction_strictly_decreases(near, far, params);
    lemma_reciprocal_antitone(sat_sub(far, closest), sat_sub(reach(params), closest));
    lemma_sat_mul_zero(share);
    lemma_sat_mul_monotone(
        share,
        0,
        sat_sub(
            sat_div(SCALE as int, sat_sub(far, closest)),
            sat_div(SCALE as int, sat_sub(reach(params), closest)),
        ),
    );
}

/// For the default material, repulsion falls strictly with every raw
/// unit of distance between the closest approach and touching, and pushes
/// apart everywhere before touching.
pub proof fn lemma_default_repulsion_is_strict(near: int, far: int, params: SimulationParameters)
    requires
        params.cohesion_coefficient@ == 40_000,
        params.particle_radius@ == 7_000_000,
        params.min_radius@ == 5_000_000,
        closest_distance(params) < near < far <= touching_distance(params),
    ensures
        repulsion(near, params) > repulsion(far, params) >= 0,
{
    let closest = closest_distance(params);
    assert(closest == 10_000_000 && touching_distance(params) == 14_000_000);
    assert(resolves(40_000, 4_000_000)) by (nonlinear_arith)
        requires
            SCALE == 1_000_000_000,
    ;
    lemma_reciprocal_antitone(far - closest, 4_000_000);
    let t = sat_sub(
        sat_div(SCALE as int, sat_sub(far, closest)),
        sat_div(SCALE as int, sat_sub(touching_distance(params), closest)),
    );
    assert(0 <= t <= LIMIT);
    assert(0 <= 40_000 * t <= 40_000 * LIMIT);
    vstd::arithmetic::div_mod::lemma_div_is_ordered(40_000 * t, 40_000 * LIMIT, SCALE as int);
    assert(repulsion(far, params) <= 40_000_000_000_000);
    lemma_repulsion_strict_where_resolved(near, far, params);
}

} // verus!
