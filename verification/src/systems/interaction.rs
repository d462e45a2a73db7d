//! Steering the tool and resolving its contact with the particles.

use vstd::prelude::*;
use crate::components::particle::{models, Particle, ParticleModel};
use crate::components::tool::{Tool, ToolModel};
use crate::resources::parameters::SimulationParameters;
use crate::utils::fixed::{magnitude, sat_add, sat_mul, sat_sub, Fixed, LIMIT, SCALE};
use crate::utils::quaternion::{
    lemma_axis_rotation_is_unit, lemma_normalized_quaternion_is_unit, lemma_product_length,
    near_unit, q_inverse, q_mul, q_norm, q_normalized, q_rotate, q_rotation_x, q_rotation_y,
    q_squares, Quat, HALF, Q4,
};
use crate::utils::vector::{
    lemma_floor_sqrt, v_add, v_cross, v_dot, v_neg, v_normalized, v_scale, v_sub, v_unscale,
    v_zero, Vec3, V3,
};

verus! {

/// Half the width of the tool along its first local axis.
pub const TOOL_HALF_X: i64 = 25_000_000;

/// Half the height of the tool along its second local axis.
pub const TOOL_HALF_Y: i64 = 5_000_000;

/// Half the depth of the tool along its third local axis.
pub const TOOL_HALF_Z: i64 = 20_000_000;

/// Distance the tool travels in one step while a direction is held.
pub const MOVE_SPEED: i64 = 30_000_000;

/// Radians turned per unit of pointer travel.
pub const ROTATION_SPEED: i64 = 10_000_000;

/// Penetration below which a touching particle sticks to the tool.
pub const COHESION_DEPTH: i64 = 1_000_000;

/// Fraction of its radius by which a particle may stand off the tool and
/// still stick to it.
pub const COHESION_STANDOFF: i64 = 2_000_000;

/// What the operator asks of the tool during one step.
#[derive(Clone, Copy, Debug, PartialEq, Eq, Structural)]
pub struct ToolInputIntent {
    /// Move toward negative z.
    pub forward: bool,
    /// Move toward positive z.
    pub backward: bool,
    /// Move toward negative x.
    pub left: bool,
    /// Move toward positive x.
    pub right: bool,
    /// Move toward negative y.
    pub down: bool,
    /// Move toward positive y.
    pub up: bool,
    /// Whether pointer travel turns the tool.
    pub rotate: bool,
    /// Horizontal pointer travel since the last step.
    pub pointer_dx: Fixed,
    /// Vertical pointer travel since the last step.
    pub pointer_dy: Fixed,
}

impl ToolInputIntent {
    /// No direction held, no turning.
    pub fn idle() -> (r: ToolInputIntent)
        ensures
            !r.forward && !r.backward && !r.left && !r.right && !r.down && !r.up && !r.rotate,
            r.pointer_dx@ == 0,
            r.pointer_dy@ == 0,
    {
        ToolInputIntent {
            forward: false,
            backward: false,
            left: false,
            right: false,
            down: false,
            up: false,
            rotate: false,
            pointer_dx: Fixed::zero(),
            pointer_dy: Fixed::zero(),
        }
    }
}

/// One component of the requested movement: one whole step toward the
/// positive side, the negative side, or neither.
pub open spec fn axis_intent(negative: bool, positive: bool) -> int {
    (if positive { SCALE as int } else { 0 }) - (if negative { SCALE as int } else { 0 })
}

/// The requested movement before it is brought to unit length.
pub open spec fn movement(input: ToolInputIntent) -> V3 {
    V3 {
        x: axis_intent(input.left, input.right),
        y: axis_intent(input.down, input.up),
        z: axis_intent(input.forward, input.backward),
    }
}

/// Where the tool stands after one step of the requested movement: moved by
/// `MOVE_SPEED` along the requested direction, or where it was if the
/// requests cancel.
pub open spec fn steered_position(position: V3, input: ToolInputIntent) -> V3 {
    let m = movement(input);
    if m == v_zero() {
        position
    } else {
        v_add(position, v_scale(v_normalized(m), MOVE_SPEED as int))
    }
}

/// Whether the pointer turns the tool in this step.
pub open spec fn turning(input: ToolInputIntent) -> bool {
    input.rotate && (input.pointer_dx@ != 0 || input.pointer_dy@ != 0)
}

/// The rotation asked for by the pointer, applied to `rotation`: a pitch
/// about the world's first axis against the vertical pointer travel, then
/// a yaw about the second axis against the horizontal travel.
pub open spec fn turned(rotation: Q4, input: ToolInputIntent) -> Q4 {
    let pitch = q_rotation_x(sat_mul(-input.pointer_dy@, ROTATION_SPEED as int));
    let yaw = q_rotation_y(sat_mul(-input.pointer_dx@, ROTATION_SPEED as int));
    q_mul(q_mul(yaw, pitch), rotation)
}

/// How the tool is turned after one step: turned as the pointer asks and
/// brought back to unit length. A turn that would leave the rotation
/// shorter than half a whole is not taken, so that a rotation of unit
/// length stays one.
pub open spec fn steered_rotation(rotation: Q4, input: ToolInputIntent) -> Q4 {
    if turning(input) && 2 * q_norm(turned(rotation, input)) >= SCALE {
        q_normalized(turned(rotation, input))
    } else {
        rotation
    }
}

/// A rotation of unit length can always be turned: however the pointer
/// moved, the turned rotation is long enough to be brought back to unit
/// length, so the turn is taken.
pub proof fn lemma_turn_is_taken(rotation: Q4, input: ToolInputIntent)
    requires
        near_unit(rotation),
    ensures
        2 * q_norm(turned(rotation, input)) >= SCALE,
        turning(input) ==> steered_rotation(rotation, input) == q_normalized(
            turned(rotation, input),
        ),
{
    let pitch = q_rotation_x(sat_mul(-input.pointer_dy@, ROTATION_SPEED as int));
    let yaw = q_rotation_y(sat_mul(-input.pointer_dx@, ROTATION_SPEED as int));
    lemma_axis_rotation_is_unit(sat_mul(-input.pointer_dy@, ROTATION_SPEED as int));
    lemma_axis_rotation_is_unit(sat_mul(-input.pointer_dx@, ROTATION_SPEED as int));
    let s2 = SCALE * SCALE;
    assert(s2 == 1_000_000_000_000_000_000 && (SCALE + 2) * (SCALE + 2)
        == 1_000_000_004_000_000_004) by (nonlinear_arith)
        requires
            s2 == SCALE * SCALE,
            SCALE == 1_000_000_000,
    ;
    let low = 990_000_000_000_000_000int;
    let high = 1_010_000_000_000_000_000int;
    let first = q_mul(yaw, pitch);
    let qy = q_squares(yaw);
    let qp = q_squares(pitch);
    let qr = q_squares(rotation);
    assert(low <= qy <= high && low <= qp <= high && low <= qr <= high);
    assert(low * low <= qy * qp <= high * high) by (nonlinear_arith)
        requires
            0 < low <= qy <= high,
            low <= qp <= high,
    ;
    assert(s2 * s2 == 1_000_000_000_000_000_000_000_000_000_000_000_000) by (nonlinear_arith)
        requires
            s2 == 1_000_000_000_000_000_000,
    ;
    lemma_product_length(yaw, pitch);
    let q1 = q_squares(first);
    assert(980_000_000_000_000_000 <= q1 <= 1_030_000_000_000_000_000);
    assert(low * 980_000_000_000_000_000 <= q1 * qr <= high * 1_030_000_000_000_000_000)
        by (nonlinear_arith)
        requires
            980_000_000_000_000_000 <= q1 <= 1_030_000_000_000_000_000,
            0 < low <= qr <= high,
    ;
    lemma_product_length(first, rotation);
    let q2 = q_squares(turned(rotation, input));
    assert(q2 >= 250_000_000_000_000_000);
    lemma_floor_sqrt(q2);
    let n = q_norm(turned(rotation, input));
    assert(2 * n >= SCALE) by (nonlinear_arith)
        requires
            q2 < (n + 1) * (n + 1),
            q2 >= 250_000_000_000_000_000,
            n >= 0,
            SCALE == 1_000_000_000,
    ;
}

/// Steering keeps a rotation at unit length, whatever the operator asks.
pub proof fn lemma_steering_keeps_unit_length(rotation: Q4, input: ToolInputIntent)
    requires
        near_unit(rotation),
    ensures
        near_unit(steered_rotation(rotation, input)),
{
    if turning(input) && 2 * q_norm(turned(rotation, input)) >= SCALE {
        lemma_normalized_quaternion_is_unit(turned(rotation, input));
    }
}

/// The tool after one step of steering. Only its pose changes.
pub open spec fn steered(tool: ToolModel, input: ToolInputIntent) -> ToolModel {
    ToolModel {
        position: steered_position(tool.position, input),
        rotation: steered_rotation(tool.rotation, input),
        ..tool
    }
}

/// A particle touching the tool.
pub struct Contact {
    /// Unit normal of the touched face, in world space, pointing away from
    /// the tool.
    pub normal: V3,
    /// How deep the particle reaches into the tool along that normal.
    pub penetration: int,
    /// From the centre of the tool to the centre of the particle.
    pub arm: V3,
}

/// `SCALE` with the sign of `c`, taking zero as negative.
pub open spec fn outward(c: int) -> int {
    if c > 0 {
        SCALE as int
    } else {
        -SCALE
    }
}

/// The contact between the tool and the particle `p`, if they touch. In the
/// tool's own frame the particle must be within its radius of the box on all
/// three axes; the axis of least penetration gives the normal, the first,
/// second, third axis being preferred in that order only when strictly
/// shallower than those after it.
#[verifier::opaque]
pub open spec fn tool_contact(tool: ToolModel, p: ParticleModel) -> Option<Contact> {
    let arm = v_sub(p.position, tool.position);
    let local = q_rotate(q_inverse(tool.rotation), arm);
    let reach_x = sat_add(TOOL_HALF_X as int, p.radius);
    let reach_y = sat_add(TOOL_HALF_Y as int, p.radius);
    let reach_z = sat_add(TOOL_HALF_Z as int, p.radius);
    if magnitude(local.x) < reach_x && magnitude(local.y) < reach_y && magnitude(local.z)
        < reach_z {
        let depth_x = sat_sub(reach_x, magnitude(local.x));
        let depth_y = sat_sub(reach_y, magnitude(local.y));
        let depth_z = sat_sub(reach_z, magnitude(local.z));
        if depth_x < depth_y && depth_x < depth_z {
            Some(
                Contact {
                    normal: q_rotate(tool.rotation, V3 { x: outward(local.x), y: 0, z: 0 }),
                    penetration: depth_x,
                    arm,
                },
            )
        } else if depth_y < depth_z {
            Some(
                Contact {
                    normal: q_rotate(tool.rotation, V3 { x: 0, y: outward(local.y), z: 0 }),
                    penetration: depth_y,
                    arm,
                },
            )
        } else {
            Some(
                Contact {
                    normal: q_rotate(tool.rotation, V3 { x: 0, y: 0, z: outward(local.z) }),
                    penetration: depth_z,
                    arm,
                },
            )
        }
    } else {
        None
    }
}

/// Strength of the viscoelastic push at a contact: a spring on the
/// penetration plus a damper on the speed at which the particle moves along
/// the normal relative to the tool.
pub open spec fn contact_push(
    tool: ToolModel,
    p: ParticleModel,
    params: SimulationParameters,
    c: Contact,
) -> int {
    sat_add(
        sat_mul(params.tool_stiffness@, c.penetration),
        sat_mul(params.tool_damping@, v_dot(v_sub(p.velocity, tool.velocity), c.normal)),
    )
}

/// The contact force the particle `p` puts on the tool: the push along the
/// normal where the push is positive, nothing otherwise. Contact never
/// pulls.
pub open spec fn contact_force(
    tool: ToolModel,
    p: ParticleModel,
    params: SimulationParameters,
) -> V3 {
    match tool_contact(tool, p) {
        Some(c) => if contact_push(tool, p, params, c) > 0 {
            v_scale(c.normal, contact_push(tool, p, params, c))
        } else {
            v_zero()
        },
        None => v_zero(),
    }
}

/// Whether a contact lies in the thin band at the surface of the tool in
/// which the particle sticks to it.
pub open spec fn in_cohesion_band(p: ParticleModel, c: Contact) -> bool {
    c.penetration < COHESION_DEPTH && c.penetration > sat_mul(-COHESION_STANDOFF, p.radius)
}

/// The cohesive load the particle `p` puts on the tool: half the cohesion
/// coefficient along the normal while the contact lies in the cohesion
/// band, nothing otherwise.
pub open spec fn cohesion_force(
    tool: ToolModel,
    p: ParticleModel,
    params: SimulationParameters,
) -> V3 {
    match tool_contact(tool, p) {
        Some(c) => if in_cohesion_band(p, c) {
            v_scale(c.normal, sat_mul(params.cohesion_coefficient@, HALF as int))
        } else {
            v_zero()
        },
        None => v_zero(),
    }
}

/// The moment about the tool's centre of the contact force the particle
/// `p` puts on it.
pub open spec fn contact_moment(
    tool: ToolModel,
    p: ParticleModel,
    params: SimulationParameters,
) -> V3 {
    match tool_contact(tool, p) {
        Some(c) => v_cross(c.arm, contact_force(tool, p, params)),
        None => v_zero(),
    }
}

/// Whether the particle `p` pushes on the tool.
pub open spec fn pushes(tool: ToolModel, p: ParticleModel, params: SimulationParameters) -> bool {
    match tool_contact(tool, p) {
        Some(c) => contact_push(tool, p, params, c) > 0,
        None => false,
    }
}

/// Whether the particle `p` sticks to the tool.
pub open spec fn sticks(tool: ToolModel, p: ParticleModel) -> bool {
    match tool_contact(tool, p) {
        Some(c) => in_cohesion_band(p, c),
        None => false,
    }
}

/// The particle `p` after its contact with the tool: its acceleration loses
/// the contact force and the cohesive load, each divided by its mass.
/// Nothing else changes.
pub open spec fn particle_after_tool(
    tool: ToolModel,
    p: ParticleModel,
    params: SimulationParameters,
) -> ParticleModel {
    let pushed = if pushes(tool, p, params) {
        v_sub(p.acceleration, v_unscale(contact_force(tool, p, params), p.mass))
    } else {
        p.acceleration
    };
    let stuck = if sticks(tool, p) {
        v_sub(pushed, v_unscale(cohesion_force(tool, p, params), p.mass))
    } else {
        pushed
    };
    ParticleModel { acceleration: stuck, ..p }
}

/// The tool after its contact with the particle `p`: its load gains the
/// contact force and the cohesive load, its torque the moment of the contact
/// force about its centre. Its pose does not change.
pub open spec fn tool_after_particle(
    tool: ToolModel,
    p: ParticleModel,
    params: SimulationParameters,
) -> ToolModel {
    let force = contact_force(tool, p, params);
    let pushed = if pushes(tool, p, params) {
        v_add(tool.forces, force)
    } else {
        tool.forces
    };
    let torque = if pushes(tool, p, params) {
        v_add(tool.torque, contact_moment(tool, p, params))
    } else {
        tool.torque
    };
    let forces = if sticks(tool, p) {
        v_add(pushed, cohesion_force(tool, p, params))
    } else {
        pushed
    };
    ToolModel { forces, torque, ..tool }
}

/// The tool after its contact with the first `n` of the particles, taken in
/// order.
pub open spec fn tool_after_pass(
    tool: ToolModel,
    particles: Seq<ParticleModel>,
    params: SimulationParameters,
    n: int,
) -> ToolModel
    decreases n,
{
    if n <= 0 {
        tool
    } else {
        tool_after_particle(
            tool_after_pass(tool, particles, params, n - 1),
            particles[n - 1],
            params,
        )
    }
}

/// The tool with its load and torque cleared.
pub open spec fn unloaded(tool: ToolModel) -> ToolModel {
    ToolModel { forces: v_zero(), torque: v_zero(), ..tool }
}

fn axis_request(negative: bool, positive: bool) -> (r: Fixed)
    ensures
        r@ == axis_intent(negative, positive),
{
    let p: i64 = if positive { SCALE } else { 0 };
    let n: i64 = if negative { SCALE } else { 0 };
    Fixed::from_raw(p - n)
}

/// Moves and turns the tool as the operator asks. Translation and rotation
/// are independent; either may be absent. A rotation of unit length stays
/// one.
pub fn steer_tool(tool: &mut Tool, input: &ToolInputIntent)
    ensures
        final(tool)@ == steered(old(tool)@, *input),
        near_unit(old(tool)@.rotation) ==> near_unit(final(tool)@.rotation),
{
    proof {
        if near_unit(tool@.rotation) {
            lemma_steering_keeps_unit_length(tool@.rotation, *input);
        }
    }
    let requested = Vec3::new(
        axis_request(input.left, input.right),
        axis_request(input.down, input.up),
        axis_request(input.forward, input.backward),
    );
    if !(requested.x.is_zero() && requested.y.is_zero() && requested.z.is_zero()) {
        let step = requested.normalize().scale(Fixed::from_raw(MOVE_SPEED));
        tool.position = tool.position.add(step);
    }
    if input.rotate && !(input.pointer_dx.is_zero() && input.pointer_dy.is_zero()) {
        let speed = Fixed::from_raw(ROTATION_SPEED);
        let pitch = Quat::from_rotation_x(input.pointer_dy.neg().mul(speed));
        let yaw = Quat::from_rotation_y(input.pointer_dx.neg().mul(speed));
        let turned = yaw.mul(pitch).mul(tool.rotation);
        if !turned.length().twice().lt(Fixed::one()) {
            tool.rotation = turned.normalize();
        }
    }
}

fn outward_unit(c: Fixed) -> (r: Fixed)
    ensures
        r@ == outward(c@),
{
    if c.gt(Fixed::zero()) {
        Fixed::one()
    } else {
        Fixed::one().neg()
    }
}

/// Finds the contact between the tool and a particle: `None` if they do
/// not touch, else the world-space normal, the penetration and the arm from
/// the tool's centre.
pub fn find_contact(tool: &Tool, particle: &Particle) -> (r: Option<(Vec3, Fixed, Vec3)>)
    ensures
        r.is_some() == tool_contact(tool@, particle@).is_some(),
        r.is_some() ==> tool_contact(tool@, particle@).unwrap() == (Contact {
            normal: r.unwrap().0@,
            penetration: r.unwrap().1@,
            arm: r.unwrap().2@,
        }),
{
    proof {
        reveal(tool_contact);
    }
    let arm = particle.position.sub(tool.position);
    let local = tool.rotation.inverse().rotate(arm);
    let reach_x = Fixed::from_raw(TOOL_HALF_X).add(particle.radius);
    let reach_y = Fixed::from_raw(TOOL_HALF_Y).add(particle.radius);
    let reach_z = Fixed::from_raw(TOOL_HALF_Z).add(particle.radius);
    if local.x.abs().lt(reach_x) && local.y.abs().lt(reach_y) && local.z.abs().lt(reach_z) {
        let depth_x = reach_x.sub(local.x.abs());
        let depth_y = reach_y.sub(local.y.abs());
        let depth_z = reach_z.sub(local.z.abs());
        let zero = Fixed::zero();
        if depth_x.lt(depth_y) && depth_x.lt(depth_z) {
            let axis = Vec3::new(outward_unit(local.x), zero, zero);
            Some((tool.rotation.rotate(axis), depth_x, arm))
        } else if depth_y.lt(depth_z) {
            let axis = Vec3::new(zero, outward_unit(local.y), zero);
            Some((tool.rotation.rotate(axis), depth_y, arm))
        } else {
            let axis = Vec3::new(zero, zero, outward_unit(local.z));
            Some((tool.rotation.rotate(axis), depth_z, arm))
        }
    } else {
        None
    }
}

/// Resolves the contact between the tool and one particle: the particle is
/// pushed and held, the tool takes the opposite load.
pub fn resolve_tool_contact(
    tool: &mut Tool,
    particle: &mut Particle,
    parameters: &SimulationParameters,
)
    ensures
        final(particle)@ == particle_after_tool(old(tool)@, old(particle)@, *parameters),
        final(tool)@ == tool_after_particle(old(tool)@, old(particle)@, *parameters),
{
    if let Some((normal, penetration, arm)) = find_contact(tool, particle) {
        let approach = particle.velocity.sub(tool.velocity).dot(normal);
        let push = parameters.tool_stiffness.mul(penetration).add(
            parameters.tool_damping.mul(approach),
        );
        let mass = particle.mass;
        if push.gt(Fixed::zero()) {
            let force = normal.scale(push);
            particle.acceleration = particle.acceleration.sub(force.unscale(mass));
            tool.forces = tool.forces.add(force);
            tool.torque = tool.torque.add(arm.cross(force));
        }
        if penetration.lt(Fixed::from_raw(COHESION_DEPTH)) && penetration.gt(
            Fixed::from_raw(-COHESION_STANDOFF).mul(particle.radius),
        ) {
            let hold = normal.scale(parameters.cohesion_coefficient.mul(Fixed::from_raw(HALF)));
            particle.acceleration = particle.acceleration.sub(hold.unscale(mass));
            tool.forces = tool.forces.add(hold);
        }
    }
}

/// Clears the load on the tool, then resolves its contact with every
/// particle in turn.
pub fn resolve_tool_contacts(
    tool: &mut Tool,
    particles: &mut Vec<Particle>,
    parameters: &SimulationParameters,
)
    ensures
        final(particles).len() == old(particles).len(),
        forall|i: int|
            0 <= i < old(particles).len() ==> (#[trigger] final(particles)[i])@
                == particle_after_tool(old(tool)@, old(particles)[i]@, *parameters),
        final(tool)@ == tool_after_pass(
            unloaded(old(tool)@),
            models(old(particles)@),
            *parameters,
            old(particles).len() as int,
        ),
{
    tool.forces = Vec3::zero();
    tool.torque = Vec3::zero();
    let ghost before = particles@;
    let ghost start = tool@;
    let n = particles.len();
    let mut i: usize = 0;
    while i < n
        invariant
            i <= n,
            n == before.len(),
            particles.len() == n,
            start == unloaded(old(tool)@),
            tool@ == tool_after_pass(start, models(before), *parameters, i as int),
            forall|k: int|
                0 <= k < i ==> (#[trigger] particles[k])@ == particle_after_tool(
                    start,
                    before[k]@,
                    *parameters,
                ),
            forall|k: int| i <= k < n ==> particles[k] == before[k],
        decreases n - i,
    {
        let mut p = particles[i];
        let ghost tool_before = tool@;
        resolve_tool_contact(tool, &mut p, parameters);
        particles.set(i, p);
        proof {
            lemma_pass_keeps_pose(start, models(before), *parameters, i as int);
            lemma_contact_ignores_load(tool_before, start, before[i as int]@, *parameters);
            assert(models(before)[i as int] == before[i as int]@);
        }
        i += 1;
    }
    proof {
        assert forall|k: int| 0 <= k < n implies (#[trigger] particles[k])@ == particle_after_tool(
            old(tool)@,
            before[k]@,
            *parameters,
        ) by {
            lemma_contact_ignores_load(start, old(tool)@, before[k]@, *parameters);
        }
    }
}

/// Whether two tools stand, turn and move alike, whatever load they carry.
pub open spec fn same_pose(a: ToolModel, b: ToolModel) -> bool {
    a.position == b.position && a.rotation == b.rotation && a.velocity == b.velocity
}

/// What a contact does to the particle depends on the pose of the tool
/// alone, not on the load the tool already carries.
pub proof fn lemma_contact_ignores_load(
    a: ToolModel,
    b: ToolModel,
    p: ParticleModel,
    params: SimulationParameters,
)
    requires
        same_pose(a, b),
    ensures
        tool_contact(a, p) == tool_contact(b, p),
        contact_force(a, p, params) == contact_force(b, p, params),
        cohesion_force(a, p, params) == cohesion_force(b, p, params),
        contact_moment(a, p, params) == contact_moment(b, p, params),
        particle_after_tool(a, p, params) == particle_after_tool(b, p, params),
{
    reveal(tool_contact);
}

/// Contact with the tool leaves a particle as valid as it was, and where
/// it was: only its acceleration changes.
pub proof fn lemma_contact_changes_acceleration_only(
    tool: ToolModel,
    p: ParticleModel,
    params: SimulationParameters,
)
    ensures
        particle_after_tool(tool, p, params) == (ParticleModel {
            acceleration: particle_after_tool(tool, p, params).acceleration,
            ..p
        }),
        particle_after_tool(tool, p, params).wf() == p.wf(),
        tool_contact(tool, p).is_none() ==> particle_after_tool(tool, p, params) == p
            && tool_after_particle(tool, p, params) == tool,
{
}

/// Contact changes the load on the tool, never its pose.
pub proof fn lemma_pass_keeps_pose(
    tool: ToolModel,
    particles: Seq<ParticleModel>,
    params: SimulationParameters,
    n: int,
)
    ensures
        same_pose(tool_after_pass(tool, particles, params, n), tool),
    decreases n,
{
    if n > 0 {
        lemma_pass_keeps_pose(tool, particles, params, n - 1);
    }
}

/// One step of the tool: steers it as the operator asks, then resolves its
/// contact with the particles. Without a tool nothing happens.
pub fn handle_tool_interaction(
    tool: &mut Option<Tool>,
    particles: &mut Vec<Particle>,
    parameters: &SimulationParameters,
    input: &ToolInputIntent,
)
    ensures
        old(tool).is_none() ==> final(tool).is_none() && *final(particles) == *old(particles),
        old(tool).is_some() ==> {
            let moved = steered(old(tool).unwrap()@, *input);
            &&& final(tool).is_some()
            &&& final(tool).unwrap()@ == tool_after_pass(
                unloaded(moved),
                models(old(particles)@),
                *parameters,
                old(particles).len() as int,
            )
            &&& final(particles).len() == old(particles).len()
            &&& forall|i: int|
                0 <= i < old(particles).len() ==> (#[trigger] final(particles)[i])@
                    == particle_after_tool(moved, old(particles)[i]@, *parameters)
            &&& near_unit(old(tool).unwrap()@.rotation) ==> near_unit(
                final(tool).unwrap()@.rotation,
            )
        },
{
    if let Some(held) = *tool {
        let mut held = held;
        steer_tool(&mut held, input);
        proof {
            lemma_pass_keeps_pose(
                unloaded(held@),
                models(particles@),
                *parameters,
                particles.len() as int,
            );
        }
        resolve_tool_contacts(&mut held, particles, parameters);
        *tool = Some(held);
    }
}

/// The running sum of the reactions of the tool on the particles, after
/// the tool has pushed back on the particle `p` and held it: the opposite
/// of what the particle puts on the tool.
pub open spec fn reaction_after_particle(
    sum: V3,
    tool: ToolModel,
    p: ParticleModel,
    params: SimulationParameters,
) -> V3 {
    let pushed = if pushes(tool, p, params) {
        v_sub(sum, contact_force(tool, p, params))
    } else {
        sum
    };
    if sticks(tool, p) {
        v_sub(pushed, cohesion_force(tool, p, params))
    } else {
        pushed
    }
}

/// The sum of the reactions of the tool on the first `n` particles, added
/// up in order from zero.
pub open spec fn reactions_after_pass(
    tool: ToolModel,
    particles: Seq<ParticleModel>,
    params: SimulationParameters,
    n: int,
) -> V3
    decreases n,
{
    if n <= 0 {
        v_zero()
    } else {
        reaction_after_particle(
            reactions_after_pass(tool, particles, params, n - 1),
            tool,
            particles[n - 1],
            params,
        )
    }
}

/// Action and reaction. After a contact pass the load on the tool is
/// exactly the opposite of the sum of what the tool did to the particles,
/// pushes and holds together.
pub proof fn lemma_tool_load_balances_reactions(
    tool: ToolModel,
    particles: Seq<ParticleModel>,
    params: SimulationParameters,
    n: int,
)
    ensures
        reactions_after_pass(tool, particles, params, n) == v_neg(
            tool_after_pass(unloaded(tool), particles, params, n).forces,
        ),
    decreases n,
{
    if n > 0 {
        let before = tool_after_pass(unloaded(tool), particles, params, n - 1);
        lemma_tool_load_balances_reactions(tool, particles, params, n - 1);
        lemma_pass_keeps_pose(unloaded(tool), particles, params, n - 1);
        lemma_contact_ignores_load(before, tool, particles[n - 1], params);
    }
}

/// The exact sum, without saturation, of the contact forces that the
/// first `n` particles put on the tool.
pub open spec fn contact_total(
    tool: ToolModel,
    particles: Seq<ParticleModel>,
    params: SimulationParameters,
    n: int,
) -> V3
    decreases n,
{
    if n <= 0 {
        v_zero()
    } else {
        let rest = contact_total(tool, particles, params, n - 1);
        let force = contact_force(tool, particles[n - 1], params);
        V3 { x: rest.x + force.x, y: rest.y + force.y, z: rest.z + force.z }
    }
}

/// The exact sum, without saturation, of the cohesive loads that the
/// first `n` particles put on the tool.
pub open spec fn cohesion_total(
    tool: ToolModel,
    particles: Seq<ParticleModel>,
    params: SimulationParameters,
    n: int,
) -> V3
    decreases n,
{
    if n <= 0 {
        v_zero()
    } else {
        let rest = cohesion_total(tool, particles, params, n - 1);
        let force = cohesion_force(tool, particles[n - 1], params);
        V3 { x: rest.x + force.x, y: rest.y + force.y, z: rest.z + force.z }
    }
}

/// Whether the sum of two vectors has every component in the
/// representable range.
pub open spec fn sum_in_range(a: V3, b: V3) -> bool {
    &&& -LIMIT <= a.x + b.x <= LIMIT
    &&& -LIMIT <= a.y + b.y <= LIMIT
    &&& -LIMIT <= a.z + b.z <= LIMIT
}

/// Whether the load on the tool stays in the representable range all
/// through the contact with the first `n` particles, so that no addition
/// saturates.
pub open spec fn load_in_range(
    tool: ToolModel,
    particles: Seq<ParticleModel>,
    params: SimulationParameters,
    n: int,
) -> bool
    decreases n,
{
    if n <= 0 {
        true
    } else {
        &&& load_in_range(tool, particles, params, n - 1)
        &&& sum_in_range(
            contact_total(tool, particles, params, n),
            cohesion_total(tool, particles, params, n - 1),
        )
        &&& sum_in_range(
            contact_total(tool, particles, params, n),
            cohesion_total(tool, particles, params, n),
        )
    }
}

/// As long as nothing saturates, the load on the tool after a contact
/// pass is the sum of all contact forces plus the sum of all cohesive
/// loads: the two contributions can be told apart and add up.
pub proof fn lemma_tool_load_is_contact_plus_cohesion(
    tool: ToolModel,
    particles: Seq<ParticleModel>,
    params: SimulationParameters,
    n: int,
)
    requires
        load_in_range(tool, particles, params, n),
    ensures
        ({
            let load = tool_after_pass(unloaded(tool), particles, params, n).forces;
            let contact = contact_total(tool, particles, params, n);
            let cohesion = cohesion_total(tool, particles, params, n);
            &&& load.x == contact.x + cohesion.x
            &&& load.y == contact.y + cohesion.y
            &&& load.z == contact.z + cohesion.z
        }),
    decreases n,
{
    if n > 0 {
        let before = tool_after_pass(unloaded(tool), particles, params, n - 1);
        lemma_tool_load_is_contact_plus_cohesion(tool, particles, params, n - 1);
        lemma_pass_keeps_pose(unloaded(tool), particles, params, n - 1);
        lemma_contact_ignores_load(before, tool, particles[n - 1], params);
    }
}

} // verus!
