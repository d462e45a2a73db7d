use regolith::components::particle::Particle;
use regolith::components::tool::Tool;
use regolith::resources::parameters::SimulationParameters;
use regolith::systems::interaction::{
    find_contact, handle_tool_interaction, resolve_tool_contact, resolve_tool_contacts,
    steer_tool, ToolInputIntent,
};
use regolith::utils::fixed::{Fixed, SCALE};
use regolith::utils::quaternion::Quat;
use regolith::utils::trig::HALF_PI;
use regolith::utils::vector::Vec3;

fn fx(raw: i64) -> Fixed {
    Fixed::from_raw(raw)
}

fn v3(x: i64, y: i64, z: i64) -> Vec3 {
    Vec3::new(fx(x), fx(y), fx(z))
}

fn raws(v: Vec3) -> (i64, i64, i64) {
    (v.x.raw(), v.y.raw(), v.z.raw())
}

fn quat_raws(q: Quat) -> (i64, i64, i64, i64) {
    (q.x.raw(), q.y.raw(), q.z.raw(), q.w.raw())
}

fn grain(x: i64, y: i64, z: i64) -> Particle {
    let p = SimulationParameters::default();
    Particle::new(v3(x, y, z), p.particle_mass, p.particle_radius, p.min_radius, p.surface_density)
        .unwrap()
}

fn moving(x: i64, y: i64, z: i64, vx: i64, vy: i64, vz: i64) -> Particle {
    let mut p = grain(x, y, z);
    p.velocity = v3(vx, vy, vz);
    p
}

fn tool() -> Tool {
    Tool::new(v3(0, 300_000_000, 0))
}

fn contact_raws(c: Option<(Vec3, Fixed, Vec3)>) -> Option<((i64, i64, i64), i64, (i64, i64, i64))> {
    c.map(|(n, d, a)| (raws(n), d.raw(), raws(a)))
}

#[test]
fn new_tool_is_at_rest_and_unloaded() {
    let t = tool();
    assert_eq!(raws(t.position), (0, 300_000_000, 0));
    assert_eq!(t.rotation, Quat::identity());
    assert_eq!(raws(t.velocity), (0, 0, 0));
    assert_eq!(raws(t.forces), (0, 0, 0));
    assert_eq!(raws(t.torque), (0, 0, 0));
}

#[test]
fn idle_input_asks_for_nothing() {
    let i = ToolInputIntent::idle();
    assert!(!i.forward && !i.backward && !i.left && !i.right && !i.down && !i.up && !i.rotate);
    assert_eq!(i.pointer_dx.raw(), 0);
    assert_eq!(i.pointer_dy.raw(), 0);
    let mut t = tool();
    steer_tool(&mut t, &i);
    assert_eq!(t, tool());
}

fn stepped(set: fn(&mut ToolInputIntent)) -> (i64, i64, i64) {
    let mut input = ToolInputIntent::idle();
    set(&mut input);
    let mut t = tool();
    steer_tool(&mut t, &input);
    assert_eq!(t.rotation, Quat::identity());
    raws(t.position)
}

#[test]
fn each_direction_moves_the_tool_one_step() {
    assert_eq!(stepped(|i| i.forward = true), (0, 300_000_000, -30_000_000));
    assert_eq!(stepped(|i| i.backward = true), (0, 300_000_000, 30_000_000));
    assert_eq!(stepped(|i| i.left = true), (-30_000_000, 300_000_000, 0));
    assert_eq!(stepped(|i| i.right = true), (30_000_000, 300_000_000, 0));
    assert_eq!(stepped(|i| i.down = true), (0, 270_000_000, 0));
    assert_eq!(stepped(|i| i.up = true), (0, 330_000_000, 0));
}

#[test]
fn combined_directions_move_at_the_same_speed() {
    let mut input = ToolInputIntent::idle();
    input.right = true;
    input.up = true;
    let mut t = tool();
    steer_tool(&mut t, &input);
    assert_eq!(raws(t.position), (21_213_203, 321_213_203, 0));
    input.backward = true;
    input.up = false;
    input.down = true;
    let mut t = tool();
    steer_tool(&mut t, &input);
    assert_eq!(raws(t.position), (17_320_508, 282_679_492, 17_320_508));
}

#[test]
fn opposite_directions_cancel() {
    let mut input = ToolInputIntent::idle();
    input.left = true;
    input.right = true;
    input.forward = true;
    input.backward = true;
    let mut t = tool();
    steer_tool(&mut t, &input);
    assert_eq!(t, tool());
    input.up = true;
    steer_tool(&mut t, &input);
    assert_eq!(raws(t.position), (0, 330_000_000, 0));
}

#[test]
fn pointer_turns_the_tool_only_while_rotating() {
    let mut input = ToolInputIntent::idle();
    input.pointer_dx = fx(100 * SCALE);
    let mut t = tool();
    steer_tool(&mut t, &input);
    assert_eq!(t, tool());
    input.rotate = true;
    steer_tool(&mut t, &input);
    // A yaw of -1 radian.
    assert_eq!(quat_raws(t.rotation), (0, -479_425_539, 0, 877_582_562));
    assert_eq!(raws(t.position), (0, 300_000_000, 0));
    let mut still = ToolInputIntent::idle();
    still.rotate = true;
    let mut u = tool();
    steer_tool(&mut u, &still);
    assert_eq!(u, tool());
}

#[test]
fn pitch_is_applied_before_yaw() {
    let mut input = ToolInputIntent::idle();
    input.rotate = true;
    input.pointer_dx = fx(50 * SCALE);
    input.pointer_dy = fx(-20 * SCALE);
    let mut t = tool();
    steer_tool(&mut t, &input);
    assert_eq!(quat_raws(t.rotation), (96_729_836, -246_167_969, 24_699_182, 964_071_896));
    let yaw = Quat::from_rotation_y(fx(-500_000_000));
    let pitch = Quat::from_rotation_x(fx(200_000_000));
    assert_eq!(t.rotation, yaw.mul(pitch).mul(Quat::identity()).normalize());
}

#[test]
fn a_turn_that_would_shrink_the_rotation_is_not_taken() {
    let mut input = ToolInputIntent::idle();
    input.rotate = true;
    input.pointer_dx = fx(100 * SCALE);
    let mut t = tool();
    t.rotation = Quat::new(fx(0), fx(0), fx(0), fx(499_999_999));
    let before = t;
    steer_tool(&mut t, &input);
    assert_eq!(t, before);
    // Half a whole long is long enough.
    t.rotation = Quat::new(fx(0), fx(0), fx(0), fx(600_000_000));
    steer_tool(&mut t, &input);
    assert_eq!(quat_raws(t.rotation), (0, -479_425_539, 0, 877_582_563));
}

#[test]
fn steering_keeps_the_rotation_at_unit_length() {
    let one = (SCALE as i128) * (SCALE as i128);
    let mut t = tool();
    let mut input = ToolInputIntent::idle();
    input.rotate = true;
    for k in 0..200i64 {
        input.pointer_dx = fx((37 * k % 101 - 50) * SCALE / 7);
        input.pointer_dy = fx((53 * k % 89 - 44) * SCALE / 5);
        steer_tool(&mut t, &input);
        let q = t.rotation;
        let norm: i128 = [q.x, q.y, q.z, q.w]
            .iter()
            .map(|c| (c.raw() as i128) * (c.raw() as i128))
            .sum();
        assert!(norm > one - 8 * SCALE as i128 - 4);
        assert!(norm < (SCALE as i128 + 2) * (SCALE as i128 + 2));
    }
    assert_eq!(
        (t.rotation.x.raw(), t.rotation.y.raw(), t.rotation.z.raw(), t.rotation.w.raw()),
        (-60_845_313, -5_992_411, -3_719_547, 998_122_289)
    );
}

#[test]
fn contact_picks_the_shallowest_face() {
    let t = tool();
    assert_eq!(
        contact_raws(find_contact(&t, &grain(0, 310_000_000, 0))),
        Some(((0, SCALE, 0), 2_000_000, (0, 10_000_000, 0)))
    );
    assert_eq!(
        contact_raws(find_contact(&t, &grain(1_000_000, 290_000_000, 2_000_000))),
        Some(((0, -SCALE, 0), 2_000_000, (1_000_000, -10_000_000, 2_000_000)))
    );
    assert_eq!(
        contact_raws(find_contact(&t, &grain(30_000_000, 300_000_000, 0))),
        Some(((SCALE, 0, 0), 2_000_000, (30_000_000, 0, 0)))
    );
    // Equally deep on the second and third axis: the third gives the normal.
    assert_eq!(
        contact_raws(find_contact(&t, &grain(0, 302_000_000, -17_000_000))),
        Some(((0, 0, -SCALE), 10_000_000, (0, 2_000_000, -17_000_000)))
    );
}

#[test]
fn no_contact_beyond_the_box_and_radius() {
    let t = tool();
    assert_eq!(find_contact(&t, &grain(0, 320_000_000, 0)), None);
    assert_eq!(find_contact(&t, &grain(0, 312_000_000, 0)), None);
    assert!(find_contact(&t, &grain(0, 311_999_999, 0)).is_some());
    assert_eq!(find_contact(&t, &grain(32_000_000, 300_000_000, 0)), None);
    assert_eq!(find_contact(&t, &grain(0, 300_000_000, -27_000_000)), None);
}

#[test]
fn contact_is_found_in_the_frame_of_the_tool() {
    let mut t = tool();
    t.rotation = Quat::from_rotation_y(fx(HALF_PI));
    // Turned a quarter, the long side of the box lies along the third axis.
    assert_eq!(
        contact_raws(find_contact(&t, &grain(0, 300_000_000, 30_000_000))),
        Some(((-2, 0, SCALE), 2_000_001, (0, 0, 30_000_000)))
    );
    assert_eq!(find_contact(&t, &grain(30_000_000, 300_000_000, 0)), None);
}

#[test]
fn contact_pushes_like_a_spring() {
    let params = SimulationParameters::default();
    let mut t = tool();
    let mut p = grain(0, 310_000_000, 0);
    let before = p;
    resolve_tool_contact(&mut t, &mut p, &params);
    // 500 N/m on 2 mm is 1 N along the normal; on 0.0005 kg that is 2000 m/s^2.
    assert_eq!(raws(t.forces), (0, SCALE, 0));
    assert_eq!(raws(t.torque), (0, 0, 0));
    assert_eq!(raws(p.acceleration), (0, -2_000 * SCALE, 0));
    assert_eq!(p.position, before.position);
    assert_eq!(p.velocity, before.velocity);
    assert_eq!(raws(t.position), (0, 300_000_000, 0));
}

#[test]
fn contact_is_damped_and_twists_the_tool() {
    let params = SimulationParameters::default();
    let mut t = tool();
    let mut p = moving(1_000_000, 290_000_000, 2_000_000, 0, 100_000_000, 0);
    resolve_tool_contact(&mut t, &mut p, &params);
    // 1 N of spring less 0.7 * 0.1 N of damping, along the downward normal.
    assert_eq!(raws(t.forces), (0, -930_000_000, 0));
    assert_eq!(raws(t.torque), (1_860_000, 0, -930_000));
    assert_eq!(raws(p.acceleration), (0, 1_860 * SCALE, 0));
}

#[test]
fn contact_never_pulls() {
    let params = SimulationParameters::default();
    let mut t = tool();
    let mut p = moving(0, 311_500_000, 0, 0, -SCALE, 0);
    resolve_tool_contact(&mut t, &mut p, &params);
    // The push would be 0.25 - 0.7 < 0, so only cohesion acts.
    assert_eq!(raws(t.forces), (0, 20_000, 0));
    assert_eq!(raws(t.torque), (0, 0, 0));
    assert_eq!(raws(p.acceleration), (0, -40_000_000, 0));
}

#[test]
fn shallow_contact_also_sticks() {
    let params = SimulationParameters::default();
    let mut t = tool();
    let mut p = grain(3_000_000, 311_500_000, 0);
    resolve_tool_contact(&mut t, &mut p, &params);
    // 0.25 N of push plus 0.00002 N of cohesion; only the push has a moment.
    assert_eq!(raws(t.forces), (0, 250_020_000, 0));
    assert_eq!(raws(t.torque), (0, 0, 750_000));
    assert_eq!(raws(p.acceleration), (0, -500_040_000_000, 0));
    // At a depth of 1 mm cohesion has ended.
    let mut t = tool();
    let mut q = grain(0, 311_000_000, 0);
    resolve_tool_contact(&mut t, &mut q, &params);
    assert_eq!(raws(t.forces), (0, 500_000_000, 0));
}

#[test]
fn particle_apart_from_the_tool_is_left_alone() {
    let params = SimulationParameters::default();
    let mut t = tool();
    t.forces = v3(1, 2, 3);
    t.torque = v3(4, 5, 6);
    let mut p = moving(0, 320_000_000, 0, 1, 2, 3);
    p.acceleration = v3(7, 8, 9);
    let (t0, p0) = (t, p);
    resolve_tool_contact(&mut t, &mut p, &params);
    assert_eq!(t, t0);
    assert_eq!(p, p0);
}

#[test]
fn contact_pass_sums_the_load_on_the_tool() {
    let params = SimulationParameters::default();
    let mut t = tool();
    t.forces = v3(9, 9, 9);
    t.torque = v3(9, 9, 9);
    let mut particles = vec![
        grain(0, 310_000_000, 0),
        grain(3_000_000, 311_500_000, 0),
        grain(30_000_000, 300_000_000, 0),
        grain(0, 320_000_000, 0),
        moving(1_000_000, 290_000_000, 2_000_000, 0, 100_000_000, 0),
    ];
    let before = particles.clone();
    resolve_tool_contacts(&mut t, &mut particles, &params);
    assert_eq!(raws(t.forces), (SCALE, 320_020_000, 0));
    assert_eq!(raws(t.torque), (1_860_000, 0, -180_000));
    let accelerations: Vec<(i64, i64, i64)> =
        particles.iter().map(|p| raws(p.acceleration)).collect();
    assert_eq!(
        accelerations,
        vec![
            (0, -2_000 * SCALE, 0),
            (0, -500_040_000_000, 0),
            (-2_000 * SCALE, 0, 0),
            (0, 0, 0),
            (0, 1_860 * SCALE, 0),
        ]
    );
    for (now, then) in particles.iter().zip(before.iter()) {
        assert_eq!(now.position, then.position);
        assert_eq!(now.velocity, then.velocity);
    }
}

#[test]
fn load_on_the_tool_balances_what_the_particles_feel() {
    let params = SimulationParameters::default();
    let mut t = tool();
    let mut particles = vec![
        grain(0, 310_000_000, 0),
        grain(3_000_000, 311_500_000, 0),
        grain(30_000_000, 300_000_000, 0),
        moving(1_000_000, 290_000_000, 2_000_000, 0, 100_000_000, 0),
        moving(-20_000_000, 306_000_000, 5_000_000, 10_000_000, -20_000_000, 0),
    ];
    resolve_tool_contacts(&mut t, &mut particles, &params);
    // Every force here is a whole multiple of the mass, so multiplying the
    // accelerations by the mass gives back the reactions exactly.
    let mut reaction = Vec3::zero();
    for p in particles.iter() {
        reaction = reaction.add(p.acceleration.scale(p.mass));
    }
    assert_eq!(reaction, t.forces.neg());
    assert_ne!(raws(t.forces), (0, 0, 0));
}

#[test]
fn contact_pass_without_particles_clears_the_load() {
    let params = SimulationParameters::default();
    let mut t = tool();
    t.forces = v3(1, 2, 3);
    t.torque = v3(4, 5, 6);
    let mut none: Vec<Particle> = Vec::new();
    resolve_tool_contacts(&mut t, &mut none, &params);
    assert_eq!(t, tool());
}

#[test]
fn absent_tool_changes_nothing() {
    let params = SimulationParameters::default();
    let mut input = ToolInputIntent::idle();
    input.up = true;
    let mut particles = vec![grain(0, 310_000_000, 0), grain(0, 7_000_000, 0)];
    let before = particles.clone();
    let mut absent: Option<Tool> = None;
    handle_tool_interaction(&mut absent, &mut particles, &params, &input);
    assert_eq!(absent, None);
    assert_eq!(particles, before);
}

#[test]
fn tool_is_steered_before_it_touches() {
    let params = SimulationParameters::default();
    let mut input = ToolInputIntent::idle();
    input.up = true;
    let mut particles = vec![grain(0, 310_000_000, 0), grain(0, 340_000_000, 0)];
    let mut held = Some(tool());
    handle_tool_interaction(&mut held, &mut particles, &params, &input);
    let t = held.unwrap();
    // Moved up by 30 mm, the tool has left the first particle and reached
    // the second, 2 mm deep.
    assert_eq!(raws(t.position), (0, 330_000_000, 0));
    assert_eq!(raws(t.forces), (0, SCALE, 0));
    assert_eq!(raws(particles[0].acceleration), (0, 0, 0));
    assert_eq!(raws(particles[1].acceleration), (0, -2_000 * SCALE, 0));
}
