use regolith::components::particle::{Particle, ParticleError};
use regolith::resources::parameters::SimulationParameters;
use regolith::systems::physics::{
    advance_particle, advance_particles, apply_forces, compute_pair_forces,
    handle_particle_interactions, normal_force_at, pair_interaction, release_particles,
    update_particles, AppliedForce,
};
use regolith::utils::fixed::{Fixed, LIMIT, SCALE};
use regolith::utils::vector::Vec3;

fn fx(raw: i64) -> Fixed {
    Fixed::from_raw(raw)
}

fn v3(x: i64, y: i64, z: i64) -> Vec3 {
    Vec3::new(fx(x), fx(y), fx(z))
}

fn raws(v: Vec3) -> (i64, i64, i64) {
    (v.x.raw(), v.y.raw(), v.z.raw())
}

fn grain(x: i64, y: i64, z: i64) -> Particle {
    let p = SimulationParameters::default();
    Particle::new(v3(x, y, z), p.particle_mass, p.particle_radius, p.min_radius, p.surface_density)
        .unwrap()
}

fn moving(x: i64, y: i64, z: i64, vx: i64, vy: i64, vz: i64) -> Particle {
    let mut p = grain(x, y, z);
    p.velocity = v3(vx, vy, vz);
    p
}

#[test]
fn default_parameters_are_lunar_regolith() {
    let p = SimulationParameters::default();
    assert_eq!(p.grid_size, 16);
    assert_eq!(p.particle_radius.raw(), 7_000_000);
    assert_eq!(p.particle_mass.raw(), 500_000);
    assert_eq!(p.min_radius.raw(), 5_000_000);
    assert_eq!(p.surface_density.raw(), 1_270 * SCALE);
    assert_eq!(p.max_density.raw(), 1_820 * SCALE);
    assert_eq!(p.cohesion_coefficient.raw(), 40_000);
    assert_eq!(p.friction_coefficient.raw(), 342_000_000);
    assert_eq!(p.attraction_radius_factor.raw(), 1_100_000_000);
    assert_eq!(raws(p.gravity), (0, -1_625_000_000, 0));
    assert_eq!(p.time_step.raw(), 4_166_666);
    assert_eq!(p.time_step, Fixed::one().div(Fixed::from_int(240)));
    assert_eq!(p.tool_stiffness.raw(), 500 * SCALE);
    assert_eq!(p.tool_damping.raw(), 700_000_000);
    assert!(p.is_valid());
}

#[test]
fn parameters_that_make_no_sense_are_not_valid() {
    let good = SimulationParameters::default();
    let mut p = good;
    p.particle_mass = fx(0);
    assert!(!p.is_valid());
    p = good;
    p.min_radius = fx(7_000_001);
    assert!(!p.is_valid());
    p = good;
    p.min_radius = fx(7_000_000);
    assert!(p.is_valid());
    p = good;
    p.min_radius = fx(0);
    assert!(!p.is_valid());
    p = good;
    p.cohesion_coefficient = fx(-1);
    assert!(!p.is_valid());
    p = good;
    p.friction_coefficient = fx(-1);
    assert!(!p.is_valid());
    p = good;
    p.attraction_radius_factor = fx(SCALE - 1);
    assert!(!p.is_valid());
    p = good;
    p.time_step = fx(0);
    assert!(!p.is_valid());
    p = good;
    p.tool_stiffness = fx(-1);
    assert!(!p.is_valid());
    p = good;
    p.tool_damping = fx(-1);
    assert!(!p.is_valid());
}

#[test]
fn new_particle_is_at_rest() {
    let p = Particle::new(v3(1, 2, 3), fx(500_000), fx(7_000_000), fx(5_000_000), fx(9)).unwrap();
    assert_eq!(raws(p.position), (1, 2, 3));
    assert_eq!(raws(p.velocity), (0, 0, 0));
    assert_eq!(raws(p.acceleration), (0, 0, 0));
    assert_eq!(p.mass.raw(), 500_000);
    assert_eq!(p.radius.raw(), 7_000_000);
    assert_eq!(p.min_radius.raw(), 5_000_000);
    assert_eq!(p.density.raw(), 9);
    assert!(p.is_valid());
}

#[test]
fn particle_without_mass_is_rejected() {
    let zero = Particle::new(v3(0, 0, 0), fx(0), fx(7), fx(5), fx(1));
    assert_eq!(zero, Err(ParticleError::NonPositiveMass));
    let negative = Particle::new(v3(0, 0, 0), fx(-1), fx(7), fx(5), fx(1));
    assert_eq!(negative, Err(ParticleError::NonPositiveMass));
    // The mass is looked at first.
    let both = Particle::new(v3(0, 0, 0), fx(0), fx(4), fx(5), fx(1));
    assert_eq!(both, Err(ParticleError::NonPositiveMass));
}

#[test]
fn particle_below_its_compressed_radius_is_rejected() {
    let small = Particle::new(v3(0, 0, 0), fx(1), fx(4), fx(5), fx(1));
    assert_eq!(small, Err(ParticleError::RadiusBelowMinimum));
    let equal = Particle::new(v3(0, 0, 0), fx(1), fx(5), fx(5), fx(1));
    assert!(equal.is_ok());
}

#[test]
fn validity_of_a_particle_follows_its_fields() {
    let mut p = grain(0, 0, 0);
    assert!(p.is_valid());
    p.mass = fx(0);
    assert!(!p.is_valid());
    p = grain(0, 0, 0);
    p.radius = fx(4_999_999);
    assert!(!p.is_valid());
}

#[test]
fn guard_band_repulsion_is_linear() {
    // Two particles 0.00005 above their closest approach: inside the guard
    // band, where the force is 100 * (closest + 0.0001 - distance) = 0.005
    // along the line between them.
    let params = SimulationParameters::default();
    let a = grain(0, 0, 0);
    let b = grain(10_050_000, 0, 0);
    let f = pair_interaction(&a, &b, &params).unwrap();
    assert_eq!(raws(f), (5_000_000, 0, 0));
    assert!(f.x.raw() > 0);
    assert_eq!(normal_force_at(fx(10_050_000), &params).raw(), 5_000_000);
    assert_eq!(normal_force_at(fx(10_099_999), &params).raw(), 100);
    assert_eq!(normal_force_at(fx(10_000_000), &params).raw(), 10_000_000);
}

#[test]
fn repulsion_above_the_guard_band_follows_the_inverse_law() {
    let params = SimulationParameters::default();
    // 0.00004 * (1 / 0.002 - 1 / 0.004) = 0.01
    assert_eq!(normal_force_at(fx(12_000_000), &params).raw(), 10_000_000);
    // 0.00004 * (1 / 0.0001 - 1 / 0.004) = 0.39
    assert_eq!(normal_force_at(fx(10_100_000), &params).raw(), 390_000_000);
    assert_eq!(normal_force_at(fx(13_999_999), &params).raw(), 2);
    let a = grain(0, 0, 0);
    let b = grain(12_000_000, 0, 0);
    assert_eq!(raws(pair_interaction(&a, &b, &params).unwrap()), (10_000_000, 0, 0));
    assert_eq!(raws(pair_interaction(&b, &a, &params).unwrap()), (-10_000_000, 0, 0));
}

#[test]
fn repulsion_falls_with_distance() {
    let params = SimulationParameters::default();
    let mut d: i64 = 10_100_000;
    let mut last = normal_force_at(fx(d), &params).raw();
    while d < 13_999_000 {
        d += 1_000;
        let next = normal_force_at(fx(d), &params).raw();
        assert!(next < last);
        assert!(next > 0);
        last = next;
    }
}

#[test]
fn repulsion_tells_neighbouring_distances_apart() {
    let params = SimulationParameters::default();
    let at = |d: i64| normal_force_at(fx(d), &params).raw();
    for d in [10_100_000, 11_000_000, 12_345_678, 13_000_000, 13_900_000, 13_999_997] {
        assert!(at(d) > at(d + 1));
        assert!(at(d + 1) > at(d + 2));
        assert!(at(d + 2) > 0);
    }
    assert_eq!(at(13_999_998), 5);
    assert_eq!(at(13_999_999), 2);
}

#[test]
fn attraction_pulls_together_and_vanishes_at_reach() {
    let params = SimulationParameters::default();
    // 0.000004 * (1 / 0.004 - 1 / 0.0054) = 0.000259259...
    assert_eq!(normal_force_at(fx(14_000_000), &params).raw(), -259_259);
    // 0.000004 * (1 / 0.005 - 1 / 0.0054) = 0.000059259...
    assert_eq!(normal_force_at(fx(15_000_000), &params).raw(), -59_259);
    assert_eq!(normal_force_at(fx(15_400_000), &params).raw(), 0);
    let a = grain(0, 0, 0);
    let b = grain(0, 0, 15_000_000);
    assert_eq!(raws(pair_interaction(&a, &b, &params).unwrap()), (0, 0, -59_259));
    let c = grain(9_000_000, 12_000_000, 0);
    assert_eq!(raws(pair_interaction(&a, &c, &params).unwrap()), (-35_555, -47_407, 0));
}

#[test]
fn particles_out_of_reach_do_not_interact() {
    let params = SimulationParameters::default();
    let a = grain(0, 0, 0);
    assert_eq!(pair_interaction(&a, &grain(15_400_000, 0, 0), &params), None);
    assert_eq!(pair_interaction(&a, &grain(0, 1_000_000_000, 0), &params), None);
    assert!(pair_interaction(&a, &grain(15_399_999, 0, 0), &params).is_some());
}

#[test]
fn sliding_particles_rub() {
    let params = SimulationParameters::default();
    let a = grain(0, 0, 0);
    // Friction is 0.342 * 0.01 * 0.8 = 0.002736 against the sliding.
    let b = moving(12_000_000, 0, 0, 0, 500_000_000, 0);
    assert_eq!(raws(pair_interaction(&a, &b, &params).unwrap()), (10_000_000, -2_736_000, 0));
    let c = moving(12_000_000, 0, 0, 300_000_000, 0, 400_000_000);
    assert_eq!(raws(pair_interaction(&a, &c, &params).unwrap()), (10_000_000, 0, -2_736_000));
    // At the threshold itself nothing rubs.
    let d = moving(12_000_000, 0, 0, 0, 1_000_000, 0);
    assert_eq!(raws(pair_interaction(&a, &d, &params).unwrap()), (10_000_000, 0, 0));
}

#[test]
fn coincident_particles_have_no_direction() {
    let params = SimulationParameters::default();
    let a = grain(1, 2, 3);
    let b = grain(1, 2, 3);
    assert_eq!(raws(pair_interaction(&a, &b, &params).unwrap()), (0, 0, 0));
}

#[test]
fn fully_compressed_particles_that_touch_stay_finite() {
    // With no room between the radius and the compressed radius the
    // attraction law divides by zero where two particles just touch; the
    // quotient saturates and the force stays a number.
    let mut params = SimulationParameters::default();
    params.min_radius = params.particle_radius;
    assert_eq!(normal_force_at(fx(14_000_000), &params).raw(), -3_999_997_142_857);
    assert_eq!(normal_force_at(fx(14_000_001), &params).raw(), -3_999_997_142_857);
    assert_eq!(normal_force_at(fx(13_999_999), &params).raw(), 10_000_100);
    let a = grain(0, 0, 0);
    let b = grain(14_000_000, 0, 0);
    assert_eq!(raws(pair_interaction(&a, &b, &params).unwrap()), (-3_999_997_142_857, 0, 0));
}

#[test]
fn pair_forces_come_in_opposite_pairs() {
    let params = SimulationParameters::default();
    let particles = vec![
        grain(0, 0, 0),
        moving(12_000_000, 0, 0, 0, 500_000_000, 0),
        grain(0, 0, 15_000_000),
        grain(500_000_000, 0, 0),
        moving(6_000_000, 9_000_000, 3_000_000, -100_000_000, 0, 200_000_000),
    ];
    let forces = compute_pair_forces(&particles, &params);
    assert!(!forces.is_empty());
    assert_eq!(forces.len() % 2, 0);
    let mut sum = (0i128, 0i128, 0i128);
    for pair in forces.chunks(2) {
        assert!(pair[0].target < pair[1].target);
        assert_eq!(pair[0].force, pair[1].force.neg());
        assert_eq!(pair[0].force.x.raw() + pair[1].force.x.raw(), 0);
        assert_eq!(pair[0].force.y.raw() + pair[1].force.y.raw(), 0);
        assert_eq!(pair[0].force.z.raw() + pair[1].force.z.raw(), 0);
    }
    for f in forces.iter() {
        assert!(f.target < particles.len());
        assert_ne!(f.target, 3);
        sum.0 += f.force.x.raw() as i128;
        sum.1 += f.force.y.raw() as i128;
        sum.2 += f.force.z.raw() as i128;
    }
    assert_eq!(sum, (0, 0, 0));
}

#[test]
fn pair_forces_are_listed_pair_by_pair() {
    let params = SimulationParameters::default();
    let particles = vec![grain(0, 0, 0), grain(12_000_000, 0, 0), grain(0, 0, 15_000_000)];
    let forces = compute_pair_forces(&particles, &params);
    let listed: Vec<(usize, (i64, i64, i64))> =
        forces.iter().map(|f| (f.target, raws(f.force))).collect();
    assert_eq!(
        listed,
        vec![
            (0, (-10_000_000, 0, 0)),
            (1, (10_000_000, 0, 0)),
            (0, (0, 0, 59_259)),
            (2, (0, 0, -59_259)),
        ]
    );
    assert!(compute_pair_forces(&Vec::new(), &params).is_empty());
    assert!(compute_pair_forces(&vec![grain(0, 0, 0)], &params).is_empty());
}

#[test]
fn forces_are_divided_by_mass_and_added() {
    let mut particles = vec![grain(0, 0, 0), grain(1, 1, 1)];
    particles[1].acceleration = v3(5, 5, 5);
    particles[1].mass = fx(2 * SCALE);
    let forces = vec![
        AppliedForce { target: 1, force: v3(10, -20, 30) },
        AppliedForce { target: 0, force: v3(500_000, 0, 0) },
        AppliedForce { target: 7, force: v3(1, 1, 1) },
        AppliedForce { target: 1, force: v3(2, 2, 2) },
    ];
    let before = particles.clone();
    apply_forces(&mut particles, &forces);
    assert_eq!(raws(particles[0].acceleration), (SCALE, 0, 0));
    assert_eq!(raws(particles[1].acceleration), (11, -4, 21));
    for (now, then) in particles.iter().zip(before.iter()) {
        assert_eq!(now.position, then.position);
        assert_eq!(now.velocity, then.velocity);
        assert_eq!(now.mass, then.mass);
        assert_eq!(now.radius, then.radius);
    }
}

#[test]
fn interaction_exchanges_momentum() {
    let params = SimulationParameters::default();
    let mut particles = vec![grain(0, 0, 0), grain(12_000_000, 0, 0)];
    let before = particles.clone();
    handle_particle_interactions(&mut particles, &params);
    // 0.01 N on 0.0005 kg is 20 m/s^2, apart.
    assert_eq!(raws(particles[0].acceleration), (-20 * SCALE, 0, 0));
    assert_eq!(raws(particles[1].acceleration), (20 * SCALE, 0, 0));
    assert_eq!(particles[0].position, before[0].position);
    assert_eq!(particles[1].velocity, before[1].velocity);
}

#[test]
fn interaction_reads_the_state_on_entry() {
    let params = SimulationParameters::default();
    let mut particles = vec![
        grain(0, 0, 0),
        moving(12_000_000, 0, 0, 0, 500_000_000, 0),
        grain(0, 0, 15_000_000),
        grain(6_000_000, 9_000_000, 3_000_000),
    ];
    let mut expected = particles.clone();
    let forces = compute_pair_forces(&particles, &params);
    for f in forces.iter() {
        let p = &mut expected[f.target];
        p.acceleration = p.acceleration.add(f.force.unscale(p.mass));
    }
    handle_particle_interactions(&mut particles, &params);
    assert_eq!(particles, expected);
    let mut none: Vec<Particle> = Vec::new();
    handle_particle_interactions(&mut none, &params);
    assert!(none.is_empty());
}

#[test]
fn free_fall_for_one_step() {
    let params = SimulationParameters::default();
    let mut particles = vec![grain(0, SCALE, 0)];
    particles[0].acceleration = v3(9, 9, 9);
    update_particles(&mut particles, &params);
    let p = particles[0];
    assert_eq!(raws(p.acceleration), (0, -1_625_000_000, 0));
    assert_eq!(raws(p.velocity), (0, -6_635_415, 0));
    assert_eq!(raws(p.position), (0, 999_971_789, 0));
    update_particles(&mut particles, &params);
    assert_eq!(raws(particles[0].velocity), (0, -13_138_122, 0));
    assert_eq!(raws(particles[0].position), (0, 999_915_930, 0));
}

#[test]
fn dropped_particle_rebounds_at_half_speed() {
    // Dropped from one metre, the particle falls until a step would take it
    // below the floor. That step leaves it resting on the floor, moving
    // upward at half the damped speed of the impact.
    let params = SimulationParameters::default();
    let mut particles = vec![grain(0, SCALE, 0)];
    let mut steps = 0;
    loop {
        let before = particles[0];
        update_particles(&mut particles, &params);
        steps += 1;
        let after = particles[0];
        assert!(after.position.y.raw() >= after.radius.raw());
        let w = before.velocity.y.add(params.gravity.y.mul(params.time_step));
        let lands = before.position.y.add(w.mul(params.time_step)).lt(before.radius);
        if lands {
            let impact = w.mul(fx(980_000_000));
            assert_eq!(w.raw(), -338_541_491);
            assert_eq!(impact.raw(), -331_770_661);
            assert_eq!(after.position.y.raw(), 7_000_000);
            assert_eq!(after.velocity.y, impact.mul(fx(-500_000_000)));
            assert_eq!(after.velocity.y.raw(), 165_885_330);
            assert!(after.velocity.y.raw() > 0);
            assert_eq!(after.velocity.x.raw(), 0);
            assert_eq!(after.velocity.z.raw(), 0);
            break;
        }
        assert!(after.velocity.y.raw() < 0);
        assert!(steps < 10_000);
    }
    assert_eq!(steps, 753);
}

#[test]
fn particle_on_the_floor_leaves_it_upward() {
    // -0.5 * 0.98 * (-1 - 1.625 / 240) = +0.4933177
    let params = SimulationParameters::default();
    let mut particles = vec![moving(0, 7_000_000, 0, 0, -SCALE, 0)];
    update_particles(&mut particles, &params);
    assert_eq!(raws(particles[0].position), (0, 7_000_000, 0));
    assert_eq!(raws(particles[0].velocity), (0, 493_317_707, 0));
    // The next step carries it up, off the floor.
    update_particles(&mut particles, &params);
    assert!(particles[0].position.y.raw() > 7_000_000);
    assert!(particles[0].velocity.y.raw() > 0);
}

#[test]
fn floor_rubs_against_sliding() {
    let params = SimulationParameters::default();
    // 0.342 * 1.625 * dt = 0.002315624 against a slide along (0.6, 0, 0.8).
    let mut particles = vec![moving(0, 7_000_000, 0, 300_000_000, 0, 400_000_000)];
    update_particles(&mut particles, &params);
    assert_eq!(raws(particles[0].position), (1_249_999, 7_000_000, 1_666_666));
    assert_eq!(raws(particles[0].velocity), (292_610_626, 3_317_707, 390_147_501));
    let mut slow = vec![moving(0, 7_000_000, 0, 1_000_000, 0, 0)];
    update_particles(&mut slow, &params);
    assert_eq!(raws(slow[0].velocity), (980_000, 3_317_707, 0));
}

#[test]
fn no_particle_ends_below_the_floor() {
    let params = SimulationParameters::default();
    let mut particles = vec![
        moving(0, 500_000_000, 0, 0, -LIMIT, 0),
        moving(0, -LIMIT, 0, LIMIT, LIMIT, -LIMIT),
        moving(5, 7_000_000, 5, 0, -1, 0),
        moving(5, 6_999_999, 5, 0, 0, 0),
        grain(0, 7_000_000, 0),
        grain(0, LIMIT, 0),
    ];
    for _ in 0..50 {
        update_particles(&mut particles, &params);
        for p in particles.iter() {
            assert!(p.position.y.raw() >= p.radius.raw());
        }
    }
    let mut fast = vec![moving(0, 500_000_000, 0, 0, -LIMIT, 0)];
    update_particles(&mut fast, &params);
    assert_eq!(raws(fast[0].position), (0, 7_000_000, 0));
    assert_eq!(raws(fast[0].velocity), (0, 490_000_000_000_000_000, 0));
}

#[test]
fn release_then_advance_is_one_update() {
    let params = SimulationParameters::default();
    let start = vec![
        moving(0, 500_000_000, 0, 100_000_000, -200_000_000, 0),
        moving(0, 7_000_000, 0, 300_000_000, 0, 400_000_000),
    ];
    let mut whole = start.clone();
    update_particles(&mut whole, &params);
    let mut parts = start.clone();
    release_particles(&mut parts, &params);
    assert_eq!(parts[0].acceleration, params.gravity);
    assert_eq!(parts[0].velocity, start[0].velocity);
    advance_particles(&mut parts, params.time_step, &params);
    assert_eq!(parts, whole);
    let mut single = start[1];
    single.acceleration = params.gravity;
    advance_particle(&mut single, params.time_step, &params);
    assert_eq!(single, whole[1]);
}

#[test]
fn advance_uses_the_gathered_acceleration() {
    let params = SimulationParameters::default();
    let mut p = grain(0, SCALE, 0);
    p.acceleration = v3(2 * SCALE, 0, -4 * SCALE);
    advance_particle(&mut p, fx(500_000_000), &params);
    // v = a * dt = (1, 0, -2); x = v * dt = (0.5, 1, -1); v is damped to 98 %.
    assert_eq!(raws(p.position), (500_000_000, SCALE, -SCALE));
    assert_eq!(raws(p.velocity), (980_000_000, 0, -1_960_000_000));
    assert_eq!(raws(p.acceleration), (2 * SCALE, 0, -4 * SCALE));
}
