use sph2d::config::SimConfig;
use sph2d::fixed::Fx;
use sph2d::kernel::smoothing_kernel;
use sph2d::sim::{
    calculate_pressure_force, resolve_collision, tick, update_density, Particle,
};
use sph2d::vec2::V2;

fn fx(raw: i64) -> Fx {
    Fx { raw }
}

fn v2(x: i64, y: i64) -> V2 {
    V2 { x: fx(x), y: fx(y) }
}

fn particle(px: i64, py: i64, vx: i64, vy: i64) -> Particle {
    Particle { position: v2(px, py), velocity: v2(vx, vy), density: fx(0) }
}

fn no_gravity_config() -> SimConfig {
    let mut c = SimConfig::default();
    c.gravity = fx(0);
    c
}

// With the stock radius, mass times the kernel's peak weight.
const SELF_WEIGHT: i64 = 22473;

#[test]
fn single_particle_tick_keeps_it_at_rest() {
    let config = no_gravity_config();
    let mut particles = vec![particle(0, 0, 0, 0)];
    tick(&mut particles, &config, Fx::one());
    // density is exactly the self-weight, mass * kernel(r, 0)
    let expected = fx(65536).mul(smoothing_kernel(config.smoothing_radius, fx(0)));
    assert_eq!(particles[0].density.raw, expected.raw);
    assert_eq!(particles[0].density.raw, SELF_WEIGHT);
    // the kernel slope vanishes at zero distance, so no force arises even
    // though the colocated pair falls back to the +x direction
    assert_eq!(particles[0].velocity.raw_pair(), (0, 0));
    assert_eq!(particles[0].position.raw_pair(), (0, 0));
}

#[test]
fn pair_separated_by_exactly_the_radius_keeps_self_weight_only() {
    let config = no_gravity_config();
    let r = config.smoothing_radius.raw;
    let mut particles = vec![particle(0, 0, 0, 0), particle(r, 0, 0, 0)];
    update_density(&mut particles, &config);
    assert_eq!(particles[0].density.raw, SELF_WEIGHT);
    assert_eq!(particles[1].density.raw, SELF_WEIGHT);
}

#[test]
fn pair_inside_the_radius_raises_density_above_self_weight() {
    let config = no_gravity_config();
    let mut particles = vec![particle(-32768, 0, 0, 0), particle(32768, 0, 0, 0)];
    update_density(&mut particles, &config);
    assert_eq!(particles[0].density.raw, 22749);
    assert_eq!(particles[1].density.raw, 22749);
    assert!(particles[0].density.raw > SELF_WEIGHT);
}

#[test]
fn boundary_resolver_is_idempotent_on_an_in_bounds_particle() {
    let config = SimConfig::default();
    let mut particles = vec![particle(100000, -50000, 7000, -3000)];
    resolve_collision(&mut particles, &config);
    let once = particles.clone();
    resolve_collision(&mut particles, &config);
    assert_eq!(particles, once);
    // well in bounds, the first pass already changed nothing
    assert_eq!(once[0].position.raw_pair(), (100000, -50000));
    assert_eq!(once[0].velocity.raw_pair(), (7000, -3000));
}

#[test]
fn boundary_resolver_is_idempotent_on_an_out_of_bounds_particle() {
    let config = SimConfig::default();
    let mut particles = vec![particle(600000, 300000, 7000, 3000)];
    resolve_collision(&mut particles, &config);
    let once = particles.clone();
    resolve_collision(&mut particles, &config);
    assert_eq!(particles, once);
}

#[test]
fn boundary_reflection_clamps_and_damps() {
    // half extent along x is bounds/2 - particle radius = 496762
    let config = SimConfig::default();
    let mut particles = vec![particle(496762 + 1000, 0, 50000, 0)];
    resolve_collision(&mut particles, &config);
    assert_eq!(particles[0].position.raw_pair(), (496762, 0));
    // velocity reversed and damped by 0.7, truncating toward zero
    assert_eq!(particles[0].velocity.raw_pair(), (-34999, 0));
}

#[test]
fn boundary_reflection_keeps_sign_on_the_left_wall() {
    let config = SimConfig::default();
    let mut particles = vec![particle(-600000, 0, -50000, 0)];
    resolve_collision(&mut particles, &config);
    assert_eq!(particles[0].position.raw_pair(), (-496762, 0));
    assert_eq!(particles[0].velocity.raw_pair(), (34999, 0));
}

#[test]
fn corner_hit_resolves_both_axes_in_one_pass() {
    let config = SimConfig::default();
    let mut particles = vec![particle(600000, -300000, 50000, -50000)];
    resolve_collision(&mut particles, &config);
    assert_eq!(particles[0].position.raw_pair(), (496762, -276561));
    assert_eq!(particles[0].velocity.raw_pair(), (-34999, 34999));
}

#[test]
fn identical_inputs_give_identical_ticks() {
    let config = SimConfig::default();
    let scene = vec![
        particle(-32768, 0, 1000, 0),
        particle(32768, 0, -1000, 0),
        particle(0, 65536, 0, 500),
    ];
    let dt = fx(1049);
    let mut a = scene.clone();
    let mut b = scene;
    tick(&mut a, &config, dt);
    tick(&mut b, &config, dt);
    assert_eq!(a, b);
    // and again over a second tick
    tick(&mut a, &config, dt);
    tick(&mut b, &config, dt);
    assert_eq!(a, b);
}

#[test]
fn confined_elastic_pair_keeps_bounded_speed() {
    // gravity off, perfectly elastic walls: speeds must stay bounded
    let mut config = no_gravity_config();
    config.collision_damping = Fx::one();
    let mut particles = vec![particle(-32768, 0, 0, 0), particle(32768, 0, 0, 0)];
    let dt = fx(1049);
    for _ in 0..200 {
        tick(&mut particles, &config, dt);
        for p in &particles {
            assert!(p.velocity.x.raw.abs() <= 50000);
            assert!(p.velocity.y.raw.abs() <= 50000);
            assert!(p.position.x.raw.abs() <= 496762);
            assert!(p.position.y.raw.abs() <= 276561);
        }
    }
}

#[test]
fn two_distant_particles_tick_end_to_end() {
    // particles at (-1, 0) and (1, 0), two units apart: beyond the
    // 1.3-unit support, so each keeps its self-weight and feels no force
    let config = no_gravity_config();
    let mut particles = vec![particle(-65536, 0, 0, 0), particle(65536, 0, 0, 0)];
    tick(&mut particles, &config, fx(1049));
    let k0 = smoothing_kernel(config.smoothing_radius, fx(0));
    let k2 = smoothing_kernel(config.smoothing_radius, fx(2 * 65536));
    assert_eq!(k2.raw, 0);
    let expected = fx(65536).mul(k0).add(fx(65536).mul(k2));
    assert_eq!(particles[0].density.raw, expected.raw);
    assert_eq!(particles[1].density.raw, expected.raw);
    assert_eq!(particles[0].velocity.raw_pair(), (0, 0));
    assert_eq!(particles[1].velocity.raw_pair(), (0, 0));
    assert_eq!(particles[0].position.raw_pair(), (-65536, 0));
    assert_eq!(particles[1].position.raw_pair(), (65536, 0));
}

#[test]
fn near_pair_below_target_density_moves_apart() {
    let config = no_gravity_config();
    let mut particles = vec![particle(-32768, 0, 0, 0), particle(32768, 0, 0, 0)];
    tick(&mut particles, &config, fx(1049));
    assert_eq!(particles[0].velocity.raw_pair(), (-4663, 0));
    assert_eq!(particles[1].velocity.raw_pair(), (4663, 0));
    assert_eq!(particles[0].position.raw_pair(), (-32842, 0));
    assert_eq!(particles[1].position.raw_pair(), (32842, 0));
}

#[test]
fn near_pair_above_target_density_moves_together() {
    let mut config = no_gravity_config();
    config.target_density = fx(0);
    let mut particles = vec![particle(-32768, 0, 0, 0), particle(32768, 0, 0, 0)];
    tick(&mut particles, &config, fx(1049));
    assert_eq!(particles[0].velocity.raw_pair(), (673, 0));
    assert_eq!(particles[1].velocity.raw_pair(), (-673, 0));
}

#[test]
fn gravity_pulls_velocity_downward() {
    let config = SimConfig::default();
    // dt = 0.5: velocity.y falls by gravity * dt = 5 units per second
    let mut particles = vec![particle(0, 0, 0, 0)];
    sph2d::sim::apply_gravity(&mut particles, &config, fx(32768));
    assert_eq!(particles[0].velocity.raw_pair(), (0, -327680));
    assert_eq!(particles[0].position.raw_pair(), (0, 0));
}

#[test]
fn position_advances_by_velocity_times_dt() {
    let mut particles = vec![particle(65536, -65536, 98304, 131072)];
    sph2d::sim::update_position(&mut particles, fx(16384));
    assert_eq!(particles[0].position.raw_pair(), (65536 + 24576, -65536 + 32768));
    assert_eq!(particles[0].velocity.raw_pair(), (98304, 131072));
}

#[test]
fn colocated_snapshot_entry_adds_no_force() {
    // whether the sampled particle's own entry takes part in the sum is
    // immaterial: the kernel slope vanishes at zero distance
    let config = SimConfig::default();
    let with_self = vec![v2(0, 0), v2(32768, 0)];
    let without_self = vec![v2(32768, 0)];
    let den_two = vec![fx(22749), fx(22749)];
    let den_one = vec![fx(22749)];
    let f_with = calculate_pressure_force(v2(0, 0), &with_self, &den_two, &config);
    let f_without = calculate_pressure_force(v2(0, 0), &without_self, &den_one, &config);
    assert_eq!(f_with.raw_pair(), f_without.raw_pair());
}

#[test]
fn pressure_force_of_an_empty_snapshot_is_zero() {
    let config = SimConfig::default();
    let positions: Vec<V2> = Vec::new();
    let densities: Vec<Fx> = Vec::new();
    let f = calculate_pressure_force(v2(0, 0), &positions, &densities, &config);
    assert_eq!(f.raw_pair(), (0, 0));
}
