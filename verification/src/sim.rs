//! The particle store and the per-tick passes: density estimation,
//! pressure forces, integration, and boundary resolution.
//!
//! A tick runs the passes in a fixed order, each over the full output of
//! the one before: densities are estimated from the positions as they
//! stood at the start of the tick, pressure forces read that frozen
//! density field, the integrator advances velocity before position, and
//! the boundary resolver clamps and reflects.  Every pass is specified
//! exactly, so a whole tick is a mathematical function of the particle
//! state, the configuration, and the elapsed time.

use vstd::prelude::*;

use crate::config::{config_valid, Cm, SimConfig, FX_MASS, FX_PARTICLE_RADIUS};
use crate::fixed::{abs_int, fx_add, fx_div, fx_mul, fx_neg, fx_sub, Fx, FX_SCALE};
use crate::kernel::{
    convert_density_to_pressure, deriv_s, kernel_s, lemma_fx_mul_nonneg, lemma_kernel_nonneg,
    pi_r8_s, pressure_s, smoothing_kernel, smoothing_kernel_derivative, volume_s, FX_NEG_24,
};
use crate::vec2::{dist, dist_s, lemma_dist_self_zero, v2_add, v2_scale, V2m, V2};

verus! {

/// The mathematical value of one particle.
pub ghost struct Pm {
    pub pos: V2m,
    pub vel: V2m,
    pub den: int,
}

/// One particle: a position, a velocity, and the density estimated at its
/// position on the current tick.  The density is stale until the density
/// pass of the tick has run.
#[derive(Clone, Copy, PartialEq, Eq, Structural, Debug)]
pub struct Particle {
    pub position: V2,
    pub velocity: V2,
    pub density: Fx,
}

impl View for Particle {
    type V = Pm;

    open spec fn view(&self) -> Pm {
        Pm { pos: self.position@, vel: self.velocity@, den: self.density@ }
    }
}

/// The mathematical value of a particle store.
pub open spec fn views(s: Seq<Particle>) -> Seq<Pm> {
    Seq::new(s.len(), |i: int| s[i]@)
}

/// Running density sum over the first `k` particles, in store order:
/// each contributes `mass * kernel(r, distance to the sample point)`.
pub open spec fn density_terms(ps: Seq<Pm>, r: int, sample: V2m, k: int) -> int
    decreases k,
{
    if k <= 0 {
        0
    } else {
        fx_add(
            density_terms(ps, r, sample, k - 1),
            fx_mul(FX_MASS as int, kernel_s(r, dist_s(sample, ps[k - 1].pos))),
        )
    }
}

/// Density estimated at a sample point: the sum over every particle in
/// the store, the one at the sample point as well.
pub open spec fn density_at(ps: Seq<Pm>, r: int, sample: V2m) -> int {
    density_terms(ps, r, sample, ps.len() as int)
}

/// The density pass: every density is recomputed from all positions;
/// positions and velocities are untouched.
pub open spec fn spec_update_density(ps: Seq<Pm>, c: Cm) -> Seq<Pm> {
    Seq::new(
        ps.len(),
        |i: int| Pm {
            pos: ps[i].pos,
            vel: ps[i].vel,
            den: density_at(ps, c.smoothing_radius, ps[i].pos),
        },
    )
}

/// Recompute every particle's density from the current positions.
pub fn update_density(particles: &mut Vec<Particle>, config: &SimConfig)
    requires
        config_valid(config@),
    ensures
        final(particles)@.len() == old(particles)@.len(),
        views(final(particles)@) == spec_update_density(views(old(particles)@), config@),
{
    let ghost ps0 = views(particles@);
    let n = particles.len();
    let mut out: Vec<Particle> = Vec::new();
    let mut i: usize = 0;
    while i < n
        invariant
            particles@ == old(particles)@,
            n == particles@.len(),
            ps0 == views(particles@),
            i <= n,
            out@.len() == i as int,
            config_valid(config@),
            forall|k: int|
                0 <= k < i ==> views(out@)[k] == spec_update_density(ps0, config@)[k],
        decreases n - i,
    {
        let sample = particles[i].position;
        let mut acc = Fx::zero();
        let mut j: usize = 0;
        while j < n
            invariant
                particles@ == old(particles)@,
                n == particles@.len(),
                ps0 == views(particles@),
                i < n,
                j <= n,
                sample@ == ps0[i as int].pos,
                config_valid(config@),
                acc@ == density_terms(ps0, config@.smoothing_radius, sample@, j as int),
            decreases n - j,
        {
            let d = dist(sample, particles[j].position);
            let w = smoothing_kernel(config.smoothing_radius, d);
            acc = acc.add(Fx { raw: FX_MASS }.mul(w));
            j += 1;
        }
        let ghost out_prev = out@;
        out.push(
            Particle {
                position: particles[i].position,
                velocity: particles[i].velocity,
                density: acc,
            },
        );
        proof {
            assert(acc@ == density_at(ps0, config@.smoothing_radius, ps0[i as int].pos));
            assert forall|k: int|
                0 <= k <= i implies views(out@)[k] == spec_update_density(ps0, config@)[k] by {
                if k < i as int {
                    assert(out@[k] == out_prev[k]);
                    assert(views(out_prev)[k] == spec_update_density(ps0, config@)[k]);
                } else {
                    assert(views(out@)[k] == spec_update_density(ps0, config@)[k]);
                }
            }
        }
        i += 1;
    }
    *particles = out;
    proof {
        assert(views(particles@) =~= spec_update_density(ps0, config@));
    }
}

/// Every term of the density sum is non-negative, so the sum is too.
pub proof fn lemma_density_terms_nonneg(ps: Seq<Pm>, r: int, sample: V2m, k: int)
    requires
        volume_s(r) >= 1,
    ensures
        0 <= density_terms(ps, r, sample, k) <= i64::MAX,
    decreases k,
{
    if k > 0 {
        lemma_density_terms_nonneg(ps, r, sample, k - 1);
        lemma_kernel_nonneg(r, dist_s(sample, ps[k - 1].pos));
        lemma_fx_mul_nonneg(FX_MASS as int, kernel_s(r, dist_s(sample, ps[k - 1].pos)));
    }
}

/// The density sum over `k` particles is at least any single one of its
/// terms: dropping non-negative terms cannot raise a saturating sum.
pub proof fn lemma_density_terms_lower(ps: Seq<Pm>, r: int, sample: V2m, k: int, t: int)
    requires
        volume_s(r) >= 1,
        0 <= t < k <= ps.len(),
    ensures
        density_terms(ps, r, sample, k) >= fx_mul(
            FX_MASS as int,
            kernel_s(r, dist_s(sample, ps[t].pos)),
        ),
    decreases k,
{
    lemma_density_terms_nonneg(ps, r, sample, k - 1);
    lemma_kernel_nonneg(r, dist_s(sample, ps[k - 1].pos));
    lemma_fx_mul_nonneg(FX_MASS as int, kernel_s(r, dist_s(sample, ps[k - 1].pos)));
    if t < k - 1 {
        lemma_density_terms_lower(ps, r, sample, k - 1, t);
        lemma_fx_mul_nonneg(FX_MASS as int, kernel_s(r, dist_s(sample, ps[t].pos)));
    }
}

/// Below this raw distance two particles count as colocated and the
/// pressure direction falls back to the positive x axis.
pub const FX_EPS: i64 = 7;

/// Positions of a particle store.
pub open spec fn pos_of(ps: Seq<Pm>) -> Seq<V2m> {
    Seq::new(ps.len(), |i: int| ps[i].pos)
}

/// Densities of a particle store.
pub open spec fn den_of(ps: Seq<Pm>) -> Seq<int> {
    Seq::new(ps.len(), |i: int| ps[i].den)
}

/// The mathematical values of a position snapshot.
pub open spec fn v2_views(s: Seq<V2>) -> Seq<V2m> {
    Seq::new(s.len(), |i: int| s[i]@)
}

/// The mathematical values of a density snapshot.
pub open spec fn fx_views(s: Seq<Fx>) -> Seq<int> {
    Seq::new(s.len(), |i: int| s[i]@)
}

/// Running pressure-force sum at a sample point over the first `k`
/// particles, in store order.  A neighbour contributes along the unit
/// vector toward it (the positive x axis when it is closer than
/// `FX_EPS`), weighted by its negated pressure, the kernel slope at its
/// distance, and the shared mass over its density.
pub open spec fn pforce_terms(pos: Seq<V2m>, den: Seq<int>, c: Cm, sample: V2m, k: int) -> V2m
    decreases k,
{
    if k <= 0 {
        V2m { x: 0, y: 0 }
    } else {
        let prev = pforce_terms(pos, den, c, sample, k - 1);
        let dst = dist_s(sample, pos[k - 1]);
        let dir = if dst <= FX_EPS as int {
            V2m { x: FX_SCALE as int, y: 0 }
        } else {
            V2m {
                x: fx_div(fx_sub(pos[k - 1].x, sample.x), dst),
                y: fx_div(fx_sub(pos[k - 1].y, sample.y), dst),
            }
        };
        let slope = deriv_s(c.smoothing_radius, dst);
        let pr = fx_neg(pressure_s(den[k - 1], c.target_density, c.pressure_multiplier));
        let coef = fx_div(fx_mul(fx_mul(pr, slope), FX_MASS as int), den[k - 1]);
        V2m { x: fx_add(prev.x, fx_mul(dir.x, coef)), y: fx_add(prev.y, fx_mul(dir.y, coef)) }
    }
}

/// Pressure force at a sample point: the sum over the whole store.
pub open spec fn pforce_s(pos: Seq<V2m>, den: Seq<int>, c: Cm, sample: V2m) -> V2m {
    pforce_terms(pos, den, c, sample, pos.len() as int)
}

/// Pressure force at `sample_point`, from a frozen snapshot of all
/// positions and the densities estimated from them this tick.
///
/// Densities must be at least one raw unit each; the density pass
/// guarantees that (`lemma_densities_positive`).
pub fn calculate_pressure_force(
    sample_point: V2,
    positions: &Vec<V2>,
    densities: &Vec<Fx>,
    config: &SimConfig,
) -> (r: V2)
    requires
        positions@.len() == densities@.len(),
        config_valid(config@),
        forall|k: int| 0 <= k < densities@.len() ==> #[trigger] densities@[k]@ >= 1,
    ensures
        r@ == pforce_s(v2_views(positions@), fx_views(densities@), config@, sample_point@),
{
    let n = positions.len();
    let mut force = V2::zero();
    let mut j: usize = 0;
    while j < n
        invariant
            n == positions@.len(),
            n == densities@.len(),
            config_valid(config@),
            forall|k: int| 0 <= k < densities@.len() ==> #[trigger] densities@[k]@ >= 1,
            j <= n,
            force@ == pforce_terms(
                v2_views(positions@),
                fx_views(densities@),
                config@,
                sample_point@,
                j as int,
            ),
        decreases n - j,
    {
        let dst = dist(sample_point, positions[j]);
        let dir = if dst.raw <= FX_EPS {
            V2 { x: Fx { raw: FX_SCALE }, y: Fx::zero() }
        } else {
            let delta = positions[j].sub(sample_point);
            V2 { x: delta.x.div(dst), y: delta.y.div(dst) }
        };
        let slope = smoothing_kernel_derivative(config.smoothing_radius, dst);
        let pr = convert_density_to_pressure(
            densities[j],
            config.target_density,
            config.pressure_multiplier,
        ).neg();
        let coef = pr.mul(slope).mul(Fx { raw: FX_MASS }).div(densities[j]);
        force = force.add(dir.scale(coef));
        j += 1;
    }
    force
}

/// The pressure pass: every velocity gains `dt` times the pressure
/// acceleration, force over own density; positions and densities are
/// untouched, and the density field read is the frozen one.
pub open spec fn spec_apply_pressure(ps: Seq<Pm>, c: Cm, dt: int) -> Seq<Pm> {
    Seq::new(
        ps.len(),
        |i: int|
            {
                let f = pforce_s(pos_of(ps), den_of(ps), c, ps[i].pos);
                Pm {
                    pos: ps[i].pos,
                    vel: V2m {
                        x: fx_add(ps[i].vel.x, fx_mul(fx_div(f.x, ps[i].den), dt)),
                        y: fx_add(ps[i].vel.y, fx_mul(fx_div(f.y, ps[i].den), dt)),
                    },
                    den: ps[i].den,
                }
            },
    )
}

/// Advance every velocity by this tick's pressure acceleration.
pub fn apply_pressure_force(particles: &mut Vec<Particle>, config: &SimConfig, dt: Fx)
    requires
        config_valid(config@),
        forall|k: int|
            0 <= k < old(particles)@.len() ==> #[trigger] old(particles)@[k]@.den >= 1,
    ensures
        final(particles)@.len() == old(particles)@.len(),
        views(final(particles)@) == spec_apply_pressure(views(old(particles)@), config@, dt@),
{
    let ghost ps0 = views(particles@);
    let n = particles.len();
    let mut positions: Vec<V2> = Vec::new();
    let mut densities: Vec<Fx> = Vec::new();
    let mut i: usize = 0;
    while i < n
        invariant
            particles@ == old(particles)@,
            n == particles@.len(),
            ps0 == views(particles@),
            i <= n,
            positions@.len() == i as int,
            densities@.len() == i as int,
            forall|k: int| 0 <= k < i ==> #[trigger] positions@[k]@ == ps0[k].pos,
            forall|k: int| 0 <= k < i ==> #[trigger] densities@[k]@ == ps0[k].den,
        decreases n - i,
    {
        positions.push(particles[i].position);
        densities.push(particles[i].density);
        i += 1;
    }
    proof {
        assert(v2_views(positions@) =~= pos_of(ps0));
        assert(fx_views(densities@) =~= den_of(ps0));
    }
    let mut out: Vec<Particle> = Vec::new();
    let mut i2: usize = 0;
    while i2 < n
        invariant
            particles@ == old(particles)@,
            n == particles@.len(),
            ps0 == views(particles@),
            config_valid(config@),
            forall|k: int| 0 <= k < ps0.len() ==> #[trigger] ps0[k].den >= 1,
            n == positions@.len(),
            n == densities@.len(),
            v2_views(positions@) == pos_of(ps0),
            fx_views(densities@) == den_of(ps0),
            i2 <= n,
            out@.len() == i2 as int,
            forall|k: int|
                0 <= k < i2 ==> views(out@)[k] == spec_apply_pressure(ps0, config@, dt@)[k],
        decreases n - i2,
    {
        let p = particles[i2];
        proof {
            assert forall|k: int| 0 <= k < densities@.len() implies #[trigger] densities@[k]@
                >= 1 by {
                assert(fx_views(densities@)[k] == den_of(ps0)[k]);
            }
            assert(p.density@ == ps0[i2 as int].den);
        }
        let force = calculate_pressure_force(p.position, &positions, &densities, config);
        let accel = V2 { x: force.x.div(p.density), y: force.y.div(p.density) };
        let ghost out_prev = out@;
        out.push(
            Particle {
                position: p.position,
                velocity: p.velocity.add(accel.scale(dt)),
                density: p.density,
            },
        );
        proof {
            assert forall|k: int|
                0 <= k <= i2 implies views(out@)[k] == spec_apply_pressure(ps0, config@, dt@)[k] by {
                if k < i2 as int {
                    assert(out@[k] == out_prev[k]);
                    assert(views(out_prev)[k] == spec_apply_pressure(ps0, config@, dt@)[k]);
                } else {
                    assert(views(out@)[k] == spec_apply_pressure(ps0, config@, dt@)[k]);
                }
            }
        }
        i2 += 1;
    }
    *particles = out;
    proof {
        assert(views(particles@) =~= spec_apply_pressure(ps0, config@, dt@));
    }
}

/// One half in raw fixed-point units.
pub const FX_HALF: i64 = 32768;

/// The gravity pass: every vertical velocity falls by `gravity * dt`.
pub open spec fn spec_apply_gravity(ps: Seq<Pm>, c: Cm, dt: int) -> Seq<Pm> {
    Seq::new(
        ps.len(),
        |i: int| Pm {
            pos: ps[i].pos,
            vel: V2m { x: ps[i].vel.x, y: fx_sub(ps[i].vel.y, fx_mul(c.gravity, dt)) },
            den: ps[i].den,
        },
    )
}

/// Pull every particle downward for `dt` seconds.
pub fn apply_gravity(particles: &mut Vec<Particle>, config: &SimConfig, dt: Fx)
    ensures
        final(particles)@.len() == old(particles)@.len(),
        views(final(particles)@) == spec_apply_gravity(views(old(particles)@), config@, dt@),
{
    let ghost ps0 = views(particles@);
    let g = config.gravity.mul(dt);
    let n = particles.len();
    let mut out: Vec<Particle> = Vec::new();
    let mut i: usize = 0;
    while i < n
        invariant
            particles@ == old(particles)@,
            n == particles@.len(),
            ps0 == views(particles@),
            g@ == fx_mul(config@.gravity, dt@),
            i <= n,
            out@.len() == i as int,
            forall|k: int|
                0 <= k < i ==> views(out@)[k] == spec_apply_gravity(ps0, config@, dt@)[k],
        decreases n - i,
    {
        let p = particles[i];
        let ghost out_prev = out@;
        out.push(
            Particle {
                position: p.position,
                velocity: V2 { x: p.velocity.x, y: p.velocity.y.sub(g) },
                density: p.density,
            },
        );
        proof {
            assert forall|k: int|
                0 <= k <= i implies views(out@)[k] == spec_apply_gravity(ps0, config@, dt@)[k] by {
                if k < i as int {
                    assert(out@[k] == out_prev[k]);
                    assert(views(out_prev)[k] == spec_apply_gravity(ps0, config@, dt@)[k]);
                } else {
                    assert(views(out@)[k] == spec_apply_gravity(ps0, config@, dt@)[k]);
                }
            }
        }
        i += 1;
    }
    *particles = out;
    proof {
        assert(views(particles@) =~= spec_apply_gravity(ps0, config@, dt@));
    }
}

/// The position pass: every position advances by `velocity * dt`, with
/// the velocity the integrator has already updated this tick.
pub open spec fn spec_update_position(ps: Seq<Pm>, dt: int) -> Seq<Pm> {
    Seq::new(
        ps.len(),
        |i: int| Pm {
            pos: v2_add(ps[i].pos, v2_scale(ps[i].vel, dt)),
            vel: ps[i].vel,
            den: ps[i].den,
        },
    )
}

/// Advance every position by its velocity for `dt` seconds.
pub fn update_position(particles: &mut Vec<Particle>, dt: Fx)
    ensures
        final(particles)@.len() == old(particles)@.len(),
        views(final(particles)@) == spec_update_position(views(old(particles)@), dt@),
{
    let ghost ps0 = views(particles@);
    let n = particles.len();
    let mut out: Vec<Particle> = Vec::new();
    let mut i: usize = 0;
    while i < n
        invariant
            particles@ == old(particles)@,
            n == particles@.len(),
            ps0 == views(particles@),
            i <= n,
            out@.len() == i as int,
            forall|k: int| 0 <= k < i ==> views(out@)[k] == spec_update_position(ps0, dt@)[k],
        decreases n - i,
    {
        let p = particles[i];
        let ghost out_prev = out@;
        out.push(
            Particle {
                position: p.position.add(p.velocity.scale(dt)),
                velocity: p.velocity,
                density: p.density,
            },
        );
        proof {
            assert forall|k: int|
                0 <= k <= i implies views(out@)[k] == spec_update_position(ps0, dt@)[k] by {
                if k < i as int {
                    assert(out@[k] == out_prev[k]);
                    assert(views(out_prev)[k] == spec_update_position(ps0, dt@)[k]);
                } else {
                    assert(views(out@)[k] == spec_update_position(ps0, dt@)[k]);
                }
            }
        }
        i += 1;
    }
    *particles = out;
    proof {
        assert(views(particles@) =~= spec_update_position(ps0, dt@));
    }
}

/// Half extents of the domain: half the side length less the particle
/// radius, per axis.
pub open spec fn half_extent_s(c: Cm) -> V2m {
    V2m {
        x: fx_sub(fx_mul(c.bounds_size.x, FX_HALF as int), FX_PARTICLE_RADIUS as int),
        y: fx_sub(fx_mul(c.bounds_size.y, FX_HALF as int), FX_PARTICLE_RADIUS as int),
    }
}

/// Boundary resolution of one particle: an axis whose position exceeds
/// the half extent is clamped to it, keeping its sign, and that axis of
/// the velocity is reversed and damped.  The axes are resolved
/// independently in one pass.
pub open spec fn resolve_one_s(p: Pm, h: V2m, damping: int) -> Pm {
    let nd = fx_neg(damping);
    let hit_x = abs_int(p.pos.x) > h.x;
    let hit_y = abs_int(p.pos.y) > h.y;
    Pm {
        pos: V2m {
            x: if hit_x {
                if p.pos.x > 0 {
                    h.x
                } else if p.pos.x < 0 {
                    fx_neg(h.x)
                } else {
                    0
                }
            } else {
                p.pos.x
            },
            y: if hit_y {
                if p.pos.y > 0 {
                    h.y
                } else if p.pos.y < 0 {
                    fx_neg(h.y)
                } else {
                    0
                }
            } else {
                p.pos.y
            },
        },
        vel: V2m {
            x: if hit_x {
                fx_mul(p.vel.x, nd)
            } else {
                p.vel.x
            },
            y: if hit_y {
                fx_mul(p.vel.y, nd)
            } else {
                p.vel.y
            },
        },
        den: p.den,
    }
}

/// The boundary pass: every particle is resolved independently.
pub open spec fn spec_resolve(ps: Seq<Pm>, c: Cm) -> Seq<Pm> {
    Seq::new(ps.len(), |i: int| resolve_one_s(ps[i], half_extent_s(c), c.collision_damping))
}

/// Whether the magnitude of `x` exceeds `h`.
fn abs_gt(x: i64, h: i64) -> (b: bool)
    ensures
        b == (abs_int(x as int) > h as int),
{
    if h < 0 {
        true
    } else if x >= 0 {
        x > h
    } else {
        x < -h
    }
}

/// The half extent with the sign of `x`.
fn signed_extent(x: i64, h: Fx) -> (r: Fx)
    ensures
        r@ == if x > 0 {
            h@
        } else if x < 0 {
            fx_neg(h@)
        } else {
            0int
        },
{
    if x > 0 {
        h
    } else if x < 0 {
        h.neg()
    } else {
        Fx::zero()
    }
}

/// Clamp every particle into the domain and reflect, with damping, the
/// velocity of each axis that was out.
pub fn resolve_collision(particles: &mut Vec<Particle>, config: &SimConfig)
    ensures
        final(particles)@.len() == old(particles)@.len(),
        views(final(particles)@) == spec_resolve(views(old(particles)@), config@),
{
    let ghost ps0 = views(particles@);
    let half = V2 {
        x: config.bounds_size.x.mul(Fx { raw: FX_HALF }).sub(Fx { raw: FX_PARTICLE_RADIUS }),
        y: config.bounds_size.y.mul(Fx { raw: FX_HALF }).sub(Fx { raw: FX_PARTICLE_RADIUS }),
    };
    let nd = config.collision_damping.neg();
    let n = particles.len();
    let mut out: Vec<Particle> = Vec::new();
    let mut i: usize = 0;
    while i < n
        invariant
            particles@ == old(particles)@,
            n == particles@.len(),
            ps0 == views(particles@),
            half@ == half_extent_s(config@),
            nd@ == fx_neg(config@.collision_damping),
            i <= n,
            out@.len() == i as int,
            forall|k: int| 0 <= k < i ==> views(out@)[k] == spec_resolve(ps0, config@)[k],
        decreases n - i,
    {
        let p = particles[i];
        let mut pos = p.position;
        let mut vel = p.velocity;
        if abs_gt(p.position.x.raw, half.x.raw) {
            pos = V2 { x: signed_extent(p.position.x.raw, half.x), y: pos.y };
            vel = V2 { x: vel.x.mul(nd), y: vel.y };
        }
        if abs_gt(p.position.y.raw, half.y.raw) {
            pos = V2 { x: pos.x, y: signed_extent(p.position.y.raw, half.y) };
            vel = V2 { x: vel.x, y: vel.y.mul(nd) };
        }
        let ghost out_prev = out@;
        out.push(Particle { position: pos, velocity: vel, density: p.density });
        proof {
            assert forall|k: int|
                0 <= k <= i implies views(out@)[k] == spec_resolve(ps0, config@)[k] by {
                if k < i as int {
                    assert(out@[k] == out_prev[k]);
                    assert(views(out_prev)[k] == spec_resolve(ps0, config@)[k]);
                } else {
                    assert(views(out@)[k] == spec_resolve(ps0, config@)[k]);
                }
            }
        }
        i += 1;
    }
    *particles = out;
    proof {
        assert(views(particles@) =~= spec_resolve(ps0, config@));
    }
}

/// One whole tick: density from the start-of-tick positions, pressure
/// from that frozen field, gravity, velocity before position, then the
/// boundary.
pub open spec fn spec_tick(ps: Seq<Pm>, c: Cm, dt: int) -> Seq<Pm> {
    spec_resolve(
        spec_update_position(
            spec_apply_gravity(spec_apply_pressure(spec_update_density(ps, c), c, dt), c, dt),
            dt,
        ),
        c,
    )
}

/// Advance the simulation by `dt` seconds.
pub fn tick(particles: &mut Vec<Particle>, config: &SimConfig, dt: Fx)
    requires
        config_valid(config@),
        dt@ >= 0,
    ensures
        final(particles)@.len() == old(particles)@.len(),
        views(final(particles)@) == spec_tick(views(old(particles)@), config@, dt@),
{
    let ghost ps0 = views(particles@);
    update_density(particles, config);
    proof {
        lemma_densities_positive(ps0, config@);
        assert forall|k: int|
            0 <= k < particles@.len() implies #[trigger] particles@[k]@.den >= 1 by {
            assert(views(particles@)[k] == spec_update_density(ps0, config@)[k]);
        }
    }
    apply_pressure_force(particles, config, dt);
    apply_gravity(particles, config, dt);
    update_position(particles, dt);
    resolve_collision(particles, config);
}

/// After the density pass every particle's density is at least its own
/// self-weight, hence at least one raw unit: the divisions of the
/// pressure pass are safe.
pub proof fn lemma_densities_positive(ps: Seq<Pm>, c: Cm)
    requires
        config_valid(c),
    ensures
        forall|i: int| 0 <= i < ps.len() ==> spec_update_density(ps, c)[i].den >= 1,
{
    assert forall|i: int| 0 <= i < ps.len() implies spec_update_density(ps, c)[i].den >= 1 by {
        lemma_dist_self_zero(ps[i].pos);
        lemma_density_terms_lower(ps, c.smoothing_radius, ps[i].pos, ps.len() as int, i);
    }
}

/// Whether a particle lies within the half extents on both axes.
pub open spec fn in_bounds(p: Pm, h: V2m) -> bool {
    abs_int(p.pos.x) <= h.x && abs_int(p.pos.y) <= h.y
}

/// Boundary resolution leaves a particle that is already in bounds
/// exactly as it is, position and velocity both; in particular running
/// it twice in a row is the same as running it once.
pub proof fn lemma_resolve_in_bounds_identity(p: Pm, h: V2m, damping: int)
    requires
        in_bounds(p, h),
    ensures
        resolve_one_s(p, h, damping) == p,
{
}

/// After boundary resolution a particle lies in bounds: each axis is at
/// most the (non-negative) half extent in magnitude.
pub proof fn lemma_resolve_lands_in_bounds(p: Pm, h: V2m, damping: int)
    requires
        h.x >= 0,
        h.y >= 0,
    ensures
        in_bounds(resolve_one_s(p, h, damping), h),
{
}

/// Boundary resolution is idempotent whenever the half extents are
/// non-negative: the first pass lands every axis inside them, and a
/// second pass then changes nothing.
pub proof fn lemma_resolve_idempotent(p: Pm, h: V2m, damping: int)
    requires
        h.x >= 0,
        h.y >= 0,
    ensures
        resolve_one_s(resolve_one_s(p, h, damping), h, damping) == resolve_one_s(p, h, damping),
{
    lemma_resolve_lands_in_bounds(p, h, damping);
    lemma_resolve_in_bounds_identity(resolve_one_s(p, h, damping), h, damping);
}

/// The reflection law: a particle past the right half extent by any
/// positive amount comes back exactly onto it, with its horizontal
/// velocity reversed and damped; its other fields are untouched.
pub proof fn lemma_resolve_reflects(p: Pm, h: V2m, damping: int)
    requires
        h.x >= 0,
        p.pos.x > h.x,
    ensures
        resolve_one_s(p, h, damping).pos.x == h.x,
        resolve_one_s(p, h, damping).vel.x == fx_mul(p.vel.x, fx_neg(damping)),
        resolve_one_s(p, h, damping).den == p.den,
{
}

/// At or beyond the smoothing radius a pair contributes nothing to each
/// other's density, so two particles separated by exactly the radius
/// each keep only their own self-weight, `mass * kernel(r, 0)`.
pub proof fn lemma_pair_density_is_self_weight(ps: Seq<Pm>, c: Cm)
    requires
        config_valid(c),
        ps.len() == 2,
        dist_s(ps[0].pos, ps[1].pos) >= c.smoothing_radius,
        dist_s(ps[1].pos, ps[0].pos) >= c.smoothing_radius,
    ensures
        spec_update_density(ps, c)[0].den == fx_mul(
            FX_MASS as int,
            kernel_s(c.smoothing_radius, 0),
        ),
        spec_update_density(ps, c)[1].den == fx_mul(
            FX_MASS as int,
            kernel_s(c.smoothing_radius, 0),
        ),
{
    let r = c.smoothing_radius;
    lemma_dist_self_zero(ps[0].pos);
    lemma_dist_self_zero(ps[1].pos);
    lemma_kernel_nonneg(r, 0);
    lemma_fx_mul_nonneg(FX_MASS as int, kernel_s(r, 0));
    assert(0int / 65536int == 0int) by (nonlinear_arith);
    assert(fx_mul(FX_MASS as int, 0) == 0);
    assert(density_terms(ps, r, ps[0].pos, 0) == 0);
    assert(density_terms(ps, r, ps[0].pos, 1) == fx_add(
        0,
        fx_mul(FX_MASS as int, kernel_s(r, dist_s(ps[0].pos, ps[0].pos))),
    ));
    assert(density_terms(ps, r, ps[0].pos, 2) == fx_add(
        density_terms(ps, r, ps[0].pos, 1),
        fx_mul(FX_MASS as int, kernel_s(r, dist_s(ps[0].pos, ps[1].pos))),
    ));
    assert(density_terms(ps, r, ps[1].pos, 0) == 0);
    assert(density_terms(ps, r, ps[1].pos, 1) == fx_add(
        0,
        fx_mul(FX_MASS as int, kernel_s(r, dist_s(ps[1].pos, ps[0].pos))),
    ));
    assert(density_terms(ps, r, ps[1].pos, 2) == fx_add(
        density_terms(ps, r, ps[1].pos, 1),
        fx_mul(FX_MASS as int, kernel_s(r, dist_s(ps[1].pos, ps[1].pos))),
    ));
}

/// The kernel slope at distance zero is exactly zero.
pub proof fn lemma_derivative_zero_at_origin(r: int)
    ensures
        deriv_s(r, 0) == 0,
{
    if 0 < r {
        assert(0int / 65536int == 0int) by (nonlinear_arith);
        let f = fx_sub(fx_mul(r, r), fx_mul(0, 0));
        let scale = fx_div(FX_NEG_24 as int, pi_r8_s(r));
        assert(fx_mul(scale, 0) == 0);
        assert(fx_mul(0, f) == 0);
    }
}

/// Every partial pressure-force sum stays within the `i64` range.
pub proof fn lemma_pforce_terms_in_range(pos: Seq<V2m>, den: Seq<int>, c: Cm, sample: V2m, k: int)
    ensures
        i64::MIN <= pforce_terms(pos, den, c, sample, k).x <= i64::MAX,
        i64::MIN <= pforce_terms(pos, den, c, sample, k).y <= i64::MAX,
    decreases k,
{
    if k > 0 {
        lemma_pforce_terms_in_range(pos, den, c, sample, k - 1);
    }
}

/// A neighbour at distance zero from the sample point adds nothing to
/// the pressure-force sum: the kernel slope vanishes at the origin, so
/// whether a particle's own entry takes part in the sum is immaterial.
pub proof fn lemma_colocated_term_adds_nothing(
    pos: Seq<V2m>,
    den: Seq<int>,
    c: Cm,
    sample: V2m,
    k: int,
)
    requires
        1 <= k <= pos.len(),
        dist_s(sample, pos[k - 1]) == 0,
    ensures
        pforce_terms(pos, den, c, sample, k) == pforce_terms(pos, den, c, sample, k - 1),
{
    lemma_derivative_zero_at_origin(c.smoothing_radius);
    lemma_pforce_terms_in_range(pos, den, c, sample, k - 1);
    assert(0int / 65536int == 0int) by (nonlinear_arith);
    let pr = fx_neg(pressure_s(den[k - 1], c.target_density, c.pressure_multiplier));
    assert(fx_mul(pr, 0) == 0);
    assert(fx_mul(0, FX_MASS as int) == 0);
    assert(fx_div(0, den[k - 1]) == 0);
    assert(fx_mul(FX_SCALE as int, 0) == 0);
    assert(fx_mul(0, 0) == 0);
}

/// After a tick every particle lies inside the configured domain: the
/// boundary pass runs last, so each axis ends within its half extent
/// whenever the half extents are non-negative.
pub proof fn lemma_tick_lands_in_bounds(ps: Seq<Pm>, c: Cm, dt: int)
    requires
        half_extent_s(c).x >= 0,
        half_extent_s(c).y >= 0,
    ensures
        forall|i: int|
            0 <= i < spec_tick(ps, c, dt).len() ==> in_bounds(
                #[trigger] spec_tick(ps, c, dt)[i],
                half_extent_s(c),
            ),
{
    let before = spec_update_position(
        spec_apply_gravity(spec_apply_pressure(spec_update_density(ps, c), c, dt), c, dt),
        dt,
    );
    assert forall|i: int|
        0 <= i < spec_tick(ps, c, dt).len() implies in_bounds(
        #[trigger] spec_tick(ps, c, dt)[i],
        half_extent_s(c),
    ) by {
        lemma_resolve_lands_in_bounds(before[i], half_extent_s(c), c.collision_damping);
        assert(spec_tick(ps, c, dt)[i] == resolve_one_s(
            before[i],
            half_extent_s(c),
            c.collision_damping,
        ));
    }
}

/// Determinism: a tick is a mathematical function of the particle state,
/// the configuration, and the elapsed time, so two runs over equal
/// inputs give equal outputs.  Together with `tick`'s contract, two
/// executions of `tick` from equal stores agree exactly.
pub proof fn lemma_tick_deterministic(
    ps1: Seq<Pm>,
    c1: Cm,
    dt1: int,
    ps2: Seq<Pm>,
    c2: Cm,
    dt2: int,
)
    requires
        ps1 == ps2,
        c1 == c2,
        dt1 == dt2,
    ensures
        spec_tick(ps1, c1, dt1) == spec_tick(ps2, c2, dt2),
{
}

} // verus!
