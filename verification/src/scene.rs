//! Deterministic scene setup: a centred, row-major grid of particles.
//!
//! The grid puts `ceil(sqrt(n))` particles in a row, spaced by the
//! configured spacing and centred on the origin.  Initial velocities are
//! zero and initial densities are a placeholder the first density pass
//! overwrites.

use vstd::prelude::*;

use crate::fixed::{isqrt_u128, mul_int_half, sat64, sqrt_nat, tdiv, Fx, FX_SCALE};
use crate::sim::{Particle, Pm};
use crate::vec2::{V2m, V2};

verus! {

/// Particles per grid row: the least `p` with `p * p >= n`.
pub open spec fn grid_per_row(n: nat) -> nat {
    if sqrt_nat(n) * sqrt_nat(n) == n {
        sqrt_nat(n)
    } else {
        sqrt_nat(n) + 1
    }
}

/// Grid rows: `n` split into rows of `grid_per_row(n)`, rounded up.
pub open spec fn grid_per_col(n: nat) -> nat {
    if n == 0 {
        0
    } else {
        (((n + grid_per_row(n) - 1) as int) / (grid_per_row(n) as int)) as nat
    }
}

/// Coordinate of slot `idx` out of `count` along one axis: slots sit at
/// half-spacing offsets centred on the origin.
pub open spec fn grid_coord(idx: int, count: int, spacing: int) -> int {
    sat64(tdiv(spacing * (2 * idx + 1 - count), 2))
}

/// Position of particle `i` in a grid of `n`: row-major order.
pub open spec fn grid_pos_s(i: int, n: nat, spacing: int) -> V2m {
    let pr = grid_per_row(n) as int;
    V2m {
        x: grid_coord(i % pr, pr, spacing),
        y: grid_coord(i / pr, grid_per_col(n) as int, spacing),
    }
}

/// Build a centred grid scene of `n` particles, at rest, densities not
/// yet estimated.
pub fn spawn_grid_scene(n: u32, spacing: Fx) -> (r: Vec<Particle>)
    ensures
        r@.len() == n as int,
        forall|i: int|
            0 <= i < n as int ==> (#[trigger] r@[i]@) == (Pm {
                pos: grid_pos_s(i, n as nat, spacing@),
                vel: V2m { x: 0, y: 0 },
                den: 0,
            }),
{
    let mut out: Vec<Particle> = Vec::new();
    if n == 0 {
        return out;
    }
    let s128 = isqrt_u128(n as u128);
    proof {
        assert(s128 <= n as u128) by (nonlinear_arith)
            requires
                s128 * s128 <= n as u128,
        ;
    }
    let s: u64 = s128 as u64;
    let per_row: u64 = if s * s == n as u64 {
        s
    } else {
        s + 1
    };
    let per_col: u64 = (n as u64 + per_row - 1) / per_row;
    proof {
        assert(per_row as nat == grid_per_row(n as nat));
        assert(per_col as nat == grid_per_col(n as nat));
        assert(per_col <= n as u64 + per_row) by (nonlinear_arith)
            requires
                per_col == (n as u64 + per_row - 1) as int / per_row as int,
                per_row >= 1,
                n as u64 >= 1,
        ;
    }
    let count: usize = n as usize;
    let mut i: usize = 0;
    while i < count
        invariant
            count == n as int,
            1 <= per_row <= n as u64 + 1,
            per_row as nat == grid_per_row(n as nat),
            per_col as nat == grid_per_col(n as nat),
            per_col <= n as u64 + per_row,
            i <= count,
            out@.len() == i as int,
            forall|j: int|
                0 <= j < i ==> (#[trigger] out@[j]@) == (Pm {
                    pos: grid_pos_s(j, n as nat, spacing@),
                    vel: V2m { x: 0, y: 0 },
                    den: 0,
                }),
        decreases count - i,
    {
        let col: u64 = i as u64 % per_row;
        let row: u64 = i as u64 / per_row;
        let kx: i64 = 2 * (col as i64) + 1 - (per_row as i64);
        let ky: i64 = 2 * (row as i64) + 1 - (per_col as i64);
        let pos = V2 { x: mul_int_half(spacing, kx), y: mul_int_half(spacing, ky) };
        let ghost out_prev = out@;
        out.push(Particle { position: pos, velocity: V2::zero(), density: Fx::zero() });
        proof {
            assert(out@[i as int]@ == (Pm {
                pos: grid_pos_s(i as int, n as nat, spacing@),
                vel: V2m { x: 0, y: 0 },
                den: 0,
            }));
            assert forall|j: int|
                0 <= j < i + 1 implies (#[trigger] out@[j]@) == (Pm {
                pos: grid_pos_s(j, n as nat, spacing@),
                vel: V2m { x: 0, y: 0 },
                den: 0,
            }) by {
                if j < i as int {
                    assert(out@[j] == out_prev[j]);
                }
            }
        }
        i += 1;
    }
    out
}

/// Build a scene from coordinate samples drawn elsewhere, one particle
/// per pair, in order: at rest, density seeded to one unit until the
/// first density pass overwrites it.  The caller draws the samples
/// (uniformly within the shrunk bounds, for the random layout) and this
/// assembles the store.
pub fn spawn_scene_from_samples(xs: &Vec<Fx>, ys: &Vec<Fx>) -> (r: Vec<Particle>)
    requires
        xs@.len() == ys@.len(),
    ensures
        r@.len() == xs@.len(),
        forall|i: int|
            0 <= i < xs@.len() ==> (#[trigger] r@[i]@) == (Pm {
                pos: V2m { x: xs@[i]@, y: ys@[i]@ },
                vel: V2m { x: 0, y: 0 },
                den: FX_SCALE as int,
            }),
{
    let n = xs.len();
    let mut out: Vec<Particle> = Vec::new();
    let mut i: usize = 0;
    while i < n
        invariant
            n == xs@.len(),
            n == ys@.len(),
            i <= n,
            out@.len() == i as int,
            forall|j: int|
                0 <= j < i ==> (#[trigger] out@[j]@) == (Pm {
                    pos: V2m { x: xs@[j]@, y: ys@[j]@ },
                    vel: V2m { x: 0, y: 0 },
                    den: FX_SCALE as int,
                }),
        decreases n - i,
    {
        let ghost out_prev = out@;
        out.push(
            Particle {
                position: V2 { x: xs[i], y: ys[i] },
                velocity: V2::zero(),
                density: Fx::one(),
            },
        );
        proof {
            assert forall|j: int|
                0 <= j < i + 1 implies (#[trigger] out@[j]@) == (Pm {
                pos: V2m { x: xs@[j]@, y: ys@[j]@ },
                vel: V2m { x: 0, y: 0 },
                den: FX_SCALE as int,
            }) by {
                if j < i as int {
                    assert(out@[j] == out_prev[j]);
                }
            }
        }
        i += 1;
    }
    out
}

} // verus!
