//! Simulation parameters.  The caller owns the one mutable copy and may
//! edit it between ticks; every pass takes a read-only borrow for the
//! duration of that pass only.

use vstd::prelude::*;

use crate::fixed::{fx_div, fx_mul, Fx, FX_SCALE};
use crate::kernel::{
    cube_s, kernel_s, kernel_volume, pi_r8, pi_r8_s, r8_s, smoothing_kernel, volume_s, FX_PI,
};
use crate::vec2::{V2m, V2};

verus! {

/// Mass shared by all particles, in raw fixed-point units: one unit.
pub const FX_MASS: i64 = 65536;

/// Draw and collision radius of a particle: a tenth of a unit.
pub const FX_PARTICLE_RADIUS: i64 = 6554;

/// The mathematical value of a configuration.
pub ghost struct Cm {
    pub collision_damping: int,
    pub smoothing_radius: int,
    pub bounds_size: V2m,
    pub gravity: int,
    pub particles_num: int,
    pub particles_spacing: int,
    pub target_density: int,
    pub pressure_multiplier: int,
}

#[derive(Clone, Copy, PartialEq, Eq, Structural, Debug)]
pub struct SimConfig {
    /// Velocity kept by the rebounding axis on a wall hit, zero to one.
    pub collision_damping: Fx,
    /// Radius of the smoothing kernel's support.
    pub smoothing_radius: Fx,
    /// Side lengths of the rectangular domain, centred on the origin.
    pub bounds_size: V2,
    /// Downward gravitational acceleration; zero turns gravity off.
    pub gravity: Fx,
    /// Number of particles a scene is built with.
    pub particles_num: u32,
    /// Grid spacing used by the ordered scene layout.
    pub particles_spacing: Fx,
    /// Density the pressure term drives the fluid toward.
    pub target_density: Fx,
    /// Gain applied to the density error.
    pub pressure_multiplier: Fx,
}

impl View for SimConfig {
    type V = Cm;

    open spec fn view(&self) -> Cm {
        Cm {
            collision_damping: self.collision_damping@,
            smoothing_radius: self.smoothing_radius@,
            bounds_size: self.bounds_size@,
            gravity: self.gravity@,
            particles_num: self.particles_num as int,
            particles_spacing: self.particles_spacing@,
            target_density: self.target_density@,
            pressure_multiplier: self.pressure_multiplier@,
        }
    }
}

/// A configuration the simulation accepts: the smoothing radius is
/// positive and coarse enough that the kernel's normalisation and every
/// particle's self-weight survive fixed-point truncation, and the damping
/// factor lies between zero and one.
pub open spec fn config_valid(c: Cm) -> bool {
    &&& 0 < c.smoothing_radius
    &&& pi_r8_s(c.smoothing_radius) >= 1
    &&& volume_s(c.smoothing_radius) >= 1
    &&& fx_mul(FX_MASS as int, kernel_s(c.smoothing_radius, 0)) >= 1
    &&& 0 <= c.collision_damping <= FX_SCALE as int
}

/// Decide `config_valid` at run time, for callers outside the proof
/// boundary that assemble or hot-edit a configuration.
pub fn validate_config(config: &SimConfig) -> (ok: bool)
    ensures
        ok == config_valid(config@),
{
    if config.smoothing_radius.raw <= 0 {
        return false;
    }
    let p8 = pi_r8(config.smoothing_radius);
    if p8.raw < 1 {
        return false;
    }
    let vol = kernel_volume(config.smoothing_radius);
    if vol.raw < 1 {
        return false;
    }
    let self_weight = Fx { raw: FX_MASS }.mul(smoothing_kernel(config.smoothing_radius, Fx::zero()));
    if self_weight.raw < 1 {
        return false;
    }
    0 <= config.collision_damping.raw && config.collision_damping.raw <= FX_SCALE
}

impl Default for SimConfig {
    /// The stock parameters: damping 0.7, radius 1.3, a 15.36 by 8.64
    /// domain, gravity 10, 402 particles spaced 0.22 apart, target
    /// density 2.75, pressure multiplier 0.5.
    fn default() -> (c: SimConfig)
        ensures
            c.collision_damping@ == 45875,
            c.smoothing_radius@ == 85197,
            c.bounds_size@ == (V2m { x: 1006633, y: 566231 }),
            c.gravity@ == 655360,
            c.particles_num == 402,
            c.particles_spacing@ == 14418,
            c.target_density@ == 180224,
            c.pressure_multiplier@ == 32768,
            config_valid(c@),
    {
        let c = SimConfig {
            collision_damping: Fx { raw: 45875 },
            smoothing_radius: Fx { raw: 85197 },
            bounds_size: V2 { x: Fx { raw: 1006633 }, y: Fx { raw: 566231 } },
            gravity: Fx { raw: 655360 },
            particles_num: 402,
            particles_spacing: Fx { raw: 14418 },
            target_density: Fx { raw: 180224 },
            pressure_multiplier: Fx { raw: 32768 },
        };
        proof {
            lemma_default_config_valid();
        }
        c
    }
}

proof fn lemma_default_config_valid()
    ensures
        config_valid(
            Cm {
                collision_damping: 45875,
                smoothing_radius: 85197,
                bounds_size: V2m { x: 1006633, y: 566231 },
                gravity: 655360,
                particles_num: 402,
                particles_spacing: 14418,
                target_density: 180224,
                pressure_multiplier: 32768,
            },
        ),
{
    assert(85197int * 85197int == 7258528809int) by (nonlinear_arith);
    assert(7258528809int / 65536int == 110756int) by (nonlinear_arith);
    assert(fx_mul(85197, 85197) == 110756);
    assert(110756int * 110756int == 12266891536int) by (nonlinear_arith);
    assert(12266891536int / 65536int == 187177int) by (nonlinear_arith);
    assert(fx_mul(110756, 110756) == 187177);
    assert(187177int * 187177int == 35035229329int) by (nonlinear_arith);
    assert(35035229329int / 65536int == 534595int) by (nonlinear_arith);
    assert(fx_mul(187177, 187177) == 534595);
    assert(r8_s(85197) == 534595);
    assert(205887int * 534595int == 110066160765int) by (nonlinear_arith);
    assert(110066160765int / 65536int == 1679476int) by (nonlinear_arith);
    assert(fx_mul(FX_PI as int, 534595) == 1679476);
    assert(pi_r8_s(85197) == 1679476);
    assert(1679476int * 16384int == 27516534784int) by (nonlinear_arith);
    assert(27516534784int / 65536int == 419869int) by (nonlinear_arith);
    assert(fx_mul(1679476, 16384) == 419869);
    assert(volume_s(85197) == 419869);
    assert(110756int * 85197int == 9436078932int) by (nonlinear_arith);
    assert(9436078932int / 65536int == 143983int) by (nonlinear_arith);
    assert(fx_mul(110756, 85197) == 143983);
    assert(cube_s(85197) == 143983);
    assert(143983int * 65536int == 9436069888int) by (nonlinear_arith);
    assert(9436069888int / 419869int == 22473int) by (nonlinear_arith);
    assert(fx_div(143983, 419869) == 22473);
    assert(kernel_s(85197, 0) == 22473);
    assert(65536int * 22473int == 1472790528int) by (nonlinear_arith);
    assert(1472790528int / 65536int == 22473int) by (nonlinear_arith);
    assert(fx_mul(65536, 22473) == 22473);
}

} // verus!
