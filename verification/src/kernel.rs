//! Smoothing-kernel mathematics: the kernel, its derivative, and the linear
//! equation of state turning a density error into a pressure.

use vstd::prelude::*;

use crate::fixed::{fx_div, fx_mul, fx_sub, sat64, tdiv, Fx, FX_SCALE};

verus! {

/// The constant pi in raw fixed-point units.
pub const FX_PI: i64 = 205887;

/// One quarter in raw fixed-point units.
pub const FX_QUARTER: i64 = 16384;

/// Minus twenty-four in raw fixed-point units.
pub const FX_NEG_24: i64 = -1572864;

/// Eighth power of the smoothing radius, by repeated squaring.
pub open spec fn r8_s(r: int) -> int {
    fx_mul(fx_mul(fx_mul(r, r), fx_mul(r, r)), fx_mul(fx_mul(r, r), fx_mul(r, r)))
}

/// `pi * r^8`.
pub open spec fn pi_r8_s(r: int) -> int {
    fx_mul(FX_PI as int, r8_s(r))
}

/// The kernel's normalising volume, `pi * r^8 / 4`.
pub open spec fn volume_s(r: int) -> int {
    fx_mul(pi_r8_s(r), FX_QUARTER as int)
}

/// Fixed-point cube.
pub open spec fn cube_s(v: int) -> int {
    fx_mul(fx_mul(v, v), v)
}

/// Kernel weight at distance `d` for radius `r`: `(r - d)^3 / volume`
/// inside the support, exactly zero at and beyond it.
pub open spec fn kernel_s(r: int, d: int) -> int {
    if d >= r {
        0
    } else {
        fx_div(cube_s(r - d), volume_s(r))
    }
}

/// Kernel slope at distance `d`: `-24 / (pi * r^8) * d * (r^2 - d^2)^2`
/// inside the support, exactly zero at and beyond it.
pub open spec fn deriv_s(r: int, d: int) -> int {
    if d >= r {
        0
    } else {
        let f = fx_sub(fx_mul(r, r), fx_mul(d, d));
        let scale = fx_div(FX_NEG_24 as int, pi_r8_s(r));
        fx_mul(fx_mul(fx_mul(scale, d), f), f)
    }
}

/// Linear equation of state: `(density - target) * multiplier`.
pub open spec fn pressure_s(density: int, target: int, multiplier: int) -> int {
    fx_mul(fx_sub(density, target), multiplier)
}

/// `pi * r^8` for a radius, as a value.
pub fn pi_r8(radius: Fx) -> (r: Fx)
    ensures
        r@ == pi_r8_s(radius@),
{
    let r2 = radius.mul(radius);
    let r4 = r2.mul(r2);
    let r8 = r4.mul(r4);
    Fx { raw: FX_PI }.mul(r8)
}

/// The kernel's normalising volume for a radius.
pub fn kernel_volume(radius: Fx) -> (r: Fx)
    ensures
        r@ == volume_s(radius@),
{
    pi_r8(radius).mul(Fx { raw: FX_QUARTER })
}

/// Kernel weight of a neighbour at distance `dst`.
///
/// The radius must be positive and coarse enough that the normalising
/// volume is at least one raw unit; a non-positive radius is a
/// configuration error that the caller rules out.
pub fn smoothing_kernel(radius: Fx, dst: Fx) -> (r: Fx)
    requires
        dst@ >= 0,
        volume_s(radius@) >= 1,
    ensures
        r@ == kernel_s(radius@, dst@),
{
    let volume = kernel_volume(radius);
    if dst.raw >= radius.raw {
        Fx::zero()
    } else {
        let v = Fx { raw: radius.raw - dst.raw };
        v.mul(v).mul(v).div(volume)
    }
}

/// Kernel slope toward a neighbour at distance `dst`.
pub fn smoothing_kernel_derivative(radius: Fx, dst: Fx) -> (r: Fx)
    requires
        dst@ >= 0,
        pi_r8_s(radius@) >= 1,
    ensures
        r@ == deriv_s(radius@, dst@),
{
    if dst.raw >= radius.raw {
        Fx::zero()
    } else {
        let f = radius.mul(radius).sub(dst.mul(dst));
        let scale = Fx { raw: FX_NEG_24 }.div(pi_r8(radius));
        scale.mul(dst).mul(f).mul(f)
    }
}

/// Pressure for a density, relative to the target density.
pub fn convert_density_to_pressure(density: Fx, target_density: Fx, pressure_multiplier: Fx) -> (r:
    Fx)
    ensures
        r@ == pressure_s(density@, target_density@, pressure_multiplier@),
{
    density.sub(target_density).mul(pressure_multiplier)
}

/// A product of non-negative values is non-negative and in range.
pub proof fn lemma_fx_mul_nonneg(a: int, b: int)
    requires
        a >= 0,
        b >= 0,
    ensures
        0 <= fx_mul(a, b) <= i64::MAX,
{
    assert(a * b >= 0) by (nonlinear_arith)
        requires
            a >= 0,
            b >= 0,
    ;
}

/// A quotient of a non-negative value by a positive value is
/// non-negative and in range.
pub proof fn lemma_fx_div_nonneg(a: int, b: int)
    requires
        a >= 0,
        b >= 1,
    ensures
        0 <= fx_div(a, b) <= i64::MAX,
{
    assert(a * (FX_SCALE as int) >= 0);
}

/// The kernel weight is never negative.
pub proof fn lemma_kernel_nonneg(r: int, d: int)
    requires
        volume_s(r) >= 1,
    ensures
        0 <= kernel_s(r, d) <= i64::MAX,
{
    if d < r {
        let v = r - d;
        lemma_fx_mul_nonneg(v, v);
        lemma_fx_mul_nonneg(fx_mul(v, v), v);
        lemma_fx_div_nonneg(cube_s(v), volume_s(r));
    }
}

/// The kernel has compact support: at and beyond the smoothing radius the
/// weight is exactly zero.
pub proof fn lemma_kernel_zero_beyond_support(r: int, d: int)
    requires
        d >= r,
    ensures
        kernel_s(r, d) == 0,
{
}

/// The kernel slope has compact support: at and beyond the smoothing
/// radius it is exactly zero.
pub proof fn lemma_derivative_zero_beyond_support(r: int, d: int)
    requires
        d >= r,
    ensures
        deriv_s(r, d) == 0,
{
}

/// A product of non-negative factors grows with either factor.
pub proof fn lemma_fx_mul_monotone_nonneg(a1: int, a2: int, b1: int, b2: int)
    requires
        0 <= a1 <= a2,
        0 <= b1 <= b2,
    ensures
        fx_mul(a1, b1) <= fx_mul(a2, b2),
{
    let p1 = a1 * b1;
    let p2 = a2 * b2;
    assert(0 <= p1 && p1 <= p2) by (nonlinear_arith)
        requires
            p1 == a1 * b1,
            p2 == a2 * b2,
            0 <= a1 <= a2,
            0 <= b1 <= b2,
    ;
    assert(p1 / (FX_SCALE as int) <= p2 / (FX_SCALE as int)) by (nonlinear_arith)
        requires
            0 <= p1 <= p2,
    ;
}

/// A quotient of non-negative values grows with its numerator.
pub proof fn lemma_fx_div_monotone_num(a1: int, a2: int, b: int)
    requires
        0 <= a1 <= a2,
        b >= 1,
    ensures
        fx_div(a1, b) <= fx_div(a2, b),
{
    let p1 = a1 * (FX_SCALE as int);
    let p2 = a2 * (FX_SCALE as int);
    assert(p1 / b <= p2 / b) by (nonlinear_arith)
        requires
            0 <= p1 <= p2,
            b >= 1,
    ;
}

/// The kernel weight never increases with distance.
pub proof fn lemma_kernel_monotone(r: int, d1: int, d2: int)
    requires
        volume_s(r) >= 1,
        0 <= d1 <= d2,
    ensures
        kernel_s(r, d1) >= kernel_s(r, d2),
{
    if d2 >= r {
        lemma_kernel_nonneg(r, d1);
    } else {
        let v1 = r - d1;
        let v2 = r - d2;
        lemma_fx_mul_nonneg(v2, v2);
        lemma_fx_mul_monotone_nonneg(v2, v1, v2, v1);
        lemma_fx_mul_monotone_nonneg(fx_mul(v2, v2), fx_mul(v1, v1), v2, v1);
        lemma_fx_mul_nonneg(fx_mul(v2, v2), v2);
        lemma_fx_div_monotone_num(cube_s(v2), cube_s(v1), volume_s(r));
    }
}

/// The fixed-point grid at radius `r` is fine enough to separate the
/// kernel's peak from its value at distance `d`: the cubes differ by at
/// least one quotient step, and the peak itself does not saturate.
pub open spec fn kernel_peak_separated(r: int, d: int) -> bool {
    (cube_s(r) - cube_s(r - d)) * (FX_SCALE as int) >= volume_s(r) && tdiv(
        cube_s(r) * (FX_SCALE as int),
        volume_s(r),
    ) <= i64::MAX
}

/// The kernel peaks at distance zero: strictly greater there than at any
/// distance inside the support that the fixed-point grid can separate.
pub proof fn lemma_kernel_peak(r: int, d: int)
    requires
        0 < d < r,
        volume_s(r) >= 1,
        kernel_peak_separated(r, d),
    ensures
        kernel_s(r, 0) > kernel_s(r, d),
{
    let vol = volume_s(r);
    let a = cube_s(r);
    let b = cube_s(r - d);
    lemma_fx_mul_nonneg(r - d, r - d);
    lemma_fx_mul_nonneg(fx_mul(r - d, r - d), r - d);
    let s = FX_SCALE as int;
    assert(a * s >= b * s + vol) by (nonlinear_arith)
        requires
            (a - b) * s >= vol,
    ;
    assert(a * s / vol >= b * s / vol + 1) by (nonlinear_arith)
        requires
            a * s >= b * s + vol,
            b * s >= 0,
            vol >= 1,
    ;
    assert(kernel_s(r, 0) == sat64(tdiv(a * s, vol)));
    assert(kernel_s(r, d) == sat64(tdiv(b * s, vol)));
}

} // verus!
