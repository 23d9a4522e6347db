use sph2d::fixed::Fx;
use sph2d::kernel::{convert_density_to_pressure, smoothing_kernel, smoothing_kernel_derivative};

fn fx(raw: i64) -> Fx {
    Fx { raw }
}

// The stock smoothing radius, 1.3 units.
const R: i64 = 85197;

#[test]
fn kernel_is_zero_at_and_beyond_the_radius() {
    assert_eq!(smoothing_kernel(fx(R), fx(R)).raw, 0);
    assert_eq!(smoothing_kernel(fx(R), fx(R + 1)).raw, 0);
    assert_eq!(smoothing_kernel(fx(R), fx(10 * 65536)).raw, 0);
}

#[test]
fn kernel_peak_value_at_zero_distance() {
    // (1.3)^3 / (pi * 1.3^8 / 4) at sixteen fractional bits
    assert_eq!(smoothing_kernel(fx(R), fx(0)).raw, 22473);
}

#[test]
fn kernel_decreases_from_its_peak() {
    let peak = smoothing_kernel(fx(R), fx(0)).raw;
    let half_unit = smoothing_kernel(fx(R), fx(32768)).raw;
    assert_eq!(half_unit, 5237);
    assert!(peak > half_unit);
    let near_edge = smoothing_kernel(fx(R), fx(85000)).raw;
    assert!(half_unit > near_edge);
}

#[test]
fn kernel_never_increases_with_distance() {
    let mut previous = smoothing_kernel(fx(R), fx(0)).raw;
    let mut d: i64 = 0;
    while d <= R + 20000 {
        let here = smoothing_kernel(fx(R), fx(d)).raw;
        assert!(here <= previous);
        previous = here;
        d += 1000;
    }
}

#[test]
fn derivative_is_zero_at_and_beyond_the_radius() {
    assert_eq!(smoothing_kernel_derivative(fx(R), fx(R)).raw, 0);
    assert_eq!(smoothing_kernel_derivative(fx(R), fx(R + 1)).raw, 0);
    assert_eq!(smoothing_kernel_derivative(fx(R), fx(100 * 65536)).raw, 0);
}

#[test]
fn derivative_is_negative_inside_the_support() {
    // at one unit of distance the kernel slopes downward
    assert_eq!(smoothing_kernel_derivative(fx(R), fx(65536)).raw, -29220);
    assert!(smoothing_kernel_derivative(fx(R), fx(32768)).raw < 0);
}

#[test]
fn derivative_is_zero_at_zero_distance() {
    assert_eq!(smoothing_kernel_derivative(fx(R), fx(0)).raw, 0);
}

#[test]
fn pressure_is_linear_in_the_density_error() {
    // (3.0 - 2.75) * 0.5 == 0.125
    assert_eq!(convert_density_to_pressure(fx(3 * 65536), fx(180224), fx(32768)).raw, 8192);
    // below the target the pressure is negative
    assert!(convert_density_to_pressure(fx(65536), fx(180224), fx(32768)).raw < 0);
    // at the target it is exactly zero
    assert_eq!(convert_density_to_pressure(fx(180224), fx(180224), fx(32768)).raw, 0);
}
