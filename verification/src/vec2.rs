//! Two-dimensional fixed-point vectors and the Euclidean distance used by
//! the kernel passes.

use vstd::prelude::*;

use crate::fixed::{
    abs_int, fx_add, fx_mul, fx_neg, fx_sub, isqrt_u128, sat64, sqrt_nat, sqrt_rec, Fx,
};

verus! {

/// The mathematical value of a vector: a pair of raw fixed-point counts.
pub ghost struct V2m {
    pub x: int,
    pub y: int,
}

#[derive(Clone, Copy, PartialEq, Eq, Structural, Debug)]
pub struct V2 {
    pub x: Fx,
    pub y: Fx,
}

impl View for V2 {
    type V = V2m;

    open spec fn view(&self) -> V2m {
        V2m { x: self.x@, y: self.y@ }
    }
}

pub open spec fn v2_add(a: V2m, b: V2m) -> V2m {
    V2m { x: fx_add(a.x, b.x), y: fx_add(a.y, b.y) }
}

pub open spec fn v2_sub(a: V2m, b: V2m) -> V2m {
    V2m { x: fx_sub(a.x, b.x), y: fx_sub(a.y, b.y) }
}

pub open spec fn v2_scale(a: V2m, k: int) -> V2m {
    V2m { x: fx_mul(a.x, k), y: fx_mul(a.y, k) }
}

pub open spec fn v2_neg(a: V2m) -> V2m {
    V2m { x: fx_neg(a.x), y: fx_neg(a.y) }
}

/// Euclidean length, rounded down to a whole raw unit.
pub open spec fn len_s(v: V2m) -> int {
    sat64(sqrt_nat((v.x * v.x + v.y * v.y) as nat) as int)
}

/// Distance from `a` to `b`: the length of the (saturating) difference.
pub open spec fn dist_s(a: V2m, b: V2m) -> int {
    len_s(v2_sub(b, a))
}

proof fn lemma_abs_square(x: int, a: int)
    by (nonlinear_arith)
    requires
        a == if x < 0 { -x } else { x },
    ensures
        a * a == x * x,
        x * x >= 0,
{
}

impl V2 {
    pub fn new(x: Fx, y: Fx) -> (r: V2)
        ensures
            r@ == (V2m { x: x@, y: y@ }),
    {
        V2 { x, y }
    }

    pub fn zero() -> (r: V2)
        ensures
            r@ == (V2m { x: 0, y: 0 }),
    {
        V2 { x: Fx::zero(), y: Fx::zero() }
    }

    pub fn add(self, o: V2) -> (r: V2)
        ensures
            r@ == v2_add(self@, o@),
    {
        V2 { x: self.x.add(o.x), y: self.y.add(o.y) }
    }

    pub fn sub(self, o: V2) -> (r: V2)
        ensures
            r@ == v2_sub(self@, o@),
    {
        V2 { x: self.x.sub(o.x), y: self.y.sub(o.y) }
    }

    pub fn scale(self, k: Fx) -> (r: V2)
        ensures
            r@ == v2_scale(self@, k@),
    {
        V2 { x: self.x.mul(k), y: self.y.mul(k) }
    }

    pub fn neg(self) -> (r: V2)
        ensures
            r@ == v2_neg(self@),
    {
        V2 { x: self.x.neg(), y: self.y.neg() }
    }

    /// The raw components, for callers outside the proof boundary.
    pub fn raw_pair(self) -> (r: (i64, i64))
        ensures
            r.0 == self.x.raw,
            r.1 == self.y.raw,
    {
        (self.x.raw, self.y.raw)
    }

    /// Euclidean length of the vector.
    pub fn length(self) -> (r: Fx)
        ensures
            r@ == len_s(self@),
            r@ >= 0,
    {
        let ax: u128 = abs_mag64(self.x.raw) as u128;
        let ay: u128 = abs_mag64(self.y.raw) as u128;
        proof {
            assert(ax * ax + ay * ay <= 0x80000000000000000000000000000000u128) by (nonlinear_arith)
                requires
                    ax <= 0x8000000000000000u128,
                    ay <= 0x8000000000000000u128,
            ;
            lemma_abs_square(self.x.raw as int, ax as int);
            lemma_abs_square(self.y.raw as int, ay as int);
        }
        let s: u128 = ax * ax + ay * ay;
        let r128: u128 = isqrt_u128(s);
        if r128 > i64::MAX as u128 {
            Fx { raw: i64::MAX }
        } else {
            Fx { raw: r128 as i64 }
        }
    }
}

/// Magnitude of an `i64`, total even at `i64::MIN`.
fn abs_mag64(x: i64) -> (r: u64)
    ensures
        r as int == abs_int(x as int),
{
    if x < 0 {
        let w: i128 = -(x as i128);
        w as u64
    } else {
        x as u64
    }
}

/// Distance between two points.
pub fn dist(a: V2, b: V2) -> (r: Fx)
    ensures
        r@ == dist_s(a@, b@),
        r@ >= 0,
{
    b.sub(a).length()
}

/// The distance from a point to itself is zero.
pub proof fn lemma_dist_self_zero(a: V2m)
    ensures
        dist_s(a, a) == 0,
{
    assert(v2_sub(a, a) == (V2m { x: 0, y: 0 }));
    assert(sqrt_nat(0nat) == 0) by {
        reveal_with_fuel(sqrt_rec, 2);
    }
    assert((0int * 0int + 0int * 0int) as nat == 0nat);
    assert(sqrt_nat((0int * 0int + 0int * 0int) as nat) == 0);
    assert(len_s(V2m { x: 0, y: 0 }) == 0);
}

} // verus!
