//! Fixed-point scalars: the simulation's numeric type.
//!
//! A quantity is stored as a signed 64-bit count of units of `1 / FX_SCALE`.
//! Every operation saturates at the `i64` range and truncates quotients
//! toward zero, and every operation is specified exactly over `int`, so all
//! arithmetic in the crate is deterministic and total.

use vstd::prelude::*;

verus! {

/// Raw units per simulation unit: sixteen fractional bits.
pub const FX_SCALE: i64 = 65536;

/// Saturation of a mathematical integer into the `i64` range.
pub open spec fn sat64(x: int) -> int {
    if x < i64::MIN {
        i64::MIN as int
    } else if x > i64::MAX {
        i64::MAX as int
    } else {
        x
    }
}

pub open spec fn abs_int(x: int) -> int {
    if x < 0 {
        -x
    } else {
        x
    }
}

/// Division truncating toward zero, as machine division does; a zero
/// divisor yields zero so the function is total.
pub open spec fn tdiv(n: int, d: int) -> int {
    if d == 0 {
        0
    } else if (n < 0) != (d < 0) {
        -(abs_int(n) / abs_int(d))
    } else {
        abs_int(n) / abs_int(d)
    }
}

pub open spec fn fx_add(a: int, b: int) -> int {
    sat64(a + b)
}

pub open spec fn fx_sub(a: int, b: int) -> int {
    sat64(a - b)
}

pub open spec fn fx_neg(a: int) -> int {
    sat64(-a)
}

pub open spec fn fx_mul(a: int, b: int) -> int {
    sat64(tdiv(a * b, FX_SCALE as int))
}

pub open spec fn fx_div(a: int, b: int) -> int {
    sat64(tdiv(a * (FX_SCALE as int), b))
}

/// A fixed-point scalar; the view is the raw count of `1 / FX_SCALE` units.
#[derive(Clone, Copy, PartialEq, Eq, Structural, Debug)]
pub struct Fx {
    pub raw: i64,
}

impl View for Fx {
    type V = int;

    open spec fn view(&self) -> int {
        self.raw as int
    }
}

proof fn lemma_abs_mul(a: int, b: int, aa: int, bb: int)
    by (nonlinear_arith)
    requires
        aa == if a < 0 { -a } else { a },
        bb == if b < 0 { -b } else { b },
    ensures
        (if a * b < 0 { -(a * b) } else { a * b }) == aa * bb,
        (a * b < 0) <==> ((a < 0) != (b < 0)) && a != 0 && b != 0,
{
}

/// Magnitude of an `i64`, total even at `i64::MIN`.
fn abs_mag(x: i64) -> (r: u64)
    ensures
        r as int == abs_int(x as int),
{
    if x < 0 {
        let w: i128 = -(x as i128);
        w as u64
    } else {
        x as u64
    }
}

/// Signed saturation of a magnitude `m` with sign `neg` into `i64`.
fn clamp_signed(neg: bool, m: u128) -> (r: i64)
    ensures
        r as int == sat64(if neg { -(m as int) } else { m as int }),
{
    if neg {
        if m >= 9223372036854775808u128 {
            i64::MIN
        } else {
            -(m as i64)
        }
    } else {
        if m >= 9223372036854775808u128 {
            i64::MAX
        } else {
            m as i64
        }
    }
}

impl Fx {
    pub fn from_raw(raw: i64) -> (r: Fx)
        ensures
            r@ == raw as int,
    {
        Fx { raw }
    }

    pub fn zero() -> (r: Fx)
        ensures
            r@ == 0,
    {
        Fx { raw: 0 }
    }

    pub fn one() -> (r: Fx)
        ensures
            r@ == FX_SCALE as int,
    {
        Fx { raw: FX_SCALE }
    }

    pub fn add(self, o: Fx) -> (r: Fx)
        ensures
            r@ == fx_add(self@, o@),
    {
        let s: i128 = self.raw as i128 + o.raw as i128;
        if s > i64::MAX as i128 {
            Fx { raw: i64::MAX }
        } else if s < i64::MIN as i128 {
            Fx { raw: i64::MIN }
        } else {
            Fx { raw: s as i64 }
        }
    }

    pub fn sub(self, o: Fx) -> (r: Fx)
        ensures
            r@ == fx_sub(self@, o@),
    {
        let s: i128 = self.raw as i128 - o.raw as i128;
        if s > i64::MAX as i128 {
            Fx { raw: i64::MAX }
        } else if s < i64::MIN as i128 {
            Fx { raw: i64::MIN }
        } else {
            Fx { raw: s as i64 }
        }
    }

    pub fn neg(self) -> (r: Fx)
        ensures
            r@ == fx_neg(self@),
    {
        if self.raw == i64::MIN {
            Fx { raw: i64::MAX }
        } else {
            Fx { raw: -self.raw }
        }
    }

    pub fn mul(self, o: Fx) -> (r: Fx)
        ensures
            r@ == fx_mul(self@, o@),
    {
        let neg: bool = (self.raw < 0) != (o.raw < 0);
        let am: u128 = abs_mag(self.raw) as u128;
        let bm: u128 = abs_mag(o.raw) as u128;
        proof {
            assert(am * bm <= 0x40000000000000000000000000000000u128) by (nonlinear_arith)
                requires
                    am <= 0x8000000000000000u128,
                    bm <= 0x8000000000000000u128,
            ;
        }
        let q: u128 = (am * bm) / 65536;
        proof {
            lemma_abs_mul(self.raw as int, o.raw as int, am as int, bm as int);
        }
        Fx { raw: clamp_signed(neg, q) }
    }

    pub fn div(self, o: Fx) -> (r: Fx)
        requires
            o@ != 0,
        ensures
            r@ == fx_div(self@, o@),
    {
        let neg: bool = (self.raw < 0) != (o.raw < 0);
        let am: u128 = abs_mag(self.raw) as u128;
        let bm: u128 = abs_mag(o.raw) as u128;
        let q: u128 = (am * 65536) / bm;
        proof {
            lemma_abs_mul(self.raw as int, 65536int, am as int, 65536int);
        }
        Fx { raw: clamp_signed(neg, q) }
    }
}

/// Half of an integer multiple of a scalar: `a * k / 2`, saturating.
pub fn mul_int_half(a: Fx, k: i64) -> (r: Fx)
    ensures
        r@ == sat64(tdiv(a@ * (k as int), 2)),
{
    let neg: bool = (a.raw < 0) != (k < 0);
    let am: u128 = abs_mag(a.raw) as u128;
    let km: u128 = abs_mag(k) as u128;
    proof {
        assert(am * km <= 0x40000000000000000000000000000000u128) by (nonlinear_arith)
            requires
                am <= 0x8000000000000000u128,
                km <= 0x8000000000000000u128,
        ;
    }
    let q: u128 = (am * km) / 2;
    proof {
        lemma_abs_mul(a.raw as int, k as int, am as int, km as int);
    }
    Fx { raw: clamp_signed(neg, q) }
}

/// Integer square root, from below: walks candidates upward.
pub open spec fn sqrt_rec(n: nat, i: nat) -> nat
    decreases n - i,
{
    if i < n && (i + 1) * (i + 1) <= n {
        sqrt_rec(n, i + 1)
    } else {
        i
    }
}

/// The integer square root of `n`: the greatest `r` with `r * r <= n`.
pub open spec fn sqrt_nat(n: nat) -> nat {
    sqrt_rec(n, 0)
}

pub proof fn lemma_sqrt_rec_bounds(n: nat, i: nat)
    requires
        i * i <= n,
    ensures
        sqrt_rec(n, i) * sqrt_rec(n, i) <= n,
        n < (sqrt_rec(n, i) + 1) * (sqrt_rec(n, i) + 1),
    decreases n - i,
{
    if i < n && (i + 1) * (i + 1) <= n {
        lemma_sqrt_rec_bounds(n, i + 1);
    } else {
        if i >= n {
            assert(n < (i + 1) * (i + 1)) by (nonlinear_arith)
                requires
                    i >= n,
            ;
        }
    }
}

pub proof fn lemma_sqrt_unique(n: nat, r: nat, s: nat)
    by (nonlinear_arith)
    requires
        r * r <= n,
        n < (r + 1) * (r + 1),
        s * s <= n,
        n < (s + 1) * (s + 1),
    ensures
        r == s,
{
}

/// Integer square root of a `u128`, by bisection.
pub fn isqrt_u128(n: u128) -> (r: u128)
    ensures
        r as nat == sqrt_nat(n as nat),
        r * r <= n,
{
    let mut lo: u128 = 0;
    let mut hi: u128 = if n < 0xffff_ffff_ffff_ffffu128 {
        n
    } else {
        0xffff_ffff_ffff_ffffu128
    };
    proof {
        assert(n < (hi + 1) * (hi + 1)) by (nonlinear_arith)
            requires
                hi == if n < 0xffff_ffff_ffff_ffffu128 {
                    n as int
                } else {
                    0xffff_ffff_ffff_ffffu128 as int
                },
                n <= u128::MAX,
        ;
    }
    while lo < hi
        invariant
            lo <= hi,
            hi <= 0xffff_ffff_ffff_ffffu128,
            lo * lo <= n,
            n < (hi + 1) * (hi + 1),
        decreases hi - lo,
    {
        let mid: u128 = lo + (hi - lo + 1) / 2;
        proof {
            assert(mid * mid < 0xffffffffffffffffffffffffffffffffu128) by (nonlinear_arith)
                requires
                    mid <= 0xffff_ffff_ffff_ffffu128,
            ;
        }
        let sq: u128 = mid * mid;
        if sq <= n {
            lo = mid;
        } else {
            hi = mid - 1;
        }
    }
    proof {
        lemma_sqrt_rec_bounds(n as nat, 0);
        lemma_sqrt_unique(n as nat, lo as nat, sqrt_nat(n as nat));
    }
    lo
}

} // verus!
