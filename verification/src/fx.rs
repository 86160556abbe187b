//! Fixed-point scalars.
//!
//! A scalar is an `i64` holding the real value multiplied by [`SCALE`].
//! Division truncates toward zero, like `f32` casts and like hardware
//! integer division, so negating an argument negates the result exactly.

use vstd::prelude::*;

verus! {

/// Number of fixed-point units per world unit.
pub const SCALE: i64 = 1000;

/// Largest magnitude a particle coordinate or velocity component may take.
/// Positions and velocities are clamped to this range by the integrator,
/// which keeps every intermediate product of the physics inside `i64`.
pub const MAX_COORD: i64 = 1_000_000;

/// Largest magnitude allowed for tuning parameters: stiffness, damping,
/// masses and the mass density.
pub const MAX_PARAM: i64 = 1_000_000;

/// Largest rest length a spring may carry.
pub const MAX_REST: i64 = 8_000_000;

/// Largest magnitude of a stored impulse vector component.
pub const MAX_IMPULSE: i64 = 100_000_000;

/// Largest time step handed to the integrator.
pub const MAX_DT: i64 = 2_000;

/// Capacity bound on the particle list, the spring list and each spring's
/// list of attached entities; keeps every sum of the physics inside `i64`.
pub const MAX_ELEMS: usize = 4096;

/// Truncated (round toward zero) division, the meaning of `/` on `i64`.
pub open spec fn div_t(a: int, b: int) -> int
    recommends
        b > 0,
{
    if a >= 0 {
        a / b
    } else {
        -((-a) / b)
    }
}

/// The clamp of `v` to the interval `[lo, hi]`.
pub open spec fn clamp_s(v: int, lo: int, hi: int) -> int {
    if v < lo {
        lo
    } else if v > hi {
        hi
    } else {
        v
    }
}

/// `r` is the integer square root of `n`, rounded down.
pub open spec fn is_sqrt(n: int, r: int) -> bool {
    0 <= r && r * r <= n && n < (r + 1) * (r + 1)
}

/// The integer square root of `n`, rounded down.
pub closed spec fn sqrt_floor(n: int) -> int {
    choose|r: int| is_sqrt(n, r)
}

/// Any witness of `is_sqrt` is the square root: the root is unique.
pub proof fn lemma_sqrt_floor(n: int, r: int)
    requires
        is_sqrt(n, r),
    ensures
        sqrt_floor(n) == r,
{
    let c = choose|x: int| is_sqrt(n, x);
    assert(is_sqrt(n, c));
    assert(c == r) by (nonlinear_arith)
        requires
            is_sqrt(n, c),
            is_sqrt(n, r),
    ;
}

/// A product is bounded by the product of the bounds.
pub proof fn lemma_mul_bound(a: int, b: int, cap_a: int, cap_b: int)
    requires
        -cap_a <= a <= cap_a,
        -cap_b <= b <= cap_b,
        0 <= cap_a,
        0 <= cap_b,
    ensures
        -(cap_a * cap_b) <= a * b <= cap_a * cap_b,
{
    assert(-(cap_a * cap_b) <= a * b <= cap_a * cap_b) by (nonlinear_arith)
        requires
            -cap_a <= a <= cap_a,
            -cap_b <= b <= cap_b,
            0 <= cap_a,
            0 <= cap_b,
    ;
}

/// Truncated division shrinks magnitudes: the quotient stays within any
/// bound on the dividend.
pub proof fn lemma_div_t_bound(a: int, b: int, cap: int)
    requires
        -cap <= a <= cap,
        0 <= cap,
        b >= 1,
    ensures
        -cap <= div_t(a, b) <= cap,
        a >= 0 ==> 0 <= div_t(a, b) <= a,
        a <= 0 ==> a <= div_t(a, b) <= 0,
{
    if a >= 0 {
        assert(0 <= a / b <= a) by (nonlinear_arith)
            requires
                a >= 0,
                b >= 1,
        ;
    } else {
        assert(0 <= (-a) / b <= -a) by (nonlinear_arith)
            requires
                -a > 0,
                b >= 1,
        ;
    }
}

/// Truncated division divides bounds: a quotient of a bounded dividend is
/// bounded by the divided bound.
pub proof fn lemma_div_t_shrink(a: int, b: int, cap: int)
    requires
        -cap <= a <= cap,
        0 <= cap,
        b >= 1,
    ensures
        -(cap / b) <= div_t(a, b) <= cap / b,
{
    vstd::arithmetic::div_mod::lemma_div_pos_is_pos(cap, b);
    if a >= 0 {
        vstd::arithmetic::div_mod::lemma_div_pos_is_pos(a, b);
        vstd::arithmetic::div_mod::lemma_div_is_ordered(a, cap, b);
    } else {
        vstd::arithmetic::div_mod::lemma_div_pos_is_pos(-a, b);
        vstd::arithmetic::div_mod::lemma_div_is_ordered(-a, cap, b);
    }
}

/// Negating the dividend negates a truncated quotient.
pub proof fn lemma_div_t_neg(a: int, b: int)
    requires
        b > 0,
    ensures
        div_t(-a, b) == -div_t(a, b),
{
    if a == 0 {
        assert(0int / b == 0) by (nonlinear_arith)
            requires
                b > 0,
        ;
    }
}

/// Truncated division with a divisor of either sign.
pub open spec fn div_ts(a: int, b: int) -> int
    recommends
        b != 0,
{
    if b > 0 {
        div_t(a, b)
    } else {
        -div_t(a, -b)
    }
}

/// Truncated division of `a` by `b > 0`.
pub fn div_fx(a: i64, b: i64) -> (q: i64)
    requires
        b > 0,
        a > i64::MIN,
    ensures
        q == div_t(a as int, b as int),
{
    proof {
        lemma_div_t_bound(a as int, b as int, if a >= 0 { a as int } else { -a as int });
    }
    if a >= 0 {
        a / b
    } else {
        -((-a) / b)
    }
}

/// Truncated division by a non-zero divisor of either sign.
pub fn div_any(a: i64, b: i64) -> (q: i64)
    requires
        b != 0,
        a > i64::MIN,
        b > i64::MIN,
    ensures
        q == div_ts(a as int, b as int),
        -(if a >= 0 { a as int } else { -a as int }) <= q <= (if a >= 0 { a as int } else {
            -a as int
        }),
{
    proof {
        let cap = if a >= 0 { a as int } else { -a as int };
        lemma_div_t_bound(a as int, if b > 0 { b as int } else { -b as int }, cap);
    }
    if b > 0 {
        div_fx(a, b)
    } else {
        -div_fx(a, -b)
    }
}

/// The clamp of `v` to `[lo, hi]`.
pub fn clamp_fx(v: i64, lo: i64, hi: i64) -> (r: i64)
    requires
        lo <= hi,
    ensures
        r == clamp_s(v as int, lo as int, hi as int),
{
    if v < lo {
        lo
    } else if v > hi {
        hi
    } else {
        v
    }
}

/// Integer square root, rounded down.
pub fn isqrt(n: u64) -> (r: u64)
    requires
        n < 0x4000_0000_0000_0000u64,
    ensures
        is_sqrt(n as int, r as int),
        r == sqrt_floor(n as int),
{
    let mut lo: u64 = 0;
    let mut hi: u64 = 0x8000_0000;
    assert(0x8000_0000int * 0x8000_0000int == 0x4000_0000_0000_0000int) by (nonlinear_arith);
    while lo + 1 < hi
        invariant
            lo < hi <= 0x8000_0000u64,
            (lo * lo) as int <= n as int,
            (n as int) < (hi as int) * (hi as int),
        decreases hi - lo,
    {
        let mid = lo + (hi - lo) / 2;
        assert(lo < mid < hi);
        assert((mid as int) * (mid as int) < 0x4000_0000_0000_0000int) by (nonlinear_arith)
            requires
                0 <= (mid as int) < 0x8000_0000int,
        ;
        if mid * mid <= n {
            lo = mid;
        } else {
            hi = mid;
        }
    }
    proof {
        assert((lo as int) + 1 == hi as int);
        lemma_sqrt_floor(n as int, lo as int);
    }
    lo
}

} // verus!
