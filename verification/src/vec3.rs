//! Fixed-point 3-vectors and their mathematical model.
//!
//! Executable vectors hold `i64` fixed-point components; contracts speak of
//! [`V3`], the same vector over unbounded integers. Scaling operations
//! truncate toward zero, so negating a vector negates every derived value
//! exactly.

use crate::fx::{clamp_s, div_t, is_sqrt, sqrt_floor, clamp_fx, div_fx, isqrt, lemma_mul_bound,
    lemma_sqrt_floor, SCALE};
use vstd::prelude::*;

verus! {

/// Mathematical (ghost) 3-vector over unbounded integers.
pub ghost struct V3 {
    pub x: int,
    pub y: int,
    pub z: int,
}

/// Executable fixed-point 3-vector; each component is the real value times
/// [`SCALE`].
#[derive(Clone, Copy, Debug, PartialEq, Eq, Structural)]
pub struct Vec3Fx {
    pub x: i64,
    pub y: i64,
    pub z: i64,
}

pub open spec fn add_v(a: V3, b: V3) -> V3 {
    V3 { x: a.x + b.x, y: a.y + b.y, z: a.z + b.z }
}

pub open spec fn sub_v(a: V3, b: V3) -> V3 {
    V3 { x: a.x - b.x, y: a.y - b.y, z: a.z - b.z }
}

pub open spec fn neg_v(a: V3) -> V3 {
    V3 { x: -a.x, y: -a.y, z: -a.z }
}

/// Each component multiplied by `k` and then divided (truncating) by `d`.
pub open spec fn scale_div_v(a: V3, k: int, d: int) -> V3 {
    V3 { x: div_t(a.x * k, d), y: div_t(a.y * k, d), z: div_t(a.z * k, d) }
}

pub open spec fn dot_v(a: V3, b: V3) -> int {
    a.x * b.x + a.y * b.y + a.z * b.z
}

/// Fixed-point cross product: each raw component is divided by `SCALE`.
pub open spec fn cross_v(a: V3, b: V3) -> V3 {
    V3 {
        x: div_t(a.y * b.z - a.z * b.y, SCALE as int),
        y: div_t(a.z * b.x - a.x * b.z, SCALE as int),
        z: div_t(a.x * b.y - a.y * b.x, SCALE as int),
    }
}

/// Euclidean length, rounded down to fixed-point units.
pub open spec fn len_v(a: V3) -> int {
    sqrt_floor(dot_v(a, a))
}

/// The unit vector along `a` in fixed-point units (`SCALE` plays one).
pub open spec fn unit_v(a: V3) -> V3 {
    scale_div_v(a, SCALE as int, len_v(a))
}

pub open spec fn bounded_v(a: V3, cap: int) -> bool {
    -cap <= a.x <= cap && -cap <= a.y <= cap && -cap <= a.z <= cap
}

/// Componentwise clamp to `[-cap, cap]`.
pub open spec fn clamp_v(a: V3, cap: int) -> V3 {
    V3 {
        x: clamp_s(a.x, -cap, cap),
        y: clamp_s(a.y, -cap, cap),
        z: clamp_s(a.z, -cap, cap),
    }
}

impl View for Vec3Fx {
    type V = V3;

    open spec fn view(&self) -> V3 {
        V3 { x: self.x as int, y: self.y as int, z: self.z as int }
    }
}

/// Vectors whose components stay below this magnitude can be handed to
/// `dot_fx` and `len_fx` without overflowing.
pub const DOT_CAP: i64 = 1_000_000_000;

impl Vec3Fx {
    pub fn new(x: i64, y: i64, z: i64) -> (r: Vec3Fx)
        ensures
            r@ == (V3 { x: x as int, y: y as int, z: z as int }),
    {
        Vec3Fx { x, y, z }
    }

    pub fn zero() -> (r: Vec3Fx)
        ensures
            r@ == (V3 { x: 0int, y: 0int, z: 0int }),
    {
        Vec3Fx { x: 0, y: 0, z: 0 }
    }

    pub open spec fn bounded(self, cap: int) -> bool {
        bounded_v(self@, cap)
    }

    pub fn add(self, o: Vec3Fx) -> (r: Vec3Fx)
        requires
            self.bounded(0x3FFF_FFFF_FFFF_FFFF),
            o.bounded(0x3FFF_FFFF_FFFF_FFFF),
        ensures
            r@ == add_v(self@, o@),
    {
        Vec3Fx { x: self.x + o.x, y: self.y + o.y, z: self.z + o.z }
    }

    pub fn sub(self, o: Vec3Fx) -> (r: Vec3Fx)
        requires
            self.bounded(0x3FFF_FFFF_FFFF_FFFF),
            o.bounded(0x3FFF_FFFF_FFFF_FFFF),
        ensures
            r@ == sub_v(self@, o@),
    {
        Vec3Fx { x: self.x - o.x, y: self.y - o.y, z: self.z - o.z }
    }

    pub fn neg(self) -> (r: Vec3Fx)
        requires
            self.bounded(i64::MAX as int),
        ensures
            r@ == neg_v(self@),
    {
        Vec3Fx { x: -self.x, y: -self.y, z: -self.z }
    }

    /// Multiply by `k`, divide by `d`, truncating toward zero.
    pub fn scale_div(self, k: i64, d: i64) -> (r: Vec3Fx)
        requires
            d > 0,
            -i64::MAX <= self@.x * k <= i64::MAX,
            -i64::MAX <= self@.y * k <= i64::MAX,
            -i64::MAX <= self@.z * k <= i64::MAX,
        ensures
            r@ == scale_div_v(self@, k as int, d as int),
    {
        Vec3Fx {
            x: div_fx(self.x * k, d),
            y: div_fx(self.y * k, d),
            z: div_fx(self.z * k, d),
        }
    }

    /// Componentwise clamp to `[-cap, cap]`.
    pub fn clamp_to(self, cap: i64) -> (r: Vec3Fx)
        requires
            cap >= 0,
        ensures
            r@ == clamp_v(self@, cap as int),
            r.bounded(cap as int),
    {
        Vec3Fx {
            x: clamp_fx(self.x, -cap, cap),
            y: clamp_fx(self.y, -cap, cap),
            z: clamp_fx(self.z, -cap, cap),
        }
    }

    /// Raw dot product (no rescaling).
    pub fn dot(self, o: Vec3Fx) -> (r: i64)
        requires
            self.bounded(DOT_CAP as int),
            o.bounded(DOT_CAP as int),
        ensures
            r == dot_v(self@, o@),
            -3_000_000_000_000_000_000 <= r <= 3_000_000_000_000_000_000,
    {
        proof {
            lemma_mul_bound(self@.x, o@.x, DOT_CAP as int, DOT_CAP as int);
            lemma_mul_bound(self@.y, o@.y, DOT_CAP as int, DOT_CAP as int);
            lemma_mul_bound(self@.z, o@.z, DOT_CAP as int, DOT_CAP as int);
        }
        self.x * o.x + self.y * o.y + self.z * o.z
    }

    /// Fixed-point cross product.
    pub fn cross(self, o: Vec3Fx) -> (r: Vec3Fx)
        requires
            self.bounded(DOT_CAP as int),
            o.bounded(DOT_CAP as int),
        ensures
            r@ == cross_v(self@, o@),
    {
        proof {
            lemma_mul_bound(self@.x, o@.x, DOT_CAP as int, DOT_CAP as int);
            lemma_mul_bound(self@.x, o@.y, DOT_CAP as int, DOT_CAP as int);
            lemma_mul_bound(self@.x, o@.z, DOT_CAP as int, DOT_CAP as int);
            lemma_mul_bound(self@.y, o@.x, DOT_CAP as int, DOT_CAP as int);
            lemma_mul_bound(self@.y, o@.z, DOT_CAP as int, DOT_CAP as int);
            lemma_mul_bound(self@.z, o@.x, DOT_CAP as int, DOT_CAP as int);
            lemma_mul_bound(self@.z, o@.y, DOT_CAP as int, DOT_CAP as int);
            lemma_mul_bound(self@.y, o@.y, DOT_CAP as int, DOT_CAP as int);
            lemma_mul_bound(self@.z, o@.z, DOT_CAP as int, DOT_CAP as int);
        }
        Vec3Fx {
            x: div_fx(self.y * o.z - self.z * o.y, SCALE),
            y: div_fx(self.z * o.x - self.x * o.z, SCALE),
            z: div_fx(self.x * o.y - self.y * o.x, SCALE),
        }
    }

    /// Length in fixed-point units, rounded down.
    pub fn length(self) -> (r: i64)
        requires
            self.bounded(30_000_000),
        ensures
            r == len_v(self@),
            0 <= r <= 52_000_000,
            is_sqrt(dot_v(self@, self@), r as int),
    {
        proof {
            lemma_mul_bound(self@.x, self@.x, 30_000_000, 30_000_000);
            lemma_mul_bound(self@.y, self@.y, 30_000_000, 30_000_000);
            lemma_mul_bound(self@.z, self@.z, 30_000_000, 30_000_000);
            assert(self@.x * self@.x >= 0) by (nonlinear_arith);
            assert(self@.y * self@.y >= 0) by (nonlinear_arith);
            assert(self@.z * self@.z >= 0) by (nonlinear_arith);
        }
        let sq: i64 = self.x * self.x + self.y * self.y + self.z * self.z;
        let r = isqrt(sq as u64);
        proof {
            assert(sq as u64 == dot_v(self@, self@));
            assert(r <= 52_000_000) by (nonlinear_arith)
                requires
                    (r as int) * (r as int) <= (sq as int),
                    sq <= 2_700_000_000_000_000int,
                    r >= 0,
            ;
            assert((r as int) < 0x8000_0000int) by (nonlinear_arith)
                requires
                    (r as int) * (r as int) <= (sq as int),
                    sq < 0x4000_0000_0000_0000int,
                    r >= 0,
            ;
            lemma_sqrt_floor(dot_v(self@, self@), r as int);
        }
        r as i64
    }

    /// Squared distance to `o` (raw fixed-point squares).
    pub fn distance_sq(self, o: Vec3Fx) -> (r: i64)
        requires
            self.bounded(15_000_000),
            o.bounded(15_000_000),
        ensures
            r == dot_v(sub_v(self@, o@), sub_v(self@, o@)),
            r >= 0,
    {
        let d = self.sub(o);
        proof {
            lemma_mul_bound(d@.x, d@.x, 30_000_000, 30_000_000);
            lemma_mul_bound(d@.y, d@.y, 30_000_000, 30_000_000);
            lemma_mul_bound(d@.z, d@.z, 30_000_000, 30_000_000);
            assert(d@.x * d@.x >= 0) by (nonlinear_arith);
            assert(d@.y * d@.y >= 0) by (nonlinear_arith);
            assert(d@.z * d@.z >= 0) by (nonlinear_arith);
        }
        d.x * d.x + d.y * d.y + d.z * d.z
    }

    /// The unit vector along `self`, or `None` when the vector is too short
    /// to carry a direction (the guarded degenerate case).
    pub fn unit(self) -> (r: Option<Vec3Fx>)
        requires
            self.bounded(30_000_000),
        ensures
            r is None <==> len_v(self@) == 0,
            r is Some ==> r.unwrap()@ == unit_v(self@) && r.unwrap().bounded(SCALE as int),
    {
        let len = self.length();
        if len == 0 {
            None
        } else {
            proof {
                lemma_component_within_length(self@);
                lemma_mul_bound(self@.x, SCALE as int, 30_000_000, SCALE as int);
                lemma_mul_bound(self@.y, SCALE as int, 30_000_000, SCALE as int);
                lemma_mul_bound(self@.z, SCALE as int, 30_000_000, SCALE as int);
                lemma_unit_component(self@.x, len as int);
                lemma_unit_component(self@.y, len as int);
                lemma_unit_component(self@.z, len as int);
            }
            let u = self.scale_div(SCALE, len);
            Some(u)
        }
    }
}

/// Every component of a vector is bounded in magnitude by the vector's
/// length (rounded down).
pub proof fn lemma_component_within_length(a: V3)
    ensures
        -len_v(a) <= a.x <= len_v(a),
        -len_v(a) <= a.y <= len_v(a),
        -len_v(a) <= a.z <= len_v(a),
        len_v(a) >= 0,
{
    let n = dot_v(a, a);
    let r = len_v(a);
    assert(a.x * a.x >= 0 && a.y * a.y >= 0 && a.z * a.z >= 0) by (nonlinear_arith);
    lemma_sqrt_exists(n);
    lemma_sqrt_floor(n, sqrt_floor_witness(n));
    assert(is_sqrt(n, r));
    assert(-r <= a.x <= r && -r <= a.y <= r && -r <= a.z <= r) by (nonlinear_arith)
        requires
            is_sqrt(a.x * a.x + a.y * a.y + a.z * a.z, r),
    ;
}

/// A witness for the integer square root of a non-negative integer, found
/// by counting down from `n + 1`.
pub open spec fn sqrt_down(n: int, k: nat) -> int
    decreases k,
{
    if k == 0 {
        0
    } else if (k - 1) * (k - 1) <= n {
        k - 1
    } else {
        sqrt_down(n, (k - 1) as nat)
    }
}

proof fn lemma_sqrt_down(n: int, k: nat)
    requires
        n >= 0,
        k * k > n,
    ensures
        is_sqrt(n, sqrt_down(n, k)),
    decreases k,
{
    if k == 0 {
        assert(k * k == 0) by (nonlinear_arith)
            requires
                k == 0,
        ;
        assert(false);
    } else if (k - 1) * (k - 1) <= n {
        assert(is_sqrt(n, k - 1));
    } else {
        lemma_sqrt_down(n, (k - 1) as nat);
    }
}

/// There is always a square root witness for a non-negative integer.
pub proof fn lemma_sqrt_exists(n: int)
    requires
        n >= 0,
    ensures
        is_sqrt(n, sqrt_floor_witness(n)),
{
    let k = (n + 1) as nat;
    assert(k * k > n) by (nonlinear_arith)
        requires
            n >= 0,
            k == n + 1,
    ;
    lemma_sqrt_down(n, k);
    assert(is_sqrt(n, sqrt_down(n, k)));
}

/// A concrete square-root witness; equal to `sqrt_floor` on non-negative
/// arguments.
pub open spec fn sqrt_floor_witness(n: int) -> int {
    sqrt_down(n, (n + 1) as nat)
}

/// A component no longer than the length scales to at most one
/// (`SCALE` in fixed-point units).
proof fn lemma_unit_component(x: int, len: int)
    requires
        len >= 1,
        -len <= x <= len,
    ensures
        -SCALE as int <= div_t(x * SCALE as int, len) <= SCALE as int,
{
    let s = SCALE as int;
    assert(-(len * s) <= x * s <= len * s) by (nonlinear_arith)
        requires
            -len <= x <= len,
            len >= 1,
            s > 0,
    ;
    if x >= 0 {
        assert((x * s) / len <= (len * s) / len) by (nonlinear_arith)
            requires
                x * s <= len * s,
                len >= 1,
        ;
        assert((len * s) / len == s) by (nonlinear_arith)
            requires
                len >= 1,
                s > 0,
        ;
        assert((x * s) / len >= 0) by (nonlinear_arith)
            requires
                x * s >= 0,
                len >= 1,
        ;
    } else {
        assert(((-x) * s) / len <= (len * s) / len) by (nonlinear_arith)
            requires
                -x * s <= len * s,
                len >= 1,
        ;
        assert((len * s) / len == s) by (nonlinear_arith)
            requires
                len >= 1,
                s > 0,
        ;
        assert(((-x) * s) / len >= 0) by (nonlinear_arith)
            requires
                (-x) * s >= 0,
                len >= 1,
        ;
        assert(-(x * s) == (-x) * s) by (nonlinear_arith);
    }
}

} // verus!
