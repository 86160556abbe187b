//! Springs (edges of the web) and the Hookean + damping force model.

use crate::fx::{div_t, lemma_div_t_neg, lemma_mul_bound, MAX_ELEMS, MAX_PARAM, MAX_REST,
    SCALE};
use crate::vec3::{dot_v, len_v, neg_v, scale_div_v, sub_v, unit_v, V3, Vec3Fx};
use vstd::prelude::*;

verus! {

/// A creature entangled somewhere along an edge.
///
/// `entity` is an opaque handle to the external agent; `snare_position`
/// parametrizes the spot along the edge in fixed-point units, `0` at the
/// first particle and `SCALE` at the second.
#[derive(Clone, Copy, Debug)]
pub struct EnsnaredEntity {
    /// Opaque handle of the snared external agent.
    pub entity: u64,
    /// Location along the spring, `0..=SCALE`.
    pub snare_position: i64,
    /// Mass fed back into the endpoints of the edge.
    pub mass: i64,
    /// Visual rotation angle.
    pub rotation: i64,
    /// Smoothed rotation angle that trails `rotation`.
    pub lerp_rotation: i64,
    /// Fully rolled up (cooked) rather than merely touching.
    pub done_ensnaring: bool,
}

/// A damped elastic edge between two particles of the web.
pub struct Spring {
    /// Index of the first particle.
    pub first_index: usize,
    /// Index of the second particle.
    pub second_index: usize,
    /// Stiffness of the spring.
    pub stiffness: i64,
    /// Damping on the spring.
    pub damping: i64,
    /// Length of the spring at rest.
    pub rest_length: i64,
    /// Entities entangled along this edge, ordered by arrival.
    pub ensnared_entities: Vec<EnsnaredEntity>,
}

/// Magnitude cap on the visual rotation angles of a record.
pub const ANGLE_CAP: i64 = 1_000_000_000_000;

/// Well-formed attached-entity record: parameter within the edge, a
/// bounded non-negative mass, and bounded visual angles.
pub open spec fn ens_wf(e: EnsnaredEntity) -> bool {
    &&& 0 <= e.snare_position <= SCALE
    &&& 0 <= e.mass <= MAX_PARAM
    &&& -ANGLE_CAP <= e.rotation <= ANGLE_CAP
    &&& -ANGLE_CAP <= e.lerp_rotation <= ANGLE_CAP
}

/// Each entity has at most one record in the list: a creature is snared
/// on an edge once, so releasing the first match releases it entirely.
pub open spec fn entities_unique(es: Seq<EnsnaredEntity>) -> bool {
    forall|a: int, b: int| 0 <= a < b < es.len() ==> (#[trigger] es[a]).entity != (
    #[trigger] es[b]).entity
}

/// Well-formed spring relative to a particle list of length `n`.
pub open spec fn spring_wf(s: Spring, n: int) -> bool {
    &&& s.first_index < n
    &&& s.second_index < n
    &&& s.first_index != s.second_index
    &&& 0 <= s.stiffness <= MAX_PARAM
    &&& 0 <= s.damping <= MAX_PARAM
    &&& 0 <= s.rest_length <= MAX_REST
    &&& s.ensnared_entities@.len() <= MAX_ELEMS
    &&& forall|i: int| 0 <= i < s.ensnared_entities@.len() ==> ens_wf(
        #[trigger] s.ensnared_entities@[i],
    )
    &&& entities_unique(s.ensnared_entities@)
}

/// The scalar coefficient of the spring force on the first endpoint:
/// `stiffness * (rest - length) - damping * (unit . relative velocity)`,
/// in fixed-point units.
pub open spec fn force_coeff_v(
    p1: V3,
    p2: V3,
    v1: V3,
    v2: V3,
    stiffness: int,
    damping: int,
    rest: int,
) -> int {
    let d = sub_v(p1, p2);
    let len = len_v(d);
    let u = unit_v(d);
    let vdiff = sub_v(v1, v2);
    div_t(stiffness * (rest - len), SCALE as int) - div_t(
        damping * div_t(dot_v(u, vdiff), SCALE as int),
        SCALE as int,
    )
}

/// The spring force applied to the first endpoint. A (near-)zero-length
/// edge carries no direction, so its force is zero.
pub open spec fn spring_force_v(
    p1: V3,
    p2: V3,
    v1: V3,
    v2: V3,
    stiffness: int,
    damping: int,
    rest: int,
) -> V3 {
    let d = sub_v(p1, p2);
    if len_v(d) == 0 {
        V3 { x: 0, y: 0, z: 0 }
    } else {
        scale_div_v(
            unit_v(d),
            force_coeff_v(p1, p2, v1, v2, stiffness, damping, rest),
            SCALE as int,
        )
    }
}

/// Magnitude bound on each component of a single spring force, given
/// well-formed particles and spring parameters.
pub const FORCE_CAP: i64 = 20_000_000_000;

/// Computes the force on the first endpoint from raw endpoint state.
///
/// `get_force_p1` on [`Spring`] funnels here; tests and the physics step
/// share this function.
pub fn force_between(
    p1: Vec3Fx,
    p2: Vec3Fx,
    v1: Vec3Fx,
    v2: Vec3Fx,
    stiffness: i64,
    damping: i64,
    rest: i64,
) -> (r: Vec3Fx)
    requires
        p1.bounded(2_000_000),
        p2.bounded(2_000_000),
        v1.bounded(2_000_000),
        v2.bounded(2_000_000),
        0 <= stiffness <= MAX_PARAM,
        0 <= damping <= MAX_PARAM,
        0 <= rest <= MAX_REST,
    ensures
        r@ == spring_force_v(p1@, p2@, v1@, v2@, stiffness as int, damping as int, rest as int),
        r.bounded(FORCE_CAP as int),
{
    let d = p1.sub(p2);
    let len = d.length();
    if len == 0 {
        Vec3Fx::zero()
    } else {
        proof {
            lemma_mul_bound(d@.x, d@.x, 4_000_000, 4_000_000);
            lemma_mul_bound(d@.y, d@.y, 4_000_000, 4_000_000);
            lemma_mul_bound(d@.z, d@.z, 4_000_000, 4_000_000);
            assert(len <= 7_000_000) by (nonlinear_arith)
                requires
                    (len as int) * (len as int) <= dot_v(d@, d@),
                    dot_v(d@, d@) <= 48_000_000_000_000int,
                    len >= 0,
            ;
        }
        let u = d.unit().unwrap();
        let vdiff = v1.sub(v2);
        let udot = u.dot(vdiff);
        proof {
            lemma_mul_bound(u@.x, vdiff@.x, SCALE as int, 4_000_000);
            lemma_mul_bound(u@.y, vdiff@.y, SCALE as int, 4_000_000);
            lemma_mul_bound(u@.z, vdiff@.z, SCALE as int, 4_000_000);
            crate::fx::lemma_div_t_shrink(udot as int, SCALE as int, 12_000_000_000);
        }
        let inner = crate::fx::div_fx(udot, SCALE);
        proof {
            lemma_mul_bound(damping as int, inner as int, MAX_PARAM as int, 12_000_000);
            crate::fx::lemma_div_t_shrink(damping * inner, SCALE as int, 12_000_000_000_000);
            lemma_mul_bound(stiffness as int, rest - len, MAX_PARAM as int, 8_000_000);
            crate::fx::lemma_div_t_shrink(stiffness * (rest - len), SCALE as int,
                8_000_000_000_000);
        }
        let damp_term = crate::fx::div_fx(damping * inner, SCALE);
        let stretch_term = crate::fx::div_fx(stiffness * (rest - len), SCALE);
        let coeff = stretch_term - damp_term;
        proof {
            lemma_mul_bound(u@.x, coeff as int, SCALE as int, 20_000_000_000);
            lemma_mul_bound(u@.y, coeff as int, SCALE as int, 20_000_000_000);
            lemma_mul_bound(u@.z, coeff as int, SCALE as int, 20_000_000_000);
            crate::fx::lemma_div_t_shrink(u@.x * coeff, SCALE as int, 20_000_000_000_000);
            crate::fx::lemma_div_t_shrink(u@.y * coeff, SCALE as int, 20_000_000_000_000);
            crate::fx::lemma_div_t_shrink(u@.z * coeff, SCALE as int, 20_000_000_000_000);
        }
        let f = u.scale_div(coeff, SCALE);
        f
    }
}

/// The spring force is antisymmetric: the force on the second endpoint,
/// computed by swapping the endpoints, is the exact negation of the force
/// on the first. Fixed-point truncation rounds toward zero, so no rounding
/// asymmetry survives.
pub proof fn lemma_force_antisymmetric(
    p1: V3,
    p2: V3,
    v1: V3,
    v2: V3,
    stiffness: int,
    damping: int,
    rest: int,
)
    ensures
        spring_force_v(p2, p1, v2, v1, stiffness, damping, rest) == neg_v(
            spring_force_v(p1, p2, v1, v2, stiffness, damping, rest),
        ),
{
    let d1 = sub_v(p1, p2);
    let d2 = sub_v(p2, p1);
    assert(d2 == neg_v(d1));
    assert(dot_v(d2, d2) == dot_v(d1, d1)) by (nonlinear_arith)
        requires
            d2.x == -d1.x && d2.y == -d1.y && d2.z == -d1.z,
    ;
    let n = dot_v(d1, d1);
    assert(d1.x * d1.x >= 0 && d1.y * d1.y >= 0 && d1.z * d1.z >= 0) by (nonlinear_arith);
    assert(n >= 0);
    crate::vec3::lemma_sqrt_exists(n);
    crate::fx::lemma_sqrt_floor(n, crate::vec3::sqrt_floor_witness(n));
    let len = len_v(d1);
    assert(len_v(d2) == len);
    assert(crate::fx::is_sqrt(n, len));
    if len == 0 {
        assert(neg_v(V3 { x: 0, y: 0, z: 0 }) == (V3 { x: 0, y: 0, z: 0 }));
    } else {
        assert(len > 0);
        let s = SCALE as int;
        let u1 = unit_v(d1);
        let u2 = unit_v(d2);
        assert(d2.x * s == -(d1.x * s) && d2.y * s == -(d1.y * s) && d2.z * s == -(d1.z * s))
            by (nonlinear_arith)
            requires
                d2.x == -d1.x && d2.y == -d1.y && d2.z == -d1.z,
        ;
        lemma_div_t_neg(d1.x * s, len);
        lemma_div_t_neg(d1.y * s, len);
        lemma_div_t_neg(d1.z * s, len);
        assert(u2 == neg_v(u1));
        let w1 = sub_v(v1, v2);
        let w2 = sub_v(v2, v1);
        assert(w2 == neg_v(w1));
        assert(dot_v(u2, w2) == dot_v(u1, w1)) by (nonlinear_arith)
            requires
                u2.x == -u1.x && u2.y == -u1.y && u2.z == -u1.z,
                w2.x == -w1.x && w2.y == -w1.y && w2.z == -w1.z,
        ;
        let coeff = force_coeff_v(p1, p2, v1, v2, stiffness, damping, rest);
        assert(force_coeff_v(p2, p1, v2, v1, stiffness, damping, rest) == coeff);
        assert(u2.x * coeff == -(u1.x * coeff) && u2.y * coeff == -(u1.y * coeff) && u2.z * coeff
            == -(u1.z * coeff)) by (nonlinear_arith)
            requires
                u2.x == -u1.x && u2.y == -u1.y && u2.z == -u1.z,
        ;
        lemma_div_t_neg(u1.x * coeff, s);
        lemma_div_t_neg(u1.y * coeff, s);
        lemma_div_t_neg(u1.z * coeff, s);
        assert(scale_div_v(u2, coeff, s) == neg_v(scale_div_v(u1, coeff, s)));
    }
}

} // verus!
