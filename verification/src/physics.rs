//! The physics step: sub-stepped semi-implicit Euler on the web.
//!
//! Each sub-step resets every unpinned particle, accumulates spring forces
//! and derived mass (silk mass plus attached-entity mass) from every edge,
//! then integrates gravity, air damping and timed impulses. Pinned
//! particles are never mutated, and an unpinned particle whose derived
//! mass is zero is treated as pinned for the sub-step instead of dividing
//! by it. Positions and velocities are clamped to [`MAX_COORD`]: the
//! integrator is stability-bounded by construction.

use crate::fx::{div_t, lemma_div_t_shrink, lemma_mul_bound, MAX_COORD, MAX_DT, MAX_ELEMS,
    MAX_PARAM, SCALE};
use crate::spring::{ens_wf, spring_force_v, spring_wf, EnsnaredEntity, Spring, FORCE_CAP};
use crate::vec3::{add_v, bounded_v, clamp_v, neg_v, scale_div_v, V3, Vec3Fx};
use crate::web::{Particle, Web, MASS_CAP};
use vstd::prelude::*;

verus! {

/// Standard gravity in fixed-point units.
pub const GRAVITY: i64 = 9810;

/// Bound on one spring's mass contribution to one endpoint.
pub const CONTRIB_CAP: i64 = 10_000_000_000;

/// Mass an attached entity feeds to the first endpoint of its edge.
pub open spec fn ens_mass_term_first(e: EnsnaredEntity) -> int {
    div_t(e.mass * (SCALE - e.snare_position), SCALE as int)
}

/// Mass an attached entity feeds to the second endpoint of its edge.
pub open spec fn ens_mass_term_second(e: EnsnaredEntity) -> int {
    div_t(e.mass * e.snare_position, SCALE as int)
}

/// Sum of the first-endpoint mass of the first `k` attached entities.
pub open spec fn ens_mass_first(es: Seq<EnsnaredEntity>, k: int) -> int
    decreases k,
{
    if k <= 0 {
        0
    } else {
        ens_mass_first(es, k - 1) + ens_mass_term_first(es[k - 1])
    }
}

/// Sum of the second-endpoint mass of the first `k` attached entities.
pub open spec fn ens_mass_second(es: Seq<EnsnaredEntity>, k: int) -> int
    decreases k,
{
    if k <= 0 {
        0
    } else {
        ens_mass_second(es, k - 1) + ens_mass_term_second(es[k - 1])
    }
}

/// Half the silk mass of an edge, fed to each unpinned endpoint.
pub open spec fn edge_mass_half(s: Spring, mpul: int) -> int {
    div_t(mpul * s.rest_length, 2 * SCALE as int)
}

/// Mass one spring contributes to particle `i`.
pub open spec fn mass_contrib(s: Spring, i: int, mpul: int) -> int {
    (if s.first_index == i {
        edge_mass_half(s, mpul) + ens_mass_first(s.ensnared_entities@,
            s.ensnared_entities@.len() as int)
    } else {
        0
    }) + (if s.second_index == i {
        edge_mass_half(s, mpul) + ens_mass_second(s.ensnared_entities@,
            s.ensnared_entities@.len() as int)
    } else {
        0
    })
}

/// Mass particle `i` derives from the first `k` springs.
pub open spec fn mass_prefix(springs: Seq<Spring>, i: int, mpul: int, k: int) -> int
    decreases k,
{
    if k <= 0 {
        0
    } else {
        mass_prefix(springs, i, mpul, k - 1) + mass_contrib(springs[k - 1], i, mpul)
    }
}

/// Mass particle `i` derives from the whole spring list.
pub open spec fn web_mass(springs: Seq<Spring>, i: int, mpul: int) -> int {
    mass_prefix(springs, i, mpul, springs.len() as int)
}

/// The force of one spring, evaluated on a particle list.
pub open spec fn spring_force_of(s: Spring, ps: Seq<Particle>) -> V3 {
    spring_force_v(
        ps[s.first_index as int].position@,
        ps[s.second_index as int].position@,
        ps[s.first_index as int].velocity@,
        ps[s.second_index as int].velocity@,
        s.stiffness as int,
        s.damping as int,
        s.rest_length as int,
    )
}

/// Force one spring contributes to particle `i`: the spring force at its
/// first endpoint, its negation at its second, nothing elsewhere.
pub open spec fn force_contrib(s: Spring, i: int, ps: Seq<Particle>) -> V3 {
    if s.first_index == i {
        spring_force_of(s, ps)
    } else if s.second_index == i {
        neg_v(spring_force_of(s, ps))
    } else {
        V3 { x: 0, y: 0, z: 0 }
    }
}

/// Accumulated spring force on particle `i` from the first `k` springs.
pub open spec fn force_prefix(springs: Seq<Spring>, i: int, ps: Seq<Particle>, k: int) -> V3
    decreases k,
{
    if k <= 0 {
        V3 { x: 0, y: 0, z: 0 }
    } else {
        add_v(force_prefix(springs, i, ps, k - 1), force_contrib(springs[k - 1], i, ps))
    }
}

/// Accumulated spring force on particle `i` from the whole spring list.
pub open spec fn web_force(springs: Seq<Spring>, i: int, ps: Seq<Particle>) -> V3 {
    force_prefix(springs, i, ps, springs.len() as int)
}

/// Attached-entity mass sums are non-negative and grow by at most the
/// parameter cap per entity.
pub proof fn lemma_ens_mass_bounds(es: Seq<EnsnaredEntity>, k: int)
    requires
        0 <= k <= es.len(),
        forall|i: int| 0 <= i < es.len() ==> ens_wf(#[trigger] es[i]),
    ensures
        0 <= ens_mass_first(es, k) <= k * (MAX_PARAM as int),
        0 <= ens_mass_second(es, k) <= k * (MAX_PARAM as int),
    decreases k,
{
    if k > 0 {
        lemma_ens_mass_bounds(es, k - 1);
        let e = es[k - 1];
        lemma_mul_bound(e.mass as int, SCALE - e.snare_position, MAX_PARAM as int, SCALE as int);
        lemma_mul_bound(e.mass as int, e.snare_position as int, MAX_PARAM as int, SCALE as int);
        assert(e.mass * (SCALE - e.snare_position) >= 0) by (nonlinear_arith)
            requires
                e.mass >= 0,
                SCALE - e.snare_position >= 0,
        ;
        assert(e.mass * e.snare_position >= 0) by (nonlinear_arith)
            requires
                e.mass >= 0,
                e.snare_position >= 0,
        ;
        lemma_div_t_shrink(e.mass * (SCALE - e.snare_position), SCALE as int,
            MAX_PARAM as int * SCALE as int);
        lemma_div_t_shrink(e.mass * e.snare_position, SCALE as int,
            MAX_PARAM as int * SCALE as int);
        assert((k - 1) * (MAX_PARAM as int) + MAX_PARAM as int == k * (MAX_PARAM as int))
            by (nonlinear_arith);
    }
}

/// One spring's mass contribution is non-negative and bounded.
pub proof fn lemma_mass_contrib_bounds(s: Spring, i: int, mpul: int, n: int)
    requires
        spring_wf(s, n),
        0 <= mpul <= MAX_PARAM,
    ensures
        0 <= mass_contrib(s, i, mpul) <= CONTRIB_CAP,
{
    let es = s.ensnared_entities@;
    lemma_ens_mass_bounds(es, es.len() as int);
    lemma_mul_bound(mpul, s.rest_length as int, MAX_PARAM as int, crate::fx::MAX_REST as int);
    assert(mpul * s.rest_length >= 0) by (nonlinear_arith)
        requires
            mpul >= 0,
            s.rest_length >= 0,
    ;
    lemma_div_t_shrink(mpul * s.rest_length, 2 * SCALE as int,
        MAX_PARAM as int * crate::fx::MAX_REST as int);
    assert(es.len() * (MAX_PARAM as int) <= MAX_ELEMS as int * MAX_PARAM as int)
        by (nonlinear_arith)
        requires
            es.len() <= MAX_ELEMS as int,
    ;
}

/// Prefix masses are non-negative and bounded by the prefix length times
/// the per-spring cap.
pub proof fn lemma_mass_prefix_bounds(springs: Seq<Spring>, i: int, mpul: int, k: int, n: int)
    requires
        0 <= k <= springs.len(),
        0 <= mpul <= MAX_PARAM,
        forall|j: int| 0 <= j < springs.len() ==> spring_wf(#[trigger] springs[j], n),
    ensures
        0 <= mass_prefix(springs, i, mpul, k) <= k * (CONTRIB_CAP as int),
    decreases k,
{
    if k > 0 {
        lemma_mass_prefix_bounds(springs, i, mpul, k - 1, n);
        lemma_mass_contrib_bounds(springs[k - 1], i, mpul, n);
        assert((k - 1) * (CONTRIB_CAP as int) + CONTRIB_CAP as int == k * (CONTRIB_CAP as int))
            by (nonlinear_arith);
    }
}

/// The derived mass of any particle stays within [`MASS_CAP`].
pub proof fn lemma_web_mass_bounds(springs: Seq<Spring>, i: int, mpul: int, n: int)
    requires
        springs.len() <= MAX_ELEMS,
        0 <= mpul <= MAX_PARAM,
        forall|j: int| 0 <= j < springs.len() ==> spring_wf(#[trigger] springs[j], n),
    ensures
        0 <= web_mass(springs, i, mpul) <= MASS_CAP,
{
    lemma_mass_prefix_bounds(springs, i, mpul, springs.len() as int, n);
    assert(springs.len() * (CONTRIB_CAP as int) <= MAX_ELEMS as int * CONTRIB_CAP as int)
        by (nonlinear_arith)
        requires
            springs.len() <= MAX_ELEMS as int,
    ;
}

/// The fields the force-accumulation phase leaves untouched agree.
pub open spec fn same_kinematics(a: Particle, b: Particle) -> bool {
    &&& a.position == b.position
    &&& a.velocity == b.velocity
    &&& a.impulse == b.impulse
    &&& a.impulse_duration == b.impulse_duration
    &&& a.pinned == b.pinned
}

/// Phase one of a sub-step: reset every unpinned particle's mass and
/// force, then walk every edge once, adding its spring force and its mass
/// (silk plus attached entities) to each unpinned endpoint. Pinned
/// particles are untouched.
pub fn accumulate(web: &mut Web)
    requires
        old(web).wf(),
    ensures
        final(web).wf(),
        final(web).particles@.len() == old(web).particles@.len(),
        final(web).springs@ == old(web).springs@,
        final(web).mass_per_unit_length == old(web).mass_per_unit_length,
        forall|i: int| 0 <= i < final(web).particles@.len() ==> same_kinematics(
            #[trigger] final(web).particles@[i],
            old(web).particles@[i],
        ),
        forall|i: int| 0 <= i < final(web).particles@.len() && old(web).particles@[i].pinned
            ==> #[trigger] final(web).particles@[i] == old(web).particles@[i],
        forall|i: int| 0 <= i < final(web).particles@.len() && !old(web).particles@[i].pinned
            ==> #[trigger] final(web).particles@[i].mass == web_mass(old(web).springs@, i,
            old(web).mass_per_unit_length as int) && final(web).particles@[i].force@ == web_force(
            old(web).springs@,
            i,
            old(web).particles@,
        ),
        forall|i: int| 0 <= i < final(web).particles@.len() && !old(web).particles@[i].pinned
            ==> bounded_v(#[trigger] final(web).particles@[i].force@, 100_000_000_000_000int),
{
    let ghost old_ps = old(web).particles@;
    let ghost springs0 = old(web).springs@;
    let ghost mpul = old(web).mass_per_unit_length as int;
    let n = web.particles.len();

    let mut i: usize = 0;
    while i < n
        invariant
            i <= n,
            n == web.particles@.len(),
            web.wf(),
            web.particles@.len() == old_ps.len(),
            web.springs@ == springs0,
            web.mass_per_unit_length as int == mpul,
            old_ps == old(web).particles@,
            springs0 == old(web).springs@,
            0 <= mpul <= MAX_PARAM,
            forall|p: int| 0 <= p < n ==> same_kinematics(#[trigger] web.particles@[p],
                old_ps[p]),
            forall|p: int| 0 <= p < n && old_ps[p].pinned ==> #[trigger] web.particles@[p]
                == old_ps[p],
            forall|p: int| 0 <= p < i && !old_ps[p].pinned ==> #[trigger] web.particles@[p].mass
                == 0 && web.particles@[p].force@ == (V3 { x: 0, y: 0, z: 0 }),
            forall|p: int| i <= p < n ==> #[trigger] web.particles@[p] == old_ps[p],
        decreases n - i,
    {
        if !web.particles[i].pinned {
            web.particles[i].mass = 0;
            web.particles[i].force = Vec3Fx { x: 0, y: 0, z: 0 };
        }
        i += 1;
    }

    let m = web.springs.len();
    let mut j: usize = 0;
    while j < m
        invariant
            j <= m,
            m == web.springs@.len(),
            m <= MAX_ELEMS,
            n == web.particles@.len(),
            web.wf(),
            web.particles@.len() == old_ps.len(),
            web.springs@ == springs0,
            web.mass_per_unit_length as int == mpul,
            old_ps == old(web).particles@,
            springs0 == old(web).springs@,
            0 <= mpul <= MAX_PARAM,
            forall|p: int| 0 <= p < n ==> same_kinematics(#[trigger] web.particles@[p],
                old_ps[p]),
            forall|p: int| 0 <= p < n && old_ps[p].pinned ==> #[trigger] web.particles@[p]
                == old_ps[p],
            forall|p: int| 0 <= p < n && !old_ps[p].pinned ==> #[trigger] web.particles@[p].mass
                == mass_prefix(springs0, p, mpul, j as int) && web.particles@[p].force@
                == force_prefix(springs0, p, old_ps, j as int),
            forall|p: int| 0 <= p < n && !old_ps[p].pinned ==> 0
                <= #[trigger] web.particles@[p].mass <= (j as int) * (CONTRIB_CAP as int)
                && bounded_v(web.particles@[p].force@, (j as int) * (FORCE_CAP as int)),
        decreases m - j,
    {
        let s_first = web.springs[j].first_index;
        let s_second = web.springs[j].second_index;
        let s_stiff = web.springs[j].stiffness;
        let s_damp = web.springs[j].damping;
        let s_rest = web.springs[j].rest_length;
        proof {
            assert(spring_wf(springs0[j as int], n as int));
        }
        let pa = web.particles[s_first];
        let pb = web.particles[s_second];
        let force = crate::spring::force_between(
            pa.position,
            pb.position,
            pa.velocity,
            pb.velocity,
            s_stiff,
            s_damp,
            s_rest,
        );
        proof {
            assert(same_kinematics(web.particles@[s_first as int], old_ps[s_first as int]));
            assert(same_kinematics(web.particles@[s_second as int], old_ps[s_second as int]));
            assert(force@ == spring_force_of(springs0[j as int], old_ps));
        }

        let ecount = web.springs[j].ensnared_entities.len();
        let mut e: usize = 0;
        while e < ecount
            invariant
                e <= ecount,
                j < m,
                m == web.springs@.len(),
                n == web.particles@.len(),
                web.wf(),
                web.springs@ == springs0,
                web.mass_per_unit_length as int == mpul,
                old_ps == old(web).particles@,
                springs0 == old(web).springs@,
                0 <= mpul <= MAX_PARAM,
                s_first == springs0[j as int].first_index,
                s_second == springs0[j as int].second_index,
                ecount == springs0[j as int].ensnared_entities@.len(),
                forall|p: int| 0 <= p < n ==> same_kinematics(#[trigger] web.particles@[p],
                    old_ps[p]),
                forall|p: int| 0 <= p < n && old_ps[p].pinned ==> #[trigger] web.particles@[p]
                    == old_ps[p],
                forall|p: int| 0 <= p < n && !old_ps[p].pinned ==> #[trigger]
                    web.particles@[p].force@ == force_prefix(springs0, p, old_ps, j as int)
                    && bounded_v(web.particles@[p].force@, (j as int) * (FORCE_CAP as int)),
                forall|p: int| 0 <= p < n && !old_ps[p].pinned && p != s_first && p != s_second
                    ==> #[trigger] web.particles@[p].mass == mass_prefix(springs0, p, mpul,
                    j as int),
                !old_ps[s_first as int].pinned ==> web.particles@[s_first as int].mass
                    == mass_prefix(springs0, s_first as int, mpul, j as int) + ens_mass_first(
                    springs0[j as int].ensnared_entities@, e as int),
                !old_ps[s_second as int].pinned ==> web.particles@[s_second as int].mass
                    == mass_prefix(springs0, s_second as int, mpul, j as int) + ens_mass_second(
                    springs0[j as int].ensnared_entities@, e as int),
                forall|p: int| 0 <= p < n && !old_ps[p].pinned ==> 0
                    <= #[trigger] web.particles@[p].mass <= (j as int) * (CONTRIB_CAP as int) + (
                e as int) * (MAX_PARAM as int),
            decreases ecount - e,
        {
            let ent = web.springs[j].ensnared_entities[e];
            proof {
                assert(ens_wf(springs0[j as int].ensnared_entities@[e as int]));
                lemma_mul_bound(ent.mass as int, SCALE - ent.snare_position, MAX_PARAM as int,
                    SCALE as int);
                lemma_mul_bound(ent.mass as int, ent.snare_position as int, MAX_PARAM as int,
                    SCALE as int);
                assert(ent.mass * (SCALE - ent.snare_position) >= 0) by (nonlinear_arith)
                    requires
                        ent.mass >= 0,
                        SCALE - ent.snare_position >= 0,
                ;
                assert(ent.mass * ent.snare_position >= 0) by (nonlinear_arith)
                    requires
                        ent.mass >= 0,
                        ent.snare_position >= 0,
                ;
                lemma_div_t_shrink(ent.mass * (SCALE - ent.snare_position), SCALE as int,
                    MAX_PARAM as int * SCALE as int);
                lemma_div_t_shrink(ent.mass * ent.snare_position, SCALE as int,
                    MAX_PARAM as int * SCALE as int);
            }
            if !web.particles[s_first].pinned {
                let m0 = web.particles[s_first].mass;
                web.particles[s_first].mass = m0 + crate::fx::div_fx(
                    ent.mass * (SCALE - ent.snare_position),
                    SCALE,
                );
            }
            if !web.particles[s_second].pinned {
                let m0 = web.particles[s_second].mass;
                web.particles[s_second].mass = m0 + crate::fx::div_fx(
                    ent.mass * ent.snare_position,
                    SCALE,
                );
            }
            e += 1;
        }

        proof {
            lemma_mul_bound(web.mass_per_unit_length as int, s_rest as int, MAX_PARAM as int,
                crate::fx::MAX_REST as int);
            assert(web.mass_per_unit_length * s_rest >= 0) by (nonlinear_arith)
                requires
                    web.mass_per_unit_length >= 0,
                    s_rest >= 0,
            ;
            lemma_div_t_shrink(web.mass_per_unit_length * s_rest, 2 * SCALE as int,
                MAX_PARAM as int * crate::fx::MAX_REST as int);
            lemma_ens_mass_bounds(springs0[j as int].ensnared_entities@, ecount as int);
        }
        let half = crate::fx::div_fx(web.mass_per_unit_length * s_rest, 2 * SCALE);
        if !web.particles[s_first].pinned {
            let f0 = web.particles[s_first].force;
            web.particles[s_first].force = f0.add(force);
            let m0 = web.particles[s_first].mass;
            web.particles[s_first].mass = m0 + half;
        }
        if !web.particles[s_second].pinned {
            let f0 = web.particles[s_second].force;
            web.particles[s_second].force = f0.sub(force);
            let m0 = web.particles[s_second].mass;
            web.particles[s_second].mass = m0 + half;
        }
        proof {
            assert forall|p: int| 0 <= p < n && !old_ps[p].pinned implies #[trigger]
                web.particles@[p].mass == mass_prefix(springs0, p, mpul, j as int + 1)
                && web.particles@[p].force@ == force_prefix(springs0, p, old_ps, j as int + 1) by {
                assert(mass_prefix(springs0, p, mpul, j as int + 1) == mass_prefix(springs0, p,
                    mpul, j as int) + mass_contrib(springs0[j as int], p, mpul));
                assert(force_prefix(springs0, p, old_ps, j as int + 1) == add_v(force_prefix(
                    springs0, p, old_ps, j as int), force_contrib(springs0[j as int], p, old_ps)));
                if p != s_first && p != s_second {
                    assert(mass_contrib(springs0[j as int], p, mpul) == 0);
                    assert(force_contrib(springs0[j as int], p, old_ps) == (V3 { x: 0, y: 0, z: 0 }));
                }
            }
        }
        j += 1;
    }
    proof {
        assert forall|p: int| 0 <= p < n && !old_ps[p].pinned implies bounded_v(
            #[trigger] web.particles@[p].force@, 100_000_000_000_000int) by {
            assert((m as int) * (FORCE_CAP as int) <= 100_000_000_000_000int);
        }
    }
}

/// The force on a particle once gravity, air damping and any active
/// impulse are added to its accumulated spring force.
pub open spec fn env_force(p: Particle, ad: int, h: int) -> V3 {
    let with_grav = V3 {
        x: p.force@.x,
        y: p.force@.y - div_t(p.mass * GRAVITY, SCALE as int),
        z: p.force@.z,
    };
    let with_air = add_v(with_grav, scale_div_v(p.velocity@, -ad, SCALE as int));
    if p.impulse_duration > 0 {
        add_v(with_air, scale_div_v(p.impulse@, h, SCALE as int))
    } else {
        with_air
    }
}

/// The impulse left after a sub-step: unchanged while its duration lasts,
/// reset to zero once the duration runs out.
pub open spec fn decayed_impulse(p: Particle, h: int) -> V3 {
    if p.impulse_duration > 0 && p.impulse_duration - h <= 0 {
        V3 { x: 0, y: 0, z: 0 }
    } else {
        p.impulse@
    }
}

/// The impulse duration left after a sub-step.
pub open spec fn decayed_impulse_duration(p: Particle, h: int) -> int {
    if p.impulse_duration > 0 {
        if p.impulse_duration - h <= 0 {
            0
        } else {
            p.impulse_duration - h
        }
    } else {
        p.impulse_duration as int
    }
}

/// Semi-implicit Euler velocity: `v + force / mass * h`, clamped to the
/// stability bound.
pub open spec fn new_velocity(p: Particle, ad: int, h: int) -> V3 {
    clamp_v(add_v(p.velocity@, scale_div_v(env_force(p, ad, h), h, p.mass as int)),
        MAX_COORD as int)
}

/// Semi-implicit Euler position: `x + v' * h`, clamped to the stability
/// bound.
pub open spec fn new_position(p: Particle, ad: int, h: int) -> V3 {
    clamp_v(add_v(p.position@, scale_div_v(new_velocity(p, ad, h), h, SCALE as int)),
        MAX_COORD as int)
}

/// Phase two of a sub-step: apply gravity scaled by the derived mass,
/// linear air damping and any active impulse, then integrate velocity and
/// position. Pinned particles and particles whose derived mass is zero are
/// left untouched.
pub fn integrate(web: &mut Web, air_damping: i64, h: i64)
    requires
        old(web).wf(),
        0 <= air_damping <= MAX_PARAM,
        0 < h <= MAX_DT,
        forall|i: int| 0 <= i < old(web).particles@.len() && !old(web).particles@[i].pinned
            ==> bounded_v(#[trigger] old(web).particles@[i].force@, 100_000_000_000_000int),
    ensures
        final(web).wf(),
        final(web).particles@.len() == old(web).particles@.len(),
        final(web).springs@ == old(web).springs@,
        final(web).mass_per_unit_length == old(web).mass_per_unit_length,
        forall|i: int| 0 <= i < old(web).particles@.len() && (old(web).particles@[i].pinned || old(
            web,
        ).particles@[i].mass == 0) ==> #[trigger] final(web).particles@[i] == old(
            web,
        ).particles@[i],
        forall|i: int|
            0 <= i < old(web).particles@.len() && !old(web).particles@[i].pinned && old(
                web,
            ).particles@[i].mass > 0 ==> {
                let p = old(web).particles@[i];
                let q = #[trigger] final(web).particles@[i];
                &&& q.position@ == new_position(p, air_damping as int, h as int)
                &&& q.velocity@ == new_velocity(p, air_damping as int, h as int)
                &&& q.force@ == env_force(p, air_damping as int, h as int)
                &&& q.impulse@ == decayed_impulse(p, h as int)
                &&& q.impulse_duration == decayed_impulse_duration(p, h as int)
                &&& q.mass == p.mass
                &&& q.pinned == p.pinned
            },
{
    let ghost old_ps = old(web).particles@;
    let n = web.particles.len();
    let mut i: usize = 0;
    while i < n
        invariant
            i <= n,
            n == web.particles@.len(),
            web.wf(),
            n == old_ps.len(),
            web.springs@ == old(web).springs@,
            web.mass_per_unit_length == old(web).mass_per_unit_length,
            old_ps == old(web).particles@,
            0 <= air_damping <= MAX_PARAM,
            0 < h <= MAX_DT,
            forall|p: int| 0 <= p < n && !old_ps[p].pinned ==> bounded_v(
                #[trigger] old_ps[p].force@, 100_000_000_000_000int),
            forall|p: int| i <= p < n ==> #[trigger] web.particles@[p] == old_ps[p],
            forall|p: int| 0 <= p < i && (old_ps[p].pinned || old_ps[p].mass == 0)
                ==> #[trigger] web.particles@[p] == old_ps[p],
            forall|p: int|
                0 <= p < i && !old_ps[p].pinned && old_ps[p].mass > 0 ==> {
                    let a = old_ps[p];
                    let q = #[trigger] web.particles@[p];
                    &&& q.position@ == new_position(a, air_damping as int, h as int)
                    &&& q.velocity@ == new_velocity(a, air_damping as int, h as int)
                    &&& q.force@ == env_force(a, air_damping as int, h as int)
                    &&& q.impulse@ == decayed_impulse(a, h as int)
                    &&& q.impulse_duration == decayed_impulse_duration(a, h as int)
                    &&& q.mass == a.mass
                    &&& q.pinned == a.pinned
                },
        decreases n - i,
    {
        let p = web.particles[i];
        if !p.pinned && p.mass > 0 {
            proof {
                lemma_mul_bound(p.mass as int, GRAVITY as int, MASS_CAP as int, GRAVITY as int);
                lemma_div_t_shrink(p.mass * GRAVITY, SCALE as int,
                    MASS_CAP as int * GRAVITY as int);
                lemma_mul_bound(p.velocity@.x, -air_damping as int, MAX_COORD as int,
                    MAX_PARAM as int);
                lemma_mul_bound(p.velocity@.y, -air_damping as int, MAX_COORD as int,
                    MAX_PARAM as int);
                lemma_mul_bound(p.velocity@.z, -air_damping as int, MAX_COORD as int,
                    MAX_PARAM as int);
                lemma_div_t_shrink(p.velocity@.x * (-air_damping as int), SCALE as int,
                    1_000_000_000_000int);
                lemma_div_t_shrink(p.velocity@.y * (-air_damping as int), SCALE as int,
                    1_000_000_000_000int);
                lemma_div_t_shrink(p.velocity@.z * (-air_damping as int), SCALE as int,
                    1_000_000_000_000int);
            }
            let grav = crate::fx::div_fx(p.mass * GRAVITY, SCALE);
            let f1 = Vec3Fx { x: p.force.x, y: p.force.y - grav, z: p.force.z };
            let air = p.velocity.scale_div(-air_damping, SCALE);
            let mut f2 = f1.add(air);
            let mut imp = p.impulse;
            let mut dur = p.impulse_duration;
            if dur > 0 {
                proof {
                    lemma_mul_bound(p.impulse@.x, h as int, crate::fx::MAX_IMPULSE as int,
                        MAX_DT as int);
                    lemma_mul_bound(p.impulse@.y, h as int, crate::fx::MAX_IMPULSE as int,
                        MAX_DT as int);
                    lemma_mul_bound(p.impulse@.z, h as int, crate::fx::MAX_IMPULSE as int,
                        MAX_DT as int);
                    lemma_div_t_shrink(p.impulse@.x * h, SCALE as int, 200_000_000_000int);
                    lemma_div_t_shrink(p.impulse@.y * h, SCALE as int, 200_000_000_000int);
                    lemma_div_t_shrink(p.impulse@.z * h, SCALE as int, 200_000_000_000int);
                }
                let ji = p.impulse.scale_div(h, SCALE);
                f2 = f2.add(ji);
                dur = dur - h;
                if dur <= 0 {
                    imp = Vec3Fx { x: 0, y: 0, z: 0 };
                    dur = 0;
                }
            }
            proof {
                lemma_mul_bound(f2@.x, h as int, 600_000_000_000_000int, MAX_DT as int);
                lemma_mul_bound(f2@.y, h as int, 600_000_000_000_000int, MAX_DT as int);
                lemma_mul_bound(f2@.z, h as int, 600_000_000_000_000int, MAX_DT as int);
            }
            let dv = f2.scale_div(h, p.mass);
            let v1 = p.velocity.add(dv).clamp_to(MAX_COORD);
            proof {
                lemma_mul_bound(v1@.x, h as int, MAX_COORD as int, MAX_DT as int);
                lemma_mul_bound(v1@.y, h as int, MAX_COORD as int, MAX_DT as int);
                lemma_mul_bound(v1@.z, h as int, MAX_COORD as int, MAX_DT as int);
            }
            let x1 = p.position.add(v1.scale_div(h, SCALE)).clamp_to(MAX_COORD);
            let mut np = p;
            np.force = f2;
            np.impulse = imp;
            np.impulse_duration = dur;
            np.velocity = v1;
            np.position = x1;
            web.particles[i] = np;
        }
        i += 1;
    }
}

/// One full physics sub-step: accumulate spring forces and derived
/// masses, then integrate every live particle. Pinned particles are never
/// mutated — in particular, a step over a fully pinned web changes
/// nothing, whatever the time step.
pub fn step(web: &mut Web, air_damping: i64, h: i64)
    requires
        old(web).wf(),
        0 <= air_damping <= MAX_PARAM,
        0 < h <= MAX_DT,
    ensures
        final(web).wf(),
        final(web).particles@.len() == old(web).particles@.len(),
        final(web).springs@ == old(web).springs@,
        final(web).mass_per_unit_length == old(web).mass_per_unit_length,
        forall|i: int| 0 <= i < old(web).particles@.len() && old(web).particles@[i].pinned
            ==> #[trigger] final(web).particles@[i] == old(web).particles@[i],
        forall|i: int|
            0 <= i < old(web).particles@.len() && !old(web).particles@[i].pinned ==> {
                let m = web_mass(old(web).springs@, i, old(web).mass_per_unit_length as int);
                let f = web_force(old(web).springs@, i, old(web).particles@);
                let ap = accumulated(old(web).particles@[i], m, f);
                let q = #[trigger] final(web).particles@[i];
                if m == 0 {
                    q == ap
                } else {
                    &&& q.position@ == new_position(ap, air_damping as int, h as int)
                    &&& q.velocity@ == new_velocity(ap, air_damping as int, h as int)
                    &&& q.force@ == env_force(ap, air_damping as int, h as int)
                    &&& q.impulse@ == decayed_impulse(ap, h as int)
                    &&& q.impulse_duration == decayed_impulse_duration(ap, h as int)
                    &&& q.mass == m
                    &&& q.pinned == false
                }
            },
        step_rel(*old(web), *final(web), air_damping as int, h as int),
{
    let ghost old_ps = old(web).particles@;
    let ghost springs0 = old(web).springs@;
    let ghost mpul = old(web).mass_per_unit_length as int;
    accumulate(web);
    proof {
        assert forall|i: int| 0 <= i < old_ps.len() && !old_ps[i].pinned implies
            #[trigger] web.particles@[i] == accumulated(old_ps[i], web_mass(springs0, i, mpul),
            web_force(springs0, i, old_ps)) by {
            lemma_web_mass_bounds(springs0, i, mpul, old_ps.len() as int);
        }
    }
    integrate(web, air_damping, h);
}

/// A particle with its derived mass and accumulated force filled in and
/// everything else untouched.
pub open spec fn accumulated(p: Particle, m: int, f: V3) -> Particle {
    Particle {
        mass: m as i64,
        force: Vec3Fx { x: f.x as i64, y: f.y as i64, z: f.z as i64 },
        ..p
    }
}

/// One sub-step as a transition relation: exactly what [`step`] ensures
/// of its pre- and post-state.
pub open spec fn step_rel(pre: Web, post: Web, ad: int, h: int) -> bool {
    &&& post.particles@.len() == pre.particles@.len()
    &&& post.springs@ == pre.springs@
    &&& post.mass_per_unit_length == pre.mass_per_unit_length
    &&& forall|i: int| 0 <= i < pre.particles@.len() && pre.particles@[i].pinned
        ==> #[trigger] post.particles@[i] == pre.particles@[i]
    &&& forall|i: int|
        0 <= i < pre.particles@.len() && !pre.particles@[i].pinned ==> {
            let m = web_mass(pre.springs@, i, pre.mass_per_unit_length as int);
            let f = web_force(pre.springs@, i, pre.particles@);
            let ap = accumulated(pre.particles@[i], m, f);
            let q = #[trigger] post.particles@[i];
            if m == 0 {
                q == ap
            } else {
                &&& q.position@ == new_position(ap, ad, h)
                &&& q.velocity@ == new_velocity(ap, ad, h)
                &&& q.force@ == env_force(ap, ad, h)
                &&& q.impulse@ == decayed_impulse(ap, h)
                &&& q.impulse_duration == decayed_impulse_duration(ap, h)
                &&& q.mass == m
                &&& q.pinned == false
            }
        }
}

/// The sub-step sizes a tick of `h` splits into: `ceil(h / dh) - 1`
/// full sub-steps of `dh`, then one remainder sub-step.
pub open spec fn substep_sizes(h: int, dh: int) -> Seq<int> {
    let count = (h + dh - 1) / dh;
    Seq::new(count as nat, |i: int| if i < count - 1 {
        dh
    } else {
        h - (count - 1) * dh
    })
}

/// `post` is reached from `pre` by one [`step_rel`] transition per entry
/// of `sizes`, in order.
pub open spec fn steps_rel(pre: Web, post: Web, ad: int, sizes: Seq<int>) -> bool
    decreases sizes.len(),
{
    if sizes.len() == 0 {
        post == pre
    } else {
        exists|mid: Web|
            steps_rel(pre, mid, ad, sizes.drop_last()) && step_rel(mid, post, ad, sizes.last())
    }
}

/// Sum of a sequence of sizes.
pub open spec fn sum_sizes(sizes: Seq<int>) -> int
    decreases sizes.len(),
{
    if sizes.len() == 0 {
        0
    } else {
        sum_sizes(sizes.drop_last()) + sizes.last()
    }
}

/// The sub-step sizes of a tick cover it exactly: they sum to `h`, and
/// each lies in `(0, dh]` — fixed sub-steps plus one remainder.
pub proof fn lemma_substep_sizes_cover(h: int, dh: int)
    requires
        0 < h,
        0 < dh,
    ensures
        sum_sizes(substep_sizes(h, dh)) == h,
        forall|i: int| 0 <= i < substep_sizes(h, dh).len() ==> 0 < #[trigger] substep_sizes(h,
            dh)[i] <= dh,
{
    let count = (h + dh - 1) / dh;
    vstd::arithmetic::div_mod::lemma_fundamental_div_mod(h + dh - 1, dh);
    vstd::arithmetic::div_mod::lemma_div_pos_is_pos(h + dh - 1, dh);
    vstd::arithmetic::div_mod::lemma_mod_bound(h + dh - 1, dh);
    assert(count >= 1) by (nonlinear_arith)
        requires
            count == (h + dh - 1) / dh,
            h >= 1,
            dh >= 1,
            dh * count == h + dh - 1 - ((h + dh - 1) % dh),
            0 <= (h + dh - 1) % dh < dh,
    ;
    assert((count - 1) * dh == dh * count - dh) by (nonlinear_arith);
    lemma_sum_sizes_prefix(h, dh, count);
}

/// Sum of the first `k` sub-step sizes: `k * dh` while only full
/// sub-steps are in, the whole of `h` once the remainder is.
proof fn lemma_sum_sizes_prefix(h: int, dh: int, k: int)
    requires
        0 < h,
        0 < dh,
        0 <= k <= substep_sizes(h, dh).len(),
        (h + dh - 1) / dh >= 1,
        dh * ((h + dh - 1) / dh) == h + dh - 1 - ((h + dh - 1) % dh),
        0 <= (h + dh - 1) % dh < dh,
    ensures
        k < substep_sizes(h, dh).len() ==> sum_sizes(substep_sizes(h, dh).take(k)) == k * dh,
        k == substep_sizes(h, dh).len() ==> sum_sizes(substep_sizes(h, dh).take(k)) == h,
        sum_sizes(substep_sizes(h, dh).take(k)) == sum_sizes(substep_sizes(h, dh)) || k
            < substep_sizes(h, dh).len(),
    decreases k,
{
    let sizes = substep_sizes(h, dh);
    let count = (h + dh - 1) / dh;
    if k == 0 {
        assert(sizes.take(0) =~= Seq::<int>::empty());
    } else {
        lemma_sum_sizes_prefix(h, dh, k - 1);
        assert(sizes.take(k).drop_last() =~= sizes.take(k - 1));
        assert(sizes.take(k).last() == sizes[k - 1]);
        assert((k - 1) * dh + dh == k * dh) by (nonlinear_arith);
        if k == count {
            assert((count - 1) * dh == dh * count - dh) by (nonlinear_arith);
        }
    }
    if k == sizes.len() {
        assert(sizes.take(k) =~= sizes);
    }
}

/// Advances the web by `h`, split into sub-steps of at most `desired_h`:
/// the final state is reached from the initial one by exactly one
/// [`step_rel`] transition per sub-step of [`substep_sizes`] (full-size
/// sub-steps followed by one remainder; they sum to `h`). Pinned
/// particles come out exactly as they went in.
pub fn advance(web: &mut Web, air_damping: i64, h: i64, desired_h: i64)
    requires
        old(web).wf(),
        0 <= air_damping <= MAX_PARAM,
        0 < h <= MAX_DT,
        0 < desired_h <= MAX_DT,
    ensures
        final(web).wf(),
        final(web).particles@.len() == old(web).particles@.len(),
        final(web).springs@ == old(web).springs@,
        final(web).mass_per_unit_length == old(web).mass_per_unit_length,
        forall|i: int| 0 <= i < old(web).particles@.len() && old(web).particles@[i].pinned
            ==> #[trigger] final(web).particles@[i] == old(web).particles@[i],
        steps_rel(*old(web), *final(web), air_damping as int, substep_sizes(h as int,
            desired_h as int)),
{
    let count = (h + desired_h - 1) / desired_h;
    proof {
        vstd::arithmetic::div_mod::lemma_fundamental_div_mod(h + desired_h - 1, desired_h as int);
        vstd::arithmetic::div_mod::lemma_div_pos_is_pos(h + desired_h - 1, desired_h as int);
        assert((desired_h as int) * count == h + desired_h - 1 - ((h + desired_h - 1) % (
        desired_h as int)));
        assert(count >= 1) by (nonlinear_arith)
            requires
                count == (h + desired_h - 1) as int / desired_h as int,
                h >= 1,
                desired_h >= 1,
        ;
    }
    let mut it: i64 = 0;
    while it < count
        invariant
            0 <= it <= count,
            1 <= count,
            web.wf(),
            web.particles@.len() == old(web).particles@.len(),
            web.springs@ == old(web).springs@,
            web.mass_per_unit_length == old(web).mass_per_unit_length,
            0 <= air_damping <= MAX_PARAM,
            0 < h <= MAX_DT,
            0 < desired_h <= MAX_DT,
            count == (h + desired_h - 1) as int / desired_h as int,
            (desired_h as int) * (count as int) == h + desired_h - 1 - ((h + desired_h - 1) % (
            desired_h as int)),
            forall|i: int| 0 <= i < old(web).particles@.len() && old(web).particles@[i].pinned
                ==> #[trigger] web.particles@[i] == old(web).particles@[i],
            count as int == substep_sizes(h as int, desired_h as int).len(),
            steps_rel(*old(web), *web, air_damping as int, substep_sizes(h as int,
                desired_h as int).take(it as int)),
        decreases count - it,
    {
        let ghost sizes = substep_sizes(h as int, desired_h as int);
        proof {
            vstd::arithmetic::div_mod::lemma_mod_bound(h + desired_h - 1, desired_h as int);
            assert((count - 1) * (desired_h as int) == (desired_h as int) * (count as int)
                - desired_h) by (nonlinear_arith);
        }
        let hi = if it == count - 1 {
            h - (count - 1) * desired_h
        } else {
            desired_h
        };
        let ghost prev = *web;
        step(web, air_damping, hi);
        proof {
            let taken = sizes.take(it as int + 1);
            assert(taken.drop_last() =~= sizes.take(it as int));
            assert(taken.last() == sizes[it as int]);
            assert(sizes[it as int] == hi);
            assert(steps_rel(*old(web), prev, air_damping as int, taken.drop_last()));
            assert(step_rel(prev, *web, air_damping as int, taken.last()));
            assert(steps_rel(*old(web), *web, air_damping as int, taken));
        }
        it += 1;
    }
    proof {
        assert(substep_sizes(h as int, desired_h as int).take(count as int) =~= substep_sizes(
            h as int, desired_h as int));
    }
}

} // verus!
