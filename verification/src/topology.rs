//! Topology mutation: splitting an edge at a point, and destroying every
//! edge that passes through a point.

use crate::ensnare::{has_entity, snare_t_v, snare_world_v, SNAP_IMPULSE, SNAP_IMPULSE_TIME};
use crate::fx::{clamp_s, div_t, lemma_div_t_shrink, lemma_mul_bound, MAX_COORD, MAX_ELEMS,
    MAX_PARAM, MAX_REST, SCALE};
use crate::spring::{ens_wf, entities_unique, spring_wf, EnsnaredEntity, Spring};
use crate::vec3::{add_v, dot_v, len_v, scale_div_v, sub_v, unit_v, V3, Vec3Fx};
use crate::web::{particle_wf, Particle, Web};
use vstd::prelude::*;

verus! {

/// A sequence with the element at `i` removed by swap-remove: the last
/// element takes its place.
pub open spec fn swap_removed<T>(s: Seq<T>, i: int) -> Seq<T> {
    s.update(i, s.last()).drop_last()
}

/// The parameter along the edge from `a` to `b` at which `position`
/// splits it: the length ratio `|position - a| / |b - a|`, clamped into
/// the edge; a degenerate edge resolves to zero.
pub open spec fn split_param(position: V3, a: V3, b: V3) -> int {
    clamp_s(snare_t_v(position, a, b), 0, SCALE as int)
}

/// A fresh unpinned particle at rest at `pos`.
pub open spec fn loose_particle(pos: Vec3Fx) -> Particle {
    Particle {
        position: pos,
        velocity: Vec3Fx { x: 0, y: 0, z: 0 },
        force: Vec3Fx { x: 0, y: 0, z: 0 },
        impulse: Vec3Fx { x: 0, y: 0, z: 0 },
        impulse_duration: 0,
        mass: 0,
        pinned: false,
    }
}

/// An attached record carried over to one half of a split edge: its world
/// position is re-derived from the old edge (`p1` to `p2`), then
/// re-parametrized against the new edge (`a` to `b`). Visual state is
/// reset.
pub open spec fn remap_ens(e: EnsnaredEntity, p1: V3, p2: V3, a: V3, b: V3) -> EnsnaredEntity {
    EnsnaredEntity {
        entity: e.entity,
        snare_position: clamp_s(snare_t_v(snare_world_v(p1, p2, e.snare_position as int), a, b),
            0, SCALE as int) as i64,
        mass: e.mass,
        rotation: 0,
        lerp_rotation: 0,
        done_ensnaring: false,
    }
}

/// The records among the first `k` whose parameter lies at or before `t`,
/// remapped onto the first half (`p1` to `sp`).
pub open spec fn split_ens_first(
    es: Seq<EnsnaredEntity>,
    k: int,
    t: int,
    p1: V3,
    p2: V3,
    sp: V3,
) -> Seq<EnsnaredEntity>
    decreases k,
{
    if k <= 0 {
        Seq::empty()
    } else {
        let prev = split_ens_first(es, k - 1, t, p1, p2, sp);
        if es[k - 1].snare_position <= t {
            prev.push(remap_ens(es[k - 1], p1, p2, p1, sp))
        } else {
            prev
        }
    }
}

/// The records among the first `k` whose parameter lies after `t`,
/// remapped onto the second half (`sp` to `p2`).
pub open spec fn split_ens_second(
    es: Seq<EnsnaredEntity>,
    k: int,
    t: int,
    p1: V3,
    p2: V3,
    sp: V3,
) -> Seq<EnsnaredEntity>
    decreases k,
{
    if k <= 0 {
        Seq::empty()
    } else {
        let prev = split_ens_second(es, k - 1, t, p1, p2, sp);
        if es[k - 1].snare_position <= t {
            prev
        } else {
            prev.push(remap_ens(es[k - 1], p1, p2, sp, p2))
        }
    }
}

/// Total mass of a list of attached records.
pub open spec fn seq_mass(es: Seq<EnsnaredEntity>) -> int
    decreases es.len(),
{
    if es.len() == 0 {
        0
    } else {
        seq_mass(es.drop_last()) + es.last().mass
    }
}

/// Splitting an edge partitions its attached records: every record lands
/// on exactly one half, so the two halves together keep the record count
/// and the total attached mass of the original edge.
pub proof fn lemma_split_preserves_entities(
    es: Seq<EnsnaredEntity>,
    k: int,
    t: int,
    p1: V3,
    p2: V3,
    sp: V3,
)
    requires
        0 <= k <= es.len(),
    ensures
        split_ens_first(es, k, t, p1, p2, sp).len() + split_ens_second(es, k, t, p1, p2,
            sp).len() == k,
        seq_mass(split_ens_first(es, k, t, p1, p2, sp)) + seq_mass(split_ens_second(es, k, t, p1,
            p2, sp)) == seq_mass(es.take(k)),
    decreases k,
{
    if k > 0 {
        lemma_split_preserves_entities(es, k - 1, t, p1, p2, sp);
        let f0 = split_ens_first(es, k - 1, t, p1, p2, sp);
        let s0 = split_ens_second(es, k - 1, t, p1, p2, sp);
        assert(es.take(k).drop_last() =~= es.take(k - 1));
        assert(es.take(k).last() == es[k - 1]);
        assert(seq_mass(es.take(k)) == seq_mass(es.take(k - 1)) + es[k - 1].mass);
        if es[k - 1].snare_position <= t {
            let r = remap_ens(es[k - 1], p1, p2, p1, sp);
            assert(f0.push(r).drop_last() =~= f0);
            assert(seq_mass(f0.push(r)) == seq_mass(f0) + r.mass);
        } else {
            let r = remap_ens(es[k - 1], p1, p2, sp, p2);
            assert(s0.push(r).drop_last() =~= s0);
            assert(seq_mass(s0.push(r)) == seq_mass(s0) + r.mass);
        }
    } else {
        assert(es.take(0) =~= Seq::<EnsnaredEntity>::empty());
    }
}

/// Splitting keeps each half's records naming distinct creatures: every
/// record of a half comes from a distinct record of the source edge.
pub proof fn lemma_split_unique(
    es: Seq<EnsnaredEntity>,
    k: int,
    t: int,
    p1: V3,
    p2: V3,
    sp: V3,
)
    requires
        0 <= k <= es.len(),
        entities_unique(es),
    ensures
        entities_unique(split_ens_first(es, k, t, p1, p2, sp)),
        entities_unique(split_ens_second(es, k, t, p1, p2, sp)),
        forall|r: int|
            0 <= r < split_ens_first(es, k, t, p1, p2, sp).len() ==> has_entity(es, k, (
            #[trigger] split_ens_first(es, k, t, p1, p2, sp)[r]).entity),
        forall|r: int|
            0 <= r < split_ens_second(es, k, t, p1, p2, sp).len() ==> has_entity(es, k, (
            #[trigger] split_ens_second(es, k, t, p1, p2, sp)[r]).entity),
    decreases k,
{
    if k > 0 {
        lemma_split_unique(es, k - 1, t, p1, p2, sp);
        let prev1 = split_ens_first(es, k - 1, t, p1, p2, sp);
        let prev2 = split_ens_second(es, k - 1, t, p1, p2, sp);
        let id = es[k - 1].entity;
        assert forall|a: int| 0 <= a < prev1.len() implies (#[trigger] prev1[a]).entity
            != id by {
            if prev1[a].entity == id {
                let q = choose|q: int| 0 <= q < k - 1 && (#[trigger] es[q]).entity
                    == prev1[a].entity;
                assert(es[q].entity == es[k - 1].entity);
            }
        }
        assert forall|a: int| 0 <= a < prev2.len() implies (#[trigger] prev2[a]).entity
            != id by {
            if prev2[a].entity == id {
                let q = choose|q: int| 0 <= q < k - 1 && (#[trigger] es[q]).entity
                    == prev2[a].entity;
                assert(es[q].entity == es[k - 1].entity);
            }
        }
    }
}

/// Filtering released records keeps the survivors naming distinct
/// creatures.
pub proof fn lemma_keep_unique(es: Seq<EnsnaredEntity>, rel: Seq<u64>, k: int)
    requires
        0 <= k <= es.len(),
        entities_unique(es),
    ensures
        entities_unique(keep_records(es, rel, k)),
        forall|r: int|
            0 <= r < keep_records(es, rel, k).len() ==> has_entity(es, k, (
            #[trigger] keep_records(es, rel, k)[r]).entity),
    decreases k,
{
    if k > 0 {
        lemma_keep_unique(es, rel, k - 1);
        let prev = keep_records(es, rel, k - 1);
        let id = es[k - 1].entity;
        assert forall|a: int| 0 <= a < prev.len() implies (#[trigger] prev[a]).entity != id by {
            if prev[a].entity == id {
                let q = choose|q: int| 0 <= q < k - 1 && (#[trigger] es[q]).entity
                    == prev[a].entity;
                assert(es[q].entity == es[k - 1].entity);
            }
        }
    }
}

/// Partitions an edge's attached records for a split at `split_position`:
/// records at or before the split parameter go to the first half, the
/// rest to the second, each re-parametrized against its new edge.
pub fn split_ensnared_entities_for_spring_split(
    web: &Web,
    old_spring: &Spring,
    split_position: Vec3Fx,
) -> (r: (Vec<EnsnaredEntity>, Vec<EnsnaredEntity>))
    requires
        web.wf(),
        spring_wf(*old_spring, web.particles@.len() as int),
        split_position.bounded(2_000_000),
    ensures
        ({
            let es = old_spring.ensnared_entities@;
            let a = web.particles@[old_spring.first_index as int].position@;
            let b = web.particles@[old_spring.second_index as int].position@;
            let t = split_param(split_position@, a, b);
            &&& r.0@ == split_ens_first(es, es.len() as int, t, a, b, split_position@)
            &&& r.1@ == split_ens_second(es, es.len() as int, t, a, b, split_position@)
            &&& r.0@.len() + r.1@.len() == es.len()
            &&& forall|i: int| 0 <= i < r.0@.len() ==> ens_wf(#[trigger] r.0@[i])
            &&& forall|i: int| 0 <= i < r.1@.len() ==> ens_wf(#[trigger] r.1@[i])
        }),
{
    let a = web.particles[old_spring.first_index].position;
    let b = web.particles[old_spring.second_index].position;
    let t_raw = EnsnaredEntity::snare_position_from_world_space(split_position, a, b);
    let t = crate::fx::clamp_fx(t_raw, 0, SCALE);
    let count = old_spring.ensnared_entities.len();
    let mut first: Vec<EnsnaredEntity> = Vec::new();
    let mut second: Vec<EnsnaredEntity> = Vec::new();
    let mut k: usize = 0;
    while k < count
        invariant
            k <= count,
            count == old_spring.ensnared_entities@.len(),
            web.wf(),
            spring_wf(*old_spring, web.particles@.len() as int),
            split_position.bounded(2_000_000),
            a == web.particles@[old_spring.first_index as int].position,
            b == web.particles@[old_spring.second_index as int].position,
            t as int == split_param(split_position@, a@, b@),
            first@ == split_ens_first(old_spring.ensnared_entities@, k as int, t as int, a@, b@,
                split_position@),
            second@ == split_ens_second(old_spring.ensnared_entities@, k as int, t as int, a@,
                b@, split_position@),
            first@.len() + second@.len() == k,
            forall|i: int| 0 <= i < first@.len() ==> ens_wf(#[trigger] first@[i]),
            forall|i: int| 0 <= i < second@.len() ==> ens_wf(#[trigger] second@[i]),
        decreases count - k,
    {
        let e = old_spring.ensnared_entities[k];
        let world = e.snare_position_world_space(a, b);
        if e.snare_position <= t {
            let r = EnsnaredEntity::from_snare_position_world_space(
                e.entity,
                e.mass,
                world,
                a,
                split_position,
            );
            first.push(r);
        } else {
            let r = EnsnaredEntity::from_snare_position_world_space(
                e.entity,
                e.mass,
                world,
                split_position,
                b,
            );
            second.push(r);
        }
        k += 1;
    }
    (first, second)
}

impl Web {
    /// Splits the spring at `spring_index` at the world point `position`:
    /// a fresh unpinned particle appears there, the old edge leaves the
    /// list by swap-remove, and two new edges join each old endpoint to
    /// the new particle, carrying the old stiffness and damping. The two
    /// new rest lengths are `rest * t` and the exact remainder, so they
    /// always sum to the old rest length. Attached records are
    /// partitioned onto the half they fall on.
    pub fn split_spring(&mut self, spring_index: usize, position: Vec3Fx)
        requires
            old(self).wf(),
            spring_index < old(self).springs@.len(),
            old(self).particles@.len() < MAX_ELEMS,
            old(self).springs@.len() < MAX_ELEMS,
            position.bounded(MAX_COORD as int),
        ensures
            final(self).wf(),
            final(self).mass_per_unit_length == old(self).mass_per_unit_length,
            final(self).particles@ == old(self).particles@.push(loose_particle(position)),
            final(self).springs@.len() == old(self).springs@.len() + 1,
            ({
                let s0 = old(self).springs@[spring_index as int];
                let a = old(self).particles@[s0.first_index as int].position@;
                let b = old(self).particles@[s0.second_index as int].position@;
                let t = split_param(position@, a, b);
                let new_idx = old(self).particles@.len();
                let n1 = final(self).springs@[final(self).springs@.len() - 2];
                let n2 = final(self).springs@[final(self).springs@.len() - 1];
                &&& final(self).springs@.drop_last().drop_last() == swap_removed(
                    old(self).springs@,
                    spring_index as int,
                )
                &&& n1.first_index == s0.first_index
                &&& n1.second_index == new_idx
                &&& n2.first_index == new_idx
                &&& n2.second_index == s0.second_index
                &&& n1.stiffness == s0.stiffness && n2.stiffness == s0.stiffness
                &&& n1.damping == s0.damping && n2.damping == s0.damping
                &&& n1.rest_length == div_t(s0.rest_length * t, SCALE as int)
                &&& n2.rest_length == s0.rest_length - n1.rest_length
                &&& n1.rest_length + n2.rest_length == s0.rest_length
                &&& n1.ensnared_entities@ == split_ens_first(s0.ensnared_entities@,
                    s0.ensnared_entities@.len() as int, t, a, b, position@)
                &&& n2.ensnared_entities@ == split_ens_second(s0.ensnared_entities@,
                    s0.ensnared_entities@.len() as int, t, a, b, position@)
                &&& n1.ensnared_entities@.len() + n2.ensnared_entities@.len()
                    == s0.ensnared_entities@.len()
            }),
    {
        self.particles.push(Particle {
            position,
            velocity: Vec3Fx { x: 0, y: 0, z: 0 },
            force: Vec3Fx { x: 0, y: 0, z: 0 },
            impulse: Vec3Fx { x: 0, y: 0, z: 0 },
            impulse_duration: 0,
            mass: 0,
            pinned: false,
        });
        let old_spring = self.springs.swap_remove(spring_index);
        let a = self.particles[old_spring.first_index].position;
        let b = self.particles[old_spring.second_index].position;
        let t_raw = EnsnaredEntity::snare_position_from_world_space(position, a, b);
        let t = crate::fx::clamp_fx(t_raw, 0, SCALE);
        let (ens1, ens2) = split_ensnared_entities_for_spring_split(self, &old_spring, position);
        proof {
            let es = old_spring.ensnared_entities@;
            let av = self.particles@[old_spring.first_index as int].position@;
            let bv = self.particles@[old_spring.second_index as int].position@;
            lemma_split_unique(es, es.len() as int, split_param(position@, av, bv), av, bv,
                position@);
            lemma_mul_bound(old_spring.rest_length as int, t as int, MAX_REST as int,
                SCALE as int);
            assert(old_spring.rest_length * t >= 0) by (nonlinear_arith)
                requires
                    old_spring.rest_length >= 0,
                    t >= 0,
            ;
            lemma_rest_split_bounds(old_spring.rest_length as int, t as int);
        }
        let rest1 = crate::fx::div_fx(old_spring.rest_length * t, SCALE);
        let rest2 = old_spring.rest_length - rest1;
        let new_idx = self.particles.len() - 1;
        self.springs.push(Spring {
            first_index: old_spring.first_index,
            second_index: new_idx,
            stiffness: old_spring.stiffness,
            damping: old_spring.damping,
            rest_length: rest1,
            ensnared_entities: ens1,
        });
        self.springs.push(Spring {
            first_index: new_idx,
            second_index: old_spring.second_index,
            stiffness: old_spring.stiffness,
            damping: old_spring.damping,
            rest_length: rest2,
            ensnared_entities: ens2,
        });
    }
}

/// Fixed-point dot threshold of the two unit directions (from an edge's
/// endpoints toward the probed point) below which the directions count as
/// nearly opposite, so the point sits on the edge. A tuning constant, not
/// a correctness contract.
pub const HIT_DOT: i64 = -980_000;

/// The point sits almost exactly on the line between `a` and `b`: the
/// unit directions from the point to the two endpoints are nearly
/// opposite. A point coinciding with an endpoint has no direction and
/// never hits.
pub open spec fn destroy_hit(point: V3, a: V3, b: V3) -> bool {
    &&& len_v(sub_v(point, a)) != 0
    &&& len_v(sub_v(point, b)) != 0
    &&& dot_v(unit_v(sub_v(point, a)), unit_v(sub_v(point, b))) <= HIT_DOT
}

/// Whether the destroy point hits this spring, judged on the particle
/// list at the time of the call.
pub open spec fn spring_hit(s: Spring, ps: Seq<Particle>, point: V3) -> bool {
    destroy_hit(point, ps[s.first_index as int].position@, ps[s.second_index as int].position@)
}

/// Where a hit edge is severed: the destroy point projected onto the edge
/// by length ratio, `b * t + a * (1 - t)`.
pub open spec fn sever_point(point: V3, a: V3, b: V3) -> V3 {
    let t = split_param(point, a, b);
    add_v(scale_div_v(b, t, SCALE as int), scale_div_v(a, SCALE - t, SCALE as int))
}

/// A fresh unpinned particle born at a severed edge's break point, kicked
/// outward by a brief impulse so the two loose ends visibly separate.
pub open spec fn burst_particle(pos: V3) -> Particle {
    Particle {
        position: Vec3Fx { x: pos.x as i64, y: pos.y as i64, z: pos.z as i64 },
        velocity: Vec3Fx { x: 0, y: 0, z: 0 },
        force: Vec3Fx { x: 0, y: 0, z: 0 },
        impulse: Vec3Fx { x: 0, y: 0, z: SNAP_IMPULSE },
        impulse_duration: SNAP_IMPULSE_TIME,
        mass: 0,
        pinned: false,
    }
}

/// The handles of the first `k` records, in order.
pub open spec fn entities_prefix(es: Seq<EnsnaredEntity>, k: int) -> Seq<u64>
    decreases k,
{
    if k <= 0 {
        Seq::empty()
    } else {
        entities_prefix(es, k - 1).push(es[k - 1].entity)
    }
}

/// All handles attached to hit springs among the first `k`, in order.
pub open spec fn released_entities(
    springs: Seq<Spring>,
    ps: Seq<Particle>,
    point: V3,
    k: int,
) -> Seq<u64>
    decreases k,
{
    if k <= 0 {
        Seq::empty()
    } else {
        let prev = released_entities(springs, ps, point, k - 1);
        let s = springs[k - 1];
        if spring_hit(s, ps, point) {
            prev + entities_prefix(s.ensnared_entities@, s.ensnared_entities@.len() as int)
        } else {
            prev
        }
    }
}

/// The first `k` records whose handle is not in `rel`, in order.
pub open spec fn keep_records(es: Seq<EnsnaredEntity>, rel: Seq<u64>, k: int) -> Seq<
    EnsnaredEntity,
>
    decreases k,
{
    if k <= 0 {
        Seq::empty()
    } else {
        let prev = keep_records(es, rel, k - 1);
        if rel.contains(es[k - 1].entity) {
            prev
        } else {
            prev.push(es[k - 1])
        }
    }
}

/// The particle list after the first `k` springs are processed: two burst
/// particles at the break point of every hit spring.
pub open spec fn destroyed_particles(
    springs: Seq<Spring>,
    ps0: Seq<Particle>,
    point: V3,
    k: int,
) -> Seq<Particle>
    decreases k,
{
    if k <= 0 {
        ps0
    } else {
        let prev = destroyed_particles(springs, ps0, point, k - 1);
        let s = springs[k - 1];
        if spring_hit(s, ps0, point) {
            let bp = burst_particle(sever_point(point, ps0[s.first_index as int].position@,
                ps0[s.second_index as int].position@));
            prev.push(bp).push(bp)
        } else {
            prev
        }
    }
}

/// The particle list only grows, by at most two per spring, and never
/// disturbs the original particles.
pub proof fn lemma_destroyed_particles_shape(
    springs: Seq<Spring>,
    ps0: Seq<Particle>,
    point: V3,
    k: int,
)
    requires
        k >= 0,
    ensures
        ps0.len() <= destroyed_particles(springs, ps0, point, k).len() <= ps0.len() + 2 * k,
        forall|p: int| 0 <= p < ps0.len() ==> destroyed_particles(springs, ps0, point, k)[p]
            == ps0[p],
    decreases k,
{
    if k > 0 {
        lemma_destroyed_particles_shape(springs, ps0, point, k - 1);
    }
}

/// `out` is the spring list after the first `k` springs are processed:
/// every hit spring becomes two fragments joining its old endpoints to
/// the two burst particles at its break point (carrying the old stiffness
/// and damping, each fragment its share of the rest length, and no
/// attached records), and every other spring survives in order with the
/// released records removed.
pub open spec fn destroy_springs_ok(
    springs: Seq<Spring>,
    ps0: Seq<Particle>,
    point: V3,
    rel: Seq<u64>,
    out: Seq<Spring>,
    k: int,
) -> bool
    decreases k,
{
    if k <= 0 {
        out.len() == 0
    } else {
        let s = springs[k - 1];
        if spring_hit(s, ps0, point) {
            let a = ps0[s.first_index as int].position@;
            let b = ps0[s.second_index as int].position@;
            let t = split_param(point, a, b);
            let base = destroyed_particles(springs, ps0, point, k - 1).len() as int;
            let r1 = div_t(s.rest_length * t, SCALE as int);
            &&& out.len() >= 2
            &&& destroy_springs_ok(springs, ps0, point, rel, out.drop_last().drop_last(), k - 1)
            &&& ({
                let f1 = out[out.len() - 2];
                let f2 = out[out.len() - 1];
                &&& f1.first_index == s.first_index
                &&& f1.second_index == base
                &&& f2.first_index == base + 1
                &&& f2.second_index == s.second_index
                &&& f1.stiffness == s.stiffness && f2.stiffness == s.stiffness
                &&& f1.damping == s.damping && f2.damping == s.damping
                &&& f1.rest_length == r1
                &&& f2.rest_length == s.rest_length - r1
                &&& f1.ensnared_entities@.len() == 0
                &&& f2.ensnared_entities@.len() == 0
            })
        } else {
            &&& out.len() >= 1
            &&& destroy_springs_ok(springs, ps0, point, rel, out.drop_last(), k - 1)
            &&& ({
                let o = out.last();
                &&& o.first_index == s.first_index
                &&& o.second_index == s.second_index
                &&& o.stiffness == s.stiffness
                &&& o.damping == s.damping
                &&& o.rest_length == s.rest_length
                &&& o.ensnared_entities@ == keep_records(s.ensnared_entities@, rel,
                    s.ensnared_entities@.len() as int)
            })
        }
    }
}

/// A convex fixed-point combination of two bounded values stays within
/// the bound: the two truncated halves cannot add up past it.
proof fn lemma_convex_bound(a: int, b: int, t: int, cap: int)
    requires
        -cap <= a <= cap,
        -cap <= b <= cap,
        0 <= t <= SCALE,
        0 <= cap,
    ensures
        -cap <= div_t(b * t, SCALE as int) + div_t(a * (SCALE - t), SCALE as int) <= cap,
{
    let s = SCALE as int;
    assert(-(cap * t) <= b * t <= cap * t) by (nonlinear_arith)
        requires
            -cap <= b <= cap,
            0 <= t,
            0 <= cap,
    ;
    assert(-(cap * (s - t)) <= a * (s - t) <= cap * (s - t)) by (nonlinear_arith)
        requires
            -cap <= a <= cap,
            0 <= s - t,
            0 <= cap,
    ;
    assert(cap * t >= 0 && cap * (s - t) >= 0) by (nonlinear_arith)
        requires
            0 <= t <= s,
            0 <= cap,
    ;
    lemma_div_t_shrink(b * t, s, cap * t);
    lemma_div_t_shrink(a * (s - t), s, cap * (s - t));
    let x = cap * t;
    let y = cap * (s - t);
    vstd::arithmetic::div_mod::lemma_fundamental_div_mod(x, s);
    vstd::arithmetic::div_mod::lemma_fundamental_div_mod(y, s);
    vstd::arithmetic::div_mod::lemma_mod_bound(x, s);
    vstd::arithmetic::div_mod::lemma_mod_bound(y, s);
    let qx = x / s;
    let qy = y / s;
    assert(s * (qx + qy) <= x + y);
    vstd::arithmetic::div_mod::lemma_div_is_ordered(s * (qx + qy), x + y, s);
    vstd::arithmetic::div_mod::lemma_div_multiples_vanish(qx + qy, s);
    assert(cap * t + cap * (s - t) == cap * s) by (nonlinear_arith);
    vstd::arithmetic::div_mod::lemma_div_multiples_vanish(cap, s);
    assert((cap * s) / s == cap) by {
        assert(cap * s == s * cap) by (nonlinear_arith);
    }
    assert(qx + qy <= cap);
}

/// Whether `id` occurs in the list of handles.
fn contains_id(v: &Vec<u64>, id: u64) -> (r: bool)
    ensures
        r == v@.contains(id),
{
    let n = v.len();
    let mut i: usize = 0;
    while i < n
        invariant
            i <= n,
            n == v@.len(),
            forall|j: int| 0 <= j < i ==> v@[j] != id,
        decreases n - i,
    {
        if v[i] == id {
            return true;
        }
        i += 1;
    }
    false
}

impl Web {
    /// Severs every edge that passes through `point`. Every hit edge
    /// first has its attached entities released — removed from the whole
    /// web, their handles returned to the caller so the creatures can
    /// return to flight — and is then replaced by two fragments joining
    /// its old endpoints to two fresh burst particles at the break point,
    /// which separate under a brief outward impulse. A point outside the
    /// playfield bounds does nothing. Edges are judged against the state
    /// at the call, so several edges through one junction all sever in
    /// the same call; surviving edges keep their relative order.
    pub fn destroy(&mut self, point: Vec3Fx) -> (released: Vec<u64>)
        requires
            old(self).wf(),
            point.bounded(MAX_COORD as int),
            old(self).particles@.len() + 2 * old(self).springs@.len() <= MAX_ELEMS,
        ensures
            final(self).wf(),
            final(self).mass_per_unit_length == old(self).mass_per_unit_length,
            !crate::region::in_camera_bounds_v(point@) ==> final(self).particles@
                == old(self).particles@ && final(self).springs@ == old(self).springs@
                && released@.len() == 0,
            crate::region::in_camera_bounds_v(point@) ==> {
                &&& released@ == released_entities(old(self).springs@, old(self).particles@,
                    point@, old(self).springs@.len() as int)
                &&& final(self).particles@ == destroyed_particles(old(self).springs@,
                    old(self).particles@, point@, old(self).springs@.len() as int)
                &&& destroy_springs_ok(old(self).springs@, old(self).particles@, point@,
                    released@, final(self).springs@, old(self).springs@.len() as int)
                &&& forall|j: int, r: int|
                    0 <= j < final(self).springs@.len() && 0 <= r
                        < final(self).springs@[j].ensnared_entities@.len() ==> !released@.contains(
                        #[trigger] final(self).springs@[j].ensnared_entities@[r].entity)
            },
    {
        if !crate::region::in_camera_bounds(point) {
            return Vec::new();
        }
        let ghost springs0 = self.springs@;
        let ghost ps0 = self.particles@;
        let m = self.springs.len();

        let mut hit: Vec<bool> = Vec::new();
        let mut released: Vec<u64> = Vec::new();
        let mut j: usize = 0;
        while j < m
            invariant
                j <= m,
                m == self.springs@.len(),
                self.wf(),
                springs0 == self.springs@,
                ps0 == self.particles@,
                point.bounded(MAX_COORD as int),
                hit@.len() == j,
                forall|q: int| 0 <= q < j ==> #[trigger] hit@[q] == spring_hit(springs0[q], ps0,
                    point@),
                released@ == released_entities(springs0, ps0, point@, j as int),
            decreases m - j,
        {
            let s_first = self.springs[j].first_index;
            let s_second = self.springs[j].second_index;
            let a = self.particles[s_first].position;
            let b = self.particles[s_second].position;
            let d1 = point.sub(a);
            let d2 = point.sub(b);
            let u1o = d1.unit();
            let u2o = d2.unit();
            let h = match (u1o, u2o) {
                (Some(u1), Some(u2)) => u1.dot(u2) <= HIT_DOT,
                _ => false,
            };
            proof {
                assert(h == spring_hit(springs0[j as int], ps0, point@));
            }
            hit.push(h);
            if h {
                let ghost rel_before = released@;
                let ecount = self.springs[j].ensnared_entities.len();
                let mut e: usize = 0;
                while e < ecount
                    invariant
                        e <= ecount,
                        j < m,
                        m == self.springs@.len(),
                        springs0 == self.springs@,
                        ecount == springs0[j as int].ensnared_entities@.len(),
                        released@ == rel_before + entities_prefix(
                            springs0[j as int].ensnared_entities@, e as int),
                    decreases ecount - e,
                {
                    let id = self.springs[j].ensnared_entities[e].entity;
                    released.push(id);
                    proof {
                        assert(released@ =~= rel_before + entities_prefix(
                            springs0[j as int].ensnared_entities@, e as int + 1));
                    }
                    e += 1;
                }
            } else {
                proof {
                    assert(released@ + Seq::<u64>::empty() == released@);
                }
            }
            j += 1;
        }

        let mut new_springs: Vec<Spring> = Vec::new();
        let mut j: usize = 0;
        while j < m
            invariant
                j <= m,
                m == springs0.len(),
                self.springs@ == springs0,
                self.mass_per_unit_length == old(self).mass_per_unit_length,
                0 <= self.mass_per_unit_length <= MAX_PARAM,
                ps0.len() + 2 * m <= MAX_ELEMS,
                point.bounded(MAX_COORD as int),
                hit@.len() == m,
                forall|q: int| 0 <= q < m ==> #[trigger] hit@[q] == spring_hit(springs0[q], ps0,
                    point@),
                forall|q: int| 0 <= q < springs0.len() ==> spring_wf(#[trigger] springs0[q],
                    ps0.len() as int),
                forall|p: int| 0 <= p < self.particles@.len() ==> particle_wf(
                    #[trigger] self.particles@[p]),
                self.particles@ == destroyed_particles(springs0, ps0, point@, j as int),
                self.particles@.len() <= ps0.len() + 2 * j,
                destroy_springs_ok(springs0, ps0, point@, released@, new_springs@, j as int),
                new_springs@.len() <= 2 * j,
                forall|q: int| 0 <= q < new_springs@.len() ==> spring_wf(
                    #[trigger] new_springs@[q], self.particles@.len() as int),
                forall|q: int, r: int|
                    0 <= q < new_springs@.len() && 0 <= r < new_springs@[q].ensnared_entities@.len()
                        ==> !released@.contains(
                        #[trigger] new_springs@[q].ensnared_entities@[r].entity),
            decreases m - j,
        {
            proof {
                lemma_destroyed_particles_shape(springs0, ps0, point@, j as int);
            }
            let s_first = self.springs[j].first_index;
            let s_second = self.springs[j].second_index;
            let s_stiff = self.springs[j].stiffness;
            let s_damp = self.springs[j].damping;
            let s_rest = self.springs[j].rest_length;
            let ghost springs_before = new_springs@;
            if hit[j] {
                let a = self.particles[s_first].position;
                let b = self.particles[s_second].position;
                let t_raw = EnsnaredEntity::snare_position_from_world_space(point, a, b);
                let t = crate::fx::clamp_fx(t_raw, 0, SCALE);
                proof {
                    lemma_mul_bound(b@.x, t as int, MAX_COORD as int, SCALE as int);
                    lemma_mul_bound(b@.y, t as int, MAX_COORD as int, SCALE as int);
                    lemma_mul_bound(b@.z, t as int, MAX_COORD as int, SCALE as int);
                    lemma_mul_bound(a@.x, SCALE - t, MAX_COORD as int, SCALE as int);
                    lemma_mul_bound(a@.y, SCALE - t, MAX_COORD as int, SCALE as int);
                    lemma_mul_bound(a@.z, SCALE - t, MAX_COORD as int, SCALE as int);
                    lemma_convex_bound(a@.x, b@.x, t as int, MAX_COORD as int);
                    lemma_convex_bound(a@.y, b@.y, t as int, MAX_COORD as int);
                    lemma_convex_bound(a@.z, b@.z, t as int, MAX_COORD as int);
                }
                let sp = b.scale_div(t, SCALE).add(a.scale_div(SCALE - t, SCALE));
                let burst = Particle {
                    position: sp,
                    velocity: Vec3Fx { x: 0, y: 0, z: 0 },
                    force: Vec3Fx { x: 0, y: 0, z: 0 },
                    impulse: Vec3Fx { x: 0, y: 0, z: SNAP_IMPULSE },
                    impulse_duration: SNAP_IMPULSE_TIME,
                    mass: 0,
                    pinned: false,
                };
                let base = self.particles.len();
                self.particles.push(burst);
                self.particles.push(burst);
                proof {
                    lemma_mul_bound(s_rest as int, t as int, MAX_REST as int, SCALE as int);
                    assert(s_rest * t >= 0) by (nonlinear_arith)
                        requires
                            s_rest >= 0,
                            t >= 0,
                    ;
                    lemma_rest_split_bounds(s_rest as int, t as int);
                }
                let rest1 = crate::fx::div_fx(s_rest * t, SCALE);
                let rest2 = s_rest - rest1;
                new_springs.push(Spring {
                    first_index: s_first,
                    second_index: base,
                    stiffness: s_stiff,
                    damping: s_damp,
                    rest_length: rest1,
                    ensnared_entities: Vec::new(),
                });
                new_springs.push(Spring {
                    first_index: base + 1,
                    second_index: s_second,
                    stiffness: s_stiff,
                    damping: s_damp,
                    rest_length: rest2,
                    ensnared_entities: Vec::new(),
                });
                proof {
                    assert(new_springs@.drop_last().drop_last() =~= springs_before);
                }
            } else {
                let ecount = self.springs[j].ensnared_entities.len();
                let mut kept: Vec<EnsnaredEntity> = Vec::new();
                let mut e: usize = 0;
                while e < ecount
                    invariant
                        e <= ecount,
                        j < m,
                        m == self.springs@.len(),
                        self.springs@ == springs0,
                        ecount == springs0[j as int].ensnared_entities@.len(),
                        spring_wf(springs0[j as int], ps0.len() as int),
                        kept@ == keep_records(springs0[j as int].ensnared_entities@, released@,
                            e as int),
                        kept@.len() <= e,
                        forall|r: int| 0 <= r < kept@.len() ==> ens_wf(#[trigger] kept@[r]),
                        forall|r: int| 0 <= r < kept@.len() ==> !released@.contains(
                            #[trigger] kept@[r].entity),
                    decreases ecount - e,
                {
                    let rec = self.springs[j].ensnared_entities[e];
                    if !contains_id(&released, rec.entity) {
                        kept.push(rec);
                    }
                    e += 1;
                }
                proof {
                    lemma_keep_unique(springs0[j as int].ensnared_entities@, released@,
                        ecount as int);
                }
                new_springs.push(Spring {
                    first_index: s_first,
                    second_index: s_second,
                    stiffness: s_stiff,
                    damping: s_damp,
                    rest_length: s_rest,
                    ensnared_entities: kept,
                });
                proof {
                    assert(new_springs@.drop_last() =~= springs_before);
                }
            }
            j += 1;
        }
        self.springs = new_springs;
        released
    }
}


/// The clamped parameter at which an obstacle at `w` strikes the spring
/// `j`: its projection onto the edge.
pub open spec fn obstacle_t(web: Web, j: int, w: V3) -> int {
    let a = web.particles@[web.springs@[j].first_index as int].position@;
    let b = web.particles@[web.springs@[j].second_index as int].position@;
    let d = sub_v(b, a);
    let den = dot_v(d, d);
    if den == 0 {
        0
    } else {
        clamp_s(div_t(dot_v(sub_v(w, a), d) * SCALE, den), 0, SCALE as int)
    }
}

/// Where an obstacle at `w` strikes the spring `j`: the projected point
/// on the edge, `(1 - t) * a + t * b`.
pub open spec fn obstacle_break_point(web: Web, j: int, w: V3) -> V3 {
    let a = web.particles@[web.springs@[j].first_index as int].position@;
    let b = web.particles@[web.springs@[j].second_index as int].position@;
    let t = obstacle_t(web, j, w);
    add_v(scale_div_v(a, SCALE - t, SCALE as int), scale_div_v(b, t, SCALE as int))
}

impl Web {
    /// An obstacle collided with the spring at `spring_index`: the impact
    /// point is the obstacle's position projected onto the edge (clamped
    /// into it, however far floating collision margins pushed it), and
    /// the web is destroyed there. Returns the released entity handles.
    pub fn break_at_obstacle(&mut self, spring_index: usize, obstacle_pos: Vec3Fx) -> (released:
        Vec<u64>)
        requires
            old(self).wf(),
            spring_index < old(self).springs@.len(),
            obstacle_pos.bounded(MAX_COORD as int),
            old(self).particles@.len() + 2 * old(self).springs@.len() <= MAX_ELEMS,
        ensures
            final(self).wf(),
            final(self).mass_per_unit_length == old(self).mass_per_unit_length,
            ({
                let bp = obstacle_break_point(*old(self), spring_index as int, obstacle_pos@);
                &&& !crate::region::in_camera_bounds_v(bp) ==> final(self).particles@ == old(
                    self,
                ).particles@ && final(self).springs@ == old(self).springs@ && released@.len()
                    == 0
                &&& crate::region::in_camera_bounds_v(bp) ==> {
                    &&& released@ == released_entities(old(self).springs@, old(self).particles@,
                        bp, old(self).springs@.len() as int)
                    &&& final(self).particles@ == destroyed_particles(old(self).springs@,
                        old(self).particles@, bp, old(self).springs@.len() as int)
                    &&& destroy_springs_ok(old(self).springs@, old(self).particles@, bp,
                        released@, final(self).springs@, old(self).springs@.len() as int)
                    &&& forall|j: int, r: int|
                        0 <= j < final(self).springs@.len() && 0 <= r
                            < final(self).springs@[j].ensnared_entities@.len()
                            ==> !released@.contains(
                            #[trigger] final(self).springs@[j].ensnared_entities@[r].entity)
                }
            }),
    {
        let a = self.particles[self.springs[spring_index].first_index].position;
        let b = self.particles[self.springs[spring_index].second_index].position;
        let d = b.sub(a);
        let rel = obstacle_pos.sub(a);
        let num = rel.dot(d);
        let den = d.dot(d);
        let t_raw = if den == 0 {
            0
        } else {
            proof {
                lemma_mul_bound(rel@.x, d@.x, 2_000_000, 2_000_000);
                lemma_mul_bound(rel@.y, d@.y, 2_000_000, 2_000_000);
                lemma_mul_bound(rel@.z, d@.z, 2_000_000, 2_000_000);
                assert(d@.x * d@.x >= 0 && d@.y * d@.y >= 0 && d@.z * d@.z >= 0)
                    by (nonlinear_arith);
                lemma_mul_bound(num as int, SCALE as int, 12_000_000_000_000, SCALE as int);
                lemma_div_t_shrink(num as int * SCALE as int, den as int,
                    12_000_000_000_000_000);
            }
            crate::fx::div_fx(num * SCALE, den)
        };
        let t = crate::fx::clamp_fx(t_raw, 0, SCALE);
        proof {
            lemma_mul_bound(a@.x, SCALE - t, MAX_COORD as int, SCALE as int);
            lemma_mul_bound(a@.y, SCALE - t, MAX_COORD as int, SCALE as int);
            lemma_mul_bound(a@.z, SCALE - t, MAX_COORD as int, SCALE as int);
            lemma_mul_bound(b@.x, t as int, MAX_COORD as int, SCALE as int);
            lemma_mul_bound(b@.y, t as int, MAX_COORD as int, SCALE as int);
            lemma_mul_bound(b@.z, t as int, MAX_COORD as int, SCALE as int);
            lemma_convex_bound(a@.x, b@.x, t as int, MAX_COORD as int);
            lemma_convex_bound(a@.y, b@.y, t as int, MAX_COORD as int);
            lemma_convex_bound(a@.z, b@.z, t as int, MAX_COORD as int);
        }
        let point = a.scale_div(SCALE - t, SCALE).add(b.scale_div(t, SCALE));
        self.destroy(point)
    }
}

/// A rest length scaled by a clamped parameter stays between zero and the
/// original rest length.
proof fn lemma_rest_split_bounds(rest: int, t: int)
    requires
        0 <= rest <= MAX_REST,
        0 <= t <= SCALE,
    ensures
        0 <= div_t(rest * t, SCALE as int) <= rest,
{
    let s = SCALE as int;
    assert(0 <= rest * t <= rest * s) by (nonlinear_arith)
        requires
            0 <= rest,
            0 <= t <= s,
    ;
    vstd::arithmetic::div_mod::lemma_div_pos_is_pos(rest * t, s);
    vstd::arithmetic::div_mod::lemma_div_is_ordered(rest * t, rest * s, s);
    assert((rest * s) / s == rest) by (nonlinear_arith)
        requires
            s >= 1,
    ;
}

} // verus!
