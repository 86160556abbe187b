//! Attached entities: where they sit in the world, how they are attached
//! to an edge, and how they are released from the whole web.

use crate::fx::{clamp_s, div_t, lemma_div_t_shrink, lemma_mul_bound, MAX_COORD, MAX_ELEMS,
    MAX_PARAM, SCALE};
use crate::spring::{ens_wf, entities_unique, EnsnaredEntity};
use crate::vec3::{add_v, dot_v, len_v, scale_div_v, sub_v, V3, Vec3Fx};
use crate::web::{Particle, Web};
use vstd::prelude::*;

verus! {

use crate::spring::ANGLE_CAP;

/// Strength of the impulse given to the endpoints of an edge when
/// something lands on it, and to burst particles when an edge is severed.
pub const SNAP_IMPULSE: i64 = 10_000_000;

/// How long such an impulse lasts.
pub const SNAP_IMPULSE_TIME: i64 = 100;

/// World position of the point at parameter `s` along the edge from `a`
/// to `b`: `(1 - s) * a + s * b` in fixed-point arithmetic.
pub open spec fn snare_world_v(a: V3, b: V3, s: int) -> V3 {
    add_v(scale_div_v(a, SCALE - s, SCALE as int), scale_div_v(b, s, SCALE as int))
}

/// Parameter along the edge from `a` to `b` of a world point `w`:
/// the ratio of `|w - a|` to `|b - a|`, zero when the edge is degenerate.
pub open spec fn snare_t_v(w: V3, a: V3, b: V3) -> int {
    if len_v(sub_v(b, a)) == 0 {
        0
    } else {
        div_t(len_v(sub_v(w, a)) * SCALE, len_v(sub_v(b, a)))
    }
}

impl EnsnaredEntity {
    /// The parameter along an edge of a world-space point; a degenerate
    /// (zero-length) edge resolves to parameter zero instead of dividing.
    pub fn snare_position_from_world_space(
        snare_position_world_space: Vec3Fx,
        first_particle_position: Vec3Fx,
        second_particle_position: Vec3Fx,
    ) -> (t: i64)
        requires
            snare_position_world_space.bounded(8_000_000),
            first_particle_position.bounded(8_000_000),
            second_particle_position.bounded(8_000_000),
        ensures
            t == snare_t_v(snare_position_world_space@, first_particle_position@,
                second_particle_position@),
            0 <= t <= 30_000_000_000,
    {
        let num = snare_position_world_space.sub(first_particle_position).length();
        let den = second_particle_position.sub(first_particle_position).length();
        proof {
            let dw = sub_v(snare_position_world_space@, first_particle_position@);
            lemma_mul_bound(dw.x, dw.x, 16_000_000, 16_000_000);
            lemma_mul_bound(dw.y, dw.y, 16_000_000, 16_000_000);
            lemma_mul_bound(dw.z, dw.z, 16_000_000, 16_000_000);
            assert(num <= 28_000_000) by (nonlinear_arith)
                requires
                    (num as int) * (num as int) <= dot_v(dw, dw),
                    dot_v(dw, dw) <= 768_000_000_000_000int,
                    num >= 0,
            ;
        }
        if den == 0 {
            0
        } else {
            proof {
                lemma_div_t_shrink(num as int * SCALE as int, den as int, 28_000_000_000);
            }
            crate::fx::div_fx(num * SCALE, den)
        }
    }

    /// A fresh record for `entity` attached at the world point
    /// `snare_position_world_space` along the given edge; the parameter is
    /// clamped into the edge.
    pub fn from_snare_position_world_space(
        entity: u64,
        mass: i64,
        snare_position_world_space: Vec3Fx,
        first_particle_position: Vec3Fx,
        second_particle_position: Vec3Fx,
    ) -> (e: EnsnaredEntity)
        requires
            snare_position_world_space.bounded(4_000_000),
            first_particle_position.bounded(4_000_000),
            second_particle_position.bounded(4_000_000),
            0 <= mass <= MAX_PARAM,
        ensures
            e.entity == entity,
            e.mass == mass,
            e.snare_position == clamp_s(snare_t_v(snare_position_world_space@,
                first_particle_position@, second_particle_position@), 0, SCALE as int),
            e.rotation == 0,
            e.lerp_rotation == 0,
            !e.done_ensnaring,
            ens_wf(e),
    {
        let t = Self::snare_position_from_world_space(
            snare_position_world_space,
            first_particle_position,
            second_particle_position,
        );
        EnsnaredEntity {
            entity,
            snare_position: crate::fx::clamp_fx(t, 0, SCALE),
            mass,
            rotation: 0,
            lerp_rotation: 0,
            done_ensnaring: false,
        }
    }

    /// The world position this record sits at, given its edge's endpoint
    /// positions.
    pub fn snare_position_world_space(
        &self,
        first_particle_position: Vec3Fx,
        second_particle_position: Vec3Fx,
    ) -> (w: Vec3Fx)
        requires
            first_particle_position.bounded(2_000_000),
            second_particle_position.bounded(2_000_000),
            0 <= self.snare_position <= SCALE,
        ensures
            w@ == snare_world_v(first_particle_position@, second_particle_position@,
                self.snare_position as int),
            w.bounded(4_000_000),
            first_particle_position.bounded(1_000_000) && second_particle_position.bounded(
                1_000_000) ==> w.bounded(2_000_000),
    {
        proof {
            lemma_mul_bound(first_particle_position@.x, SCALE - self.snare_position, 2_000_000,
                SCALE as int);
            lemma_mul_bound(first_particle_position@.y, SCALE - self.snare_position, 2_000_000,
                SCALE as int);
            lemma_mul_bound(first_particle_position@.z, SCALE - self.snare_position, 2_000_000,
                SCALE as int);
            lemma_mul_bound(second_particle_position@.x, self.snare_position as int, 2_000_000,
                SCALE as int);
            lemma_mul_bound(second_particle_position@.y, self.snare_position as int, 2_000_000,
                SCALE as int);
            lemma_mul_bound(second_particle_position@.z, self.snare_position as int, 2_000_000,
                SCALE as int);
            lemma_div_t_shrink(first_particle_position@.x * (SCALE - self.snare_position),
                SCALE as int, 2_000_000_000);
            lemma_div_t_shrink(first_particle_position@.y * (SCALE - self.snare_position),
                SCALE as int, 2_000_000_000);
            lemma_div_t_shrink(first_particle_position@.z * (SCALE - self.snare_position),
                SCALE as int, 2_000_000_000);
            lemma_div_t_shrink(second_particle_position@.x * (self.snare_position as int),
                SCALE as int, 2_000_000_000);
            lemma_div_t_shrink(second_particle_position@.y * (self.snare_position as int),
                SCALE as int, 2_000_000_000);
            lemma_div_t_shrink(second_particle_position@.z * (self.snare_position as int),
                SCALE as int, 2_000_000_000);
        }
        proof {
            if first_particle_position.bounded(1_000_000) && second_particle_position.bounded(
                1_000_000,
            ) {
                lemma_mul_bound(first_particle_position@.x, SCALE - self.snare_position,
                    1_000_000, SCALE as int);
                lemma_mul_bound(first_particle_position@.y, SCALE - self.snare_position,
                    1_000_000, SCALE as int);
                lemma_mul_bound(first_particle_position@.z, SCALE - self.snare_position,
                    1_000_000, SCALE as int);
                lemma_mul_bound(second_particle_position@.x, self.snare_position as int,
                    1_000_000, SCALE as int);
                lemma_mul_bound(second_particle_position@.y, self.snare_position as int,
                    1_000_000, SCALE as int);
                lemma_mul_bound(second_particle_position@.z, self.snare_position as int,
                    1_000_000, SCALE as int);
                lemma_div_t_shrink(first_particle_position@.x * (SCALE - self.snare_position),
                    SCALE as int, 1_000_000_000);
                lemma_div_t_shrink(first_particle_position@.y * (SCALE - self.snare_position),
                    SCALE as int, 1_000_000_000);
                lemma_div_t_shrink(first_particle_position@.z * (SCALE - self.snare_position),
                    SCALE as int, 1_000_000_000);
                lemma_div_t_shrink(second_particle_position@.x * (self.snare_position as int),
                    SCALE as int, 1_000_000_000);
                lemma_div_t_shrink(second_particle_position@.y * (self.snare_position as int),
                    SCALE as int, 1_000_000_000);
                lemma_div_t_shrink(second_particle_position@.z * (self.snare_position as int),
                    SCALE as int, 1_000_000_000);
            }
        }
        let a = first_particle_position.scale_div(SCALE - self.snare_position, SCALE);
        let b = second_particle_position.scale_div(self.snare_position, SCALE);
        a.add(b)
    }
}

/// Index of the first record for `id` in `es` at or after `from`, or
/// `es.len()` when there is none.
pub open spec fn find_entity(es: Seq<EnsnaredEntity>, id: u64, from: int) -> int
    decreases es.len() - from,
{
    if from < 0 || from >= es.len() {
        es.len() as int
    } else if es[from].entity == id {
        from
    } else {
        find_entity(es, id, from + 1)
    }
}

/// `es` with the first record for `id` removed by swap-remove, or `es`
/// itself when no record matches.
pub open spec fn remove_one_entity(es: Seq<EnsnaredEntity>, id: u64) -> Seq<EnsnaredEntity> {
    let i = find_entity(es, id, 0);
    if i == es.len() {
        es
    } else {
        es.update(i, es.last()).drop_last()
    }
}

/// An entity occurs among the first `k` records of `es`.
pub open spec fn has_entity(es: Seq<EnsnaredEntity>, k: int, id: u64) -> bool {
    exists|q: int| 0 <= q < k && (#[trigger] es[q]).entity == id
}

/// `find_entity` finds the first match: a hit carries the entity, and no
/// earlier record does; a miss means no record does.
pub proof fn lemma_find_entity_first(es: Seq<EnsnaredEntity>, id: u64, from: int)
    requires
        0 <= from <= es.len(),
    ensures
        from <= find_entity(es, id, from) <= es.len(),
        find_entity(es, id, from) < es.len() ==> es[find_entity(es, id, from)].entity == id,
        forall|q: int| from <= q < find_entity(es, id, from) ==> (#[trigger] es[q]).entity != id,
    decreases es.len() - from,
{
    if from < es.len() && es[from].entity != id {
        lemma_find_entity_first(es, id, from + 1);
    }
}

/// A creature is snared on an edge at most once, so the swap-remove
/// release leaves no record of it on the edge, and the records that
/// remain still name distinct creatures.
pub proof fn lemma_remove_one_unique(es: Seq<EnsnaredEntity>, id: u64)
    requires
        entities_unique(es),
    ensures
        forall|r: int|
            0 <= r < remove_one_entity(es, id).len() ==> (#[trigger] remove_one_entity(es,
                id)[r]).entity != id,
        entities_unique(remove_one_entity(es, id)),
{
    lemma_find_entity_first(es, id, 0);
    let k = find_entity(es, id, 0);
    let removed = remove_one_entity(es, id);
    if k == es.len() {
        assert forall|r: int| 0 <= r < removed.len() implies (#[trigger] removed[r]).entity
            != id by {
            assert(removed[r] == es[r]);
        }
    } else {
        assert forall|r: int| 0 <= r < removed.len() implies (#[trigger] removed[r]).entity
            != id by {
            if r == k {
                assert(removed[r] == es[es.len() - 1]);
                assert(k < es.len() - 1);
            } else {
                assert(removed[r] == es[r]);
            }
        }
        assert forall|a: int, b: int| 0 <= a < b < removed.len() implies (
        #[trigger] removed[a]).entity != (#[trigger] removed[b]).entity by {
            if a == k {
                assert(removed[a] == es[es.len() - 1]);
                assert(removed[b] == es[b]);
            } else if b == k {
                assert(removed[b] == es[es.len() - 1]);
                assert(removed[a] == es[a]);
            } else {
                assert(removed[a] == es[a]);
                assert(removed[b] == es[b]);
            }
        }
    }
}

/// The position of the first record for `id`, if any.
fn find_record(es: &Vec<EnsnaredEntity>, id: u64) -> (r: Option<usize>)
    ensures
        match r {
            Some(k) => k < es@.len() && find_entity(es@, id, 0) == k as int,
            None => find_entity(es@, id, 0) == es@.len(),
        },
{
    let count = es.len();
    let mut i: usize = 0;
    while i < count
        invariant
            i <= count,
            count == es@.len(),
            find_entity(es@, id, 0) == find_entity(es@, id, i as int),
        decreases count - i,
    {
        if es[i].entity == id {
            return Some(i);
        }
        i += 1;
    }
    None
}

/// Releases an entity from the whole web: every spring loses its first
/// record for `id` (by swap-remove). The external side of the release —
/// despawning the rolled-up model, restoring the creature's flight — is
/// the caller's business.
pub fn free_enemy_from_web(web: &mut Web, id: u64)
    requires
        old(web).wf(),
    ensures
        final(web).wf(),
        final(web).particles == old(web).particles,
        final(web).mass_per_unit_length == old(web).mass_per_unit_length,
        final(web).springs@.len() == old(web).springs@.len(),
        forall|j: int|
            0 <= j < old(web).springs@.len() ==> {
                let s0 = old(web).springs@[j];
                let s1 = #[trigger] final(web).springs@[j];
                &&& s1.first_index == s0.first_index
                &&& s1.second_index == s0.second_index
                &&& s1.stiffness == s0.stiffness
                &&& s1.damping == s0.damping
                &&& s1.rest_length == s0.rest_length
                &&& s1.ensnared_entities@ == remove_one_entity(s0.ensnared_entities@, id)
            },
        forall|j: int, r: int|
            0 <= j < final(web).springs@.len() && 0 <= r < final(web).springs@[j].ensnared_entities@.len() ==> (#[trigger] final(web).springs@[j].ensnared_entities@[r]).entity != id,
{
    let m = web.springs.len();
    let mut j: usize = 0;
    while j < m
        invariant
            j <= m,
            m == web.springs@.len(),
            web.wf(),
            web.particles == old(web).particles,
            web.mass_per_unit_length == old(web).mass_per_unit_length,
            m == old(web).springs@.len(),
            forall|q: int| j <= q < m ==> #[trigger] web.springs@[q] == old(web).springs@[q],
            forall|q: int|
                0 <= q < j ==> {
                    let s0 = old(web).springs@[q];
                    let s1 = #[trigger] web.springs@[q];
                    &&& s1.first_index == s0.first_index
                    &&& s1.second_index == s0.second_index
                    &&& s1.stiffness == s0.stiffness
                    &&& s1.damping == s0.damping
                    &&& s1.rest_length == s0.rest_length
                    &&& s1.ensnared_entities@ == remove_one_entity(s0.ensnared_entities@, id)
                },
            forall|q: int, r: int|
                0 <= q < j && 0 <= r < web.springs@[q].ensnared_entities@.len() ==> (
                #[trigger] web.springs@[q].ensnared_entities@[r]).entity != id,
        decreases m - j,
    {
        proof {
            lemma_remove_one_unique(web.springs@[j as int].ensnared_entities@, id);
        }
        let found = find_record(&web.springs[j].ensnared_entities, id);
        if let Some(k) = found {
            let _ = web.springs[j].ensnared_entities.swap_remove(k);
        }
        j += 1;
    }
}

/// Attaches `enemy_entity` to the spring at `spring_index` at the point
/// of impact, and kicks both endpoints of the edge with a brief impulse
/// scaled by how close each is to the impact.
///
/// The snare parameter is the projection of the impact point onto the
/// edge, clamped into it; a degenerate edge resolves to parameter zero.
pub fn ensnare_enemy(
    web: &mut Web,
    spring_index: usize,
    enemy_entity: u64,
    enemy_mass: i64,
    enemy_position: Vec3Fx,
)
    requires
        old(web).wf(),
        spring_index < old(web).springs@.len(),
        old(web).springs@[spring_index as int].ensnared_entities@.len() < MAX_ELEMS,
        forall|r: int|
            0 <= r < old(web).springs@[spring_index as int].ensnared_entities@.len() ==> (
            #[trigger] old(web).springs@[spring_index as int].ensnared_entities@[r]).entity
                != enemy_entity,
        0 <= enemy_mass <= MAX_PARAM,
        enemy_position.bounded(MAX_COORD as int),
    ensures
        final(web).wf(),
        final(web).mass_per_unit_length == old(web).mass_per_unit_length,
        final(web).springs@.len() == old(web).springs@.len(),
        final(web).particles@.len() == old(web).particles@.len(),
        forall|q: int| 0 <= q < old(web).springs@.len() && q != spring_index
            ==> #[trigger] final(web).springs@[q] == old(web).springs@[q],
        ({
            let s0 = old(web).springs@[spring_index as int];
            let s1 = final(web).springs@[spring_index as int];
            let t = ensnare_t(old(web), spring_index as int, enemy_position@);
            let e = s1.ensnared_entities@.last();
            &&& s1.ensnared_entities@.len() == s0.ensnared_entities@.len() + 1
            &&& s1.ensnared_entities@.drop_last() == s0.ensnared_entities@
            &&& e.entity == enemy_entity
            &&& e.mass == enemy_mass
            &&& e.snare_position == t
            &&& e.rotation == 0
            &&& e.lerp_rotation == 0
            &&& !e.done_ensnaring
            &&& s1.first_index == s0.first_index
            &&& s1.second_index == s0.second_index
            &&& s1.stiffness == s0.stiffness
            &&& s1.damping == s0.damping
            &&& s1.rest_length == s0.rest_length
        }),
        ({
            let s0 = old(web).springs@[spring_index as int];
            let t = ensnare_t(old(web), spring_index as int, enemy_position@);
            let i1 = s0.first_index as int;
            let i2 = s0.second_index as int;
            forall|p: int|
                0 <= p < old(web).particles@.len() ==> {
                    let a = old(web).particles@[p];
                    let b = #[trigger] final(web).particles@[p];
                    if p == i1 {
                        b == impulsed(a, div_t(SNAP_IMPULSE * (SCALE - t), SCALE as int))
                    } else if p == i2 {
                        b == impulsed(a, div_t(SNAP_IMPULSE * t, SCALE as int))
                    } else {
                        b == a
                    }
                }
        }),
{
    let i1 = web.springs[spring_index].first_index;
    let i2 = web.springs[spring_index].second_index;
    let p1 = web.particles[i1].position;
    let p2 = web.particles[i2].position;
    let d = p2.sub(p1);
    let rel = enemy_position.sub(p1);
    let num = rel.dot(d);
    let den = d.dot(d);
    let t_raw = if den == 0 {
        0
    } else {
        proof {
            lemma_mul_bound(rel@.x, d@.x, 2_000_000, 2_000_000);
            lemma_mul_bound(rel@.y, d@.y, 2_000_000, 2_000_000);
            lemma_mul_bound(rel@.z, d@.z, 2_000_000, 2_000_000);
            assert(d@.x * d@.x >= 0 && d@.y * d@.y >= 0 && d@.z * d@.z >= 0) by (nonlinear_arith);
            lemma_mul_bound(num as int, SCALE as int, 12_000_000_000_000, SCALE as int);
            lemma_div_t_shrink(num as int * SCALE as int, den as int, 12_000_000_000_000_000);
        }
        crate::fx::div_fx(num * SCALE, den)
    };
    let t = crate::fx::clamp_fx(t_raw, 0, SCALE);
    let record = EnsnaredEntity {
        entity: enemy_entity,
        snare_position: t,
        mass: enemy_mass,
        rotation: 0,
        lerp_rotation: 0,
        done_ensnaring: false,
    };
    web.springs[spring_index].ensnared_entities.push(record);
    proof {
        lemma_mul_bound(SNAP_IMPULSE as int, SCALE - t, SNAP_IMPULSE as int, SCALE as int);
        lemma_mul_bound(SNAP_IMPULSE as int, t as int, SNAP_IMPULSE as int, SCALE as int);
        lemma_div_t_shrink(SNAP_IMPULSE as int * (SCALE - t), SCALE as int,
            SNAP_IMPULSE as int * SCALE as int);
        lemma_div_t_shrink(SNAP_IMPULSE as int * t, SCALE as int,
            SNAP_IMPULSE as int * SCALE as int);
    }
    web.particles[i1].impulse = Vec3Fx {
        x: 0,
        y: 0,
        z: crate::fx::div_fx(SNAP_IMPULSE * (SCALE - t), SCALE),
    };
    web.particles[i1].impulse_duration = SNAP_IMPULSE_TIME;
    web.particles[i2].impulse = Vec3Fx { x: 0, y: 0, z: crate::fx::div_fx(SNAP_IMPULSE * t, SCALE) };
    web.particles[i2].impulse_duration = SNAP_IMPULSE_TIME;
}

/// The clamped snare parameter at which a world point projects onto a
/// spring of the web: `(w - a) . (b - a) / (b - a) . (b - a)`.
pub open spec fn ensnare_t(web: &Web, j: int, w: V3) -> int {
    let a = web.particles@[web.springs@[j].first_index as int].position@;
    let b = web.particles@[web.springs@[j].second_index as int].position@;
    let d = sub_v(b, a);
    let den = dot_v(d, d);
    if den == 0 {
        clamp_s(0, 0, SCALE as int)
    } else {
        clamp_s(div_t(dot_v(sub_v(w, a), d) * SCALE, den), 0, SCALE as int)
    }
}

/// A particle kicked along the out-of-plane axis by `z`, for the brief
/// snap when something lands on or tears the web.
pub open spec fn impulsed(p: Particle, z: int) -> Particle {
    Particle {
        impulse: Vec3Fx { x: 0, y: 0, z: z as i64 },
        impulse_duration: SNAP_IMPULSE_TIME,
        ..p
    }
}

/// Advances the wobble of one attached record from two fresh random
/// samples in `[0, SCALE)`: a frequent small twitch and a rare large one,
/// then the smoothed angle trails halfway toward the target. A record
/// that is fully rolled up no longer wobbles.
pub fn update_ensnared_rotation(
    web: &mut Web,
    spring_index: usize,
    k: usize,
    gate1: i64,
    turn1: i64,
    gate2: i64,
    turn2: i64,
)
    requires
        old(web).wf(),
        spring_index < old(web).springs@.len(),
        k < old(web).springs@[spring_index as int].ensnared_entities@.len(),
        0 <= gate1 <= SCALE,
        0 <= turn1 <= SCALE,
        0 <= gate2 <= SCALE,
        0 <= turn2 <= SCALE,
    ensures
        final(web).wf(),
        final(web).particles == old(web).particles,
        final(web).mass_per_unit_length == old(web).mass_per_unit_length,
        final(web).springs@.len() == old(web).springs@.len(),
        forall|q: int| 0 <= q < old(web).springs@.len() && q != spring_index
            ==> #[trigger] final(web).springs@[q] == old(web).springs@[q],
        ({
            let s0 = old(web).springs@[spring_index as int];
            let s1 = final(web).springs@[spring_index as int];
            let e0 = s0.ensnared_entities@[k as int];
            let e1 = s1.ensnared_entities@[k as int];
            let rot = wobbled(e0, gate1 as int, turn1 as int, gate2 as int, turn2 as int);
            &&& s1.ensnared_entities@.len() == s0.ensnared_entities@.len()
            &&& forall|q: int| 0 <= q < s0.ensnared_entities@.len() && q != k
                ==> #[trigger] s1.ensnared_entities@[q] == s0.ensnared_entities@[q]
            &&& s1.first_index == s0.first_index
            &&& s1.second_index == s0.second_index
            &&& s1.stiffness == s0.stiffness
            &&& s1.damping == s0.damping
            &&& s1.rest_length == s0.rest_length
            &&& (e0.done_ensnaring ==> e1 == e0)
            &&& (!e0.done_ensnaring ==> e1 == (EnsnaredEntity {
                rotation: rot as i64,
                lerp_rotation: (div_t(e0.lerp_rotation as int, 2) + div_t(rot, 2)) as i64,
                ..e0
            }))
        }),
{
    let e = web.springs[spring_index].ensnared_entities[k];
    if e.done_ensnaring {
        return ;
    }
    let mut rot = e.rotation;
    proof {
        lemma_mul_bound(314int, turn1 - 500, 314, SCALE as int);
        lemma_mul_bound(1570int, turn2 - 500, 1570, SCALE as int);
        lemma_div_t_shrink(314 * (turn1 - 500), SCALE as int, 314_000);
        lemma_div_t_shrink(1570 * (turn2 - 500), SCALE as int, 1_570_000);
    }
    if gate1 > 600 {
        rot = crate::fx::clamp_fx(rot + crate::fx::div_fx(314 * (turn1 - 500), SCALE),
            -ANGLE_CAP, ANGLE_CAP);
    }
    if gate2 > 970 {
        rot = crate::fx::clamp_fx(rot + crate::fx::div_fx(1570 * (turn2 - 500), SCALE),
            -ANGLE_CAP, ANGLE_CAP);
    }
    let lerp = crate::fx::div_fx(e.lerp_rotation, 2) + crate::fx::div_fx(rot, 2);
    web.springs[spring_index].ensnared_entities[k].rotation = rot;
    web.springs[spring_index].ensnared_entities[k].lerp_rotation = lerp;
}

/// The target rotation after one wobble update: each twitch is gated by
/// its own draw and turned by another, so a twitch may turn either way.
pub open spec fn wobbled(e: EnsnaredEntity, gate1: int, turn1: int, gate2: int, turn2: int)
    -> int {
    let a = if gate1 > 600 {
        clamp_s(e.rotation + div_t(314 * (turn1 - 500), SCALE as int), -ANGLE_CAP as int,
            ANGLE_CAP as int)
    } else {
        e.rotation as int
    };
    if gate2 > 970 {
        clamp_s(a + div_t(1570 * (turn2 - 500), SCALE as int), -ANGLE_CAP as int,
            ANGLE_CAP as int)
    } else {
        a
    }
}

} // verus!
