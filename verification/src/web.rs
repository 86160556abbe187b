//! The web aggregate: particles, springs, and its well-formedness
//! invariant.

use crate::fx::{MAX_COORD, MAX_ELEMS, MAX_IMPULSE, MAX_PARAM};
use crate::spring::{spring_wf, EnsnaredEntity, Spring, force_between, spring_force_v, FORCE_CAP};
use crate::vec3::{dot_v, sub_v, Vec3Fx};
use vstd::prelude::*;

verus! {

/// Upper bound a particle's derived mass can reach: springs and attached
/// entities each contribute a bounded amount, and both lists are capped.
pub const MASS_CAP: i64 = 50_000_000_000_000;

/// Upper bound on an accumulated force component over one sub-step.
pub const FORCE_TOTAL_CAP: i64 = 1_000_000_000_000_000;

/// Upper bound on a stored impulse duration.
pub const MAX_IMPULSE_TIME: i64 = 1_000_000;

/// A point mass of the web.
#[derive(Clone, Copy, Debug)]
pub struct Particle {
    /// Where the particle sits.
    pub position: Vec3Fx,
    /// How fast it moves.
    pub velocity: Vec3Fx,
    /// Force accumulated during the current sub-step; reset every sub-step.
    pub force: Vec3Fx,
    /// A decaying impulse contributing force while its duration lasts.
    pub impulse: Vec3Fx,
    /// Time the impulse stays active.
    pub impulse_duration: i64,
    /// Mass derived each sub-step from adjacent edges; not persistent.
    pub mass: i64,
    /// Pinned particles are immovable anchors.
    pub pinned: bool,
}

/// The aggregate web: a growing list of particles and a mutating list of
/// springs, plus the mass density of silk.
pub struct Web {
    /// Point masses, indexed by the springs.
    pub particles: Vec<Particle>,
    /// Edges; removal relocates the last element (swap-remove).
    pub springs: Vec<Spring>,
    /// Mass per world unit of silk, fed to both endpoints of each edge.
    pub mass_per_unit_length: i64,
}

/// Well-formed particle: everything bounded so the physics stays inside
/// `i64`.
pub open spec fn particle_wf(p: Particle) -> bool {
    &&& p.position.bounded(MAX_COORD as int)
    &&& p.velocity.bounded(MAX_COORD as int)
    &&& p.force.bounded(FORCE_TOTAL_CAP as int)
    &&& p.impulse.bounded(MAX_IMPULSE as int)
    &&& 0 <= p.impulse_duration <= MAX_IMPULSE_TIME
    &&& 0 <= p.mass <= MASS_CAP
}

impl Web {
    /// The whole web is well formed: bounded lists, well-formed particles,
    /// and every spring referencing two distinct live particles.
    pub open spec fn wf(self) -> bool {
        &&& self.particles@.len() <= MAX_ELEMS
        &&& self.springs@.len() <= MAX_ELEMS
        &&& 0 <= self.mass_per_unit_length <= MAX_PARAM
        &&& forall|i: int| 0 <= i < self.particles@.len() ==> particle_wf(
            #[trigger] self.particles@[i],
        )
        &&& forall|j: int| 0 <= j < self.springs@.len() ==> spring_wf(
            #[trigger] self.springs@[j],
            self.particles@.len() as int,
        )
    }

    /// An empty web with the default silk density.
    pub fn new() -> (w: Web)
        ensures
            w.wf(),
            w.particles@.len() == 0,
            w.springs@.len() == 0,
            w.mass_per_unit_length == 100,
    {
        Web { particles: Vec::new(), springs: Vec::new(), mass_per_unit_length: 100 }
    }

    /// The index of the spring joining particles `p1` and `p2` in either
    /// orientation; the first match wins.
    pub fn get_spring(&self, p1: usize, p2: usize) -> (r: Option<usize>)
        ensures
            match r {
                Some(i) => {
                    &&& 0 <= i < self.springs@.len()
                    &&& spring_joins(self.springs@[i as int], p1, p2)
                    &&& forall|j: int| 0 <= j < i ==> !spring_joins(#[trigger] self.springs@[j],
                        p1, p2)
                },
                None => forall|j: int| 0 <= j < self.springs@.len() ==> !spring_joins(
                    #[trigger] self.springs@[j],
                    p1,
                    p2,
                ),
            },
    {
        let n = self.springs.len();
        let mut i: usize = 0;
        while i < n
            invariant
                i <= n,
                n == self.springs@.len(),
                forall|j: int| 0 <= j < i ==> !spring_joins(#[trigger] self.springs@[j], p1, p2),
            decreases n - i,
        {
            let spring = &self.springs[i];
            if spring.first_index == p1 && spring.second_index == p2 || spring.first_index == p2
                && spring.second_index == p1 {
                return Some(i);
            }
            i += 1;
        }
        None
    }

    /// The index of the first particle within distance `eps` of `pos`
    /// (strictly, by squared distance), if any.
    pub fn get_particle_index(&self, pos: Vec3Fx, eps: i64) -> (r: Option<usize>)
        requires
            self.wf(),
            pos.bounded(15_000_000),
            0 <= eps <= 1_000_000,
        ensures
            match r {
                Some(i) => {
                    &&& 0 <= i < self.particles@.len()
                    &&& within_snap(self.particles@[i as int], pos, eps as int)
                    &&& forall|j: int| 0 <= j < i ==> !within_snap(
                        #[trigger] self.particles@[j],
                        pos,
                        eps as int,
                    )
                },
                None => forall|j: int| 0 <= j < self.particles@.len() ==> !within_snap(
                    #[trigger] self.particles@[j],
                    pos,
                    eps as int,
                ),
            },
    {
        let n = self.particles.len();
        let mut i: usize = 0;
        while i < n
            invariant
                i <= n,
                n == self.particles@.len(),
                self.wf(),
                pos.bounded(15_000_000),
                0 <= eps <= 1_000_000,
                forall|j: int| 0 <= j < i ==> !within_snap(#[trigger] self.particles@[j], pos,
                    eps as int),
            decreases n - i,
        {
            let d2 = self.particles[i].position.distance_sq(pos);
            proof {
                crate::fx::lemma_mul_bound(eps as int, eps as int, 1_000_000, 1_000_000);
            }
            if d2 < eps * eps {
                return Some(i);
            }
            i += 1;
        }
        None
    }
}

/// The spring joins particles `p1` and `p2`, in either orientation.
pub open spec fn spring_joins(s: Spring, p1: usize, p2: usize) -> bool {
    (s.first_index == p1 && s.second_index == p2) || (s.first_index == p2 && s.second_index == p1)
}

/// The particle sits strictly within `eps` of `pos` (squared distance).
pub open spec fn within_snap(p: Particle, pos: Vec3Fx, eps: int) -> bool {
    dot_v(sub_v(p.position@, pos@), sub_v(p.position@, pos@)) < eps * eps
}

impl Default for Web {
    /// The empty web, silk density one tenth of a unit mass per unit.
    fn default() -> (w: Web)
        ensures
            w.wf(),
            w.particles@.len() == 0,
            w.springs@.len() == 0,
            w.mass_per_unit_length == 100,
    {
        Web::new()
    }
}

impl Spring {
    /// A fresh spring between `first_index` and `second_index` whose rest
    /// length is the current distance between the two particles.
    pub fn new(web: &Web, first_index: usize, second_index: usize, stiffness: i64, damping: i64)
        -> (s: Spring)
        requires
            web.wf(),
            first_index < web.particles@.len(),
            second_index < web.particles@.len(),
            first_index != second_index,
            0 <= stiffness <= MAX_PARAM,
            0 <= damping <= MAX_PARAM,
        ensures
            s.first_index == first_index,
            s.second_index == second_index,
            s.stiffness == stiffness,
            s.damping == damping,
            s.rest_length == crate::vec3::len_v(sub_v(
                web.particles@[first_index as int].position@,
                web.particles@[second_index as int].position@,
            )),
            s.ensnared_entities@.len() == 0,
            spring_wf(s, web.particles@.len() as int),
    {
        let d = self_distance(web, first_index, second_index);
        Spring {
            first_index,
            second_index,
            stiffness,
            damping,
            rest_length: d,
            ensnared_entities: Vec::new(),
        }
    }

    /// A fresh spring with an explicit rest length and an explicit list of
    /// attached entities (used when splitting an edge).
    pub fn new_with_length(
        first_index: usize,
        second_index: usize,
        stiffness: i64,
        damping: i64,
        rest_length: i64,
        ensnared_entities: Vec<EnsnaredEntity>,
    ) -> (s: Spring)
        ensures
            s.first_index == first_index,
            s.second_index == second_index,
            s.stiffness == stiffness,
            s.damping == damping,
            s.rest_length == rest_length,
            s.ensnared_entities == ensnared_entities,
    {
        Spring { first_index, second_index, stiffness, damping, rest_length, ensnared_entities }
    }

    /// The spring force on the first endpoint, from the current particle
    /// state of the web. Relies on [`force_between`] for the formula; the
    /// force on the second endpoint is its exact negation.
    pub fn get_force_p1(&self, web: &Web) -> (r: Vec3Fx)
        requires
            web.wf(),
            self.first_index < web.particles@.len(),
            self.second_index < web.particles@.len(),
            0 <= self.stiffness <= MAX_PARAM,
            0 <= self.damping <= MAX_PARAM,
            0 <= self.rest_length <= crate::fx::MAX_REST,
        ensures
            r@ == spring_force_v(
                web.particles@[self.first_index as int].position@,
                web.particles@[self.second_index as int].position@,
                web.particles@[self.first_index as int].velocity@,
                web.particles@[self.second_index as int].velocity@,
                self.stiffness as int,
                self.damping as int,
                self.rest_length as int,
            ),
            r.bounded(FORCE_CAP as int),
    {
        let p1 = &web.particles[self.first_index];
        let p2 = &web.particles[self.second_index];
        force_between(
            p1.position,
            p2.position,
            p1.velocity,
            p2.velocity,
            self.stiffness,
            self.damping,
            self.rest_length,
        )
    }
}

/// Distance between two particles of the web, rounded down.
fn self_distance(web: &Web, a: usize, b: usize) -> (r: i64)
    requires
        web.wf(),
        a < web.particles@.len(),
        b < web.particles@.len(),
    ensures
        r == crate::vec3::len_v(sub_v(
            web.particles@[a as int].position@,
            web.particles@[b as int].position@,
        )),
        0 <= r <= crate::fx::MAX_REST,
{
    let d = web.particles[a].position.sub(web.particles[b].position);
    let len = d.length();
    proof {
        crate::fx::lemma_mul_bound(d@.x, d@.x, 2_000_000, 2_000_000);
        crate::fx::lemma_mul_bound(d@.y, d@.y, 2_000_000, 2_000_000);
        crate::fx::lemma_mul_bound(d@.z, d@.z, 2_000_000, 2_000_000);
        assert(len <= 4_000_000) by (nonlinear_arith)
            requires
                (len as int) * (len as int) <= dot_v(d@, d@),
                dot_v(d@, d@) <= 12_000_000_000_000int,
                len >= 0,
        ;
    }
    len
}

} // verus!
