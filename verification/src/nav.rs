//! Navigation: deciding where the agent goes on a movement request —
//! slide along the current edge, switch to an adjacent edge, intersect an
//! existing edge, walk free terrain, or spin fresh silk.

use crate::agent::{abs_s, Spider, SpiderPosition};
use crate::fx::{clamp_s, div_t, div_ts, lemma_div_t_shrink, lemma_mul_bound, MAX_COORD,
    MAX_ELEMS, SCALE};
use crate::region::AnchorRegion;
use crate::spring::Spring;
use crate::vec3::{add_v, clamp_v, cross_v, dot_v, len_v, scale_div_v, sub_v, unit_v, V3,
    Vec3Fx};
use crate::web::{Particle, Web};
use vstd::prelude::*;

verus! {

/// Alignment threshold: the fixed-point dot of two unit vectors above
/// which they count as nearly parallel. A tuning constant.
pub const ALIGN_DOT: i64 = 980_000;

/// A movement request below this squared length is a no-op.
pub const MIN_DELTA_SQ: i64 = 10_000;

/// Snap radius for reusing an existing particle.
pub const SNAP_RADIUS: i64 = 30;

/// Stiffness of freshly spun silk.
pub const SILK_STIFFNESS: i64 = 20_000;

/// Damping of freshly spun silk.
pub const SILK_DAMPING: i64 = 500;

/// What a movement request decided.
#[derive(Clone, Copy, Debug, PartialEq, Eq, Structural)]
pub enum NavOutcome {
    /// The request was too small to act on.
    ZeroDelta,
    /// Anchored at a particle, the agent set off along an adjacent edge.
    AlongIncident,
    /// Mid-edge, the agent advanced or retreated along its own edge.
    AlongCurrent,
    /// The request was too short to leave the snapped endpoint; at most
    /// the target flips to the near end of the intersected edge.
    SnapToEnd,
    /// No edge and no anchor terrain lie in that direction.
    NoAnchor,
    /// Current and target both sit on terrain joined by terrain: the
    /// agent walks free, spinning no silk.
    FreeMove,
    /// An existing edge already joins the two snapped endpoints.
    ExistingEdge,
    /// Exactly one new edge of fresh silk was spun.
    NewEdge,
}

/// The particle index the agent counts as anchored to, or `-1`: the near
/// endpoint when its parameter sits at an end of its edge or its world
/// point lies within the snap radius of the endpoint.
pub open spec fn nav_anchor(web: Web, idx: int, t: int) -> int {
    let s = web.springs@[idx];
    let pos = SpiderPosition::WEB(idx as usize, t as i64).world_of(web);
    let p1 = web.particles@[s.first_index as int].position@;
    let p2 = web.particles@[s.second_index as int].position@;
    if t == 0 || dot_v(sub_v(p1, pos), sub_v(p1, pos)) < 900 {
        s.first_index as int
    } else if t == SCALE || dot_v(sub_v(p2, pos), sub_v(p2, pos)) < 900 {
        s.second_index as int
    } else {
        -1
    }
}

/// The direction of spring `j` as seen from the particle `anchor` (one of
/// its endpoints): from `anchor` toward the far end.
pub open spec fn edge_dir_from(web: Web, j: int, anchor: int) -> V3 {
    let s = web.springs@[j];
    let d = sub_v(web.particles@[s.second_index as int].position@,
        web.particles@[s.first_index as int].position@);
    if s.second_index as int == anchor {
        crate::vec3::neg_v(d)
    } else {
        d
    }
}

/// Spring `j` leaves the particle `anchor` nearly parallel to the unit
/// direction `du`.
pub open spec fn aligned_from(web: Web, j: int, anchor: int, du: V3) -> bool {
    let s = web.springs@[j];
    &&& (s.first_index as int == anchor || s.second_index as int == anchor)
    &&& len_v(edge_dir_from(web, j, anchor)) != 0
    &&& dot_v(unit_v(edge_dir_from(web, j, anchor)), du) > ALIGN_DOT
}

/// How far along an edge a movement advances the parameter: the
/// projected length of the request divided by the edge's rest length,
/// clamped into the edge. An edge with no rest length is crossed whole.
pub open spec fn advance_t(delta: V3, u: V3, rest: int) -> int {
    if rest == 0 {
        SCALE as int
    } else {
        clamp_s(div_t(abs_s(dot_v(delta, u)), rest), 0, SCALE as int)
    }
}

/// The planar line-intersection test between this spring and the segment
/// from `p1` to `p2`, viewed along `cam_dir`: the mirror of
/// [`Spring::intersects`]. Sign tests reject pairs whose endpoints do not
/// straddle each other; the intersection parameter is then solved in
/// whichever coordinate avoids a zero denominator, and any remaining
/// degenerate denominator, or a parameter far outside the segment,
/// reports no intersection.
#[verifier::opaque]
pub open spec fn intersects_v(sp1: V3, sp2: V3, cam: V3, p1: V3, p2: V3) -> Option<V3> {
    let d1 = sub_v(sp2, sp1);
    let d2 = sub_v(p2, p1);
    let n1 = cross_v(cam, d1);
    let n2 = cross_v(cam, d2);
    let p1d1 = dot_v(n1, p1) - dot_v(n1, sp1) < 0;
    let p1d2 = dot_v(n1, p2) - dot_v(n1, sp2) < 0;
    let p2d1 = dot_v(n2, sp1) - dot_v(n2, p1) < 0;
    let p2d2 = dot_v(n2, sp2) - dot_v(n2, p2) < 0;
    if p1d1 == p1d2 || p2d1 == p2d2 {
        None
    } else if d1.x == 0 {
        if d2.x == 0 {
            None
        } else {
            intersect_at(p1, d2, div_ts((sp1.x - p1.x) * SCALE, d2.x))
        }
    } else if d1.y == 0 {
        if d2.y == 0 {
            None
        } else {
            intersect_at(p1, d2, div_ts((sp1.y - p1.y) * SCALE, d2.y))
        }
    } else {
        let num = div_ts((p1.x - sp1.x) * d1.y, d1.x) - (p1.y - sp1.y);
        let den = d2.y - div_ts(d2.x * d1.y, d1.x);
        if den == 0 {
            None
        } else {
            intersect_at(p1, d2, div_ts(num * SCALE, den))
        }
    }
}

/// The point at parameter `t2` along `d2` from `p1`, or nothing when the
/// parameter lies far outside the probe segment.
pub open spec fn intersect_at(p1: V3, d2: V3, t2: int) -> Option<V3> {
    if t2 < -10 * SCALE || t2 > 10 * SCALE {
        None
    } else {
        Some(add_v(p1, scale_div_v(d2, t2, SCALE as int)))
    }
}

impl Spring {
    /// Whether this spring crosses the segment from `p1` to `p2` in the
    /// plane viewed along `cam_dir`, and where. Geometric degeneracies
    /// (zero denominators, a parameter far off the segment) report no
    /// intersection rather than producing nonsense.
    pub fn intersects(&self, web: &Web, cam_dir: Vec3Fx, p1: Vec3Fx, p2: Vec3Fx) -> (r: Option<
        Vec3Fx,
    >)
        requires
            web.wf(),
            self.first_index < web.particles@.len(),
            self.second_index < web.particles@.len(),
            cam_dir.bounded(SCALE as int),
            p1.bounded(2_000_000),
            p2.bounded(2_000_000),
        ensures
            r is Some <==> intersects_v(
                web.particles@[self.first_index as int].position@,
                web.particles@[self.second_index as int].position@,
                cam_dir@,
                p1@,
                p2@,
            ) is Some,
            r matches Some(p) ==> Some(p@) == intersects_v(
                web.particles@[self.first_index as int].position@,
                web.particles@[self.second_index as int].position@,
                cam_dir@,
                p1@,
                p2@,
            ) && p.bounded(43_000_000),
    {
        proof {
            reveal(intersects_v);
        }
        let sp1 = web.particles[self.first_index].position;
        let sp2 = web.particles[self.second_index].position;
        let d1 = sp2.sub(sp1);
        let d2 = p2.sub(p1);
        let n1 = cam_dir.cross(d1);
        let n2 = cam_dir.cross(d2);
        proof {
            lemma_cross_small(cam_dir@, d1@);
            lemma_cross_small(cam_dir@, d2@);
        }
        let p1d1 = n1.dot(p1) - n1.dot(sp1) < 0;
        let p1d2 = n1.dot(p2) - n1.dot(sp2) < 0;
        let p2d1 = n2.dot(sp1) - n2.dot(p1) < 0;
        let p2d2 = n2.dot(sp2) - n2.dot(p2) < 0;
        if p1d1 == p1d2 || p2d1 == p2d2 {
            return None;
        }
        let t2: i64;
        if d1.x == 0 {
            if d2.x == 0 {
                return None;
            }
            t2 = crate::fx::div_any((sp1.x - p1.x) * SCALE, d2.x);
        } else if d1.y == 0 {
            if d2.y == 0 {
                return None;
            }
            t2 = crate::fx::div_any((sp1.y - p1.y) * SCALE, d2.y);
        } else {
            proof {
                lemma_mul_bound((p1@.x - sp1@.x), d1@.y, 3_000_000, 3_000_000);
                lemma_mul_bound(d2@.x, d1@.y, 4_000_000, 3_000_000);
            }
            let num = crate::fx::div_any((p1.x - sp1.x) * d1.y, d1.x) - (p1.y - sp1.y);
            let den = d2.y - crate::fx::div_any(d2.x * d1.y, d1.x);
            if den == 0 {
                return None;
            }
            proof {
                lemma_mul_bound(num as int, SCALE as int, 10_000_000_000_000, SCALE as int);
            }
            t2 = crate::fx::div_any(num * SCALE, den);
        }
        if t2 < -10 * SCALE || t2 > 10 * SCALE {
            return None;
        }
        proof {
            lemma_mul_bound(d2@.x, t2 as int, 4_000_000, 10_000);
            lemma_mul_bound(d2@.y, t2 as int, 4_000_000, 10_000);
            lemma_mul_bound(d2@.z, t2 as int, 4_000_000, 10_000);
            lemma_div_t_shrink(d2@.x * t2, SCALE as int, 40_000_000_000);
            lemma_div_t_shrink(d2@.y * t2, SCALE as int, 40_000_000_000);
            lemma_div_t_shrink(d2@.z * t2, SCALE as int, 40_000_000_000);
        }
        Some(p1.add(d2.scale_div(t2, SCALE)))
    }
}

/// A cross product of a unit-scale vector with a bounded vector stays
/// small.
proof fn lemma_cross_small(cam: V3, d: V3)
    requires
        crate::vec3::bounded_v(cam, SCALE as int),
        crate::vec3::bounded_v(d, 4_000_000),
    ensures
        crate::vec3::bounded_v(cross_v(cam, d), 8_000_000),
{
    lemma_mul_bound(cam.y, d.z, SCALE as int, 4_000_000);
    lemma_mul_bound(cam.z, d.y, SCALE as int, 4_000_000);
    lemma_mul_bound(cam.z, d.x, SCALE as int, 4_000_000);
    lemma_mul_bound(cam.x, d.z, SCALE as int, 4_000_000);
    lemma_mul_bound(cam.x, d.y, SCALE as int, 4_000_000);
    lemma_mul_bound(cam.y, d.x, SCALE as int, 4_000_000);
    lemma_div_t_shrink(cam.y * d.z - cam.z * d.y, SCALE as int, 8_000_000_000);
    lemma_div_t_shrink(cam.z * d.x - cam.x * d.z, SCALE as int, 8_000_000_000);
    lemma_div_t_shrink(cam.x * d.y - cam.y * d.x, SCALE as int, 8_000_000_000);
}

/// The first particle within the snap radius of `pos`, if any; a point
/// too far outside the playfield to snap to anything reports none.
fn snap_index(web: &Web, pos: Vec3Fx) -> (r: Option<usize>)
    requires
        web.wf(),
    ensures
        match r {
            Some(i) => {
                &&& i < web.particles@.len()
                &&& pos.bounded(15_000_000)
                &&& crate::web::within_snap(web.particles@[i as int], pos, SNAP_RADIUS as int)
                &&& forall|j: int| 0 <= j < i ==> !crate::web::within_snap(
                    #[trigger] web.particles@[j], pos, SNAP_RADIUS as int)
            },
            None => pos.bounded(15_000_000) ==> forall|j: int|
                0 <= j < web.particles@.len() ==> !crate::web::within_snap(
                #[trigger] web.particles@[j], pos, SNAP_RADIUS as int),
        },
{
    if pos.x <= 15_000_000 && pos.x >= -15_000_000 && pos.y <= 15_000_000 && pos.y
        >= -15_000_000 && pos.z <= 15_000_000 && pos.z >= -15_000_000 {
        web.get_particle_index(pos, SNAP_RADIUS)
    } else {
        None
    }
}

/// The crossing candidate of spring `j` for a request from `position`
/// along the unit direction `du`: its planar intersection with the probe
/// segment from one unit behind the agent to ten units ahead.
pub open spec fn sweep_hit(web: Web, position: V3, du: V3, j: int) -> Option<V3> {
    intersects_v(
        web.particles@[web.springs@[j].first_index as int].position@,
        web.particles@[web.springs@[j].second_index as int].position@,
        V3 { x: 0, y: 0, z: -SCALE as int },
        sub_v(position, du),
        add_v(position, scale_div_v(du, 10_000, SCALE as int)),
    )
}

/// Spring `j`'s crossing candidate, if it exists and lies strictly ahead
/// of the agent, projects no closer than `best` along the direction.
pub open spec fn no_closer_hit(web: Web, position: V3, du: V3, j: int, best: V3) -> bool {
    match sweep_hit(web, position, du, j) {
        Some(p) => dot_v(du, p) - dot_v(du, position) > 50_000 ==> dot_v(du, best) <= dot_v(du,
            p),
        None => true,
    }
}

/// Spring `j`'s crossing candidate exists, lies strictly ahead of the
/// agent, and beats the fallback target `fb` along the direction.
pub open spec fn crossing_beats(web: Web, pos: V3, du: V3, fb: V3, j: int) -> bool {
    match sweep_hit(web, pos, du, j) {
        Some(p) => dot_v(du, p) - dot_v(du, pos) > 50_000 && dot_v(du, p) < dot_v(du, fb),
        None => false,
    }
}

/// The edge index the sweep skips for an agent at `cur`: its own edge,
/// or none when free-roaming.
pub open spec fn skip_of(cur: SpiderPosition) -> int {
    match cur {
        SpiderPosition::WEB(idx, t) => idx as int,
        SpiderPosition::TREE(p) => -1,
    }
}

/// Some unskipped edge crosses the requested travel segment strictly
/// ahead, nearer than the ten-unit fallback target.
pub open spec fn has_crossing(web: Web, cur: SpiderPosition, pos: V3, du: V3) -> bool {
    exists|j: int|
        0 <= j < web.springs@.len() && j != skip_of(cur) && #[trigger] crossing_beats(web, pos,
            du, fallback_target(pos, du), j)
}

/// The ten-unit fallback target of a request.
pub open spec fn fallback_target(pos: V3, du: V3) -> V3 {
    add_v(pos, scale_div_v(du, 10_000, SCALE as int))
}

/// Sweeps every edge (but the skipped one) for a crossing with the
/// requested travel segment, and keeps the hit nearest along the travel
/// direction among all hits strictly ahead — or the fallback target when
/// none beats it.
#[verifier::loop_isolation(false)]
pub fn nearest_crossing(
    web: &Web,
    skip: Option<usize>,
    position: Vec3Fx,
    target_dir: Vec3Fx,
    initial_target: Vec3Fx,
) -> (r: (Vec3Fx, Option<usize>))
    requires
        web.wf(),
        position.bounded(MAX_COORD as int),
        target_dir.bounded(SCALE as int),
        initial_target.bounded(43_000_000),
    ensures
        r.0.bounded(43_000_000),
        dot_v(target_dir@, r.0@) <= dot_v(target_dir@, initial_target@),
        forall|j: int|
            0 <= j < web.springs@.len() && (match skip {
                Some(f) => j != f,
                None => true,
            }) ==> no_closer_hit(*web, position@, target_dir@, j, r.0@),
        match r.1 {
            Some(d) => {
                &&& d < web.springs@.len()
                &&& (skip matches Some(f) ==> d != f)
                &&& sweep_hit(*web, position@, target_dir@, d as int) == Some(r.0@)
                &&& dot_v(target_dir@, r.0@) - dot_v(target_dir@, position@) > 50_000
                &&& dot_v(target_dir@, r.0@) < dot_v(target_dir@, initial_target@)
            },
            None => r.0 == initial_target && forall|j: int|
                0 <= j < web.springs@.len() && (match skip {
                    Some(f) => j != f,
                    None => true,
                }) ==> !crossing_beats(*web, position@, target_dir@, initial_target@, j),
        },
{
    let sweep_start = position.sub(target_dir);
    let mut best = initial_target;
    let mut dest: Option<usize> = None;
    let m = web.springs.len();
    let mut i: usize = 0;
    while i < m
        invariant
            i <= m,
            m == web.springs@.len(),
            web.wf(),
            position.bounded(MAX_COORD as int),
            target_dir.bounded(SCALE as int),
            initial_target.bounded(43_000_000),
            best.bounded(43_000_000),
            sweep_start.bounded(2_000_000),
            dot_v(target_dir@, best@) <= dot_v(target_dir@, initial_target@),
            forall|j: int|
                0 <= j < i && (match skip {
                    Some(f) => j != f,
                    None => true,
                }) ==> no_closer_hit(*web, position@, target_dir@, j, best@),
            match dest {
                Some(d) => {
                    &&& d < m
                    &&& (skip matches Some(f) ==> d != f)
                    &&& sweep_hit(*web, position@, target_dir@, d as int) == Some(best@)
                    &&& dot_v(target_dir@, best@) - dot_v(target_dir@, position@) > 50_000
                    &&& dot_v(target_dir@, best@) < dot_v(target_dir@, initial_target@)
                },
                None => best == initial_target && forall|j: int|
                    0 <= j < i && (match skip {
                        Some(f) => j != f,
                        None => true,
                    }) ==> !crossing_beats(*web, position@, target_dir@, initial_target@, j),
            },
        decreases m - i,
    {
        let ghost best_before = best@;
        let cam = Vec3Fx { x: 0, y: 0, z: -SCALE };
        let hop = match skip {
            Some(f) => f == i,
            None => false,
        };
        if !hop {
            let probe_end = position.add(target_dir.scale_div(10_000, SCALE));
            let result = {
                let s = &web.springs[i];
                s.intersects(web, cam, sweep_start, probe_end)
            };
            if let Some(new_pos) = result {
                proof {
                    assert(sweep_hit(*web, position@, target_dir@, i as int) == Some(new_pos@));
                }
                let ahead = target_dir.dot(new_pos) - target_dir.dot(position);
                if ahead > 50_000 {
                    let closer = target_dir.dot(new_pos) < target_dir.dot(best);
                    if closer {
                        best = new_pos;
                        dest = Some(i);
                        proof {
                            assert(no_closer_hit(*web, position@, target_dir@, i as int, best@));
                        }
                    } else {
                        proof {
                            assert(no_closer_hit(*web, position@, target_dir@, i as int, best@));
                        }
                    }
                } else {
                    proof {
                        assert(no_closer_hit(*web, position@, target_dir@, i as int, best@));
                    }
                }
            } else {
                proof {
                    assert(sweep_hit(*web, position@, target_dir@, i as int) is None);
                    assert(no_closer_hit(*web, position@, target_dir@, i as int, best@));
                }
            }
        }
        proof {
            assert(dot_v(target_dir@, best@) <= dot_v(target_dir@, best_before));
            assert forall|j: int|
                0 <= j < i + 1 && (match skip {
                    Some(f) => j != f,
                    None => true,
                }) implies no_closer_hit(*web, position@, target_dir@, j, best@) by {
                if j < i {
                    assert(no_closer_hit(*web, position@, target_dir@, j, best_before));
                } else {
                    assert(no_closer_hit(*web, position@, target_dir@, i as int, best@));
                }
            }
        }
        i += 1;
    }
    (best, dest)
}

/// No along-edge branch applies to this request: anchored at a particle
/// with no aligned incident edge, mid-edge with the request off-axis (or
/// a degenerate edge), or free-roaming. Such a request reaches the
/// fallback cascade: crossing sweep, anchor probe, free move or fresh
/// silk.
pub open spec fn falls_through(web: Web, cur: SpiderPosition, du: V3) -> bool {
    match cur {
        SpiderPosition::WEB(idx, t) => {
            let anchor = nav_anchor(web, idx as int, t as int);
            if anchor >= 0 {
                forall|j: int| 0 <= j < web.springs@.len() ==> !aligned_from(web, j, anchor, du)
            } else {
                let d = edge_dir_from(web, idx as int, -1);
                !(len_v(d) != 0 && abs_s(dot_v(unit_v(d), du)) > ALIGN_DOT)
            }
        },
        SpiderPosition::TREE(p) => true,
    }
}

/// The `k`-th anchor probe point: the requested target, advanced `k`
/// tenths of a unit along the request direction.
pub open spec fn probe_point(pos: V3, delta: V3, du: V3, k: int) -> V3 {
    let inc = scale_div_v(du, 100, SCALE as int);
    V3 {
        x: pos.x + delta.x + k * inc.x,
        y: pos.y + delta.y + k * inc.y,
        z: pos.z + delta.z + k * inc.z,
    }
}

/// The `k`-th anchor probe lands on attachable terrain.
pub open spec fn probe_hit(boxes: Seq<crate::region::Aabb>, pos: V3, delta: V3, du: V3, k: int)
    -> bool {
    crate::region::region_contains(boxes, probe_point(pos, delta, du, k))
}

/// The first probe (of the eleven taken) that lands on terrain, counted
/// from `k`; eleven when none does.
pub open spec fn first_probe_from(
    boxes: Seq<crate::region::Aabb>,
    pos: V3,
    delta: V3,
    du: V3,
    k: int,
) -> int
    decreases 11 - k,
{
    if k < 0 || k > 10 {
        11
    } else if probe_hit(boxes, pos, delta, du, k) {
        k
    } else {
        first_probe_from(boxes, pos, delta, du, k + 1)
    }
}

/// The first of the eleven anchor probes that lands on terrain; eleven
/// when none does.
pub open spec fn first_probe(boxes: Seq<crate::region::Aabb>, pos: V3, delta: V3, du: V3)
    -> int {
    first_probe_from(boxes, pos, delta, du, 0)
}

/// The particle sits strictly within the snap radius of the world point.
pub open spec fn within_snap_of(p: crate::web::Particle, w: V3) -> bool {
    dot_v(sub_v(p.position@, w), sub_v(p.position@, w)) < SNAP_RADIUS * SNAP_RADIUS
}

/// Index of the first particle within the snap radius of `w`, counted
/// from `k`; the particle count when none is.
pub open spec fn first_snap_from(web: Web, w: V3, k: int) -> int
    decreases web.particles@.len() - k,
{
    if k < 0 || k >= web.particles@.len() {
        web.particles@.len() as int
    } else if within_snap_of(web.particles@[k], w) {
        k
    } else {
        first_snap_from(web, w, k + 1)
    }
}

/// Index of the first particle within the snap radius of `w`, or the
/// particle count when none is.
pub open spec fn first_snap(web: Web, w: V3) -> int {
    first_snap_from(web, w, 0)
}

/// The snap lookup as performed for a candidate target: a point too far
/// outside the playfield snaps to nothing.
pub open spec fn snap_of(web: Web, w: V3) -> int {
    if crate::vec3::bounded_v(w, 15_000_000) {
        first_snap(web, w)
    } else {
        web.particles@.len() as int
    }
}

/// Both ends of the request snap onto the same particle when the target
/// defaults to the ten-unit fallback point: the request is too short to
/// leave the snapped endpoint.
pub open spec fn same_snap_fb(web: Web, pos: V3, du: V3) -> bool {
    first_snap(web, pos) < web.particles@.len() && snap_of(web, fallback_target(pos, du))
        == first_snap(web, pos)
}

/// The first-snap scan agrees with any first-match scan result.
pub proof fn lemma_first_snap_props(web: Web, w: V3, k: int)
    requires
        0 <= k <= web.particles@.len(),
    ensures
        k <= first_snap_from(web, w, k) <= web.particles@.len(),
        first_snap_from(web, w, k) < web.particles@.len() ==> within_snap_of(
            web.particles@[first_snap_from(web, w, k)],
            w,
        ),
        forall|q: int| k <= q < first_snap_from(web, w, k) ==> !within_snap_of(
            #[trigger] web.particles@[q],
            w,
        ),
    decreases web.particles@.len() - k,
{
    if k < web.particles@.len() && !within_snap_of(web.particles@[k], w) {
        lemma_first_snap_props(web, w, k + 1);
    }
}

/// The first-probe scan finds the least terrain hit among the eleven
/// probes, or eleven when none hits.
pub proof fn lemma_first_probe_props(
    boxes: Seq<crate::region::Aabb>,
    pos: V3,
    delta: V3,
    du: V3,
    k: int,
)
    requires
        0 <= k <= 11,
    ensures
        k <= first_probe_from(boxes, pos, delta, du, k) <= 11,
        first_probe_from(boxes, pos, delta, du, k) <= 10 ==> probe_hit(boxes, pos, delta, du,
            first_probe_from(boxes, pos, delta, du, k)),
        forall|q: int| k <= q < first_probe_from(boxes, pos, delta, du, k) && q <= 10
            ==> !probe_hit(boxes, pos, delta, du, q),
    decreases 11 - k,
{
    if k <= 10 && !probe_hit(boxes, pos, delta, du, k) {
        lemma_first_probe_props(boxes, pos, delta, du, k + 1);
    }
}

/// The pinned anchor particle spun at a probed terrain point.
pub open spec fn anchor_particle(w: V3) -> crate::web::Particle {
    crate::web::Particle {
        position: Vec3Fx { x: w.x as i64, y: w.y as i64, z: w.z as i64 },
        velocity: Vec3Fx { x: 0, y: 0, z: 0 },
        force: Vec3Fx { x: 0, y: 0, z: 0 },
        impulse: Vec3Fx { x: 0, y: 0, z: 0 },
        impulse_duration: 0,
        mass: 0,
        pinned: true,
    }
}

/// Decides a movement request of `target_delta` for the agent: a
/// negligible request is ignored; anchored at a particle, the agent sets
/// off along the first adjacent edge aligned with the request; mid-edge,
/// it slides along its own edge when aligned; otherwise it looks for the
/// nearest edge crossing the requested ray, then for anchor terrain, and
/// walks free when terrain joins the two points, or spins exactly one new
/// edge — reusing any particle within the snap radius of either end —
/// with a quarter of the span as slack.
///
/// A request of zero (or negligible) length never changes the agent or
/// the web.
#[verifier::loop_isolation(false)]
#[verifier::rlimit(100)]
pub fn set_new_target(
    spider: &mut Spider,
    web: &mut Web,
    target_delta: Vec3Fx,
    region: &AnchorRegion,
) -> (outcome: NavOutcome)
    requires
        old(web).wf(),
        old(spider).wf(*old(web)),
        target_delta.bounded(1_000_000),
        old(web).particles@.len() + 2 <= MAX_ELEMS,
        old(web).springs@.len() + 3 <= MAX_ELEMS,
    ensures
        final(web).wf(),
        final(spider).wf(*final(web)),
        final(spider).food == old(spider).food,
        final(spider).max_food == old(spider).max_food,
        final(spider).current_rotation == old(spider).current_rotation,
        final(spider).touching_insects == old(spider).touching_insects,
        final(web).mass_per_unit_length == old(web).mass_per_unit_length,
        dot_v(target_delta@, target_delta@) < MIN_DELTA_SQ ==> outcome == NavOutcome::ZeroDelta,
        outcome == NavOutcome::ZeroDelta ==> final(web).particles@ == old(web).particles@
            && final(web).springs@ == old(web).springs@ && *final(spider) == *old(spider),
        outcome == NavOutcome::AlongCurrent ==> {
            &&& final(web).particles@ == old(web).particles@
            &&& final(web).springs@ == old(web).springs@
            &&& final(spider).current_position == old(spider).current_position
            &&& old(spider).current_position matches SpiderPosition::WEB(idx, ct)
                && final(spider).target_position matches SpiderPosition::WEB(idx2, nt) && idx2
                == idx && {
                let u = unit_v(edge_dir_from(*old(web), idx as int, -1));
                let du = unit_v(target_delta@);
                let adv = advance_t(target_delta@, u, old(web).springs@[idx as int].rest_length
                    as int);
                (dot_v(u, du) > ALIGN_DOT && nt == clamp_s(ct + adv, 0, SCALE as int)) || (dot_v(
                    u, du) < -ALIGN_DOT && nt == clamp_s(ct - adv, 0, SCALE as int))
            }
        },
        outcome == NavOutcome::AlongIncident ==> {
            &&& final(web).particles@ == old(web).particles@
            &&& final(web).springs@ == old(web).springs@
            &&& old(spider).current_position matches SpiderPosition::WEB(oidx, ot) && {
                let anchor = nav_anchor(*old(web), oidx as int, ot as int);
                let du = unit_v(target_delta@);
                &&& anchor >= 0
                &&& final(spider).current_position matches SpiderPosition::WEB(i, t0)
                    && final(spider).target_position matches SpiderPosition::WEB(i2, dest) && i2
                    == i && {
                    let s = old(web).springs@[i as int];
                    let adv = advance_t(target_delta@, unit_v(edge_dir_from(*old(web), i as int,
                        anchor)), s.rest_length as int);
                    &&& aligned_from(*old(web), i as int, anchor, du)
                    &&& forall|j: int| 0 <= j < i ==> !aligned_from(*old(web), j, anchor, du)
                    &&& (s.first_index as int == anchor ==> t0 == 0 && dest == adv)
                    &&& (s.first_index as int != anchor ==> t0 == SCALE && dest == SCALE - adv)
                }
            }
        },
        ({
            &&& dot_v(target_delta@, target_delta@) >= MIN_DELTA_SQ
            &&& old(spider).current_position matches SpiderPosition::WEB(oidx, ot)
                && nav_anchor(*old(web), oidx as int, ot as int) >= 0 && (exists|j: int|
                0 <= j < old(web).springs@.len() && aligned_from(*old(web), j, nav_anchor(
                    *old(web), oidx as int, ot as int), unit_v(target_delta@)))
        }) ==> outcome == NavOutcome::AlongIncident,
        ({
            &&& dot_v(target_delta@, target_delta@) >= MIN_DELTA_SQ
            &&& old(spider).current_position matches SpiderPosition::WEB(oidx, ot)
                && nav_anchor(*old(web), oidx as int, ot as int) == -1
                && len_v(edge_dir_from(*old(web), oidx as int, -1)) != 0
                && abs_s(dot_v(unit_v(edge_dir_from(*old(web), oidx as int, -1)),
                unit_v(target_delta@))) > ALIGN_DOT
        }) ==> outcome == NavOutcome::AlongCurrent,
        outcome == NavOutcome::FreeMove ==> {
            &&& final(web).particles@ == old(web).particles@
            &&& final(web).springs@ == old(web).springs@
            &&& ({
                let pos = clamp_v(old(spider).current_position.world_of(*old(web)),
                    MAX_COORD as int);
                &&& final(spider).current_position matches SpiderPosition::TREE(p) && p@ == pos
                &&& final(spider).target_position matches SpiderPosition::TREE(q) && q@
                    == clamp_v(add_v(pos, target_delta@), MAX_COORD as int)
            })
        },
        outcome == NavOutcome::SnapToEnd ==> final(web).particles@ == old(web).particles@
            && final(web).springs@ == old(web).springs@ && final(spider).current_position == old(spider).current_position,
        outcome == NavOutcome::ExistingEdge ==> {
            &&& final(web).particles@ == old(web).particles@
            &&& final(web).springs@ == old(web).springs@
            &&& final(spider).current_position matches SpiderPosition::WEB(si, t0)
                && final(spider).target_position matches SpiderPosition::WEB(si2, tt) && si2
                == si && (t0 == 0 || t0 == SCALE) && 0 <= tt <= SCALE && si < old(web).springs@.len() && {
                let s = old(web).springs@[si as int];
                let pos = clamp_v(old(spider).current_position.world_of(*old(web)),
                    MAX_COORD as int);
                crate::web::within_snap(old(web).particles@[s.first_index as int], (Vec3Fx {
                    x: pos.x as i64,
                    y: pos.y as i64,
                    z: pos.z as i64,
                }), SNAP_RADIUS as int) || crate::web::within_snap(
                    old(web).particles@[s.second_index as int],
                    (Vec3Fx { x: pos.x as i64, y: pos.y as i64, z: pos.z as i64 }),
                    SNAP_RADIUS as int,
                )
            }
        },
        outcome == NavOutcome::NewEdge ==> {
            &&& final(web).springs@.len() >= old(web).springs@.len() + 1
            &&& final(web).springs@.len() <= old(web).springs@.len() + 3
            &&& {
                let last = final(web).springs@.last();
                let pa = final(web).particles@[last.first_index as int].position@;
                let pb = final(web).particles@[last.second_index as int].position@;
                &&& last.stiffness == SILK_STIFFNESS
                &&& last.damping == SILK_DAMPING
                &&& last.rest_length == div_t(len_v(sub_v(pa, pb)) * 750, SCALE as int)
                &&& last.ensnared_entities@.len() == 0
                &&& final(spider).current_position == SpiderPosition::WEB((final(web).springs@.len() - 1) as usize, 0)
                &&& final(spider).target_position == SpiderPosition::WEB((final(web).springs@.len() - 1) as usize, SCALE as i64)
            }
        },
        outcome == NavOutcome::NewEdge && old(spider).current_position is TREE ==> final(web).springs@.len() <= old(web).springs@.len() + 2,
        ({
            let posC = clamp_v(old(spider).current_position.world_of(*old(web)),
                MAX_COORD as int);
            let du = unit_v(target_delta@);
            &&& dot_v(target_delta@, target_delta@) >= MIN_DELTA_SQ
            &&& falls_through(*old(web), old(spider).current_position, du)
            &&& !has_crossing(*old(web), old(spider).current_position, posC, du)
            &&& same_snap_fb(*old(web), posC, du)
        }) ==> outcome == NavOutcome::SnapToEnd,
        ({
            let posC = clamp_v(old(spider).current_position.world_of(*old(web)),
                MAX_COORD as int);
            let du = unit_v(target_delta@);
            &&& dot_v(target_delta@, target_delta@) >= MIN_DELTA_SQ
            &&& falls_through(*old(web), old(spider).current_position, du)
            &&& !has_crossing(*old(web), old(spider).current_position, posC, du)
            &&& !same_snap_fb(*old(web), posC, du)
            &&& first_probe(region.boxes@, posC, target_delta@, du) == 11
        }) ==> outcome == NavOutcome::NoAnchor && final(web).particles@ == old(web).particles@
            && final(web).springs@ == old(web).springs@ && *final(spider) == *old(spider),
        ({
            let posC = clamp_v(old(spider).current_position.world_of(*old(web)),
                MAX_COORD as int);
            let du = unit_v(target_delta@);
            let fp = first_probe(region.boxes@, posC, target_delta@, du);
            &&& dot_v(target_delta@, target_delta@) >= MIN_DELTA_SQ
            &&& falls_through(*old(web), old(spider).current_position, du)
            &&& !has_crossing(*old(web), old(spider).current_position, posC, du)
            &&& !same_snap_fb(*old(web), posC, du)
            &&& fp <= 10
            &&& crate::region::path_in_region(region.boxes@, posC, clamp_v(probe_point(posC,
                target_delta@, du, fp), MAX_COORD as int))
        }) ==> outcome == NavOutcome::FreeMove,
        ({
            let posC = clamp_v(old(spider).current_position.world_of(*old(web)),
                MAX_COORD as int);
            let du = unit_v(target_delta@);
            let fp = first_probe(region.boxes@, posC, target_delta@, du);
            let pt = probe_point(posC, target_delta@, du, fp);
            &&& dot_v(target_delta@, target_delta@) >= MIN_DELTA_SQ
            &&& falls_through(*old(web), old(spider).current_position, du)
            &&& !has_crossing(*old(web), old(spider).current_position, posC, du)
            &&& !same_snap_fb(*old(web), posC, du)
            &&& fp <= 10
            &&& !crate::region::path_in_region(region.boxes@, posC, clamp_v(pt,
                MAX_COORD as int))
            &&& crate::vec3::bounded_v(pt, MAX_COORD as int)
            &&& first_snap(*old(web), posC) < old(web).particles@.len()
            &&& first_snap(*old(web), pt) == old(web).particles@.len()
        }) ==> outcome == NavOutcome::NewEdge && {
            let posC = clamp_v(old(spider).current_position.world_of(*old(web)),
                MAX_COORD as int);
            let du = unit_v(target_delta@);
            let fp = first_probe(region.boxes@, posC, target_delta@, du);
            let pt = probe_point(posC, target_delta@, du, fp);
            &&& final(web).particles@ == old(web).particles@.push(anchor_particle(pt))
            &&& final(web).springs@.len() == old(web).springs@.len() + 1
            &&& final(web).springs@.drop_last() == old(web).springs@
            &&& final(web).springs@.last().first_index as int == first_snap(*old(web), posC)
            &&& final(web).springs@.last().second_index as int == old(web).particles@.len()
        },
{
    let dd = target_delta.dot(target_delta);
    if dd < MIN_DELTA_SQ {
        return NavOutcome::ZeroDelta;
    }
    let position_raw = spider.current_position.to_vec3(web);
    let position = position_raw.clamp_to(MAX_COORD);
    let du_opt = target_delta.unit();
    proof {
        let n = dot_v(target_delta@, target_delta@);
        crate::vec3::lemma_sqrt_exists(n);
        crate::fx::lemma_sqrt_floor(n, crate::vec3::sqrt_floor_witness(n));
        if len_v(target_delta@) == 0 {
            assert(crate::fx::is_sqrt(n, 0));
            assert(n < 1) by (nonlinear_arith)
                requires
                    crate::fx::is_sqrt(n, 0),
            ;
            assert(false);
        }
    }
    let target_dir = du_opt.unwrap();

    let from_spring: Option<(usize, i64)> = match spider.current_position {
        SpiderPosition::WEB(idx, t) => Some((idx, t)),
        SpiderPosition::TREE(_) => None,
    };

    let mut from_particle: Option<usize> = None;
    if let Some((spring_index, t)) = from_spring {
        let s_first = web.springs[spring_index].first_index;
        let s_second = web.springs[spring_index].second_index;
        let spider_world = spider.current_position.to_vec3(web);
        if t == 0 || web.particles[s_first].position.distance_sq(spider_world) < 900 {
            from_particle = Some(s_first);
        } else if t == SCALE || web.particles[s_second].position.distance_sq(spider_world)
            < 900 {
            from_particle = Some(s_second);
        }
        proof {
            let anchor = nav_anchor(*old(web), spring_index as int, t as int);
            match from_particle {
                Some(fp) => {
                    assert(anchor == fp as int);
                },
                None => {
                    assert(anchor == -1);
                },
            }
        }
    }

    if let Some(anchor) = from_particle {
        let m = web.springs.len();
        let mut i: usize = 0;
        while i < m
            invariant
                i <= m,
                m == web.springs@.len(),
                web.wf(),
                *web == *old(web),
                anchor < web.particles@.len(),
                *spider == *old(spider),
                old(spider).wf(*old(web)),
                target_dir@ == unit_v(target_delta@),
                target_dir.bounded(SCALE as int),
                target_delta.bounded(1_000_000),
                forall|j: int| 0 <= j < i ==> !aligned_from(*old(web), j, anchor as int,
                    unit_v(target_delta@)),
            decreases m - i,
        {
            let s_first = web.springs[i].first_index;
            let s_second = web.springs[i].second_index;
            if s_first == anchor || s_second == anchor {
                let p1 = web.particles[s_first].position;
                let p2 = web.particles[s_second].position;
                let raw_dir = p2.sub(p1);
                let dir = if s_second == anchor {
                    raw_dir.neg()
                } else {
                    raw_dir
                };
                let t0: i64 = if s_second == anchor {
                    SCALE
                } else {
                    0
                };
                if let Some(u) = dir.unit() {
                    let align = u.dot(target_dir);
                    if align > ALIGN_DOT {
                        let rest = web.springs[i].rest_length;
                        let proj_raw = target_delta.dot(u);
                        let proj = if proj_raw >= 0 {
                            proj_raw
                        } else {
                            -proj_raw
                        };
                        let adv = if rest == 0 {
                            SCALE
                        } else {
                            crate::fx::clamp_fx(crate::fx::div_fx(proj, rest), 0, SCALE)
                        };
                        let dest = if s_second == anchor {
                            SCALE - adv
                        } else {
                            adv
                        };
                        spider.current_position = SpiderPosition::WEB(i, t0);
                        spider.target_position = SpiderPosition::WEB(i, dest);
                        proof {
                            assert(aligned_from(*old(web), i as int, anchor as int,
                                unit_v(target_delta@)));
                        }
                        return NavOutcome::AlongIncident;
                    }
                }
            }
            i += 1;
        }
    } else if let Some((spring_index, current_t)) = from_spring {
        let s_first = web.springs[spring_index].first_index;
        let s_second = web.springs[spring_index].second_index;
        let p1 = web.particles[s_first].position;
        let p2 = web.particles[s_second].position;
        let dir = p2.sub(p1);
        if let Some(u) = dir.unit() {
            let align = u.dot(target_dir);
            if align > ALIGN_DOT || align < -ALIGN_DOT {
                let rest = web.springs[spring_index].rest_length;
                let proj_raw = target_delta.dot(u);
                let proj = if proj_raw >= 0 {
                    proj_raw
                } else {
                    -proj_raw
                };
                let adv = if rest == 0 {
                    SCALE
                } else {
                    crate::fx::clamp_fx(crate::fx::div_fx(proj, rest), 0, SCALE)
                };
                let dest = if align > ALIGN_DOT {
                    crate::fx::clamp_fx(current_t + adv, 0, SCALE)
                } else {
                    crate::fx::clamp_fx(current_t - adv, 0, SCALE)
                };
                spider.target_position = SpiderPosition::WEB(spring_index, dest);
                proof {
                    assert(edge_dir_from(*old(web), spring_index as int, -1) == dir@);
                }
                return NavOutcome::AlongCurrent;
            }
        }
    }

    fallback_navigation(spider, web, target_delta, region, position, target_dir, from_spring)
}

/// The fallback cascade of a movement request once no along-edge branch
/// applies: sweep every other edge for the nearest crossing strictly
/// ahead, else probe for anchor terrain, walk free when terrain joins
/// the two points, reuse an existing edge between the snapped endpoints,
/// or spin exactly one new edge.
#[verifier::loop_isolation(false)]
#[verifier::rlimit(100)]
fn fallback_navigation(
    spider: &mut Spider,
    web: &mut Web,
    target_delta: Vec3Fx,
    region: &AnchorRegion,
    position: Vec3Fx,
    target_dir: Vec3Fx,
    from_spring: Option<(usize, i64)>,
) -> (outcome: NavOutcome)
    requires
        old(web).wf(),
        old(spider).wf(*old(web)),
        target_delta.bounded(1_000_000),
        old(web).particles@.len() + 2 <= MAX_ELEMS,
        old(web).springs@.len() + 3 <= MAX_ELEMS,
        position@ == clamp_v(old(spider).current_position.world_of(*old(web)),
            MAX_COORD as int),
        position.bounded(MAX_COORD as int),
        target_dir@ == unit_v(target_delta@),
        target_dir.bounded(SCALE as int),
        dot_v(target_delta@, target_delta@) >= MIN_DELTA_SQ,
        match from_spring {
            Some((fs, t)) => old(spider).current_position == SpiderPosition::WEB(fs, t),
            None => old(spider).current_position is TREE,
        },
    ensures
        final(web).wf(),
        final(spider).wf(*final(web)),
        final(spider).food == old(spider).food,
        final(spider).max_food == old(spider).max_food,
        final(spider).current_rotation == old(spider).current_rotation,
        final(spider).touching_insects == old(spider).touching_insects,
        final(web).mass_per_unit_length == old(web).mass_per_unit_length,
        outcome == NavOutcome::SnapToEnd || outcome == NavOutcome::NoAnchor || outcome
            == NavOutcome::FreeMove || outcome == NavOutcome::ExistingEdge || outcome
            == NavOutcome::NewEdge,
        outcome == NavOutcome::FreeMove ==> {
            &&& final(web).particles@ == old(web).particles@
            &&& final(web).springs@ == old(web).springs@
            &&& final(spider).current_position matches SpiderPosition::TREE(p) && p@
                == position@
            &&& final(spider).target_position matches SpiderPosition::TREE(q) && q@ == clamp_v(
                add_v(position@, target_delta@),
                MAX_COORD as int,
            )
        },
        outcome == NavOutcome::SnapToEnd ==> final(web).particles@ == old(web).particles@
            && final(web).springs@ == old(web).springs@ && final(spider).current_position
            == old(spider).current_position,
        outcome == NavOutcome::ExistingEdge ==> {
            &&& final(web).particles@ == old(web).particles@
            &&& final(web).springs@ == old(web).springs@
            &&& final(spider).current_position matches SpiderPosition::WEB(si, t0)
                && final(spider).target_position matches SpiderPosition::WEB(si2, tt) && si2
                == si && (t0 == 0 || t0 == SCALE) && 0 <= tt <= SCALE && si < old(web).springs@.len() && {
                let s = old(web).springs@[si as int];
                crate::web::within_snap(old(web).particles@[s.first_index as int], position,
                    SNAP_RADIUS as int) || crate::web::within_snap(
                    old(web).particles@[s.second_index as int],
                    position,
                    SNAP_RADIUS as int,
                )
            }
        },
        outcome == NavOutcome::NewEdge ==> {
            &&& final(web).springs@.len() >= old(web).springs@.len() + 1
            &&& final(web).springs@.len() <= old(web).springs@.len() + 3
            &&& {
                let last = final(web).springs@.last();
                let pa = final(web).particles@[last.first_index as int].position@;
                let pb = final(web).particles@[last.second_index as int].position@;
                &&& last.stiffness == SILK_STIFFNESS
                &&& last.damping == SILK_DAMPING
                &&& last.rest_length == div_t(len_v(sub_v(pa, pb)) * 750, SCALE as int)
                &&& last.ensnared_entities@.len() == 0
                &&& final(spider).current_position == SpiderPosition::WEB((final(web).springs@.len() - 1) as usize, 0)
                &&& final(spider).target_position == SpiderPosition::WEB((final(web).springs@.len() - 1) as usize, SCALE as i64)
            }
        },
        outcome == NavOutcome::NewEdge && from_spring is None ==> final(web).springs@.len()
            <= old(web).springs@.len() + 2,
        ({
            &&& !has_crossing(*old(web), old(spider).current_position, position@, target_dir@)
            &&& same_snap_fb(*old(web), position@, target_dir@)
        }) ==> outcome == NavOutcome::SnapToEnd,
        ({
            &&& !has_crossing(*old(web), old(spider).current_position, position@, target_dir@)
            &&& !same_snap_fb(*old(web), position@, target_dir@)
            &&& first_probe(region.boxes@, position@, target_delta@, target_dir@) == 11
        }) ==> outcome == NavOutcome::NoAnchor && final(web).particles@ == old(web).particles@
            && final(web).springs@ == old(web).springs@ && *final(spider) == *old(spider),
        ({
            let fp = first_probe(region.boxes@, position@, target_delta@, target_dir@);
            &&& !has_crossing(*old(web), old(spider).current_position, position@, target_dir@)
            &&& !same_snap_fb(*old(web), position@, target_dir@)
            &&& fp <= 10
            &&& crate::region::path_in_region(region.boxes@, position@, clamp_v(probe_point(
                position@, target_delta@, target_dir@, fp), MAX_COORD as int))
        }) ==> outcome == NavOutcome::FreeMove,
        ({
            let fp = first_probe(region.boxes@, position@, target_delta@, target_dir@);
            let pt = probe_point(position@, target_delta@, target_dir@, fp);
            &&& !has_crossing(*old(web), old(spider).current_position, position@, target_dir@)
            &&& !same_snap_fb(*old(web), position@, target_dir@)
            &&& fp <= 10
            &&& !crate::region::path_in_region(region.boxes@, position@, clamp_v(pt,
                MAX_COORD as int))
            &&& crate::vec3::bounded_v(pt, MAX_COORD as int)
            &&& first_snap(*old(web), position@) < old(web).particles@.len()
            &&& first_snap(*old(web), pt) == old(web).particles@.len()
        }) ==> outcome == NavOutcome::NewEdge && {
            let fp = first_probe(region.boxes@, position@, target_delta@, target_dir@);
            let pt = probe_point(position@, target_delta@, target_dir@, fp);
            &&& final(web).particles@ == old(web).particles@.push(anchor_particle(pt))
            &&& final(web).springs@.len() == old(web).springs@.len() + 1
            &&& final(web).springs@.drop_last() == old(web).springs@
            &&& final(web).springs@.last().first_index as int == first_snap(*old(web),
                position@)
            &&& final(web).springs@.last().second_index as int == old(web).particles@.len()
        },
{
    let from_idx: Option<usize> = match from_spring {
        Some((fs, _)) => Some(fs),
        None => None,
    };
    let mut target_pos = position.add(target_dir.scale_div(10_000, SCALE));
    let ghost cur0 = old(spider).current_position;
    let ghost fbt = fallback_target(position@, target_dir@);
    let crossing = nearest_crossing(web, from_idx, position, target_dir, target_pos);
    proof {
        assert(target_pos@ == fbt);
        match crossing.1 {
            Some(d) => {
                assert(crossing_beats(*old(web), position@, target_dir@, fbt, d as int));
                assert(d as int != skip_of(cur0));
                assert(has_crossing(*old(web), cur0, position@, target_dir@));
            },
            None => {
                assert forall|j: int| 0 <= j < old(web).springs@.len() && j != skip_of(cur0)
                    implies !crossing_beats(*old(web), position@, target_dir@, fbt, j) by {}
                assert(!has_crossing(*old(web), cur0, position@, target_dir@));
            },
        }
    }
    target_pos = crossing.0;
    let mut dest_spring_idx: Option<usize> = crossing.1;

    proof {
        lemma_first_snap_props(*web, position@, 0);
    }

    let existing_p1 = web.get_particle_index(position, SNAP_RADIUS);
    proof {
        match existing_p1 {
            Some(i) => {
                assert(first_snap(*web, position@) == i as int);
            },
            None => {
                assert(first_snap(*web, position@) == web.particles@.len());
            },
        }
    }
    let existing_p2o = snap_index(web, target_pos);
    proof {
        lemma_first_snap_props(*web, target_pos@, 0);
        match existing_p2o {
            Some(i) => {
                assert(first_snap(*web, target_pos@) == i as int);
                assert(snap_of(*web, target_pos@) == i as int);
            },
            None => {
                assert(snap_of(*web, target_pos@) == web.particles@.len());
            },
        }
    }
    let same_snap = match (existing_p1, existing_p2o) {
        (Some(a), Some(b)) => a == b,
        _ => false,
    };
    proof {
        if dest_spring_idx is None {
            assert(same_snap == same_snap_fb(*old(web), position@, target_dir@));
        }
    }
    if same_snap {
        if let Some(ds) = dest_spring_idx {
            let e2 = match existing_p2o {
                Some(b) => b,
                None => 0,
            };
            let t_end: i64 = if web.springs[ds].first_index == e2 {
                0
            } else {
                SCALE
            };
            spider.target_position = SpiderPosition::WEB(ds, t_end);
        }
        return NavOutcome::SnapToEnd;
    }

    let ghost mut probe_idx: int = 11;
    if dest_spring_idx.is_none() {
        target_pos = position.add(target_delta);
        proof {
            assert(0int * scale_div_v(target_dir@, 100, SCALE as int).x == 0)
                by (nonlinear_arith);
            assert(0int * scale_div_v(target_dir@, 100, SCALE as int).y == 0)
                by (nonlinear_arith);
            assert(0int * scale_div_v(target_dir@, 100, SCALE as int).z == 0)
                by (nonlinear_arith);
            assert(target_pos@ == probe_point(position@, target_delta@, target_dir@, 0));
        }
        let mut probes: i64 = 0;
        let mut found = region.contains(target_pos);
        while probes < 10 && !found
            invariant
                0 <= probes <= 10,
                target_pos.bounded(2_000_000 + probes as int * 100),
                target_pos@ == probe_point(position@, target_delta@, target_dir@,
                    probes as int),
                found == probe_hit(region.boxes@, position@, target_delta@, target_dir@,
                    probes as int),
                forall|q: int| 0 <= q < probes ==> !probe_hit(region.boxes@, position@,
                    target_delta@, target_dir@, q),
                *spider == *old(spider),
            decreases 10 - probes,
        {
            let ghost k0 = probes as int;
            target_pos = target_pos.add(target_dir.scale_div(100, SCALE));
            proof {
                let inc = scale_div_v(target_dir@, 100, SCALE as int);
                assert((k0 + 1) * inc.x == k0 * inc.x + inc.x) by (nonlinear_arith);
                assert((k0 + 1) * inc.y == k0 * inc.y + inc.y) by (nonlinear_arith);
                assert((k0 + 1) * inc.z == k0 * inc.z + inc.z) by (nonlinear_arith);
                assert(target_pos@ == probe_point(position@, target_delta@, target_dir@,
                    k0 + 1));
            }
            probes += 1;
            found = region.contains(target_pos);
        }
        let ghost fp = first_probe(region.boxes@, position@, target_delta@, target_dir@);
        proof {
            lemma_first_probe_props(region.boxes@, position@, target_delta@, target_dir@, 0);
            if found {
                assert(fp == probes as int);
            } else {
                assert(probes == 10);
                assert(fp == 11);
            }
            probe_idx = fp;
        }
        if !found {
            return NavOutcome::NoAnchor;
        }
        let target_clamped = target_pos.clamp_to(MAX_COORD);
        if region.has_path(position, target_clamped) {
            spider.current_position = SpiderPosition::TREE(position);
            spider.target_position = SpiderPosition::TREE(position.add(
                target_delta,
            ).clamp_to(MAX_COORD));
            return NavOutcome::FreeMove;
        }
    } else {
        let target_clamped = target_pos.clamp_to(MAX_COORD);
        if region.has_path(position, target_clamped) {
            spider.current_position = SpiderPosition::TREE(position);
            spider.target_position = SpiderPosition::TREE(position.add(
                target_delta,
            ).clamp_to(MAX_COORD));
            return NavOutcome::FreeMove;
        }
    }

    let existing_p2 = snap_index(web, target_pos);
    proof {
        lemma_first_snap_props(*web, target_pos@, 0);
        match existing_p2 {
            Some(i) => {
                assert(first_snap(*web, target_pos@) == i as int);
            },
            None => {
                assert(target_pos.bounded(15_000_000) ==> first_snap(*web, target_pos@)
                    == web.particles@.len());
            },
        }
    }

    if let (Some(e1), Some(e2)) = (existing_p1, existing_p2) {
        if let Some(si) = web.get_spring(e1, e2) {
            let target = position.add(target_delta);
            let sp1 = web.particles[web.springs[si].first_index].position;
            let sp2 = web.particles[web.springs[si].second_index].position;
            let len_t = target.length();
            let len_1 = sp1.length();
            let len_2 = sp2.length();
            let den = len_2 - len_1;
            let mut t: i64 = if den == 0 {
                SCALE
            } else {
                proof {
                    lemma_mul_bound(len_t - len_1, SCALE as int, 110_000_000, SCALE as int);
                }
                crate::fx::div_any((len_t - len_1) * SCALE, den)
            };
            if web.springs[si].first_index == e1 {
                t = SCALE - crate::fx::clamp_fx(t, 0, SCALE);
            }
            let t_clamped = crate::fx::clamp_fx(t, 0, SCALE);
            let t_start: i64 = if web.springs[si].first_index == e1 {
                0
            } else {
                SCALE
            };
            spider.current_position = SpiderPosition::WEB(si, t_start);
            spider.target_position = SpiderPosition::WEB(si, t_clamped);
            return NavOutcome::ExistingEdge;
        }
    }

    let hack_spring_count = web.springs.len();
    let mut hack_swap_removed_a_spring = false;

    let p1: usize = match existing_p1 {
        Some(e1) => e1,
        None => {
            if let Some((from_spring_index, _)) = from_spring {
                web.split_spring(from_spring_index, position);
                hack_swap_removed_a_spring = true;
            } else {
                let in_tree = region.contains(position);
                web.particles.push(Particle {
                    position,
                    velocity: Vec3Fx { x: 0, y: 0, z: 0 },
                    force: Vec3Fx { x: 0, y: 0, z: 0 },
                    impulse: Vec3Fx { x: 0, y: 0, z: 0 },
                    impulse_duration: 0,
                    mass: 0,
                    pinned: in_tree,
                });
            }
            web.particles.len() - 1
        },
    };

    let mut dest_idx = dest_spring_idx;
    let p2: usize = match existing_p2 {
        Some(e2) => e2,
        None => {
            match dest_idx {
                None => {
                    let target_clamped = target_pos.clamp_to(MAX_COORD);
                    let in_tree = region.contains(target_clamped);
                    if !in_tree {
                        return NavOutcome::NoAnchor;
                    }
                    web.particles.push(Particle {
                        position: target_clamped,
                        velocity: Vec3Fx { x: 0, y: 0, z: 0 },
                        force: Vec3Fx { x: 0, y: 0, z: 0 },
                        impulse: Vec3Fx { x: 0, y: 0, z: 0 },
                        impulse_duration: 0,
                        mass: 0,
                        pinned: true,
                    });
                },
                Some(ds) => {
                    let mut ds_fixed = ds;
                    if hack_swap_removed_a_spring && ds == hack_spring_count - 1 {
                        let (fsi, _) = match from_spring {
                            Some(fs) => fs,
                            None => (0, 0),
                        };
                        ds_fixed = fsi;
                    }
                    if ds_fixed >= web.springs.len() {
                        return NavOutcome::NoAnchor;
                    }
                    let target_clamped = target_pos.clamp_to(MAX_COORD);
                    web.split_spring(ds_fixed, target_clamped);
                },
            }
            web.particles.len() - 1
        },
    };

    if p1 == p2 || p1 >= web.particles.len() || p2 >= web.particles.len() {
        return NavOutcome::NoAnchor;
    }
    let pa = web.particles[p1].position;
    let pb = web.particles[p2].position;
    let span = pa.sub(pb);
    let dist = span.length();
    proof {
        lemma_mul_bound(span@.x, span@.x, 2_000_000, 2_000_000);
        lemma_mul_bound(span@.y, span@.y, 2_000_000, 2_000_000);
        lemma_mul_bound(span@.z, span@.z, 2_000_000, 2_000_000);
        assert(dist <= 4_000_000) by (nonlinear_arith)
            requires
                (dist as int) * (dist as int) <= dot_v(span@, span@),
                dot_v(span@, span@) <= 12_000_000_000_000int,
                dist >= 0,
        ;
        lemma_mul_bound(dist as int, 750, 4_000_000, 750);
        lemma_div_t_shrink(dist * 750, SCALE as int, 3_000_000_000);
        assert(dist * 750 >= 0) by (nonlinear_arith)
            requires
                dist >= 0,
        ;
    }
    let rest = crate::fx::div_fx(dist * 750, SCALE);
    let silk = Spring {
        first_index: p1,
        second_index: p2,
        stiffness: SILK_STIFFNESS,
        damping: SILK_DAMPING,
        rest_length: rest,
        ensnared_entities: Vec::new(),
    };
    web.springs.push(silk);
    let last = web.springs.len() - 1;
    spider.current_position = SpiderPosition::WEB(last, 0);
    spider.target_position = SpiderPosition::WEB(last, SCALE);
    NavOutcome::NewEdge
}

} // verus!
