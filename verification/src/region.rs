//! The anchor region: the bounded zone of attachable terrain where new
//! particles and edges may terminate, modelled as a set of axis-aligned
//! boxes inside the fixed playfield bounds.

use crate::fx::MAX_COORD;
use crate::vec3::{add_v, scale_div_v, V3, Vec3Fx};
use vstd::prelude::*;

verus! {

/// Playfield half-extent along x, measured from the arena center.
pub const MAP_LIMIT_X: i64 = 1800;

/// Playfield half-extent along y, measured from the arena center.
pub const MAP_LIMIT_Y: i64 = 1000;

/// X coordinate of the arena center.
pub const ARENA_X: i64 = -2000;

/// Y coordinate of the arena center.
pub const ARENA_Y: i64 = 500;

/// An axis-aligned box of attachable terrain.
#[derive(Clone, Copy, Debug)]
pub struct Aabb {
    /// Smallest corner.
    pub min: Vec3Fx,
    /// Largest corner.
    pub max: Vec3Fx,
}

/// The bounded zone where silk may anchor: a set of terrain boxes, all
/// meaningful only inside the playfield bounds.
pub struct AnchorRegion {
    /// The terrain boxes.
    pub boxes: Vec<Aabb>,
}

/// The point lies within the playfield box around the arena center.
pub open spec fn in_camera_bounds_v(p: V3) -> bool {
    let dx = ARENA_X - p.x;
    let dy = ARENA_Y - p.y;
    !(dy > MAP_LIMIT_Y || dy < -MAP_LIMIT_Y || dx > MAP_LIMIT_X || dx < -MAP_LIMIT_X)
}

/// The point lies inside the box (inclusive on every face).
pub open spec fn aabb_contains(bx: Aabb, p: V3) -> bool {
    &&& bx.min@.x <= p.x <= bx.max@.x
    &&& bx.min@.y <= p.y <= bx.max@.y
    &&& bx.min@.z <= p.z <= bx.max@.z
}

/// The point is attachable: inside the playfield and inside some terrain
/// box.
pub open spec fn region_contains(boxes: Seq<Aabb>, p: V3) -> bool {
    in_camera_bounds_v(p) && exists|i: int| 0 <= i < boxes.len() && aabb_contains(#[trigger] boxes[i], p)
}

/// The sample point at parameter `i/10` between `a` and `b`, weighted as
/// `a * (i/10) + b * (1 - i/10)`.
pub open spec fn path_sample(a: V3, b: V3, i: int) -> V3 {
    add_v(
        scale_div_v(a, i * 100, crate::fx::SCALE as int),
        scale_div_v(b, crate::fx::SCALE - i * 100, crate::fx::SCALE as int),
    )
}

/// The whole straight path from `a` to `b` lies in the region: both
/// endpoints and the nine interior sample points.
pub open spec fn path_in_region(boxes: Seq<Aabb>, a: V3, b: V3) -> bool {
    &&& region_contains(boxes, a)
    &&& region_contains(boxes, b)
    &&& forall|i: int| 1 <= i < 10 ==> region_contains(boxes, #[trigger] path_sample(a, b, i))
}

/// The point lies within the playfield box around the arena center.
pub fn in_camera_bounds(p: Vec3Fx) -> (r: bool)
    requires
        p.bounded(100_000_000),
    ensures
        r == in_camera_bounds_v(p@),
{
    let dx = ARENA_X - p.x;
    let dy = ARENA_Y - p.y;
    !(dy > MAP_LIMIT_Y || dy < -MAP_LIMIT_Y || dx > MAP_LIMIT_X || dx < -MAP_LIMIT_X)
}

impl AnchorRegion {
    /// An empty region: nothing is attachable.
    pub fn new() -> (r: AnchorRegion)
        ensures
            r.boxes@.len() == 0,
    {
        AnchorRegion { boxes: Vec::new() }
    }

    /// Adds one terrain box.
    pub fn push_box(&mut self, bx: Aabb)
        ensures
            final(self).boxes@ == old(self).boxes@.push(bx),
    {
        self.boxes.push(bx);
    }

    /// Whether the point is attachable terrain.
    pub fn contains(&self, p: Vec3Fx) -> (r: bool)
        requires
            p.bounded(100_000_000),
        ensures
            r == region_contains(self.boxes@, p@),
    {
        if !in_camera_bounds(p) {
            return false;
        }
        let n = self.boxes.len();
        let mut i: usize = 0;
        while i < n
            invariant
                i <= n,
                n == self.boxes@.len(),
                in_camera_bounds_v(p@),
                forall|j: int| 0 <= j < i ==> !aabb_contains(#[trigger] self.boxes@[j], p@),
            decreases n - i,
        {
            let bx = self.boxes[i];
            if bx.min.x <= p.x && p.x <= bx.max.x && bx.min.y <= p.y && p.y <= bx.max.y
                && bx.min.z <= p.z && p.z <= bx.max.z {
                proof {
                    assert(aabb_contains(self.boxes@[i as int], p@));
                }
                return true;
            }
            i += 1;
        }
        false
    }

    /// Whether the straight path from `a` to `b` stays on attachable
    /// terrain all the way: both endpoints and nine interior samples.
    pub fn has_path(&self, a: Vec3Fx, b: Vec3Fx) -> (r: bool)
        requires
            a.bounded(MAX_COORD as int),
            b.bounded(MAX_COORD as int),
        ensures
            r == path_in_region(self.boxes@, a@, b@),
    {
        if !self.contains(a) || !self.contains(b) {
            return false;
        }
        let mut i: i64 = 1;
        while i < 10
            invariant
                1 <= i <= 10,
                a.bounded(MAX_COORD as int),
                b.bounded(MAX_COORD as int),
                region_contains(self.boxes@, a@),
                region_contains(self.boxes@, b@),
                forall|j: int| 1 <= j < i ==> region_contains(self.boxes@, #[trigger] path_sample(
                    a@, b@, j)),
            decreases 10 - i,
        {
            proof {
                crate::fx::lemma_mul_bound(a@.x, i * 100, MAX_COORD as int, 1000);
                crate::fx::lemma_mul_bound(a@.y, i * 100, MAX_COORD as int, 1000);
                crate::fx::lemma_mul_bound(a@.z, i * 100, MAX_COORD as int, 1000);
                crate::fx::lemma_mul_bound(b@.x, crate::fx::SCALE - i * 100, MAX_COORD as int,
                    1000);
                crate::fx::lemma_mul_bound(b@.y, crate::fx::SCALE - i * 100, MAX_COORD as int,
                    1000);
                crate::fx::lemma_mul_bound(b@.z, crate::fx::SCALE - i * 100, MAX_COORD as int,
                    1000);
                crate::fx::lemma_div_t_shrink(a@.x * (i * 100), crate::fx::SCALE as int,
                    1_000_000_000);
                crate::fx::lemma_div_t_shrink(a@.y * (i * 100), crate::fx::SCALE as int,
                    1_000_000_000);
                crate::fx::lemma_div_t_shrink(a@.z * (i * 100), crate::fx::SCALE as int,
                    1_000_000_000);
                crate::fx::lemma_div_t_shrink(b@.x * (crate::fx::SCALE - i * 100),
                    crate::fx::SCALE as int, 1_000_000_000);
                crate::fx::lemma_div_t_shrink(b@.y * (crate::fx::SCALE - i * 100),
                    crate::fx::SCALE as int, 1_000_000_000);
                crate::fx::lemma_div_t_shrink(b@.z * (crate::fx::SCALE - i * 100),
                    crate::fx::SCALE as int, 1_000_000_000);
            }
            let pa = a.scale_div(i * 100, crate::fx::SCALE);
            let pb = b.scale_div(crate::fx::SCALE - i * 100, crate::fx::SCALE);
            let sample = pa.add(pb);
            proof {
                assert(sample@ == path_sample(a@, b@, i as int));
            }
            if !self.contains(sample) {
                return false;
            }
            i += 1;
        }
        true
    }
}

} // verus!
