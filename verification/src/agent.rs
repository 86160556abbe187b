//! The navigating agent: its position on or off the web, its movement
//! toward a target, its facing angle, and its food store.

use crate::fx::{clamp_s, div_t, lemma_div_t_shrink, lemma_mul_bound, MAX_COORD, MAX_PARAM, SCALE};
use crate::vec3::{add_v, clamp_v, dot_v, len_v, scale_div_v, sub_v, unit_v, V3, Vec3Fx};
use crate::web::Web;
use vstd::prelude::*;

verus! {

/// A full turn, in fixed-point radians.
pub const TAU_FX: i64 = 6283;

/// A half turn, in fixed-point radians.
pub const HALF_TURN_FX: i64 = 3141;

/// A quarter turn, in fixed-point radians.
pub const QUARTER_TURN_FX: i64 = 1570;

/// Angular tolerance within which the agent counts as facing its target.
pub const FACING_TOLERANCE: i64 = 50;

/// Base angular velocity multiplier of the agent's turning.
pub const SPIDER_ROTATE_SPEED: i64 = 5600;

/// Walking speed of the agent, in thousandths of a unit per second.
pub const SPIDER_SPEED: i64 = 800;

/// Where the agent is: either at parameter `t` along a spring of the web,
/// or free-roaming at a world point.
#[derive(Clone, Copy, Debug)]
pub enum SpiderPosition {
    /// On the spring with the given index, at parameter `0..=SCALE`.
    WEB(usize, i64),
    /// Free-roaming at a world point on the terrain.
    TREE(Vec3Fx),
}

/// The navigating agent.
pub struct Spider {
    /// Food left; the agent starves at zero.
    pub food: i64,
    /// Upper bound on `food`.
    pub max_food: i64,
    /// Where the agent is now.
    pub current_position: SpiderPosition,
    /// Facing angle, kept in `[0, TAU_FX)`.
    pub current_rotation: i64,
    /// Where the agent is headed.
    pub target_position: SpiderPosition,
    /// Handles of the insects the agent currently touches.
    pub touching_insects: Vec<u64>,
    /// Body roll target angle.
    pub current_roll: i64,
    /// Smoothed body roll that trails `current_roll`.
    pub lerp_roll: i64,
}

/// Each insect appears at most once in the touching set.
pub open spec fn touching_unique(s: Seq<u64>) -> bool {
    forall|a: int, b: int| 0 <= a < b < s.len() ==> s[a] != s[b]
}

/// A position is valid against a web: an on-edge position names a live
/// spring and a parameter within the edge, a free position is bounded.
pub open spec fn spider_pos_wf(p: SpiderPosition, web: Web) -> bool {
    match p {
        SpiderPosition::WEB(idx, t) => idx < web.springs@.len() && 0 <= t <= SCALE,
        SpiderPosition::TREE(v) => v.bounded(MAX_COORD as int),
    }
}

impl Spider {
    /// The agent is valid against a web.
    pub open spec fn wf(self, web: Web) -> bool {
        &&& spider_pos_wf(self.current_position, web)
        &&& spider_pos_wf(self.target_position, web)
        &&& 0 <= self.current_rotation < TAU_FX
        &&& 0 <= self.current_roll <= crate::spring::ANGLE_CAP
        &&& 0 <= self.lerp_roll <= crate::spring::ANGLE_CAP
        &&& 0 < self.max_food <= MAX_PARAM
        &&& self.food <= self.max_food
        &&& -MAX_PARAM <= self.food
    }

    /// A fresh agent at a free point with a full stomach.
    pub fn new(max_food: i64, pos: Vec3Fx) -> (s: Spider)
        requires
            0 < max_food <= MAX_PARAM,
            pos.bounded(MAX_COORD as int),
        ensures
            s.food == max_food,
            s.max_food == max_food,
            s.current_position == SpiderPosition::TREE(pos),
            s.target_position == SpiderPosition::TREE(pos),
            s.current_rotation == 0,
            s.touching_insects@.len() == 0,
            s.current_roll == 0,
            s.lerp_roll == 0,
            touching_unique(s.touching_insects@),
    {
        Spider {
            food: max_food,
            max_food,
            current_position: SpiderPosition::TREE(pos),
            current_rotation: 0,
            target_position: SpiderPosition::TREE(pos),
            touching_insects: Vec::new(),
            current_roll: 0,
            lerp_roll: 0,
        }
    }

    /// Burns food over `dt`; reports whether the agent has starved.
    pub fn starve(&mut self, dt: i64) -> (dead: bool)
        requires
            0 <= dt <= crate::fx::MAX_DT,
            old(self).food <= old(self).max_food,
            -MAX_PARAM <= old(self).food,
        ensures
            final(self).food == old(self).food - div_t(250 * dt, SCALE as int),
            dead <==> final(self).food <= 0,
            *final(self) == (Spider { food: final(self).food, ..*old(self) }),
    {
        proof {
            lemma_mul_bound(250, dt as int, 250, crate::fx::MAX_DT as int);
            lemma_div_t_shrink(250 * dt, SCALE as int, 250 * crate::fx::MAX_DT as int);
        }
        self.food = self.food - crate::fx::div_fx(250 * dt, SCALE);
        self.food <= 0
    }

    /// Eats: food rises by the feast amount, capped at the maximum.
    pub fn feast(&mut self, amount: i64)
        requires
            0 <= amount <= MAX_PARAM,
            old(self).food <= old(self).max_food,
            -MAX_PARAM <= old(self).food,
            old(self).max_food <= MAX_PARAM,
        ensures
            final(self).food == if old(self).food + amount > old(self).max_food {
                old(self).max_food as int
            } else {
                old(self).food + amount
            },
            *final(self) == (Spider { food: final(self).food, ..*old(self) }),
    {
        let refilled = self.food + amount;
        self.food = if refilled > self.max_food {
            self.max_food
        } else {
            refilled
        };
    }
}

impl SpiderPosition {
    /// Whether the agent is free-roaming rather than on the web.
    pub fn is_tree(&self) -> (r: bool)
        ensures
            r == (self is TREE),
    {
        match self {
            SpiderPosition::WEB(_, _) => false,
            SpiderPosition::TREE(_) => true,
        }
    }

    /// The world point of a position.
    pub open spec fn world_of(self, web: Web) -> V3 {
        match self {
            SpiderPosition::WEB(idx, t) => {
                let s = web.springs@[idx as int];
                let p1 = web.particles@[s.first_index as int].position@;
                let p2 = web.particles@[s.second_index as int].position@;
                add_v(p1, scale_div_v(sub_v(p2, p1), t as int, SCALE as int))
            },
            SpiderPosition::TREE(p) => p@,
        }
    }

    /// The world point of the position: on-edge positions interpolate
    /// between the spring's endpoints.
    pub fn to_vec3(&self, web: &Web) -> (r: Vec3Fx)
        requires
            web.wf(),
            spider_pos_wf(*self, *web),
        ensures
            r@ == self.world_of(*web),
            r.bounded(3_000_000),
    {
        match self {
            SpiderPosition::WEB(idx, t) => {
                let s_first = web.springs[*idx].first_index;
                let s_second = web.springs[*idx].second_index;
                let p1 = web.particles[s_first].position;
                let p2 = web.particles[s_second].position;
                let d = p2.sub(p1);
                proof {
                    lemma_mul_bound(d@.x, *t as int, 2_000_000, SCALE as int);
                    lemma_mul_bound(d@.y, *t as int, 2_000_000, SCALE as int);
                    lemma_mul_bound(d@.z, *t as int, 2_000_000, SCALE as int);
                    lemma_div_t_shrink(d@.x * (*t as int), SCALE as int, 2_000_000_000);
                    lemma_div_t_shrink(d@.y * (*t as int), SCALE as int, 2_000_000_000);
                    lemma_div_t_shrink(d@.z * (*t as int), SCALE as int, 2_000_000_000);
                }
                p1.add(d.scale_div(*t, SCALE))
            },
            SpiderPosition::TREE(p) => *p,
        }
    }

    /// The position shifted by a world-space delta. An on-edge position
    /// slides along its spring: the shifted world point is
    /// re-parametrized by length ratio against the spring, clamped into
    /// the edge. A free position simply translates.
    pub fn add_delta(&self, web: &Web, delta: Vec3Fx) -> (r: SpiderPosition)
        requires
            web.wf(),
            spider_pos_wf(*self, *web),
            delta.bounded(2_000_000),
        ensures
            spider_pos_wf(r, *web) || (r is TREE),
            match *self {
                SpiderPosition::WEB(idx, t) => {
                    let s = web.springs@[idx as int];
                    let p1 = web.particles@[s.first_index as int].position@;
                    let p2 = web.particles@[s.second_index as int].position@;
                    let p = add_v(self.world_of(*web), delta@);
                    r == SpiderPosition::WEB(idx, clamp_s(crate::ensnare::snare_t_v(p, p1, p2), 0,
                        SCALE as int) as i64)
                },
                SpiderPosition::TREE(p) => r matches SpiderPosition::TREE(q) && q@ == add_v(p@,
                    delta@),
            },
    {
        match self {
            SpiderPosition::WEB(idx, t) => {
                let s_first = web.springs[*idx].first_index;
                let s_second = web.springs[*idx].second_index;
                let p1 = web.particles[s_first].position;
                let p2 = web.particles[s_second].position;
                let p = self.to_vec3(web).add(delta);
                let t_raw = crate::spring::EnsnaredEntity::snare_position_from_world_space(p, p1,
                    p2);
                let new_t = crate::fx::clamp_fx(t_raw, 0, SCALE);
                SpiderPosition::WEB(*idx, new_t)
            },
            SpiderPosition::TREE(p) => SpiderPosition::TREE(p.add(delta)),
        }
    }

    /// Two positions are the same place: identical edge and parameter on
    /// the web, or free points within a hundredth of a unit.
    pub fn same_as(&self, other: &SpiderPosition) -> (r: bool)
        requires
            match *self {
                SpiderPosition::WEB(_, _) => true,
                SpiderPosition::TREE(p) => p.bounded(15_000_000),
            },
            match *other {
                SpiderPosition::WEB(_, _) => true,
                SpiderPosition::TREE(p) => p.bounded(15_000_000),
            },
        ensures
            r == match (*self, *other) {
                (SpiderPosition::WEB(i1, t1), SpiderPosition::WEB(i2, t2)) => i1 == i2 && t1
                    == t2,
                (SpiderPosition::TREE(a), SpiderPosition::TREE(b)) => dot_v(sub_v(a@, b@),
                    sub_v(a@, b@)) < 100,
                _ => false,
            },
    {
        match (self, other) {
            (SpiderPosition::WEB(i1, t1), SpiderPosition::WEB(i2, t2)) => *i1 == *i2 && *t1
                == *t2,
            (SpiderPosition::TREE(a), SpiderPosition::TREE(b)) => a.distance_sq(*b) < 100,
            _ => false,
        }
    }
}

/// The displacement of one walking tick: the unit direction of the gap,
/// scaled by the bounded step length `SPIDER_SPEED * dt`.
pub open spec fn walk_step(gap: V3, dt: int) -> V3 {
    scale_div_v(unit_v(gap), div_t(SPIDER_SPEED * dt, SCALE as int), SCALE as int)
}

/// Walks the agent toward its target: a bounded step along the unit
/// direction from the current to the target world point, and a snap onto
/// the target once within a hundredth of a unit. An agent already at its
/// target, or whose direction degenerates, stays put.
pub fn move_spider(web: &Web, spider: &mut Spider, dt: i64)
    requires
        web.wf(),
        old(spider).wf(*web),
        0 <= dt <= crate::fx::MAX_DT,
    ensures
        final(spider).wf(*web),
        final(spider).target_position == old(spider).target_position,
        final(spider).food == old(spider).food,
        final(spider).current_rotation == old(spider).current_rotation,
        final(spider).touching_insects == old(spider).touching_insects,
        ({
            let cur = old(spider).current_position;
            let tgt = old(spider).target_position;
            let pos = cur.world_of(*web);
            let dest = tgt.world_of(*web);
            let gap = sub_v(dest, pos);
            if same_pos(cur, tgt) {
                final(spider).current_position == cur
            } else if len_v(gap) == 0 {
                final(spider).current_position == cur
            } else if dot_v(gap, gap) < 100 {
                final(spider).current_position == tgt
            } else {
                let delta = walk_step(gap, dt as int);
                match cur {
                    SpiderPosition::WEB(idx, t) => {
                        let s = web.springs@[idx as int];
                        let p1 = web.particles@[s.first_index as int].position@;
                        let p2 = web.particles@[s.second_index as int].position@;
                        final(spider).current_position matches SpiderPosition::WEB(i2, nt) && i2
                            == idx && nt == clamp_s(crate::ensnare::snare_t_v(add_v(pos, delta),
                            p1, p2), 0, SCALE as int)
                    },
                    SpiderPosition::TREE(p) => final(spider).current_position matches SpiderPosition::TREE(q) && q@ == clamp_v(
                        add_v(p@, delta),
                        MAX_COORD as int,
                    ),
                }
            }
        }),
{
    let at_target = spider.current_position.same_as(&spider.target_position);
    if at_target {
        return ;
    }
    let position = spider.current_position.to_vec3(web);
    let destination = spider.target_position.to_vec3(web);
    let gap = destination.sub(position);
    let dir = gap.unit();
    let Some(move_dir) = dir else { return ; };
    proof {
        lemma_mul_bound(SPIDER_SPEED as int, dt as int, SPIDER_SPEED as int,
            crate::fx::MAX_DT as int);
        lemma_div_t_shrink(SPIDER_SPEED * dt, SCALE as int,
            SPIDER_SPEED as int * crate::fx::MAX_DT as int);
    }
    let step_len = crate::fx::div_fx(SPIDER_SPEED * dt, SCALE);
    proof {
        lemma_mul_bound(move_dir@.x, step_len as int, SCALE as int, 1_600_000);
        lemma_mul_bound(move_dir@.y, step_len as int, SCALE as int, 1_600_000);
        lemma_mul_bound(move_dir@.z, step_len as int, SCALE as int, 1_600_000);
        lemma_div_t_shrink(move_dir@.x * step_len, SCALE as int, 1_600_000_000);
        lemma_div_t_shrink(move_dir@.y * step_len, SCALE as int, 1_600_000_000);
        lemma_div_t_shrink(move_dir@.z * step_len, SCALE as int, 1_600_000_000);
    }
    let delta = move_dir.scale_div(step_len, SCALE);
    let moved = spider.current_position.add_delta(web, delta);
    match moved {
        SpiderPosition::WEB(_, _) => {
            spider.current_position = moved;
        },
        SpiderPosition::TREE(p) => {
            let clamped = p.clamp_to(crate::fx::MAX_COORD);
            spider.current_position = SpiderPosition::TREE(clamped);
        },
    }
    let close = position.distance_sq(destination);
    proof {
        let g1 = sub_v(position@, destination@);
        let g2 = sub_v(destination@, position@);
        assert(dot_v(g1, g1) == dot_v(g2, g2)) by (nonlinear_arith)
            requires
                g1.x == -g2.x && g1.y == -g2.y && g1.z == -g2.z,
        ;
    }
    if close < 100 {
        spider.current_position = spider.target_position;
    }
}

/// The same-place test as a spec predicate.
pub open spec fn same_pos(a: SpiderPosition, b: SpiderPosition) -> bool {
    match (a, b) {
        (SpiderPosition::WEB(i1, t1), SpiderPosition::WEB(i2, t2)) => i1 == i2 && t1 == t2,
        (SpiderPosition::TREE(p), SpiderPosition::TREE(q)) => dot_v(sub_v(p@, q@), sub_v(p@, q@))
            < 100,
        _ => false,
    }
}

/// The facing angle after one rotation tick: the raw heading is wrapped
/// into `[0, TAU_FX)`, and the current facing (offset by a quarter turn)
/// turns toward it the short way round at a bounded angular velocity,
/// snapping onto it when one tick's turn overshoots.
pub open spec fn rotate_step(current_rotation: int, theta_raw: int, dt: int) -> int {
    let theta = if theta_raw < 0 {
        theta_raw + TAU_FX
    } else {
        theta_raw as int
    };
    let current_angle = if current_rotation + QUARTER_TURN_FX >= TAU_FX {
        current_rotation + QUARTER_TURN_FX - TAU_FX
    } else {
        current_rotation + QUARTER_TURN_FX
    };
    if abs_s(current_angle - theta) < FACING_TOLERANCE || abs_s(current_angle - theta - TAU_FX)
        < FACING_TOLERANCE {
        current_rotation
    } else {
        let omega = div_t(div_t(SPIDER_ROTATE_SPEED * HALF_TURN_FX, SCALE as int) * dt,
            SCALE as int);
        let toward = if abs_s(current_angle - theta) < abs_s(abs_s(current_angle - theta)
            - TAU_FX) {
            let step = current_angle + omega * sign_s(theta - current_angle);
            if sign_s(current_angle - theta) != sign_s(step - theta) {
                theta
            } else {
                step
            }
        } else {
            let step = current_angle - omega * sign_s(theta - current_angle);
            if sign_s(current_angle - theta) != sign_s(step - theta) {
                theta
            } else {
                step
            }
        };
        let unwrapped = toward - QUARTER_TURN_FX;
        if unwrapped < 0 {
            unwrapped + TAU_FX
        } else if unwrapped >= TAU_FX {
            unwrapped - TAU_FX
        } else {
            unwrapped
        }
    }
}

/// Magnitude of an integer.
pub open spec fn abs_s(a: int) -> int {
    if a >= 0 {
        a
    } else {
        -a
    }
}

/// Sign of an integer, zero for zero.
pub open spec fn sign_s(a: int) -> int {
    if a > 0 {
        1
    } else if a < 0 {
        -1
    } else {
        0
    }
}

/// Largest tick over which a turn is taken: keeps one tick's turn under
/// a quarter turn, so the wrapped facing stays within one full turn.
pub const MAX_TURN_DT: i64 = 80;

/// Turns the agent toward the heading `theta_raw` (the direction of its
/// intended movement, as an angle in fixed-point radians): rotate in
/// place at a bounded angular velocity, and leave the facing alone once
/// it is within tolerance — "rotate, then move".
pub fn rotate_spider(spider: &mut Spider, theta_raw: i64, dt: i64)
    requires
        -TAU_FX <= theta_raw <= TAU_FX,
        0 <= old(spider).current_rotation < TAU_FX,
        0 <= dt <= MAX_TURN_DT,
    ensures
        final(spider).current_rotation == rotate_step(old(spider).current_rotation as int,
            theta_raw as int, dt as int),
        0 <= final(spider).current_rotation < TAU_FX,
        *final(spider) == (Spider {
            current_rotation: final(spider).current_rotation,
            ..*old(spider)
        }),
{
    let theta = if theta_raw < 0 {
        theta_raw + TAU_FX
    } else {
        theta_raw
    };
    let current_angle = if spider.current_rotation + QUARTER_TURN_FX >= TAU_FX {
        spider.current_rotation + QUARTER_TURN_FX - TAU_FX
    } else {
        spider.current_rotation + QUARTER_TURN_FX
    };
    let diff = current_angle - theta;
    let adiff = if diff >= 0 {
        diff
    } else {
        -diff
    };
    let wrap_diff = diff - TAU_FX;
    let awrap_diff = if wrap_diff >= 0 {
        wrap_diff
    } else {
        -wrap_diff
    };
    let awrap = if adiff - TAU_FX >= 0 {
        adiff - TAU_FX
    } else {
        TAU_FX - adiff
    };
    if adiff < FACING_TOLERANCE || awrap_diff < FACING_TOLERANCE {
        return ;
    }
    proof {
        lemma_mul_bound(SPIDER_ROTATE_SPEED as int, HALF_TURN_FX as int,
            SPIDER_ROTATE_SPEED as int, HALF_TURN_FX as int);
        lemma_div_t_shrink(SPIDER_ROTATE_SPEED * HALF_TURN_FX, SCALE as int,
            SPIDER_ROTATE_SPEED as int * HALF_TURN_FX as int);
        lemma_mul_bound(div_t(SPIDER_ROTATE_SPEED * HALF_TURN_FX, SCALE as int), dt as int,
            17_590, MAX_TURN_DT as int);
        lemma_div_t_shrink(div_t(SPIDER_ROTATE_SPEED * HALF_TURN_FX, SCALE as int) * dt,
            SCALE as int, 1_407_200);
    }
    let omega = crate::fx::div_fx(crate::fx::div_fx(SPIDER_ROTATE_SPEED * HALF_TURN_FX, SCALE)
        * dt, SCALE);
    let to_sign: i64 = if theta - current_angle > 0 {
        1
    } else if theta - current_angle < 0 {
        -1
    } else {
        0
    };
    let diff_sign: i64 = if diff > 0 {
        1
    } else if diff < 0 {
        -1
    } else {
        0
    };
    proof {
        lemma_mul_bound(omega as int, to_sign as int, 1_408, 1);
    }
    let toward = if adiff < awrap {
        let step = current_angle + omega * to_sign;
        let new_sign: i64 = if step - theta > 0 {
            1
        } else if step - theta < 0 {
            -1
        } else {
            0
        };
        if diff_sign != new_sign {
            theta
        } else {
            step
        }
    } else {
        let step = current_angle - omega * to_sign;
        let new_sign: i64 = if step - theta > 0 {
            1
        } else if step - theta < 0 {
            -1
        } else {
            0
        };
        if diff_sign != new_sign {
            theta
        } else {
            step
        }
    };
    let unwrapped = toward - QUARTER_TURN_FX;
    spider.current_rotation = if unwrapped < 0 {
        unwrapped + TAU_FX
    } else if unwrapped >= TAU_FX {
        unwrapped - TAU_FX
    } else {
        unwrapped
    };
}

/// Home position the agent is returned to when it strays outside the
/// playfield.
pub open spec fn home_position() -> Vec3Fx {
    Vec3Fx { x: crate::region::ARENA_X, y: -300i64, z: 0i64 }
}

/// Puts a strayed agent back on its home perch: an agent whose world
/// point has left the playfield bounds is reset (current and target) to
/// the fixed home position; anywhere inside, nothing changes.
pub fn reset_if_out_of_bounds(spider: &mut Spider, web: &Web) -> (reset: bool)
    requires
        web.wf(),
        old(spider).wf(*web),
    ensures
        final(spider).wf(*web),
        reset == !crate::region::in_camera_bounds_v(old(spider).current_position.world_of(*web)),
        reset ==> final(spider).current_position == SpiderPosition::TREE(home_position())
            && final(spider).target_position == SpiderPosition::TREE(home_position()),
        !reset ==> *final(spider) == *old(spider),
{
    let world = spider.current_position.to_vec3(web);
    if !crate::region::in_camera_bounds(world) {
        spider.current_position = SpiderPosition::TREE(Vec3Fx {
            x: crate::region::ARENA_X,
            y: -300,
            z: 0,
        });
        spider.target_position = SpiderPosition::TREE(Vec3Fx {
            x: crate::region::ARENA_X,
            y: -300,
            z: 0,
        });
        true
    } else {
        false
    }
}

/// Whether a creature at `fly_pos` is within grabbing reach (a tenth of
/// a unit) of the agent.
pub fn insect_near(web: &Web, spider: &Spider, fly_pos: Vec3Fx) -> (near: bool)
    requires
        web.wf(),
        spider.wf(*web),
        fly_pos.bounded(15_000_000),
    ensures
        near == (dot_v(sub_v(fly_pos@, spider.current_position.world_of(*web)), sub_v(fly_pos@,
            spider.current_position.world_of(*web))) < 10_000),
{
    let world = spider.current_position.to_vec3(web);
    fly_pos.distance_sq(world) < 10_000
}

/// The body-roll target after one tick: a free-roaming agent rides
/// upright; on the web it flips a half turn whenever an insect comes
/// within reach while it rides upright (or none is near while flipped).
pub open spec fn roll_step(roll: int, is_tree: bool, close: bool) -> int {
    if is_tree {
        0
    } else {
        let rem = roll % (TAU_FX as int);
        if (close && (rem < 100 || rem > TAU_FX - 100)) || (!close && abs_s(rem - HALF_TURN_FX)
            < 100) {
            clamp_s(roll + HALF_TURN_FX, 0, crate::spring::ANGLE_CAP as int)
        } else {
            roll
        }
    }
}

/// Updates the agent's body roll: flip toward or away from a nearby
/// insect, and let the smoothed roll trail halfway to the target.
pub fn update_spider_roll(spider: &mut Spider, has_insect_close: bool)
    requires
        0 <= old(spider).current_roll <= crate::spring::ANGLE_CAP,
        0 <= old(spider).lerp_roll <= crate::spring::ANGLE_CAP,
    ensures
        final(spider).current_roll == roll_step(old(spider).current_roll as int, old(spider).current_position is TREE, has_insect_close),
        final(spider).lerp_roll == div_t(old(spider).lerp_roll as int, 2) + div_t(final(spider).current_roll as int, 2),
        0 <= final(spider).current_roll <= crate::spring::ANGLE_CAP,
        0 <= final(spider).lerp_roll <= crate::spring::ANGLE_CAP,
        final(spider).current_position == old(spider).current_position,
        final(spider).target_position == old(spider).target_position,
        final(spider).food == old(spider).food,
        final(spider).max_food == old(spider).max_food,
        final(spider).current_rotation == old(spider).current_rotation,
        final(spider).touching_insects == old(spider).touching_insects,
{
    let is_tree = spider.current_position.is_tree();
    if is_tree {
        spider.current_roll = 0;
    } else {
        proof {
            vstd::arithmetic::div_mod::lemma_mod_bound(spider.current_roll as int,
                TAU_FX as int);
        }
        let rem = spider.current_roll % TAU_FX;
        let near_pi = if rem - HALF_TURN_FX >= 0 {
            rem - HALF_TURN_FX
        } else {
            HALF_TURN_FX - rem
        };
        if (has_insect_close && (rem < 100 || rem > TAU_FX - 100)) || (!has_insect_close
            && near_pi < 100) {
            spider.current_roll = crate::fx::clamp_fx(spider.current_roll + HALF_TURN_FX, 0,
                crate::spring::ANGLE_CAP);
        }
    }
    spider.lerp_roll = crate::fx::div_fx(spider.lerp_roll, 2) + crate::fx::div_fx(
        spider.current_roll,
        2,
    );
}

} // verus!
