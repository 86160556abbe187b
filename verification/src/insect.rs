//! Flying creatures and the capture lifecycle: touch, roll up, cook,
//! release or consume.

use crate::agent::Spider;
use crate::fx::{clamp_s, div_t, lemma_div_t_shrink, lemma_mul_bound, MAX_COORD, MAX_DT,
    MAX_ELEMS, MAX_PARAM, SCALE};
use crate::spring::EnsnaredEntity;
use crate::vec3::{add_v, scale_div_v, sub_v, V3, Vec3Fx};
use crate::web::Web;
use vstd::prelude::*;

verus! {

/// Upper bound on a timer's duration.
pub const MAX_TIMER: i64 = 1_000_000_000;

/// Upper bound the roll and cooking progress values may reach: they stop
/// advancing at one (`SCALE`) but the final tick may overshoot.
pub const PROGRESS_CAP: i64 = 2_000;

/// How much food one consumed insect is worth.
pub const FEAST_AMOUNT: i64 = 1_750;

/// A repeating countdown: elapsed time wraps at the duration and raises
/// `just_finished` for one tick.
#[derive(Clone, Copy, Debug)]
pub struct TimerFx {
    /// Period of the timer.
    pub duration: i64,
    /// Time accumulated since the last wrap.
    pub elapsed: i64,
    /// A paused timer ignores ticks.
    pub paused: bool,
    /// The last tick wrapped.
    pub just_finished: bool,
}

/// Well-formed timer: positive period, elapsed within it.
pub open spec fn timer_wf(t: TimerFx) -> bool {
    &&& 0 < t.duration <= MAX_TIMER
    &&& 0 <= t.elapsed < t.duration
}

impl TimerFx {
    /// A fresh running timer with the given period.
    pub fn new(duration: i64) -> (t: TimerFx)
        requires
            0 < duration <= MAX_TIMER,
        ensures
            t.duration == duration,
            t.elapsed == 0,
            !t.paused,
            !t.just_finished,
            timer_wf(t),
    {
        TimerFx { duration, elapsed: 0, paused: false, just_finished: false }
    }

    /// Advances the timer: a paused timer ignores the tick; otherwise the
    /// elapsed time grows, wrapping at the period and raising
    /// `just_finished` exactly when it wraps.
    pub fn tick(&mut self, dt: i64)
        requires
            timer_wf(*old(self)),
            0 <= dt <= MAX_DT,
        ensures
            timer_wf(*final(self)),
            final(self).duration == old(self).duration,
            final(self).paused == old(self).paused,
            old(self).paused ==> *final(self) == *old(self),
            !old(self).paused ==> {
                &&& final(self).just_finished == (old(self).elapsed + dt >= old(self).duration)
                &&& (old(self).elapsed + dt >= old(self).duration ==> final(self).elapsed == (old(self).elapsed + dt) % (old(self).duration as int))
                &&& (old(self).elapsed + dt < old(self).duration ==> final(self).elapsed == old(self).elapsed + dt)
            },
    {
        if self.paused {
            return ;
        }
        let total = self.elapsed + dt;
        if total >= self.duration {
            self.just_finished = true;
            proof {
                vstd::arithmetic::div_mod::lemma_mod_bound(total as int, self.duration as int);
            }
            self.elapsed = total % self.duration;
        } else {
            self.just_finished = false;
            self.elapsed = total;
        }
    }

    /// Stops the timer.
    pub fn pause(&mut self)
        ensures
            *final(self) == (TimerFx { paused: true, ..*old(self) }),
    {
        self.paused = true;
    }

    /// Restarts a stopped timer where it left off.
    pub fn unpause(&mut self)
        ensures
            *final(self) == (TimerFx { paused: false, ..*old(self) }),
    {
        self.paused = false;
    }

    /// Rewinds the timer to the start of its period.
    pub fn reset(&mut self)
        ensures
            *final(self) == (TimerFx { elapsed: 0, just_finished: false, ..*old(self) }),
    {
        self.elapsed = 0;
        self.just_finished = false;
    }
}

/// A cubic flight path through four control points.
#[derive(Clone, Copy, Debug)]
pub struct BezierCurve {
    /// Start point.
    pub p0: Vec3Fx,
    /// First handle.
    pub p1: Vec3Fx,
    /// Second handle.
    pub p2: Vec3Fx,
    /// End point.
    pub p3: Vec3Fx,
}

/// Well-formed curve: all control points inside the playfield bounds.
pub open spec fn bezier_wf(b: BezierCurve) -> bool {
    &&& b.p0.bounded(MAX_COORD as int)
    &&& b.p1.bounded(MAX_COORD as int)
    &&& b.p2.bounded(MAX_COORD as int)
    &&& b.p3.bounded(MAX_COORD as int)
}

/// The four Bernstein weights of the cubic at parameter `t`, in
/// fixed-point arithmetic: `(1-t)^3`, `3 (1-t)^2 t`, `3 (1-t) t^2`,
/// `t^3`.
pub open spec fn bezier_w0(t: int) -> int {
    let u = SCALE - t;
    div_t(div_t(u * u, SCALE as int) * u, SCALE as int)
}

pub open spec fn bezier_w1(t: int) -> int {
    let u = SCALE - t;
    3 * div_t(div_t(u * u, SCALE as int) * t, SCALE as int)
}

pub open spec fn bezier_w2(t: int) -> int {
    let u = SCALE - t;
    3 * div_t(div_t(u * t, SCALE as int) * t, SCALE as int)
}

pub open spec fn bezier_w3(t: int) -> int {
    div_t(div_t(t * t, SCALE as int) * t, SCALE as int)
}

/// The point of the cubic at parameter `t`: the weighted sum of the four
/// control points.
pub open spec fn bezier_at_v(b: BezierCurve, t: int) -> V3 {
    add_v(
        add_v(scale_div_v(b.p0@, bezier_w0(t), SCALE as int), scale_div_v(b.p1@, bezier_w1(t),
            SCALE as int)),
        add_v(scale_div_v(b.p2@, bezier_w2(t), SCALE as int), scale_div_v(b.p3@, bezier_w3(t),
            SCALE as int)),
    )
}

impl BezierCurve {
    /// A curve through the four control points.
    pub fn new(p0: Vec3Fx, p1: Vec3Fx, p2: Vec3Fx, p3: Vec3Fx) -> (b: BezierCurve)
        ensures
            b.p0 == p0 && b.p1 == p1 && b.p2 == p2 && b.p3 == p3,
    {
        BezierCurve { p0, p1, p2, p3 }
    }

    /// The point of the curve at parameter `t` within the curve. The
    /// parameter must lie inside `[0, SCALE]`: callers guard, flights
    /// beyond the end despawn instead.
    pub fn at(&self, t: i64) -> (r: Vec3Fx)
        requires
            bezier_wf(*self),
            0 <= t <= SCALE,
        ensures
            r@ == bezier_at_v(*self, t as int),
            r.bounded(13_000_000),
    {
        let u = SCALE - t;
        proof {
            lemma_mul_bound(u as int, u as int, SCALE as int, SCALE as int);
            lemma_mul_bound(u as int, t as int, SCALE as int, SCALE as int);
            lemma_mul_bound(t as int, t as int, SCALE as int, SCALE as int);
            lemma_div_t_shrink(u as int * u as int, SCALE as int, SCALE as int * SCALE as int);
            lemma_div_t_shrink(u as int * t as int, SCALE as int, SCALE as int * SCALE as int);
            lemma_div_t_shrink(t as int * t as int, SCALE as int, SCALE as int * SCALE as int);
            lemma_mul_bound(div_t(u as int * u as int, SCALE as int), u as int, SCALE as int,
                SCALE as int);
            lemma_mul_bound(div_t(u as int * u as int, SCALE as int), t as int, SCALE as int,
                SCALE as int);
            lemma_mul_bound(div_t(u as int * t as int, SCALE as int), t as int, SCALE as int,
                SCALE as int);
            lemma_mul_bound(div_t(t as int * t as int, SCALE as int), t as int, SCALE as int,
                SCALE as int);
            lemma_bezier_weights(t as int);
            lemma_weight_products(self.p0@, bezier_w0(t as int));
            lemma_weight_products(self.p1@, bezier_w1(t as int));
            lemma_weight_products(self.p2@, bezier_w2(t as int));
            lemma_weight_products(self.p3@, bezier_w3(t as int));
        }
        let w0 = crate::fx::div_fx(crate::fx::div_fx(u * u, SCALE) * u, SCALE);
        let w1 = 3 * crate::fx::div_fx(crate::fx::div_fx(u * u, SCALE) * t, SCALE);
        let w2 = 3 * crate::fx::div_fx(crate::fx::div_fx(u * t, SCALE) * t, SCALE);
        let w3 = crate::fx::div_fx(crate::fx::div_fx(t * t, SCALE) * t, SCALE);
        let a = self.p0.scale_div(w0, SCALE).add(self.p1.scale_div(w1, SCALE));
        let b = self.p2.scale_div(w2, SCALE).add(self.p3.scale_div(w3, SCALE));
        a.add(b)
    }
}

/// The three derivative weights of the cubic at parameter `t`:
/// `3 (1-t)^2`, `6 (1-t) t`, `3 t^2`.
pub open spec fn bezier_d0(t: int) -> int {
    let u = SCALE - t;
    3 * div_t(u * u, SCALE as int)
}

pub open spec fn bezier_d1(t: int) -> int {
    let u = SCALE - t;
    6 * div_t(u * t, SCALE as int)
}

pub open spec fn bezier_d2(t: int) -> int {
    div_t(3 * (t * t), SCALE as int)
}

/// The tangent of the cubic at parameter `t`: the weighted sum of the
/// differences of consecutive control points.
pub open spec fn bezier_tangent_v(b: BezierCurve, t: int) -> V3 {
    add_v(
        add_v(scale_div_v(sub_v(b.p1@, b.p0@), bezier_d0(t), SCALE as int), scale_div_v(
            sub_v(b.p2@, b.p1@), bezier_d1(t), SCALE as int)),
        scale_div_v(sub_v(b.p3@, b.p2@), bezier_d2(t), SCALE as int),
    )
}

/// The Bernstein weights at a parameter inside the curve are bounded by
/// three (in fixed-point units).
proof fn lemma_bezier_weights(t: int)
    requires
        0 <= t <= SCALE,
    ensures
        -3 * SCALE <= bezier_w0(t) <= 3 * SCALE,
        -3 * SCALE <= bezier_w1(t) <= 3 * SCALE,
        -3 * SCALE <= bezier_w2(t) <= 3 * SCALE,
        -3 * SCALE <= bezier_w3(t) <= 3 * SCALE,
{
    let u = SCALE - t;
    lemma_mul_bound(u, u, SCALE as int, SCALE as int);
    lemma_mul_bound(u, t, SCALE as int, SCALE as int);
    lemma_mul_bound(t, t, SCALE as int, SCALE as int);
    lemma_div_t_shrink(u * u, SCALE as int, SCALE as int * SCALE as int);
    lemma_div_t_shrink(u * t, SCALE as int, SCALE as int * SCALE as int);
    lemma_div_t_shrink(t * t, SCALE as int, SCALE as int * SCALE as int);
    lemma_mul_bound(div_t(u * u, SCALE as int), u, SCALE as int, SCALE as int);
    lemma_mul_bound(div_t(u * u, SCALE as int), t, SCALE as int, SCALE as int);
    lemma_mul_bound(div_t(u * t, SCALE as int), t, SCALE as int, SCALE as int);
    lemma_mul_bound(div_t(t * t, SCALE as int), t, SCALE as int, SCALE as int);
    lemma_div_t_shrink(div_t(u * u, SCALE as int) * u, SCALE as int,
        SCALE as int * SCALE as int);
    lemma_div_t_shrink(div_t(u * u, SCALE as int) * t, SCALE as int,
        SCALE as int * SCALE as int);
    lemma_div_t_shrink(div_t(u * t, SCALE as int) * t, SCALE as int,
        SCALE as int * SCALE as int);
    lemma_div_t_shrink(div_t(t * t, SCALE as int) * t, SCALE as int,
        SCALE as int * SCALE as int);
}

/// A control point scaled by a bounded weight stays bounded.
proof fn lemma_weight_products(p: V3, w: int)
    requires
        crate::vec3::bounded_v(p, MAX_COORD as int),
        -3 * SCALE <= w <= 3 * SCALE,
    ensures
        -i64::MAX <= p.x * w <= i64::MAX,
        -i64::MAX <= p.y * w <= i64::MAX,
        -i64::MAX <= p.z * w <= i64::MAX,
        -3_000_000 <= div_t(p.x * w, SCALE as int) <= 3_000_000,
        -3_000_000 <= div_t(p.y * w, SCALE as int) <= 3_000_000,
        -3_000_000 <= div_t(p.z * w, SCALE as int) <= 3_000_000,
{
    lemma_mul_bound(p.x, w, MAX_COORD as int, 3 * SCALE as int);
    lemma_mul_bound(p.y, w, MAX_COORD as int, 3 * SCALE as int);
    lemma_mul_bound(p.z, w, MAX_COORD as int, 3 * SCALE as int);
    lemma_div_t_shrink(p.x * w, SCALE as int, 3_000_000_000);
    lemma_div_t_shrink(p.y * w, SCALE as int, 3_000_000_000);
    lemma_div_t_shrink(p.z * w, SCALE as int, 3_000_000_000);
}

impl BezierCurve {
    /// The tangent (flight direction, unnormalized) of the curve at
    /// parameter `t` within the curve.
    pub fn tangent_at(&self, t: i64) -> (r: Vec3Fx)
        requires
            bezier_wf(*self),
            0 <= t <= SCALE,
        ensures
            r@ == bezier_tangent_v(*self, t as int),
    {
        let u = SCALE - t;
        proof {
            lemma_mul_bound(u as int, u as int, SCALE as int, SCALE as int);
            lemma_mul_bound(u as int, t as int, SCALE as int, SCALE as int);
            lemma_mul_bound(t as int, t as int, SCALE as int, SCALE as int);
            lemma_div_t_shrink(u as int * u as int, SCALE as int, SCALE as int * SCALE as int);
            lemma_div_t_shrink(u as int * t as int, SCALE as int, SCALE as int * SCALE as int);
            lemma_div_t_shrink(3 * ((t as int) * (t as int)), SCALE as int,
                3 * SCALE as int * SCALE as int);
        }
        let d0 = 3 * crate::fx::div_fx(u * u, SCALE);
        let d1 = 6 * crate::fx::div_fx(u * t, SCALE);
        let d2 = crate::fx::div_fx(3 * (t * t), SCALE);
        let e0 = self.p1.sub(self.p0);
        let e1 = self.p2.sub(self.p1);
        let e2 = self.p3.sub(self.p2);
        proof {
            lemma_edge_weight(e0@, d0 as int);
            lemma_edge_weight(e1@, d1 as int);
            lemma_edge_weight(e2@, d2 as int);
        }
        e0.scale_div(d0, SCALE).add(e1.scale_div(d1, SCALE)).add(e2.scale_div(d2, SCALE))
    }
}

/// A control-point difference scaled by a derivative weight stays inside
/// the machine range.
proof fn lemma_edge_weight(e: V3, w: int)
    requires
        crate::vec3::bounded_v(e, 2_000_000),
        -6 * SCALE <= w <= 6 * SCALE,
    ensures
        -i64::MAX <= e.x * w <= i64::MAX,
        -i64::MAX <= e.y * w <= i64::MAX,
        -i64::MAX <= e.z * w <= i64::MAX,
        -12_000_000 <= div_t(e.x * w, SCALE as int) <= 12_000_000,
        -12_000_000 <= div_t(e.y * w, SCALE as int) <= 12_000_000,
        -12_000_000 <= div_t(e.z * w, SCALE as int) <= 12_000_000,
{
    lemma_mul_bound(e.x, w, 2_000_000, 6 * SCALE as int);
    lemma_mul_bound(e.y, w, 2_000_000, 6 * SCALE as int);
    lemma_mul_bound(e.z, w, 2_000_000, 6 * SCALE as int);
    lemma_div_t_shrink(e.x * w, SCALE as int, 12_000_000_000);
    lemma_div_t_shrink(e.y * w, SCALE as int, 12_000_000_000);
    lemma_div_t_shrink(e.z * w, SCALE as int, 12_000_000_000);
}

/// One component of a point drawn inside the axis box of two values:
/// the lower bound plus the drawn fraction (`0..=SCALE`) of the span.
pub open spec fn box_sample_component(a: int, b: int, d: int) -> int {
    let lo = if a <= b {
        a
    } else {
        b
    };
    let hi = if a <= b {
        b
    } else {
        a
    };
    lo + div_t((hi - lo) * d, SCALE as int)
}

/// A point drawn inside the axis-aligned box spanned by `a` and `b`,
/// from one unit draw per component.
pub open spec fn box_sample(a: V3, b: V3, d: V3) -> V3 {
    V3 {
        x: box_sample_component(a.x, b.x, d.x),
        y: box_sample_component(a.y, b.y, d.y),
        z: box_sample_component(a.z, b.z, d.z),
    }
}

/// A sampled component stays inside the span of its two bounds.
proof fn lemma_box_sample_bounds(a: int, b: int, d: int)
    requires
        -MAX_COORD <= a <= MAX_COORD,
        -MAX_COORD <= b <= MAX_COORD,
        0 <= d <= SCALE,
    ensures
        -MAX_COORD <= box_sample_component(a, b, d) <= MAX_COORD,
        -i64::MAX <= (if a <= b {
            b - a
        } else {
            a - b
        }) * d <= i64::MAX,
{
    let lo = if a <= b {
        a
    } else {
        b
    };
    let hi = if a <= b {
        b
    } else {
        a
    };
    let s = SCALE as int;
    assert(0 <= (hi - lo) * d <= (hi - lo) * s) by (nonlinear_arith)
        requires
            hi - lo >= 0,
            0 <= d <= s,
    ;
    vstd::arithmetic::div_mod::lemma_div_pos_is_pos((hi - lo) * d, s);
    vstd::arithmetic::div_mod::lemma_div_is_ordered((hi - lo) * d, (hi - lo) * s, s);
    vstd::arithmetic::div_mod::lemma_div_multiples_vanish(hi - lo, s);
    assert((hi - lo) * s == s * (hi - lo)) by (nonlinear_arith);
}

/// Two flight-path handles drawn inside the box spanned by the two
/// endpoints, from two unit draws (one fraction per component), the pair
/// ordered so the nearer-in-depth handle comes first.
pub fn generate_bezier_handles(p0: Vec3Fx, p3: Vec3Fx, d1: Vec3Fx, d2: Vec3Fx) -> (r: (
    Vec3Fx,
    Vec3Fx,
))
    requires
        p0.bounded(MAX_COORD as int),
        p3.bounded(MAX_COORD as int),
        0 <= d1@.x <= SCALE && 0 <= d1@.y <= SCALE && 0 <= d1@.z <= SCALE,
        0 <= d2@.x <= SCALE && 0 <= d2@.y <= SCALE && 0 <= d2@.z <= SCALE,
    ensures
        ({
            let h1 = box_sample(p0@, p3@, d1@);
            let h2 = box_sample(p0@, p3@, d2@);
            if h2.z < h1.z {
                r.0@ == h2 && r.1@ == h1
            } else {
                r.0@ == h1 && r.1@ == h2
            }
        }),
        r.0.bounded(MAX_COORD as int),
        r.1.bounded(MAX_COORD as int),
{
    let h1 = Vec3Fx {
        x: sample_component(p0.x, p3.x, d1.x),
        y: sample_component(p0.y, p3.y, d1.y),
        z: sample_component(p0.z, p3.z, d1.z),
    };
    let h2 = Vec3Fx {
        x: sample_component(p0.x, p3.x, d2.x),
        y: sample_component(p0.y, p3.y, d2.y),
        z: sample_component(p0.z, p3.z, d2.z),
    };
    if h2.z < h1.z {
        (h2, h1)
    } else {
        (h1, h2)
    }
}

/// One sampled component.
fn sample_component(a: i64, b: i64, d: i64) -> (r: i64)
    requires
        -MAX_COORD <= a <= MAX_COORD,
        -MAX_COORD <= b <= MAX_COORD,
        0 <= d <= SCALE,
    ensures
        r == box_sample_component(a as int, b as int, d as int),
        -MAX_COORD <= r <= MAX_COORD,
{
    proof {
        lemma_box_sample_bounds(a as int, b as int, d as int);
    }
    let lo = if a <= b {
        a
    } else {
        b
    };
    let hi = if a <= b {
        b
    } else {
        a
    };
    lo + crate::fx::div_fx((hi - lo) * d, SCALE)
}

/// A flying creature: its flight path and the state of its capture
/// lifecycle.
pub struct FlyingInsect {
    /// Flight speed along the path, per second.
    pub speed: i64,
    /// Parameter along the path, `0..=SCALE` while in flight.
    pub progress: i64,
    /// Mass fed into the web when snared.
    pub weight: i64,
    /// Phase offset of the wing-bob, handed in at spawn.
    pub offset: i64,
    /// The flight path.
    pub path: BezierCurve,
    /// Where the creature resumes flying after breaking free.
    pub break_free_position: Vec3Fx,
    /// How far the agent has rolled it up, `SCALE` when fully rolled.
    pub snare_roll_progress: i64,
    /// Runs while the agent is rolling it up.
    pub snare_timer: TimerFx,
    /// How far it is cooked, `SCALE` when done.
    pub cooking_progress: i64,
    /// Runs while a fully rolled creature cooks.
    pub cooking_timer: TimerFx,
    /// Runs while the creature is snared but untouched; frees it when it
    /// fires before the roll is complete.
    pub freed_timer: TimerFx,
    /// Handle of the rolled-up cocoon model, once one exists.
    pub rolled_ensnare_entity: Option<u64>,
}

/// Well-formed creature state.
pub open spec fn insect_wf(f: FlyingInsect) -> bool {
    &&& 0 <= f.speed <= MAX_PARAM
    &&& 0 <= f.progress <= PROGRESS_CAP
    &&& 0 <= f.weight <= MAX_PARAM
    &&& 0 <= f.snare_roll_progress <= PROGRESS_CAP
    &&& 0 <= f.cooking_progress <= PROGRESS_CAP
    &&& timer_wf(f.snare_timer)
    &&& timer_wf(f.cooking_timer)
    &&& timer_wf(f.freed_timer)
    &&& bezier_wf(f.path)
    &&& f.break_free_position.bounded(MAX_COORD as int)
}

impl FlyingInsect {
    /// A fresh creature on a flight path. The wing-bob phase `offset` is
    /// whatever the caller drew for it. The roll-up timer runs on touch,
    /// the cooking and freed timers start paused.
    pub fn new(speed: i64, weight: i64, bezier: BezierCurve, offset: i64) -> (f: FlyingInsect)
        requires
            0 <= speed <= MAX_PARAM,
            0 <= weight <= MAX_PARAM,
            bezier_wf(bezier),
        ensures
            insect_wf(f),
            f.speed == speed,
            f.weight == weight,
            f.path == bezier,
            f.offset == offset,
            f.progress == 0,
            f.snare_roll_progress == 0,
            f.cooking_progress == 0,
            f.snare_timer.duration == 2_000 && !f.snare_timer.paused,
            f.cooking_timer.duration == 5_000 && f.cooking_timer.paused,
            f.freed_timer.duration == 15_000 && f.freed_timer.paused,
            f.rolled_ensnare_entity is None,
    {
        let snare_timer = TimerFx::new(2_000);
        let mut cooking_timer = TimerFx::new(5_000);
        let mut freed_timer = TimerFx::new(15_000);
        cooking_timer.pause();
        freed_timer.pause();
        FlyingInsect {
            speed,
            progress: 0,
            weight,
            offset,
            path: bezier,
            break_free_position: Vec3Fx { x: 0, y: 0, z: 0 },
            snare_roll_progress: 0,
            snare_timer,
            cooking_progress: 0,
            cooking_timer,
            freed_timer,
            rolled_ensnare_entity: None,
        }
    }

    /// Advances the flight; reports whether the creature reached the end
    /// of its path and should despawn.
    pub fn tick_flight(&mut self, dt: i64) -> (despawn: bool)
        requires
            insect_wf(*old(self)),
            0 <= dt <= MAX_DT,
        ensures
            insect_wf(*final(self)),
            final(self).progress == clamp_s(old(self).progress + div_t(dt * old(self).speed,
                SCALE as int), 0, PROGRESS_CAP as int),
            despawn <==> final(self).progress > SCALE,
            *final(self) == (FlyingInsect { progress: final(self).progress, ..*old(self) }),
    {
        proof {
            lemma_mul_bound(dt as int, self.speed as int, MAX_DT as int, MAX_PARAM as int);
            lemma_div_t_shrink(dt * self.speed, SCALE as int, MAX_DT as int * MAX_PARAM as int);
        }
        let inc = crate::fx::div_fx(dt * self.speed, SCALE);
        self.progress = crate::fx::clamp_fx(self.progress + inc, 0, PROGRESS_CAP);
        self.progress > SCALE
    }

    /// Where the creature sits in flight: its path point plus the
    /// wing-bob displacement `bob` (computed by the caller from the
    /// elapsed time and the creature's phase) plus its break-free
    /// displacement.
    pub fn flight_position(&self, bob: i64) -> (r: Vec3Fx)
        requires
            insect_wf(*self),
            self.progress <= SCALE,
            -100 <= bob <= 100,
        ensures
            r@ == add_v(add_v(bezier_at_v(self.path, self.progress as int), V3 {
                x: 0,
                y: bob as int,
                z: 0,
            }), self.break_free_position@),
    {
        let base = self.path.at(self.progress);
        let bobbed = base.add(Vec3Fx { x: 0, y: bob, z: 0 });
        bobbed.add(self.break_free_position)
    }
}

/// What one lifecycle tick decided about a snared creature.
#[derive(Clone, Copy, Debug, PartialEq, Eq, Structural)]
pub enum CaptureEvent {
    /// Nothing notable; carry on.
    Stay,
    /// The roll-up just completed: the creature is now fully rolled and
    /// its cooking bar appears.
    MarkDone,
    /// The freed timer fired before the roll completed: the creature
    /// breaks free of the web.
    Release,
    /// Cooking completed while the agent was touching: the creature is
    /// eaten.
    Consume,
}

/// The position of the first occurrence of `id` in the touching set.
fn find_touch(v: &Vec<u64>, id: u64) -> (r: Option<usize>)
    ensures
        match r {
            Some(k) => k < v@.len() && v@[k as int] == id,
            None => !v@.contains(id),
        },
{
    let n = v.len();
    let mut i: usize = 0;
    while i < n
        invariant
            i <= n,
            n == v@.len(),
            forall|j: int| 0 <= j < i ==> v@[j] != id,
        decreases n - i,
    {
        if v[i] == id {
            return Some(i);
        }
        i += 1;
    }
    None
}

/// The agent starts touching a snared creature: it joins the touching
/// set (once) and its freed timer stops while it is held.
#[verifier::loop_isolation(false)]
pub fn on_touch_insect(spider: &mut Spider, fly: &mut FlyingInsect, entity: u64)
    requires
        insect_wf(*old(fly)),
        old(spider).touching_insects@.len() < MAX_ELEMS,
    ensures
        insect_wf(*final(fly)),
        old(spider).touching_insects@.contains(entity) ==> *final(spider) == *old(spider)
            && *final(fly) == *old(fly),
        !old(spider).touching_insects@.contains(entity) ==> final(spider).touching_insects@ == old(spider).touching_insects@.push(entity) && *final(spider) == (Spider {
            touching_insects: final(spider).touching_insects,
            ..*old(spider)
        }) && *final(fly) == (FlyingInsect {
            freed_timer: TimerFx { paused: true, ..old(fly).freed_timer },
            ..*old(fly)
        }),
        crate::agent::touching_unique(old(spider).touching_insects@)
            ==> crate::agent::touching_unique(final(spider).touching_insects@),
{
    let n = spider.touching_insects.len();
    let mut i: usize = 0;
    while i < n
        invariant
            i <= n,
            n == spider.touching_insects@.len(),
            forall|j: int| 0 <= j < i ==> spider.touching_insects@[j] != entity,
        decreases n - i,
    {
        if spider.touching_insects[i] == entity {
            return ;
        }
        i += 1;
    }
    spider.touching_insects.push(entity);
    fly.freed_timer.pause();
}

/// The agent stops touching a snared creature: it leaves the touching
/// set; an incomplete roll rewinds to nothing, and the freed timer
/// resumes.
#[verifier::loop_isolation(false)]
pub fn on_leave_insect(spider: &mut Spider, fly: &mut FlyingInsect, entity: u64)
    requires
        insect_wf(*old(fly)),
    ensures
        insect_wf(*final(fly)),
        !old(spider).touching_insects@.contains(entity) ==> *final(spider) == *old(spider)
            && *final(fly) == *old(fly),
        old(spider).touching_insects@.contains(entity) ==> {
            &&& final(spider).touching_insects@.len() == old(spider).touching_insects@.len() - 1
            &&& *final(spider) == (Spider {
                touching_insects: final(spider).touching_insects,
                ..*old(spider)
            })
            &&& final(fly).snare_timer.paused
            &&& !final(fly).freed_timer.paused
            &&& (old(fly).snare_roll_progress < 990 ==> final(fly).snare_roll_progress == 0
                && final(fly).snare_timer.elapsed == 0)
            &&& (old(fly).snare_roll_progress >= 990 ==> final(fly).snare_roll_progress == old(fly).snare_roll_progress)
        },
        crate::agent::touching_unique(old(spider).touching_insects@) ==> !final(spider).touching_insects@.contains(entity) && crate::agent::touching_unique(
            final(spider).touching_insects@,
        ),
{
    let found = find_touch(&spider.touching_insects, entity);
    let Some(k) = found else { return ; };
    proof {
        if crate::agent::touching_unique(spider.touching_insects@) {
            let s0 = spider.touching_insects@;
            let removed = s0.update(k as int, s0.last()).drop_last();
            assert forall|r: int| 0 <= r < removed.len() implies #[trigger] removed[r]
                != entity by {
                if r == k as int {
                    assert(removed[r] == s0[s0.len() - 1]);
                } else {
                    assert(removed[r] == s0[r]);
                }
            }
            assert forall|a: int, b: int| 0 <= a < b < removed.len() implies removed[a]
                != removed[b] by {
                if a == k as int {
                    assert(removed[a] == s0[s0.len() - 1]);
                    assert(removed[b] == s0[b]);
                } else if b == k as int {
                    assert(removed[b] == s0[s0.len() - 1]);
                    assert(removed[a] == s0[a]);
                } else {
                    assert(removed[a] == s0[a]);
                    assert(removed[b] == s0[b]);
                }
            }
            assert forall|r: int| 0 <= r < removed.len() && removed[r] == entity implies
                false by {}
            assert(!removed.contains(entity));
        }
    }
    let _ = spider.touching_insects.swap_remove(k);
    fly.snare_timer.pause();
    if fly.snare_roll_progress < 990 {
        fly.snare_roll_progress = 0;
        fly.snare_timer.reset();
        fly.snare_timer.pause();
    }
    fly.freed_timer.unpause();
}

/// One lifecycle tick for a creature the agent is touching. A creature
/// whose cooking completed is consumed: its roll rewinds and the caller
/// releases it from the web, feeds the agent [`FEAST_AMOUNT`] and
/// despawns it. Otherwise an unfinished roll advances; when the roll-up
/// timer fires the creature becomes fully rolled (`MarkDone`) and its
/// cooking bar starts at zero.
pub fn cook_touching_insect(fly: &mut FlyingInsect, dt: i64) -> (ev: CaptureEvent)
    requires
        insect_wf(*old(fly)),
        0 <= dt <= MAX_DT,
    ensures
        insect_wf(*final(fly)),
        old(fly).cooking_progress >= SCALE ==> ev == CaptureEvent::Consume && final(fly).snare_roll_progress == 0,
        old(fly).cooking_progress < SCALE && old(fly).snare_roll_progress >= SCALE ==> ev
            == CaptureEvent::Stay && *final(fly) == *old(fly),
        old(fly).cooking_progress < SCALE && old(fly).snare_roll_progress < SCALE ==> {
            &&& final(fly).snare_roll_progress == clamp_s(old(fly).snare_roll_progress + div_t(
                dt * SCALE, old(fly).snare_timer.duration as int), 0, PROGRESS_CAP as int)
            &&& (ev == CaptureEvent::MarkDone <==> old(fly).snare_timer.elapsed + dt >= old(fly).snare_timer.duration)
            &&& (ev == CaptureEvent::MarkDone ==> final(fly).snare_timer.paused && final(fly).snare_timer.elapsed == 0)
        },
{
    if fly.cooking_progress >= SCALE {
        fly.snare_roll_progress = 0;
        return CaptureEvent::Consume;
    }
    if fly.snare_roll_progress >= SCALE {
        return CaptureEvent::Stay;
    }
    if fly.snare_timer.paused {
        fly.snare_timer.unpause();
    }
    let ghost pre = fly.snare_timer;
    fly.snare_timer.tick(dt);
    proof {
        lemma_mul_bound(dt as int, SCALE as int, MAX_DT as int, SCALE as int);
        lemma_div_t_shrink(dt * SCALE, fly.snare_timer.duration as int,
            MAX_DT as int * SCALE as int);
    }
    let inc = crate::fx::div_fx(dt * SCALE, fly.snare_timer.duration);
    fly.snare_roll_progress = crate::fx::clamp_fx(fly.snare_roll_progress + inc, 0,
        PROGRESS_CAP);
    if fly.snare_timer.just_finished {
        fly.snare_timer.reset();
        fly.snare_timer.pause();
        return CaptureEvent::MarkDone;
    }
    CaptureEvent::Stay
}

/// One lifecycle tick for a snared creature, from the creature's side.
/// The freed timer runs while it hangs in the web; if it fires before
/// the roll is complete, the creature breaks free (`Release`) with its
/// roll and cooking fully rewound. A fully rolled creature cooks: its
/// cooking progress advances while the cooking timer runs.
pub fn tick_ensnared_insect(fly: &mut FlyingInsect, dt: i64) -> (ev: CaptureEvent)
    requires
        insect_wf(*old(fly)),
        0 <= dt <= MAX_DT,
    ensures
        insect_wf(*final(fly)),
        old(fly).freed_timer.elapsed + dt >= old(fly).freed_timer.duration && old(fly).snare_roll_progress < SCALE ==> {
            &&& ev == CaptureEvent::Release
            &&& final(fly).snare_roll_progress == 0
            &&& final(fly).cooking_progress == 0
            &&& final(fly).cooking_timer.elapsed == 0 && final(fly).cooking_timer.paused
            &&& final(fly).freed_timer.elapsed == 0 && final(fly).freed_timer.paused
        },
        !(old(fly).freed_timer.elapsed + dt >= old(fly).freed_timer.duration && old(fly).snare_roll_progress < SCALE) ==> ev == CaptureEvent::Stay && final(fly).snare_roll_progress == old(fly).snare_roll_progress,
        old(fly).snare_roll_progress >= SCALE ==> {
            &&& final(fly).cooking_progress == clamp_s(old(fly).cooking_progress + div_t(
                dt * SCALE, old(fly).cooking_timer.duration as int), 0, PROGRESS_CAP as int)
            &&& final(fly).cooking_progress >= old(fly).cooking_progress
            &&& final(fly).cooking_timer.duration == old(fly).cooking_timer.duration
            &&& (old(fly).cooking_timer.elapsed + dt >= old(fly).cooking_timer.duration
                ==> final(fly).cooking_timer.paused && final(fly).cooking_timer.elapsed == 0
                && final(fly).freed_timer.elapsed == 0)
        },
        old(fly).snare_roll_progress < SCALE && !(old(fly).freed_timer.elapsed + dt >= old(fly).freed_timer.duration) ==> final(fly).cooking_progress == old(fly).cooking_progress,
{
    if fly.freed_timer.paused {
        fly.freed_timer.unpause();
    }
    fly.freed_timer.tick(dt);
    if fly.freed_timer.just_finished && fly.snare_roll_progress < SCALE {
        fly.cooking_timer.reset();
        fly.cooking_timer.pause();
        fly.freed_timer.pause();
        fly.freed_timer.reset();
        fly.cooking_progress = 0;
        fly.snare_roll_progress = 0;
        return CaptureEvent::Release;
    }
    if fly.snare_roll_progress >= SCALE {
        if fly.cooking_timer.paused {
            fly.cooking_timer.unpause();
            fly.freed_timer.reset();
        }
        fly.cooking_timer.tick(dt);
        proof {
            lemma_mul_bound(dt as int, SCALE as int, MAX_DT as int, SCALE as int);
            lemma_div_t_shrink(dt * SCALE, fly.cooking_timer.duration as int,
                MAX_DT as int * SCALE as int);
        }
        let inc = crate::fx::div_fx(dt * SCALE, fly.cooking_timer.duration);
        fly.cooking_progress = crate::fx::clamp_fx(fly.cooking_progress + inc, 0, PROGRESS_CAP);
        if fly.cooking_timer.just_finished {
            fly.cooking_timer.reset();
            fly.cooking_timer.pause();
            fly.freed_timer.reset();
        }
    }
    CaptureEvent::Stay
}

/// Consumes a snared creature the agent finished cooking: it leaves the
/// web entirely, leaves the agent's touching set, and the agent gains
/// [`FEAST_AMOUNT`] food.
pub fn consume_insect(web: &mut Web, spider: &mut Spider, entity: u64) -> (feast: i64)
    requires
        old(web).wf(),
        old(spider).food <= old(spider).max_food,
        -MAX_PARAM <= old(spider).food,
        0 < old(spider).max_food <= MAX_PARAM,
    ensures
        final(web).wf(),
        feast == FEAST_AMOUNT,
        final(web).particles == old(web).particles,
        final(web).springs@.len() == old(web).springs@.len(),
        forall|j: int|
            0 <= j < old(web).springs@.len() ==> #[trigger] final(web).springs@[j].ensnared_entities@ == crate::ensnare::remove_one_entity(
                old(web).springs@[j].ensnared_entities@,
                entity,
            ),
        forall|j: int, r: int|
            0 <= j < final(web).springs@.len() && 0 <= r < final(web).springs@[j].ensnared_entities@.len() ==> (#[trigger] final(web).springs@[j].ensnared_entities@[r]).entity != entity,
        !final(spider).touching_insects@.contains(entity),
        final(spider).food == if old(spider).food + FEAST_AMOUNT > old(spider).max_food {
            old(spider).max_food as int
        } else {
            old(spider).food + FEAST_AMOUNT
        },
{
    crate::ensnare::free_enemy_from_web(web, entity);
    remove_touching(spider, entity);
    spider.feast(FEAST_AMOUNT);
    FEAST_AMOUNT
}

/// Removes every occurrence of `entity` from the agent's touching set.
pub fn remove_touching(spider: &mut Spider, entity: u64)
    ensures
        !final(spider).touching_insects@.contains(entity),
        *final(spider) == (Spider {
            touching_insects: final(spider).touching_insects,
            ..*old(spider)
        }),
{
    let mut kept: Vec<u64> = Vec::new();
    let n = spider.touching_insects.len();
    let mut i: usize = 0;
    while i < n
        invariant
            i <= n,
            n == spider.touching_insects@.len(),
            *spider == *old(spider),
            forall|j: int| 0 <= j < kept@.len() ==> kept@[j] != entity,
        decreases n - i,
    {
        let id = spider.touching_insects[i];
        if id != entity {
            kept.push(id);
        }
        i += 1;
    }
    spider.touching_insects = kept;
}

/// Marks the first record for `entity` on each spring as fully rolled
/// up (cooked rather than merely touching).
pub fn mark_done_ensnaring(web: &mut Web, entity: u64)
    requires
        old(web).wf(),
    ensures
        final(web).wf(),
        final(web).particles == old(web).particles,
        final(web).mass_per_unit_length == old(web).mass_per_unit_length,
        final(web).springs@.len() == old(web).springs@.len(),
        forall|j: int|
            0 <= j < old(web).springs@.len() ==> {
                let es0 = old(web).springs@[j].ensnared_entities@;
                let es1 = #[trigger] final(web).springs@[j].ensnared_entities@;
                let k = crate::ensnare::find_entity(es0, entity, 0);
                &&& (k == es0.len() ==> es1 == es0)
                &&& (k < es0.len() ==> es1 == es0.update(k, (EnsnaredEntity {
                    done_ensnaring: true,
                    ..es0[k]
                })))
            },
        forall|j: int|
            0 <= j < old(web).springs@.len() ==> {
                let s0 = old(web).springs@[j];
                let s1 = #[trigger] final(web).springs@[j];
                s1.first_index == s0.first_index && s1.second_index == s0.second_index
                    && s1.stiffness == s0.stiffness && s1.damping == s0.damping && s1.rest_length
                    == s0.rest_length
            },
{
    let m = web.springs.len();
    let mut j: usize = 0;
    while j < m
        invariant
            j <= m,
            m == web.springs@.len(),
            web.wf(),
            web.particles == old(web).particles,
            web.mass_per_unit_length == old(web).mass_per_unit_length,
            m == old(web).springs@.len(),
            forall|q: int| j <= q < m ==> #[trigger] web.springs@[q] == old(web).springs@[q],
            forall|q: int|
                0 <= q < j ==> {
                    let es0 = old(web).springs@[q].ensnared_entities@;
                    let es1 = #[trigger] web.springs@[q].ensnared_entities@;
                    let k = crate::ensnare::find_entity(es0, entity, 0);
                    &&& (k == es0.len() ==> es1 == es0)
                    &&& (k < es0.len() ==> es1 == es0.update(k, (EnsnaredEntity {
                        done_ensnaring: true,
                        ..es0[k]
                    })))
                },
            forall|q: int|
                0 <= q < j ==> {
                    let s0 = old(web).springs@[q];
                    let s1 = #[trigger] web.springs@[q];
                    s1.first_index == s0.first_index && s1.second_index == s0.second_index
                        && s1.stiffness == s0.stiffness && s1.damping == s0.damping
                        && s1.rest_length == s0.rest_length
                },
        decreases m - j,
    {
        let found = find_record_index(&web.springs[j].ensnared_entities, entity);
        if let Some(k) = found {
            web.springs[j].ensnared_entities[k].done_ensnaring = true;
        }
        j += 1;
    }
}

/// The position of the first record for `id`, if any; mirrors
/// `find_entity`.
fn find_record_index(es: &Vec<EnsnaredEntity>, id: u64) -> (r: Option<usize>)
    ensures
        match r {
            Some(k) => k < es@.len() && crate::ensnare::find_entity(es@, id, 0) == k as int,
            None => crate::ensnare::find_entity(es@, id, 0) == es@.len(),
        },
{
    let count = es.len();
    let mut i: usize = 0;
    while i < count
        invariant
            i <= count,
            count == es@.len(),
            crate::ensnare::find_entity(es@, id, 0) == crate::ensnare::find_entity(es@, id,
                i as int),
        decreases count - i,
    {
        if es[i].entity == id {
            return Some(i);
        }
        i += 1;
    }
    None
}

} // verus!
