//! Flying obstacles (thrown rocks): parabolic flight and the spawn
//! cadence.

use crate::fx::{div_t, lemma_div_t_shrink, lemma_mul_bound, MAX_COORD, MAX_DT, MAX_PARAM, SCALE};
use crate::insect::{timer_wf, TimerFx};
use crate::vec3::{V3, Vec3Fx};
use vstd::prelude::*;

verus! {

/// Upper bound on an obstacle's flight clock.
pub const MAX_FLIGHT_TIME: i64 = 1_000_000;

/// Ballistic state of a thrown obstacle.
#[derive(Clone, Copy, Debug)]
pub struct ParabolicMotion {
    /// Where it was thrown from.
    pub start_pos: Vec3Fx,
    /// Its initial velocity.
    pub velocity: Vec3Fx,
    /// The gravity pulling it down (only the vertical component acts).
    pub gravity: Vec3Fx,
    /// Time since the throw.
    pub time: i64,
}

/// A thrown obstacle: ballistic motion, a lifespan, and a tumble.
#[derive(Clone, Copy, Debug)]
pub struct FlyingObstacle {
    /// The ballistic state.
    pub motion: ParabolicMotion,
    /// How long it flies before despawning.
    pub despawn_duration: i64,
    /// Tumble rates around the three axes.
    pub spin: Vec3Fx,
}

/// Well-formed motion: bounded throw parameters and clock.
pub open spec fn motion_wf(m: ParabolicMotion) -> bool {
    &&& m.start_pos.bounded(MAX_COORD as int)
    &&& m.velocity.bounded(MAX_PARAM as int)
    &&& m.gravity.bounded(MAX_PARAM as int)
    &&& 0 <= m.time <= MAX_FLIGHT_TIME
}

/// Where a ballistic obstacle sits at its current clock: start plus
/// velocity times time, plus half gravity times time squared on the
/// vertical axis.
pub open spec fn motion_position_v(m: ParabolicMotion) -> V3 {
    let t = m.time as int;
    V3 {
        x: m.start_pos@.x + div_t(m.velocity@.x * t, SCALE as int),
        y: m.start_pos@.y + div_t(m.velocity@.y * t, SCALE as int) + div_t(
            div_t(m.gravity@.y * t, SCALE as int) * t,
            2 * SCALE as int,
        ),
        z: m.start_pos@.z + div_t(m.velocity@.z * t, SCALE as int),
    }
}

impl FlyingObstacle {
    /// A fresh obstacle thrown from `start_pos`.
    pub fn new(
        start_pos: Vec3Fx,
        velocity: Vec3Fx,
        gravity: Vec3Fx,
        spin: Vec3Fx,
        lifespan: i64,
    ) -> (o: FlyingObstacle)
        requires
            start_pos.bounded(MAX_COORD as int),
            velocity.bounded(MAX_PARAM as int),
            gravity.bounded(MAX_PARAM as int),
            0 <= lifespan <= MAX_FLIGHT_TIME,
        ensures
            o.motion.start_pos == start_pos,
            o.motion.velocity == velocity,
            o.motion.gravity == gravity,
            o.motion.time == 0,
            o.despawn_duration == lifespan,
            o.spin == spin,
            motion_wf(o.motion),
    {
        FlyingObstacle {
            motion: ParabolicMotion { start_pos, velocity, gravity, time: 0 },
            despawn_duration: lifespan,
            spin,
        }
    }

    /// Advances the flight clock at a third of real time and reports the
    /// obstacle's new position, and whether its lifespan ran out.
    pub fn tick(&mut self, dt: i64) -> (r: (Vec3Fx, bool))
        requires
            motion_wf(old(self).motion),
            0 <= dt <= MAX_DT,
            old(self).motion.time + dt <= MAX_FLIGHT_TIME,
        ensures
            motion_wf(final(self).motion),
            final(self).motion.time == old(self).motion.time + div_t(dt * 33_333, 100_000),
            final(self).motion.start_pos == old(self).motion.start_pos,
            final(self).motion.velocity == old(self).motion.velocity,
            final(self).motion.gravity == old(self).motion.gravity,
            final(self).despawn_duration == old(self).despawn_duration,
            final(self).spin == old(self).spin,
            r.0@ == motion_position_v(final(self).motion),
            r.1 == (final(self).motion.time > final(self).despawn_duration),
    {
        proof {
            lemma_mul_bound(dt as int, 33_333, MAX_DT as int, 33_333);
            lemma_div_t_shrink(dt * 33_333, 100_000, MAX_DT as int * 33_333);
        }
        self.motion.time = self.motion.time + crate::fx::div_fx(dt * 33_333, 100_000);
        let pos = obstacle_position(&self.motion);
        (pos, self.motion.time > self.despawn_duration)
    }
}

/// The current position of a ballistic obstacle.
pub fn obstacle_position(m: &ParabolicMotion) -> (r: Vec3Fx)
    requires
        motion_wf(*m),
    ensures
        r@ == motion_position_v(*m),
{
    proof {
        lemma_mul_bound(m.velocity@.x, m.time as int, MAX_PARAM as int, MAX_FLIGHT_TIME as int);
        lemma_mul_bound(m.velocity@.y, m.time as int, MAX_PARAM as int, MAX_FLIGHT_TIME as int);
        lemma_mul_bound(m.velocity@.z, m.time as int, MAX_PARAM as int, MAX_FLIGHT_TIME as int);
        lemma_mul_bound(m.gravity@.y, m.time as int, MAX_PARAM as int, MAX_FLIGHT_TIME as int);
        lemma_div_t_shrink(m.velocity@.x * m.time, SCALE as int, 1_000_000_000_000);
        lemma_div_t_shrink(m.velocity@.y * m.time, SCALE as int, 1_000_000_000_000);
        lemma_div_t_shrink(m.velocity@.z * m.time, SCALE as int, 1_000_000_000_000);
        lemma_div_t_shrink(m.gravity@.y * m.time, SCALE as int, 1_000_000_000_000);
        lemma_mul_bound(div_t(m.gravity@.y * m.time, SCALE as int), m.time as int,
            1_000_000_000, MAX_FLIGHT_TIME as int);
        lemma_div_t_shrink(div_t(m.gravity@.y * m.time, SCALE as int) * m.time,
            2 * SCALE as int, 1_000_000_000_000_000);
    }
    let vx = crate::fx::div_fx(m.velocity.x * m.time, SCALE);
    let vy = crate::fx::div_fx(m.velocity.y * m.time, SCALE);
    let vz = crate::fx::div_fx(m.velocity.z * m.time, SCALE);
    let gy = crate::fx::div_fx(crate::fx::div_fx(m.gravity.y * m.time, SCALE) * m.time,
        2 * SCALE);
    Vec3Fx {
        x: m.start_pos.x + vx,
        y: m.start_pos.y + vy + gy,
        z: m.start_pos.z + vz,
    }
}

/// How long until the next rock is thrown, given the time `t` since the
/// game started: the cadence tightens as the game goes on.
pub fn rock_timer_value(t: i64) -> (r: i64)
    requires
        0 <= t <= MAX_FLIGHT_TIME,
    ensures
        r == div_t(1_000_000, div_t(50 * t, SCALE as int) + SCALE as int),
        0 < r <= SCALE,
{
    proof {
        lemma_mul_bound(50, t as int, 50, MAX_FLIGHT_TIME as int);
        lemma_div_t_shrink(50 * t, SCALE as int, 50 * MAX_FLIGHT_TIME as int);
        vstd::arithmetic::div_mod::lemma_div_pos_is_pos(50 * t, SCALE as int);
        let den = div_t(50 * t, SCALE as int) + SCALE as int;
        lemma_div_t_shrink(1_000_000, den, 1_000_000);
        vstd::arithmetic::div_mod::lemma_div_is_ordered_by_denominator(1_000_000, den,
            1_000_000);
        assert(1_000_000int / 1_000_000int == 1) by (nonlinear_arith);
        vstd::arithmetic::div_mod::lemma_div_is_ordered_by_denominator(1_000_000, SCALE as int,
            den);
        assert(1_000_000int / (SCALE as int) == SCALE as int) by (nonlinear_arith);
    }
    let den = crate::fx::div_fx(50 * t, SCALE) + SCALE;
    crate::fx::div_fx(1_000_000, den)
}

/// The obstacle subsystem: the cadence timer that decides when the next
/// rock flies.
pub struct FlyingObstaclePlugin {
    /// Counts down to the next throw.
    pub spawn_timer: TimerFx,
}

impl FlyingObstaclePlugin {
    /// A fresh scheduler, set to the opening cadence.
    pub fn new() -> (o: FlyingObstaclePlugin)
        ensures
            timer_wf(o.spawn_timer),
            o.spawn_timer.duration == 1000,
            o.spawn_timer.elapsed == 0,
            !o.spawn_timer.paused,
    {
        FlyingObstaclePlugin { spawn_timer: TimerFx::new(1000) }
    }

    /// One scheduling tick: reports whether a rock should be thrown now,
    /// and on a throw rewinds the timer to the cadence for the time `t`
    /// since the game started.
    pub fn tick(&mut self, dt: i64, t: i64) -> (throw: bool)
        requires
            timer_wf(old(self).spawn_timer),
            0 <= dt <= MAX_DT,
            0 <= t <= MAX_FLIGHT_TIME,
        ensures
            timer_wf(final(self).spawn_timer),
            old(self).spawn_timer.paused ==> throw == old(self).spawn_timer.just_finished,
            !old(self).spawn_timer.paused ==> throw == (old(self).spawn_timer.elapsed + dt >= old(self).spawn_timer.duration),
            throw ==> final(self).spawn_timer.duration == div_t(1_000_000, div_t(50 * t,
                SCALE as int) + SCALE as int) && final(self).spawn_timer.elapsed == 0
                && !final(self).spawn_timer.paused,
            !throw && !old(self).spawn_timer.paused ==> final(self).spawn_timer.elapsed == old(self).spawn_timer.elapsed + dt && final(self).spawn_timer.duration == old(self).spawn_timer.duration && final(self).spawn_timer.paused == old(self).spawn_timer.paused,
            !throw && old(self).spawn_timer.paused ==> final(self).spawn_timer == old(self).spawn_timer,
    {
        self.spawn_timer.tick(dt);
        if self.spawn_timer.just_finished {
            let next = rock_timer_value(t);
            self.spawn_timer = TimerFx::new(next);
            true
        } else {
            false
        }
    }
}

} // verus!
