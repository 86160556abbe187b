//! The agent's health readout: the on-screen bar and the death state.

use crate::agent::Spider;
use crate::fx::{clamp_s, div_t, lemma_mul_bound, MAX_DT, MAX_PARAM, SCALE};
use vstd::prelude::*;

verus! {

/// The on-screen food bar.
#[derive(Clone, Copy, Debug)]
pub struct HealthBar {
    /// Fill width as a percentage, `0..=100`.
    pub width_percent: i64,
}

/// Whether the agent has starved, and how far the farewell camera ride
/// has come.
#[derive(Clone, Copy, Debug)]
pub struct IsDead {
    /// The agent has run out of food.
    pub is_dead: bool,
    /// Progress of the death camera move, `0..=SCALE`.
    pub death_camera_progress: i64,
}

/// The health subsystem: the bar and the death state it drives.
pub struct HealthPlugin {
    /// The food bar.
    pub bar: HealthBar,
    /// The death state.
    pub dead: IsDead,
}

/// The bar width for a food level: the food share of the maximum as a
/// percentage, clamped to the bar.
pub open spec fn bar_width(food: int, max_food: int) -> int {
    clamp_s(div_t(food * 100, max_food), 0, 100)
}

impl HealthPlugin {
    /// A fresh health readout: full bar, alive.
    pub fn new() -> (h: HealthPlugin)
        ensures
            h.bar.width_percent == 100,
            !h.dead.is_dead,
            h.dead.death_camera_progress == 0,
    {
        HealthPlugin {
            bar: HealthBar { width_percent: 100 },
            dead: IsDead { is_dead: false, death_camera_progress: 0 },
        }
    }

    /// One health tick: the agent burns food, the bar tracks the food
    /// share of the maximum, and running dry flips the death state (it
    /// never flips back).
    pub fn tick(&mut self, spider: &mut Spider, dt: i64)
        requires
            0 <= dt <= MAX_DT,
            old(spider).food <= old(spider).max_food,
            -MAX_PARAM <= old(spider).food,
            0 < old(spider).max_food <= MAX_PARAM,
        ensures
            final(spider).food == old(spider).food - div_t(250 * dt, SCALE as int),
            final(self).bar.width_percent == bar_width(final(spider).food as int, final(spider).max_food as int),
            final(self).dead.is_dead == (old(self).dead.is_dead || final(spider).food <= 0),
            final(self).dead.death_camera_progress == old(self).dead.death_camera_progress,
            *final(spider) == (Spider { food: final(spider).food, ..*old(spider) }),
    {
        let starved = spider.starve(dt);
        proof {
            lemma_mul_bound(spider.food as int, 100, MAX_PARAM as int + 500 * MAX_DT as int,
                100);
        }
        self.bar.width_percent = crate::fx::clamp_fx(
            crate::fx::div_fx(spider.food * 100, spider.max_food),
            0,
            100,
        );
        if starved {
            self.dead.is_dead = true;
        }
    }
}

} // verus!
