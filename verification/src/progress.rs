//! The cooking progress exposed to the progress-bar collaborator.

use crate::insect::FlyingInsect;
use vstd::prelude::*;

verus! {

/// The cooking progress of one snared creature, as shown over its head.
#[derive(Clone, Copy, Debug)]
pub struct CookingInsect {
    /// Progress in fixed-point units, `SCALE` when fully cooked.
    pub progress: i64,
}

impl CookingInsect {
    /// The bar's fill value.
    pub fn value(&self) -> (r: i64)
        ensures
            r == self.progress,
    {
        self.progress
    }
}

/// Copies a creature's cooking progress onto its bar.
pub fn update_cooking_insect(cook: &mut CookingInsect, fly: &FlyingInsect)
    ensures
        final(cook).progress == fly.cooking_progress,
{
    cook.progress = fly.cooking_progress;
}

} // verus!
