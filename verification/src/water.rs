//! The water level that rises steadily over the course of a level.

use vstd::prelude::*;

use crate::timer::{Duration, MAX_TICK_MILLIS};
use crate::vector::{clamp, clamp_spec, POS_LIMIT, TILE};

verus! {

/// How fast the water rises: a fifth of a tile per second.
pub const RAISE_SPEED: i64 = 160;

/// The bottom edge of the screen in world units: 240 pixels of
/// 16-pixel tiles, fifteen tiles down from the world origin.
pub const SCREEN_BOTTOM: i64 = 15 * TILE;

/// The rising water. Its `level` counts how far the surface has climbed
/// from the bottom of the screen.
#[derive(Clone, Copy, Debug)]
pub struct Water {
    level: i64,
}

impl Water {
    /// How far the water has risen from the bottom of the screen, in units.
    pub closed spec fn spec_level(self) -> i64 {
        self.level
    }

    pub open spec fn wf(self) -> bool {
        0 <= self.spec_level() <= POS_LIMIT
    }

    /// Water at its starting level, the bottom of the screen.
    pub fn new() -> (r: Self)
        ensures
            r.spec_level() == 0,
            r.wf(),
    {
        Water { level: 0 }
    }

    /// Raises the water for one tick: a fifth of a tile per elapsed
    /// second, capped at the position bound.
    pub fn update(&mut self, delta_time: Duration)
        requires
            old(self).wf(),
            delta_time.millis <= MAX_TICK_MILLIS,
        ensures
            final(self).wf(),
            final(self).spec_level() == clamp_spec(
                old(self).spec_level() + RAISE_SPEED * delta_time.millis / 1000,
                0,
                POS_LIMIT as int,
            ),
    {
        let rise = RAISE_SPEED * (delta_time.millis as i64) / 1000;
        self.level = clamp(self.level + rise, 0, POS_LIMIT);
    }

    /// The y coordinate of the water surface: `level` units above the
    /// bottom of the screen (y grows downward).
    pub fn vertical_position(&self) -> (r: i64)
        requires
            self.wf(),
        ensures
            r == SCREEN_BOTTOM - self.spec_level(),
    {
        SCREEN_BOTTOM - self.level
    }
}

} // verus!
