//! A crank-driven lift: a moving platform that rises while the player
//! cranks it and sinks back when left alone, unlocked by picking up its
//! key.

use vstd::prelude::*;

use crate::collision::{Aabb, Range};
use crate::player::Player;
use crate::timer::{Duration, MAX_TICK_MILLIS};
use crate::vector::{clamp, clamp_spec, Vector, POS_LIMIT, TILE};

verus! {

use vstd::math::abs;

/// Left edge of both lift boxes relative to the lift position: one and a
/// half tiles.
pub const LIFT_BOX_LEFT: i64 = -1200;

/// Right edge of both lift boxes relative to the lift position.
pub const LIFT_BOX_RIGHT: i64 = 1200;

/// Top edge of the collision box relative to the lift position: one tile.
pub const LIFT_BOX_TOP: i64 = -800;

/// Bottom edge of the collision box relative to the lift position: half a
/// tile.
pub const LIFT_BOX_BOTTOM: i64 = 400;

/// Top edge of the interaction box relative to the lift position: two
/// tiles.
pub const INTERACTION_BOX_TOP: i64 = -1600;

/// Bottom edge of the interaction box relative to the lift position: one
/// tile, where the collision box begins.
pub const INTERACTION_BOX_BOTTOM: i64 = -800;

/// How far the lift rises per thousandth of a degree of crank rotation,
/// as a divisor: a hundredth of a tile per degree.
pub const CRANK_UNITS_PER_MILLIDEGREE_DIVISOR: i64 = 100_000;

/// Largest crank rotation magnitude one tick accepts, in millidegrees.
pub const CRANK_LIMIT: i64 = 1_000_000_000;

/// How fast an abandoned lift sinks back, in units per second: two tiles
/// a second.
pub const FALL_SPEED: i64 = 1600;

/// How far the lift rises for a crank rotation of `crank_speed`
/// millidegrees.
pub open spec fn rise_spec(crank_speed: i64) -> int {
    abs(crank_speed as int) * (TILE as int) / (CRANK_UNITS_PER_MILLIDEGREE_DIVISOR as int)
}

/// The lift [`Lift::set_active`] leaves behind: driven this tick only if
/// it was placed with a key, the key has been collected, and the player
/// is near.
pub open spec fn lift_activated(l: Lift, near: bool) -> Lift {
    Lift { active: l.can_be_active && near && l.key is None, ..l }
}

/// The pickup box of a key lying at `k`: one full tile.
pub open spec fn key_box_spec(k: Vector) -> Aabb {
    Aabb {
        x: Range { min: k.x, max: (k.x + TILE) as i64 },
        y: Range { min: k.y, max: (k.y + TILE) as i64 },
    }
}

/// A lift: anchored at `base`, currently raised by `current` units of its
/// `height` travel, active only while the player stands by and its key
/// has been collected.
#[derive(Clone, Copy, Debug)]
pub struct Lift {
    /// The resting position of the platform.
    pub base: Vector,
    /// Whether this lift can ever be activated (it was placed with a key).
    pub can_be_active: bool,
    /// Where the lift's key lies, until the player picks it up.
    pub key: Option<Vector>,
    /// Total travel of the platform, in units.
    pub height: i64,
    /// How far the platform is currently raised, in units.
    pub current: i64,
    /// Whether the player is currently driving the lift.
    pub active: bool,
}

impl Lift {
    pub open spec fn wf(self) -> bool {
        &&& -POS_LIMIT <= self.base.x <= POS_LIMIT
        &&& self.base.y <= POS_LIMIT
        &&& -POS_LIMIT <= self.base.y - self.height
        &&& 0 <= self.height <= POS_LIMIT
        &&& 0 <= self.current <= self.height
        &&& (self.key matches Some(k) ==> -POS_LIMIT <= k.x <= POS_LIMIT && -POS_LIMIT <= k.y
            <= POS_LIMIT)
    }

    /// The platform's current position: the base, raised by `current`.
    pub open spec fn position_spec(self) -> Vector {
        Vector { x: self.base.x, y: (self.base.y - self.current) as i64 }
    }

    /// The solid box of the platform, which takes part in penetration
    /// resolution like terrain.
    pub open spec fn collision_box_spec(self) -> Aabb {
        Aabb {
            x: Range {
                min: (self.position_spec().x + LIFT_BOX_LEFT) as i64,
                max: (self.position_spec().x + LIFT_BOX_RIGHT) as i64,
            },
            y: Range {
                min: (self.position_spec().y + LIFT_BOX_TOP) as i64,
                max: (self.position_spec().y + LIFT_BOX_BOTTOM) as i64,
            },
        }
    }

    /// The box above the platform in which a standing player counts as
    /// riding the lift.
    pub open spec fn interaction_box_spec(self) -> Aabb {
        Aabb {
            x: Range {
                min: (self.position_spec().x + LIFT_BOX_LEFT) as i64,
                max: (self.position_spec().x + LIFT_BOX_RIGHT) as i64,
            },
            y: Range {
                min: (self.position_spec().y + INTERACTION_BOX_TOP) as i64,
                max: (self.position_spec().y + INTERACTION_BOX_BOTTOM) as i64,
            },
        }
    }

    /// A lift anchored at `base` with `height` units of travel.
    ///
    /// A lift placed with a key starts one tile below its top and waits
    /// for the key; one placed without a key rests at the bottom and can
    /// never be activated.
    pub fn new(base: Vector, key: Option<Vector>, height: i64) -> (r: Self)
        ensures
            r.base == base,
            r.can_be_active == (key is Some),
            r.key == key,
            r.height == height,
            !r.active,
            r.current == if key is None {
                0int
            } else if height - TILE > 0 {
                height - TILE
            } else {
                0int
            },
            (-POS_LIMIT <= base.x <= POS_LIMIT && base.y <= POS_LIMIT && -POS_LIMIT <= base.y
                - height && 0 <= height <= POS_LIMIT && (key matches Some(k) ==> -POS_LIMIT <= k.x
                <= POS_LIMIT && -POS_LIMIT <= k.y <= POS_LIMIT)) ==> r.wf(),
    {
        let current = match key {
            None => 0,
            Some(_) => {
                if height > TILE {
                    height - TILE
                } else {
                    0
                }
            },
        };
        Lift { base, can_be_active: key.is_some(), key, height, current, active: false }
    }

    /// The lift and the carried player [`Lift::update`] leave behind: an
    /// active lift rises with the crank, carrying the player; an inactive
    /// one sinks back, or waits for the player to touch its key.
    pub open spec fn spec_updated(self, delta_millis: u64, crank_speed: i64, p: Player) -> (
        Lift,
        Player,
    ) {
        if self.active {
            let current = clamp_spec(
                self.current + rise_spec(crank_speed),
                0,
                self.height as int,
            ) as i64;
            (
                Lift { current, ..self },
                Player {
                    position: Vector {
                        x: p.position.x,
                        y: clamp_spec(
                            p.position.y + (self.current - current),
                            -POS_LIMIT as int,
                            POS_LIMIT as int,
                        ) as i64,
                    },
                    ..p
                },
            )
        } else {
            match self.key {
                None => (
                    Lift {
                        current: vstd::math::max(
                            self.current - FALL_SPEED * delta_millis / 1000,
                            0,
                        ) as i64,
                        ..self
                    },
                    p,
                ),
                Some(k) => (
                    Lift {
                        key: if key_box_spec(k).collides_spec(p.collision_box_spec()) {
                            Option::<Vector>::None
                        } else {
                            Some(k)
                        },
                        ..self
                    },
                    p,
                ),
            }
        }
    }

    /// Marks the lift as driven this tick: only a lift placed with a key,
    /// whose key has been collected, can be active.
    pub fn set_active(&mut self, active: bool)
        ensures
            *final(self) == lift_activated(*old(self), active),
    {
        self.active = self.can_be_active && active && self.key.is_none();
    }

    /// Advances the lift by one tick: an active lift rises with the crank
    /// and carries the player; an inactive one sinks back, or waits for
    /// the player to touch its key.
    pub fn update(&mut self, delta_time: Duration, crank_speed: i64, player: &mut Player)
        requires
            old(self).wf(),
            old(player).wf(),
            delta_time.millis <= MAX_TICK_MILLIS,
            -CRANK_LIMIT <= crank_speed <= CRANK_LIMIT,
        ensures
            (*final(self), *final(player)) == old(self).spec_updated(
                delta_time.millis,
                crank_speed,
                *old(player),
            ),
            final(self).wf(),
            final(player).wf(),
            final(self).base == old(self).base,
            final(self).can_be_active == old(self).can_be_active,
            final(self).height == old(self).height,
            final(self).active == old(self).active,
            old(self).active ==> {
                &&& final(self).key == old(self).key
                &&& final(self).current == clamp_spec(
                    old(self).current + rise_spec(crank_speed),
                    0,
                    old(self).height as int,
                )
                &&& *final(player) == (Player {
                    position: Vector {
                        x: old(player).position.x,
                        y: clamp_spec(
                            old(player).position.y + (old(self).current - final(self).current),
                            -POS_LIMIT as int,
                            POS_LIMIT as int,
                        ) as i64,
                    },
                    ..*old(player)
                })
            },
            !old(self).active && old(self).key is None ==> {
                &&& final(self).key is None
                &&& final(self).current == vstd::math::max(
                    old(self).current - FALL_SPEED * delta_time.millis / 1000,
                    0,
                )
                &&& *final(player) == *old(player)
            },
            !old(self).active && old(self).key is Some ==> {
                &&& final(self).current == old(self).current
                &&& *final(player) == *old(player)
                &&& final(self).key == if key_box_spec(old(self).key->0).collides_spec(
                    old(player).collision_box_spec(),
                ) {
                    Option::<Vector>::None
                } else {
                    old(self).key
                }
            },
    {
        if self.active {
            self.move_up(crank_speed, player);
        } else {
            match self.key {
                None => self.move_down(delta_time),
                Some(key) => self.collide_key(player, key),
            }
        }
    }

    /// Collects the key when the player's box touches the key's tile.
    fn collide_key(&mut self, player: &mut Player, key: Vector)
        requires
            old(self).wf(),
            old(player).wf(),
            old(self).key == Some(key),
        ensures
            *final(player) == *old(player),
            *final(self) == (Lift {
                key: if key_box_spec(key).collides_spec(old(player).collision_box_spec()) {
                    Option::<Vector>::None
                } else {
                    Some(key)
                },
                ..*old(self)
            }),
    {
        let key_box = Aabb::from_min_max(
            key,
            Vector { x: key.x + TILE, y: key.y + TILE },
        );
        if key_box.collides(player.collision_box()) {
            self.key = None;
        }
    }

    /// Sinks the platform toward its resting position.
    fn move_down(&mut self, delta_time: Duration)
        requires
            old(self).wf(),
            delta_time.millis <= MAX_TICK_MILLIS,
        ensures
            final(self).wf(),
            *final(self) == (Lift {
                current: vstd::math::max(
                    old(self).current - FALL_SPEED * delta_time.millis / 1000,
                    0,
                ) as i64,
                ..*old(self)
            }),
    {
        let fall = FALL_SPEED * (delta_time.millis as i64) / 1000;
        let lowered = self.current - fall;
        self.current = if lowered > 0 {
            lowered
        } else {
            0
        };
    }

    /// Raises the platform with the crank, carrying the player along.
    fn move_up(&mut self, crank_speed: i64, player: &mut Player)
        requires
            old(self).wf(),
            old(player).wf(),
            -CRANK_LIMIT <= crank_speed <= CRANK_LIMIT,
        ensures
            final(self).wf(),
            final(player).wf(),
            *final(self) == (Lift {
                current: clamp_spec(
                    old(self).current + rise_spec(crank_speed),
                    0,
                    old(self).height as int,
                ) as i64,
                ..*old(self)
            }),
            *final(player) == (Player {
                position: Vector {
                    x: old(player).position.x,
                    y: clamp_spec(
                        old(player).position.y + (old(self).current - final(self).current),
                        -POS_LIMIT as int,
                        POS_LIMIT as int,
                    ) as i64,
                },
                ..*old(player)
            }),
    {
        let previous = self.current;
        let magnitude = if crank_speed < 0 {
            -crank_speed
        } else {
            crank_speed
        };
        let rise = magnitude * TILE / CRANK_UNITS_PER_MILLIDEGREE_DIVISOR;
        self.current = clamp(self.current + rise, 0, self.height);
        player.move_by(Vector { x: 0, y: previous - self.current });
    }

    /// The solid box of the platform at its current position.
    pub fn collision_box(&self) -> (r: Aabb)
        requires
            self.wf(),
        ensures
            r == self.collision_box_spec(),
            r.wf(),
    {
        let pos_x = self.base.x;
        let pos_y = self.base.y - self.current;
        Aabb::from_min_max(
            Vector { x: pos_x + LIFT_BOX_LEFT, y: pos_y + LIFT_BOX_TOP },
            Vector { x: pos_x + LIFT_BOX_RIGHT, y: pos_y + LIFT_BOX_BOTTOM },
        )
    }

    /// The riding box above the platform at its current position.
    pub fn interaction_box(&self) -> (r: Aabb)
        requires
            self.wf(),
        ensures
            r == self.interaction_box_spec(),
            r.wf(),
    {
        let pos_x = self.base.x;
        let pos_y = self.base.y - self.current;
        Aabb::from_min_max(
            Vector { x: pos_x + LIFT_BOX_LEFT, y: pos_y + INTERACTION_BOX_TOP },
            Vector { x: pos_x + LIFT_BOX_RIGHT, y: pos_y + INTERACTION_BOX_BOTTOM },
        )
    }
}

} // verus!
