//! The player: input handling, velocity integration, and the collision
//! box and contact callbacks the resolution loop works with.

use vstd::prelude::*;

use crate::animation::Animation;
use crate::collision::{Aabb, Range};
use crate::input::{Button, ButtonState};
use crate::timer::{Duration, MAX_TICK_MILLIS};
use crate::vector::{clamp, clamp_spec, floor_div, Vector, COORD_LIMIT, POS_LIMIT, TILE};

verus! {

/// Horizontal running speed, in units per second.
pub const RUN_SPEED: i64 = 5 * TILE;

/// Upward speed granted by a jump, in units per second.
pub const JUMP_VELOCITY: i64 = 10 * TILE;

/// Downward acceleration, in units per second per second.
pub const GRAVITY: i64 = 25 * TILE;

/// Largest velocity magnitude a component may reach, in units per second.
pub const SPEED_LIMIT: i64 = COORD_LIMIT;

/// Left edge of the collision box relative to the player position:
/// 6 pixels of a 16-pixel tile, three eighths of [`TILE`].
pub const BOX_LEFT: i64 = -300;

/// Right edge of the collision box relative to the player position.
pub const BOX_RIGHT: i64 = 300;

/// Top edge of the collision box relative to the player position:
/// 12 pixels of a 16-pixel tile, three quarters of [`TILE`].
pub const BOX_TOP: i64 = -600;

/// Bottom edge of the collision box relative to the player position: the
/// position is the player's feet.
pub const BOX_BOTTOM: i64 = 0;

/// Number of frames in the running animation.
pub const RUN_ANIMATION_LEN: usize = 4;

/// How long each frame of the running animation shows, at ten frames a
/// second.
pub const RUN_FRAME_MILLIS: u64 = 100;

/// The horizontal speed asked for by the held direction buttons.
pub open spec fn horizontal_speed_spec(buttons: ButtonState) -> i64 {
    if buttons.current.contains_spec(Button::Right) {
        RUN_SPEED
    } else if buttons.current.contains_spec(Button::Left) {
        (-RUN_SPEED) as i64
    } else {
        0
    }
}

/// The horizontal speed asked for by the held direction buttons: run
/// right, run left, or stand.
pub fn horizontal_speed_input(buttons: ButtonState) -> (r: i64)
    ensures
        r == horizontal_speed_spec(buttons),
{
    if buttons.is_pressed(Button::Right) {
        RUN_SPEED
    } else if buttons.is_pressed(Button::Left) {
        -RUN_SPEED
    } else {
        0
    }
}

/// The player's simulation state.
#[derive(Debug)]
pub struct Player {
    /// The position of the player's feet, in world units.
    pub position: Vector,
    /// Current velocity, in units per second.
    pub velocity: Vector,
    /// Whether the last vertical resolution pushed the player up onto a
    /// floor.
    pub is_on_ground: bool,
    /// The running animation, present only while running on the ground.
    pub run_animation: Option<Animation>,
}

impl Player {
    pub open spec fn wf(self) -> bool {
        &&& -POS_LIMIT <= self.position.x <= POS_LIMIT
        &&& -POS_LIMIT <= self.position.y <= POS_LIMIT
        &&& -SPEED_LIMIT <= self.velocity.x <= SPEED_LIMIT
        &&& -SPEED_LIMIT <= self.velocity.y <= SPEED_LIMIT
        &&& (self.run_animation matches Some(a) ==> a.wf() && a.spec_len() == RUN_ANIMATION_LEN
            && a.spec_timer().spec_total() == RUN_FRAME_MILLIS)
    }

    /// The player [`Player::handle_input`] leaves behind: a just-pressed
    /// jump launches a grounded player, and the held direction buttons
    /// set the horizontal speed.
    pub open spec fn spec_after_input(self, buttons: ButtonState) -> Player {
        let jumped = buttons.pushed.contains_spec(Button::A) && self.is_on_ground;
        Player {
            velocity: Vector {
                x: horizontal_speed_spec(buttons),
                y: if jumped {
                    (-JUMP_VELOCITY) as i64
                } else {
                    self.velocity.y
                },
            },
            is_on_ground: if jumped {
                false
            } else {
                self.is_on_ground
            },
            ..self
        }
    }

    /// The player [`Player::update`] leaves behind: the running animation
    /// kept in step with the old motion, gravity applied to the vertical
    /// speed, and the new velocity carried into the position, clamped to
    /// the world bounds.
    pub open spec fn spec_updated(self, dt: u64) -> Player {
        let running = self.is_on_ground && self.velocity.x != 0;
        let run_animation = if running {
            match self.run_animation {
                Some(a) => Some(a.spec_updated(dt)),
                None => Some(
                    Animation::spec_new(RUN_ANIMATION_LEN, Duration { millis: RUN_FRAME_MILLIS }),
                ),
            }
        } else {
            None
        };
        let vy = clamp_spec(
            self.velocity.y + GRAVITY * dt / 1000,
            -SPEED_LIMIT as int,
            SPEED_LIMIT as int,
        ) as i64;
        Player {
            position: Vector {
                x: clamp_spec(
                    self.position.x + self.velocity.x * dt / 1000,
                    -POS_LIMIT as int,
                    POS_LIMIT as int,
                ) as i64,
                y: clamp_spec(self.position.y + vy * dt / 1000, -POS_LIMIT as int, POS_LIMIT as int) as i64,
            },
            velocity: Vector { x: self.velocity.x, y: vy },
            is_on_ground: self.is_on_ground,
            run_animation,
        }
    }

    /// The player's collision box: a fixed rectangle around the position.
    pub open spec fn collision_box_spec(self) -> Aabb {
        Aabb {
            x: Range {
                min: (self.position.x + BOX_LEFT) as i64,
                max: (self.position.x + BOX_RIGHT) as i64,
            },
            y: Range {
                min: (self.position.y + BOX_TOP) as i64,
                max: (self.position.y + BOX_BOTTOM) as i64,
            },
        }
    }

    /// A player standing still at `position`, airborne until a floor
    /// contact grounds it.
    pub fn new(position: Vector) -> (r: Self)
        requires
            -POS_LIMIT <= position.x <= POS_LIMIT,
            -POS_LIMIT <= position.y <= POS_LIMIT,
        ensures
            r.position == position,
            r.velocity == (Vector { x: 0, y: 0 }),
            !r.is_on_ground,
            r.run_animation is None,
            r.wf(),
    {
        Player {
            position,
            is_on_ground: false,
            velocity: Vector { x: 0, y: 0 },
            run_animation: None,
        }
    }

    /// Applies one frame of input: a just-pressed jump launches the player
    /// off the ground, and the held direction buttons set the horizontal
    /// speed.
    pub fn handle_input(&mut self, buttons: ButtonState)
        requires
            old(self).wf(),
        ensures
            *final(self) == old(self).spec_after_input(buttons),
            final(self).wf(),
            final(self).position == old(self).position,
            final(self).run_animation == old(self).run_animation,
            final(self).velocity.x == horizontal_speed_spec(buttons),
            if buttons.pushed.contains_spec(Button::A) && old(self).is_on_ground {
                final(self).velocity.y == -JUMP_VELOCITY && !final(self).is_on_ground
            } else {
                final(self).velocity.y == old(self).velocity.y && final(self).is_on_ground == old(
                    self,
                ).is_on_ground
            },
    {
        let jump = buttons.is_just_pressed(Button::A);
        if jump && self.is_on_ground {
            self.velocity.y = -JUMP_VELOCITY;
            self.is_on_ground = false;
        }
        self.velocity.x = horizontal_speed_input(buttons);
    }

    /// Advances velocity and position by one tick: gravity accelerates
    /// the player, then the velocity carries the position, both clamped
    /// to the world bounds.
    pub fn update(&mut self, delta_time: Duration)
        requires
            old(self).wf(),
            delta_time.millis <= MAX_TICK_MILLIS,
        ensures
            *final(self) == old(self).spec_updated(delta_time.millis),
            final(self).wf(),
            final(self).is_on_ground == old(self).is_on_ground,
            final(self).velocity.x == old(self).velocity.x,
            final(self).velocity.y == clamp_spec(
                old(self).velocity.y + GRAVITY * delta_time.millis / 1000,
                -SPEED_LIMIT as int,
                SPEED_LIMIT as int,
            ),
            final(self).position.x == clamp_spec(
                old(self).position.x + old(self).velocity.x * delta_time.millis / 1000,
                -POS_LIMIT as int,
                POS_LIMIT as int,
            ),
            final(self).position.y == clamp_spec(
                old(self).position.y + final(self).velocity.y * delta_time.millis / 1000,
                -POS_LIMIT as int,
                POS_LIMIT as int,
            ),
            (old(self).is_on_ground && old(self).velocity.x != 0)
                <==> final(self).run_animation is Some,
            (old(self).is_on_ground && old(self).velocity.x != 0 && old(
                self,
            ).run_animation is None) ==> (final(self).run_animation matches Some(b)
                && b.spec_current_frame() == 0),
            (match (old(self).run_animation, final(self).run_animation) {
                (Some(a), Some(b)) => b.spec_current_frame() == a.spec_current_frame()
                    || b.spec_current_frame() == (a.spec_current_frame() + 1) % (
                a.spec_len() as int),
                _ => true,
            }),
    {
        self.update_animation(delta_time);
        let dt = delta_time.millis as i64;
        self.velocity.y = clamp(
            self.velocity.y + GRAVITY * dt / 1000,
            -SPEED_LIMIT,
            SPEED_LIMIT,
        );
        self.position.x = clamp(
            self.position.x + scaled(self.velocity.x, dt),
            -POS_LIMIT,
            POS_LIMIT,
        );
        self.position.y = clamp(
            self.position.y + scaled(self.velocity.y, dt),
            -POS_LIMIT,
            POS_LIMIT,
        );
    }

    /// Translates the player, clamped to the world bounds; the resolution
    /// loop moves the player by penetration vectors through this.
    pub fn move_by(&mut self, delta: Vector)
        requires
            old(self).wf(),
            -4 * COORD_LIMIT <= delta.x <= 4 * COORD_LIMIT,
            -4 * COORD_LIMIT <= delta.y <= 4 * COORD_LIMIT,
        ensures
            final(self).wf(),
            final(self).position.x == clamp_spec(
                old(self).position.x + delta.x,
                -POS_LIMIT as int,
                POS_LIMIT as int,
            ),
            final(self).position.y == clamp_spec(
                old(self).position.y + delta.y,
                -POS_LIMIT as int,
                POS_LIMIT as int,
            ),
            final(self).velocity == old(self).velocity,
            final(self).is_on_ground == old(self).is_on_ground,
            final(self).run_animation == old(self).run_animation,
    {
        self.position.x = clamp(self.position.x + delta.x, -POS_LIMIT, POS_LIMIT);
        self.position.y = clamp(self.position.y + delta.y, -POS_LIMIT, POS_LIMIT);
    }

    /// Registers a floor contact: a player moving down (or resting) stops
    /// falling and becomes grounded.
    pub fn on_floor_hit(&mut self)
        requires
            old(self).wf(),
        ensures
            final(self).wf(),
            final(self).position == old(self).position,
            final(self).velocity.x == old(self).velocity.x,
            final(self).run_animation == old(self).run_animation,
            if old(self).velocity.y >= 0 {
                final(self).velocity.y == 0 && final(self).is_on_ground
            } else {
                final(self).velocity.y == old(self).velocity.y && final(self).is_on_ground == old(
                    self,
                ).is_on_ground
            },
    {
        if self.velocity.y >= 0 {
            self.velocity.y = 0;
            self.is_on_ground = true;
        }
    }

    /// Registers a ceiling contact: a player moving up stops rising.
    pub fn on_roof_hit(&mut self)
        requires
            old(self).wf(),
        ensures
            final(self).wf(),
            final(self).position == old(self).position,
            final(self).velocity.x == old(self).velocity.x,
            final(self).is_on_ground == old(self).is_on_ground,
            final(self).run_animation == old(self).run_animation,
            final(self).velocity.y == if old(self).velocity.y < 0 {
                0
            } else {
                old(self).velocity.y
            },
    {
        if self.velocity.y < 0 {
            self.velocity.y = 0;
        }
    }

    /// The player's collision box at its current position.
    pub fn collision_box(&self) -> (r: Aabb)
        requires
            self.wf(),
        ensures
            r == self.collision_box_spec(),
            r.wf(),
    {
        Aabb::from_min_max(
            Vector { x: self.position.x + BOX_LEFT, y: self.position.y + BOX_TOP },
            Vector { x: self.position.x + BOX_RIGHT, y: self.position.y + BOX_BOTTOM },
        )
    }

    /// Keeps the running animation in step with the player's motion:
    /// running starts or advances it, anything else drops it.
    fn update_animation(&mut self, delta_time: Duration)
        requires
            old(self).wf(),
            delta_time.millis <= MAX_TICK_MILLIS,
        ensures
            final(self).run_animation == old(self).spec_updated(
                delta_time.millis,
            ).run_animation,
            final(self).wf(),
            final(self).position == old(self).position,
            final(self).velocity == old(self).velocity,
            final(self).is_on_ground == old(self).is_on_ground,
            (old(self).is_on_ground && old(self).velocity.x != 0)
                <==> final(self).run_animation is Some,
            (old(self).is_on_ground && old(self).velocity.x != 0 && old(
                self,
            ).run_animation is None) ==> (final(self).run_animation matches Some(b)
                && b.spec_current_frame() == 0),
            (match (old(self).run_animation, final(self).run_animation) {
                (Some(a), Some(b)) => b.spec_current_frame() == a.spec_current_frame()
                    || b.spec_current_frame() == (a.spec_current_frame() + 1) % (
                a.spec_len() as int),
                _ => true,
            }),
    {
        let is_running = self.is_on_ground && self.velocity.x != 0;
        if is_running {
            match &mut self.run_animation {
                Some(animation) => {
                    animation.update(delta_time);
                },
                None => {
                    self.run_animation = Some(
                        Animation::new(RUN_ANIMATION_LEN, Duration::from_millis(RUN_FRAME_MILLIS)),
                    );
                },
            }
        } else {
            self.run_animation = None;
        }
    }
}

/// `value` units per second carried over `dt` milliseconds, rounded
/// toward negative infinity.
fn scaled(value: i64, dt: i64) -> (r: i64)
    requires
        -SPEED_LIMIT <= value <= SPEED_LIMIT,
        0 <= dt <= MAX_TICK_MILLIS,
    ensures
        r == value * dt / 1000,
        -SPEED_LIMIT * MAX_TICK_MILLIS <= r <= SPEED_LIMIT * MAX_TICK_MILLIS,
{
    proof {
        assert(-SPEED_LIMIT * MAX_TICK_MILLIS <= value * dt <= SPEED_LIMIT * MAX_TICK_MILLIS)
            by (nonlinear_arith)
            requires
                -SPEED_LIMIT <= value <= SPEED_LIMIT,
                0 <= dt <= MAX_TICK_MILLIS,
        ;
    }
    floor_div(value * dt, 1000)
}

} // verus!
