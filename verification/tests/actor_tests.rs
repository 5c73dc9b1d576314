use platformer::animation::Animation;
use platformer::input::{Button, ButtonSet, ButtonState};
use platformer::lift::Lift;
use platformer::player::Player;
use platformer::timer::Duration;
use platformer::vector::{ceil_div, clamp, floor_div, Vector, TILE};
use platformer::water::Water;

fn held(button: Button) -> ButtonState {
    ButtonState {
        current: ButtonSet::new().with(button),
        pushed: ButtonSet::new(),
        released: ButtonSet::new(),
    }
}

#[test]
fn gravity_accelerates_and_carries_the_player() {
    let mut player = Player::new(Vector::new(0, 0));
    player.update(Duration::from_millis(100));
    assert_eq!(player.velocity.y, 2000);
    assert_eq!(player.position, Vector::new(0, 200));
}

#[test]
fn held_direction_sets_horizontal_speed() {
    let mut player = Player::new(Vector::new(0, 0));
    player.handle_input(held(Button::Right));
    assert_eq!(player.velocity.x, 5 * TILE);
    player.handle_input(held(Button::Left));
    assert_eq!(player.velocity.x, -5 * TILE);
    player.handle_input(held(Button::B));
    assert_eq!(player.velocity.x, 0);
}

#[test]
fn jump_needs_the_ground() {
    let mut player = Player::new(Vector::new(0, 0));
    let jump = ButtonState {
        current: ButtonSet::new(),
        pushed: ButtonSet::new().with(Button::A),
        released: ButtonSet::new(),
    };
    player.handle_input(jump);
    assert_eq!(player.velocity.y, 0);
    player.on_floor_hit();
    assert!(player.is_on_ground);
    player.handle_input(jump);
    assert_eq!(player.velocity.y, -10 * TILE);
    assert!(!player.is_on_ground);
}

#[test]
fn floor_hit_stops_a_falling_player() {
    let mut player = Player::new(Vector::new(0, 0));
    player.velocity.y = 1000;
    player.on_floor_hit();
    assert_eq!(player.velocity.y, 0);
    assert!(player.is_on_ground);
    // A player already moving up passes a floor edge untouched.
    let mut rising = Player::new(Vector::new(0, 0));
    rising.velocity.y = -1000;
    rising.on_floor_hit();
    assert_eq!(rising.velocity.y, -1000);
    assert!(!rising.is_on_ground);
}

#[test]
fn roof_hit_stops_a_rising_player() {
    let mut player = Player::new(Vector::new(0, 0));
    player.velocity.y = -1000;
    player.on_roof_hit();
    assert_eq!(player.velocity.y, 0);
    let mut falling = Player::new(Vector::new(0, 0));
    falling.velocity.y = 1000;
    falling.on_roof_hit();
    assert_eq!(falling.velocity.y, 1000);
}

#[test]
fn player_collision_box_surrounds_the_feet() {
    let player = Player::new(Vector::new(1000, 2000));
    let b = player.collision_box();
    assert_eq!((b.x.min, b.x.max), (700, 1300));
    assert_eq!((b.y.min, b.y.max), (1400, 2000));
}

#[test]
fn running_on_the_ground_animates() {
    let mut player = Player::new(Vector::new(0, 0));
    player.on_floor_hit();
    player.handle_input(held(Button::Right));
    player.update(Duration::from_millis(100));
    let first = player.run_animation.expect("running player has an animation");
    assert_eq!(first.current_frame, 0);
    player.update(Duration::from_millis(100));
    let second = player.run_animation.unwrap();
    assert_eq!(second.current_frame, 1);
    player.handle_input(held(Button::B));
    player.update(Duration::from_millis(100));
    assert!(player.run_animation.is_none());
}

#[test]
fn animation_loops_over_its_frames() {
    let mut animation = Animation::new(4, Duration::from_millis(100));
    assert_eq!(animation.current_frame, 0);
    animation.update(Duration::from_millis(50));
    assert_eq!(animation.current_frame, 0);
    animation.update(Duration::from_millis(50));
    assert_eq!(animation.current_frame, 1);
    animation.update(Duration::from_millis(250));
    assert_eq!(animation.current_frame, 2);
    animation.update(Duration::from_millis(50));
    assert_eq!(animation.current_frame, 3);
    animation.update(Duration::from_millis(100));
    assert_eq!(animation.current_frame, 0);
}

#[test]
fn water_rises_over_time() {
    let mut water = Water::new();
    assert_eq!(water.vertical_position(), 15 * TILE);
    water.update(Duration::from_millis(500));
    assert_eq!(water.vertical_position(), 15 * TILE - 80);
    water.update(Duration::from_millis(500));
    assert_eq!(water.vertical_position(), 15 * TILE - 160);
}

#[test]
fn keyed_lift_starts_one_tile_below_its_top() {
    let lift = Lift::new(Vector::new(0, 8 * TILE), Some(Vector::new(2 * TILE, 2 * TILE)), 3 * TILE);
    assert_eq!(lift.current, 2 * TILE);
    assert!(lift.can_be_active);
    assert!(!lift.active);
    let plain = Lift::new(Vector::new(0, 8 * TILE), None, 3 * TILE);
    assert_eq!(plain.current, 0);
    assert!(!plain.can_be_active);
}

#[test]
fn lift_activates_only_without_its_key() {
    let mut lift =
        Lift::new(Vector::new(0, 8 * TILE), Some(Vector::new(2 * TILE, 2 * TILE)), 3 * TILE);
    lift.set_active(true);
    assert!(!lift.active);
    lift.key = None;
    lift.set_active(true);
    assert!(lift.active);
    lift.set_active(false);
    assert!(!lift.active);
}

#[test]
fn player_touching_the_key_collects_it() {
    let key = Vector::new(2 * TILE, 2 * TILE);
    let mut lift = Lift::new(Vector::new(0, 8 * TILE), Some(key), 3 * TILE);
    let mut far_player = Player::new(Vector::new(10 * TILE, 10 * TILE));
    lift.update(Duration::from_millis(16), 0, &mut far_player);
    assert!(lift.key.is_some());
    let mut near_player = Player::new(Vector::new(2 * TILE + 400, 2 * TILE + 700));
    lift.update(Duration::from_millis(16), 0, &mut near_player);
    assert!(lift.key.is_none());
}

#[test]
fn active_lift_rises_with_the_crank_and_carries_the_player() {
    let mut lift =
        Lift::new(Vector::new(0, 8 * TILE), Some(Vector::new(2 * TILE, 2 * TILE)), 3 * TILE);
    lift.key = None;
    lift.set_active(true);
    let mut player = Player::new(Vector::new(0, 5 * TILE));
    // A hundred degrees of crank raise the lift a full tile.
    lift.update(Duration::from_millis(16), 100_000, &mut player);
    assert_eq!(lift.current, 3 * TILE);
    assert_eq!(player.position.y, 5 * TILE - TILE);
    // The travel is clamped at the lift's height.
    lift.update(Duration::from_millis(16), 100_000, &mut player);
    assert_eq!(lift.current, 3 * TILE);
    assert_eq!(player.position.y, 5 * TILE - TILE);
}

#[test]
fn abandoned_lift_sinks_back() {
    let mut lift =
        Lift::new(Vector::new(0, 8 * TILE), Some(Vector::new(2 * TILE, 2 * TILE)), 3 * TILE);
    lift.key = None;
    let mut player = Player::new(Vector::new(10 * TILE, 10 * TILE));
    lift.update(Duration::from_millis(500), 0, &mut player);
    assert_eq!(lift.current, 2 * TILE - 800);
    lift.update(Duration::from_millis(2000), 0, &mut player);
    assert_eq!(lift.current, 0);
}

#[test]
fn lift_boxes_follow_the_platform() {
    let lift = Lift::new(Vector::new(4 * TILE, 8 * TILE), None, 2 * TILE);
    let solid = lift.collision_box();
    assert_eq!((solid.x.min, solid.x.max), (4 * TILE - 1200, 4 * TILE + 1200));
    assert_eq!((solid.y.min, solid.y.max), (8 * TILE - 800, 8 * TILE + 400));
    let riding = lift.interaction_box();
    assert_eq!((riding.y.min, riding.y.max), (8 * TILE - 1600, 8 * TILE - 800));
}

#[test]
fn vector_arithmetic_helpers() {
    assert_eq!(Vector::new(3, 4).add(Vector::new(10, -2)), Vector::new(13, 2));
    assert_eq!(Vector::new(3, 4).dot(Vector::new(2, 5)), 26);
    assert_eq!(Vector::new(3, 4).magnitude_squared(), 25);
    assert_eq!(clamp(7, 0, 5), 5);
    assert_eq!(clamp(-7, 0, 5), 0);
    assert_eq!(clamp(3, 0, 5), 3);
    assert_eq!(floor_div(7, 2), 3);
    assert_eq!(floor_div(-7, 2), -4);
    assert_eq!(floor_div(-8, 2), -4);
    assert_eq!(ceil_div(7, 2), 4);
    assert_eq!(ceil_div(-7, 2), -3);
    assert_eq!(ceil_div(8, 2), 4);
}
