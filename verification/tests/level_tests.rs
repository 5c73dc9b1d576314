use platformer::input::{Button, ButtonSet, ButtonState};
use platformer::level::{load_grid, Definition, Level};
use platformer::timer::Duration;
use platformer::vector::{Vector, TILE};

fn no_buttons() -> ButtonState {
    ButtonState { current: ButtonSet::new(), pushed: ButtonSet::new(), released: ButtonSet::new() }
}

fn level_from_csv(raw: &[u8], width: usize, height: usize, start: Vector) -> Level {
    let definition =
        Definition { player_start: start, grid: load_grid(raw, width, height), lifts: Vec::new() };
    Level::from_definition(definition)
}

#[test]
fn resolution_settles_player_on_floor() {
    // A floor row at tile y = 2; the player's feet are sunk 80 units in.
    let mut level =
        level_from_csv(b"0,0,0,0,0,0,1,1,1", 3, 3, Vector::new(3 * TILE / 2, 2 * TILE - 100));
    level.player.position = Vector::new(3 * TILE / 2, 2 * TILE + 80);
    let converged = level.resolve_collisions();
    assert!(converged);
    assert_eq!(level.player.position, Vector::new(3 * TILE / 2, 2 * TILE));
    assert!(level.player.is_on_ground);
    assert_eq!(level.collides_against_terrain(), None);
}

#[test]
fn resolution_gives_up_after_ten_steps_without_panicking() {
    // A player buried deep inside a large solid block cannot be pushed
    // clear within the iteration budget.
    let raw = "1,".repeat(21 * 21);
    let mut level = level_from_csv(raw.as_bytes(), 21, 21, Vector::new(8400, 8400));
    let converged = level.resolve_collisions();
    assert!(!converged);
    // A bounded residual overlap is tolerated.
    assert!(level.collides_against_terrain().is_some());
}

#[test]
fn update_advances_water_without_hazard() {
    let mut level = level_from_csv(b"0,0,0,0", 2, 2, Vector::new(TILE / 2, TILE / 2));
    let outcome = level.update(Duration::from_millis(100), no_buttons(), 0);
    assert!(!outcome.respawned);
    assert_eq!(level.water.vertical_position(), 15 * TILE - 16);
    assert_eq!(level.player.velocity.y, 2000);
}

#[test]
fn update_respawns_player_drowned_below_water_line() {
    let mut level = level_from_csv(b"0,0,0,0", 2, 2, Vector::new(TILE / 2, TILE / 2));
    level.player.position = Vector::new(TILE / 2, 16 * TILE);
    let outcome = level.update(Duration::from_millis(1), no_buttons(), 0);
    assert!(outcome.respawned);
    assert_eq!(level.player.position, Vector::new(TILE / 2, TILE / 2));
    assert_eq!(level.player.velocity, Vector::new(0, 0));
    assert_eq!(level.water.vertical_position(), 15 * TILE);
}

#[test]
fn hazard_cell_touches_only_inside_its_inset_box() {
    let level = level_from_csv(b"2", 1, 1, Vector::new(TILE / 2, TILE / 2));
    assert!(level.collides_against_hazard());
    let mut clear = level_from_csv(b"2", 1, 1, Vector::new(TILE / 2, TILE / 2));
    // Standing just past the inset box: feet above its top edge.
    clear.player.position = Vector::new(TILE / 2, 80);
    assert!(!clear.collides_against_hazard());
}

#[test]
fn jump_input_launches_a_grounded_player() {
    let mut level =
        level_from_csv(b"0,0,0,0,0,0,1,1,1", 3, 3, Vector::new(3 * TILE / 2, 2 * TILE + 80));
    let settled = level.resolve_collisions();
    assert!(settled && level.player.is_on_ground);
    let buttons = ButtonState {
        current: ButtonSet::new(),
        pushed: ButtonSet::new().with(Button::A),
        released: ButtonSet::new(),
    };
    level.update(Duration::from_millis(1), buttons, 0);
    assert!(!level.player.is_on_ground);
    assert!(level.player.velocity.y < 0);
}
