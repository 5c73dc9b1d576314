use platformer::collision::{Aabb, Range};
use platformer::vector::{Vector, TILE};

fn aabb(min_x: i64, min_y: i64, max_x: i64, max_y: i64) -> Aabb {
    Aabb::from_min_max(Vector::new(min_x, min_y), Vector::new(max_x, max_y))
}

#[test]
fn range_should_penetrate_self() {
    let range = Range::from_min_max(0, 1);
    assert_eq!(range.penetration(range).map(i64::abs), Some(1));
}

#[test]
fn should_collide_with_self() {
    let shape = aabb(0, 0, 1, 1);
    assert!(shape.collides(shape));
    let p = shape.penetration(shape).unwrap();
    assert_eq!(p.x.abs() + p.y.abs(), 1);
}

#[test]
fn should_penetrate_self() {
    let shape = aabb(0, 0, 1, 1);
    let p = shape.penetration(shape).expect("shape does not penetrate itself");
    assert_eq!(p.x.abs() + p.y.abs(), 1);
}

#[test]
fn should_not_collide_when_separated_or_touching() {
    let unit = aabb(0, 0, 1, 1);
    let others = [
        aabb(2, 0, 3, 1),
        aabb(1, 0, 2, 1),
        aabb(-2, 0, -1, 1),
        aabb(0, -2, 0, -1),
        aabb(0, 2, 0, 3),
    ];
    for other in others {
        assert!(!unit.collides(other));
        assert_eq!(unit.penetration(other), None);
    }
}

#[test]
fn collision_is_symmetric() {
    let cases = [
        (aabb(0, 0, 4, 4), aabb(2, 2, 6, 6)),
        (aabb(0, 0, 4, 4), aabb(4, 0, 8, 4)),
        (aabb(0, 0, 4, 4), aabb(9, 9, 10, 10)),
        (aabb(1, 1, 2, 2), aabb(0, 0, 5, 5)),
    ];
    for (a, b) in cases {
        assert_eq!(a.collides(b), b.collides(a));
    }
}

#[test]
fn boundary_sharing_boxes_do_not_collide() {
    let a = aabb(0, 0, 1, 1);
    let b = aabb(1, 0, 2, 1);
    assert!(!a.collides(b));
    assert!(!b.collides(a));
}

#[test]
fn penetration_is_none_exactly_when_not_colliding() {
    let a = aabb(0, 0, 3, 3);
    let cases = [
        aabb(1, 1, 2, 2),
        aabb(3, 0, 4, 3),
        aabb(2, 2, 5, 5),
        aabb(-5, -5, -4, -4),
        aabb(0, 3, 3, 6),
    ];
    for b in cases {
        assert_eq!(a.penetration(b).is_none(), !a.collides(b));
    }
}

#[test]
fn penetration_pushes_left_out_of_right_neighbor() {
    // A = [0,0]-[1,1], B = [0.5,0]-[1.5,1], in units of a tile.
    let a = aabb(0, 0, TILE, TILE);
    let b = aabb(TILE / 2, 0, 3 * TILE / 2, TILE);
    assert!(a.collides(b));
    assert_eq!(a.penetration(b), Some(Vector::new(-TILE / 2, 0)));
}

#[test]
fn penetration_pushes_right_out_of_left_neighbor() {
    let a = aabb(0, 0, TILE, TILE);
    let b = aabb(-TILE / 2, 0, TILE / 2, TILE);
    assert_eq!(a.penetration(b), Some(Vector::new(TILE / 2, 0)));
}

#[test]
fn penetration_pushes_down_out_of_upper_neighbor() {
    let a = aabb(0, 0, TILE, TILE);
    let b = aabb(0, -TILE / 2, TILE, TILE / 2);
    assert_eq!(a.penetration(b), Some(Vector::new(0, TILE / 2)));
}

#[test]
fn penetration_pushes_up_out_of_lower_neighbor() {
    // A = [0,0]-[1,1], B = [0,0.5]-[1,1.5], in units of a tile.
    let a = aabb(0, 0, TILE, TILE);
    let b = aabb(0, TILE / 2, TILE, 3 * TILE / 2);
    assert_eq!(a.penetration(b), Some(Vector::new(0, -TILE / 2)));
}

#[test]
fn max_penetration_of_no_candidates_is_none() {
    let a = aabb(0, 0, TILE, TILE);
    assert_eq!(a.max_penetration(&[]), None);
}

#[test]
fn max_penetration_selects_largest_magnitude() {
    let a = aabb(0, 0, TILE, TILE);
    // Shallow overlap from the right, deeper overlap from below.
    let shallow = aabb(TILE - 100, 0, 2 * TILE - 100, TILE);
    let deep = aabb(0, TILE / 2, TILE, 3 * TILE / 2);
    let separated = aabb(5 * TILE, 0, 6 * TILE, TILE);
    let r = a.max_penetration(&[shallow, separated, deep]).unwrap();
    assert_eq!(r, Vector::new(0, -TILE / 2));
    // The shallow overlap alone resolves with the smaller push.
    assert_eq!(a.max_penetration(&[shallow]), Some(Vector::new(-100, 0)));
}

#[test]
fn collides_any_finds_an_overlap() {
    let a = aabb(0, 0, TILE, TILE);
    let touching = aabb(TILE, 0, 2 * TILE, TILE);
    let overlapping = aabb(TILE / 2, 0, 2 * TILE, TILE);
    assert!(!a.collides_any(&[]));
    assert!(!a.collides_any(&[touching]));
    assert!(a.collides_any(&[touching, overlapping]));
}
