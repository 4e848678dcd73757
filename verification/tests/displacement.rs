use aabb_collision::{AabbComputed, AabbKind, CollisionBehavior, Vec2, WORLD_LIMIT};

fn boxed(min: (i64, i64), max: (i64, i64)) -> AabbComputed {
    AabbComputed {
        min: Vec2::new(min.0, min.1),
        max: Vec2::new(max.0, max.1),
        aabb_kind: AabbKind::Collider,
        collision_behavior: CollisionBehavior::Player,
    }
}

#[test]
fn player_is_pushed_left_by_half_the_overlap() {
    // left = 16 - 32 = -16, right = 48, down = -32, up = 32
    let player = boxed((0, 0), (32, 32));
    let wall = boxed((16, 0), (48, 32));
    assert_eq!(player.shallow_axis_displace(&wall), Vec2::new(-8, 0));
}

#[test]
fn obstacle_seen_from_the_other_side_is_pushed_right() {
    let player = boxed((0, 0), (32, 32));
    let wall = boxed((16, 0), (48, 32));
    assert_eq!(wall.shallow_axis_displace(&player), Vec2::new(8, 0));
}

#[test]
fn tie_between_axes_resolves_vertically() {
    // horizontal = -4, vertical = 4
    let a = boxed((0, 0), (10, 10));
    let b = boxed((6, -6), (16, 4));
    assert_eq!(a.shallow_axis_displace(&b), Vec2::new(0, 2));
}

#[test]
fn shallow_horizontal_axis_to_the_right() {
    // left = -16, right = 4, up = 20, down = -30
    let a = boxed((0, 0), (10, 10));
    let b = boxed((-6, -20), (4, 20));
    assert_eq!(a.shallow_axis_displace(&b), Vec2::new(2, 0));
}

#[test]
fn shallow_vertical_axis_downwards() {
    // left = -30, right = 20, up = 16, down = -4
    let a = boxed((0, 0), (10, 10));
    let b = boxed((-20, 6), (20, 16));
    assert_eq!(a.shallow_axis_displace(&b), Vec2::new(0, -2));
}

#[test]
fn shallow_vertical_axis_upwards() {
    // left = -30, right = 20, up = 4, down = -16
    let a = boxed((0, 0), (10, 10));
    let b = boxed((-20, -6), (20, 4));
    assert_eq!(a.shallow_axis_displace(&b), Vec2::new(0, 2));
}

#[test]
fn equal_ways_out_sideways_go_right() {
    // left = -5, right = 5, up = 100, down = -110
    let a = boxed((0, 0), (10, 10));
    let b = boxed((5, -100), (5, 100));
    assert_eq!(a.shallow_axis_displace(&b), Vec2::new(3, 0));
}

#[test]
fn equal_ways_out_upright_go_down() {
    // left = -110, right = 100, up = 5, down = -5
    let a = boxed((0, 0), (10, 10));
    let b = boxed((-100, 5), (100, 5));
    assert_eq!(a.shallow_axis_displace(&b), Vec2::new(0, -3));
}

#[test]
fn odd_separation_is_halved_away_from_zero() {
    let a = boxed((0, 0), (10, 10));
    // left = -3
    assert_eq!(a.shallow_axis_displace(&boxed((7, -50), (60, 50))), Vec2::new(-2, 0));
    // right = 3
    assert_eq!(a.shallow_axis_displace(&boxed((-60, -50), (3, 50))), Vec2::new(2, 0));
    // down = -3
    assert_eq!(a.shallow_axis_displace(&boxed((-50, 7), (50, 60))), Vec2::new(0, -2));
    // up = 3
    assert_eq!(a.shallow_axis_displace(&boxed((-50, -60), (50, 3))), Vec2::new(0, 2));
}

#[test]
fn overlap_of_one_unit_is_cleared_at_once() {
    let a = boxed((0, 0), (10, 10));
    // left = -1
    assert_eq!(a.shallow_axis_displace(&boxed((9, -50), (60, 50))), Vec2::new(-1, 0));
    // up = 1
    assert_eq!(a.shallow_axis_displace(&boxed((-50, -60), (50, 1))), Vec2::new(0, 1));
}

#[test]
fn touching_boxes_are_left_alone() {
    // left = 0, right = 20, up = 10, down = -10
    let a = boxed((0, 0), (10, 10));
    let b = boxed((10, 0), (20, 10));
    assert_eq!(a.shallow_axis_displace(&b), Vec2::new(0, 0));
    // down = 0
    let c = boxed((-5, 10), (15, 30));
    assert_eq!(a.shallow_axis_displace(&c), Vec2::new(0, 0));
}

#[test]
fn displacement_runs_along_one_axis_only() {
    let a = boxed((0, 0), (10, 10));
    let others = [
        boxed((3, 4), (30, 40)),
        boxed((-30, -40), (3, 4)),
        boxed((-1, -1), (11, 11)),
        boxed((4, 4), (6, 6)),
        boxed((9, -3), (12, 2)),
        boxed((-100, 7), (100, 8)),
        boxed((0, 0), (10, 10)),
        boxed((10, 10), (20, 20)),
    ];
    for other in others {
        let by = a.shallow_axis_displace(&other);
        assert!(by.x == 0 || by.y == 0);
        let back = other.shallow_axis_displace(&a);
        assert!(back.x == 0 || back.y == 0);
    }
}

#[test]
fn identical_boxes_part_vertically() {
    // left = -10, right = 10, up = 10, down = -10: every way out ties
    let a = boxed((0, 0), (10, 10));
    assert_eq!(a.shallow_axis_displace(&a), Vec2::new(0, -5));
}

#[test]
fn boxes_apart_are_drawn_half_way_together() {
    // left = 10, right = 30, up = 10, down = -10: the formula is applied as it stands
    let a = boxed((0, 0), (10, 10));
    let b = boxed((20, 0), (30, 10));
    assert_eq!(a.shallow_axis_displace(&b), Vec2::new(0, -5));
    // left = 4, right = 24, up = 110, down = -110
    let c = boxed((14, -100), (24, 110));
    assert_eq!(a.shallow_axis_displace(&c), Vec2::new(2, 0));
}

#[test]
fn largest_boxes_do_not_overflow() {
    let reach = 2 * WORLD_LIMIT;
    let whole = boxed((-reach, -reach), (reach, reach));
    assert!(whole.is_wf());
    // every separation has magnitude 4 * WORLD_LIMIT
    assert_eq!(whole.shallow_axis_displace(&whole), Vec2::new(0, -reach));
    let corner = boxed((reach, reach), (reach, reach));
    let opposite = boxed((-reach, -reach), (-reach, -reach));
    // left = right = down = up = -4 * WORLD_LIMIT
    assert_eq!(corner.shallow_axis_displace(&opposite), Vec2::new(0, -reach));
    // left = right = down = up = 4 * WORLD_LIMIT
    assert_eq!(opposite.shallow_axis_displace(&corner), Vec2::new(0, reach));
}

#[test]
fn well_formed_boxes_are_recognised() {
    let reach = 2 * WORLD_LIMIT;
    assert!(boxed((0, 0), (32, 32)).is_wf());
    assert!(boxed((5, 5), (5, 5)).is_wf());
    assert!(boxed((-reach, -reach), (reach, reach)).is_wf());
    assert!(!boxed((1, 0), (0, 10)).is_wf());
    assert!(!boxed((0, 1), (10, 0)).is_wf());
    assert!(!boxed((0, 0), (reach + 1, 10)).is_wf());
    assert!(!boxed((0, -reach - 1), (10, 10)).is_wf());
}
