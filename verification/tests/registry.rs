use aabb_collision::{
    updated_computed_aabbs, Aabb, AabbKind, AabbState, CollisionBehavior, CollisionWorld, Entity,
    Entry, Vec2,
};

fn state(
    uuid: u128,
    parent: u64,
    extent: i64,
    at: (i64, i64),
    aabb_kind: AabbKind,
    collision_behavior: CollisionBehavior,
    changed: bool,
) -> AabbState {
    AabbState {
        parent: Entity(parent),
        aabb: Aabb::new(uuid, Vec2::new(extent, extent)).unwrap(),
        aabb_kind,
        collision_behavior,
        translation: Vec2::new(at.0, at.1),
        changed,
    }
}

fn collider(uuid: u128, parent: u64, at: (i64, i64), changed: bool) -> AabbState {
    state(uuid, parent, 8, at, AabbKind::Collider, CollisionBehavior::Static, changed)
}

fn sorted(mut entries: Vec<Entry>) -> Vec<Entry> {
    entries.sort_by_key(|entry| entry.uuid);
    entries
}

#[test]
fn new_registry_is_empty() {
    let world = CollisionWorld::new();
    assert_eq!(world.len(), 0);
    assert_eq!(world.get(1), None);
    assert!(world.entries().is_empty());
    let other = CollisionWorld::default();
    assert_eq!(other.len(), 0);
}

#[test]
fn refresh_registers_a_changed_volume() {
    let mut world = CollisionWorld::new();
    let states =
        vec![state(7, 1, 8, (16, 16), AabbKind::Collider, CollisionBehavior::Player, true)];
    updated_computed_aabbs(&mut world, &states);
    assert_eq!(world.len(), 1);
    let (owner, bounds) = world.get(7).unwrap();
    assert_eq!(owner, Entity(1));
    assert_eq!(bounds.min, Vec2::new(0, 0));
    assert_eq!(bounds.max, Vec2::new(32, 32));
    assert_eq!(bounds.aabb_kind, AabbKind::Collider);
    assert_eq!(bounds.collision_behavior, CollisionBehavior::Player);
    assert_eq!(world.get(8), None);
}

#[test]
fn refresh_passes_over_an_unchanged_volume() {
    let mut world = CollisionWorld::new();
    let states = vec![collider(7, 1, (16, 16), false), collider(8, 2, (100, 100), true)];
    updated_computed_aabbs(&mut world, &states);
    assert_eq!(world.len(), 1);
    assert_eq!(world.get(7), None);
    assert!(world.get(8).is_some());
}

#[test]
fn refresh_overwrites_what_was_registered() {
    let mut world = CollisionWorld::new();
    updated_computed_aabbs(&mut world, &vec![collider(7, 1, (16, 16), true)]);
    updated_computed_aabbs(&mut world, &vec![collider(7, 1, (20, 10), true)]);
    assert_eq!(world.len(), 1);
    let (owner, bounds) = world.get(7).unwrap();
    assert_eq!(owner, Entity(1));
    assert_eq!(bounds.min, Vec2::new(4, -6));
    assert_eq!(bounds.max, Vec2::new(36, 26));
}

#[test]
fn unchanged_volume_keeps_stale_bounds() {
    let mut world = CollisionWorld::new();
    updated_computed_aabbs(&mut world, &vec![collider(7, 1, (16, 16), true)]);
    // The translation differs, but the volume is not marked as changed.
    updated_computed_aabbs(&mut world, &vec![collider(7, 1, (500, 500), false)]);
    let (_, bounds) = world.get(7).unwrap();
    assert_eq!(bounds.min, Vec2::new(0, 0));
    assert_eq!(bounds.max, Vec2::new(32, 32));
}

#[test]
fn frame_without_changes_leaves_the_registry_alone() {
    let mut world = CollisionWorld::new();
    updated_computed_aabbs(
        &mut world,
        &vec![collider(1, 1, (0, 0), true), collider(2, 2, (50, 50), true)],
    );
    let before = sorted(world.entries());
    updated_computed_aabbs(
        &mut world,
        &vec![collider(1, 1, (9, 9), false), collider(2, 2, (7, 7), false), collider(3, 3, (1, 1), false)],
    );
    assert_eq!(sorted(world.entries()), before);
    updated_computed_aabbs(&mut world, &Vec::new());
    assert_eq!(sorted(world.entries()), before);
}

#[test]
fn later_state_of_one_identity_wins() {
    let mut world = CollisionWorld::new();
    let states = vec![
        collider(7, 1, (16, 16), true),
        collider(7, 2, (116, 116), true),
        collider(7, 3, (999, 999), false),
    ];
    updated_computed_aabbs(&mut world, &states);
    assert_eq!(world.len(), 1);
    let (owner, bounds) = world.get(7).unwrap();
    assert_eq!(owner, Entity(2));
    assert_eq!(bounds.min, Vec2::new(100, 100));
    assert_eq!(bounds.max, Vec2::new(132, 132));
}

#[test]
fn volumes_of_one_owner_are_registered_apart() {
    let mut world = CollisionWorld::new();
    let states = vec![
        state(1, 5, 32, (0, -200), AabbKind::Collider, CollisionBehavior::Player, true),
        state(2, 5, 46, (0, -200), AabbKind::Sensor, CollisionBehavior::Inert, true),
    ];
    updated_computed_aabbs(&mut world, &states);
    assert_eq!(world.len(), 2);
    let (owner, body) = world.get(1).unwrap();
    assert_eq!(owner, Entity(5));
    assert_eq!(body.min, Vec2::new(-64, -264));
    assert_eq!(body.max, Vec2::new(64, -136));
    let (owner, reach) = world.get(2).unwrap();
    assert_eq!(owner, Entity(5));
    assert_eq!(reach.min, Vec2::new(-92, -292));
    assert_eq!(reach.max, Vec2::new(92, -108));
    assert_eq!(reach.aabb_kind, AabbKind::Sensor);
}

#[test]
fn entries_list_every_volume_once() {
    let mut world = CollisionWorld::new();
    let mut states = Vec::new();
    for k in 0..20u64 {
        states.push(collider(100 + k as u128, k, (k as i64 * 10, 0), true));
    }
    updated_computed_aabbs(&mut world, &states);
    let entries = sorted(world.entries());
    assert_eq!(entries.len(), 20);
    for (k, entry) in entries.iter().enumerate() {
        assert_eq!(entry.uuid, 100 + k as u128);
        assert_eq!(entry.entity, Entity(k as u64));
        assert_eq!(entry.aabb.min, Vec2::new(k as i64 * 10 - 16, -16));
        assert_eq!(entry.aabb.max, Vec2::new(k as i64 * 10 + 16, 16));
        assert_eq!(world.get(entry.uuid), Some((entry.entity, entry.aabb)));
    }
}

#[test]
fn insert_registers_given_bounds() {
    let mut world = CollisionWorld::new();
    let aabb = Aabb::new(4, Vec2::new(8, 8)).unwrap();
    let bounds = aabb.computed(Vec2::new(0, 0), AabbKind::Sensor, CollisionBehavior::Inert);
    world.insert(4, Entity(9), bounds);
    assert_eq!(world.get(4), Some((Entity(9), bounds)));
    let moved = aabb.computed(Vec2::new(5, 5), AabbKind::Sensor, CollisionBehavior::Inert);
    world.insert(4, Entity(10), moved);
    assert_eq!(world.len(), 1);
    assert_eq!(world.get(4), Some((Entity(10), moved)));
}

#[test]
fn remove_drops_one_volume() {
    let mut world = CollisionWorld::new();
    updated_computed_aabbs(
        &mut world,
        &vec![collider(1, 1, (0, 0), true), collider(2, 2, (50, 50), true)],
    );
    let kept = world.get(2);
    let gone = world.get(1);
    assert_eq!(world.remove(1), gone);
    assert!(gone.is_some());
    assert_eq!(world.len(), 1);
    assert_eq!(world.get(1), None);
    assert_eq!(world.get(2), kept);
    assert_eq!(world.remove(1), None);
    assert_eq!(world.len(), 1);
}
