use tower_defense::components::{Health, Target, Tower};
use tower_defense::shooting::nearest_target;
use tower_defense::timer::Timer;
use tower_defense::vec3::Vec3;
use tower_defense::world::{TargetEnt, TowerEnt, World};

fn still_target(id: u64, position: Vec3) -> TargetEnt {
    TargetEnt { id, target: Target { speed: 0 }, health: Health { value: 3 }, position }
}

fn plain_tower(id: u64, interval_ms: u64, offset: Vec3, position: Vec3) -> TowerEnt {
    TowerEnt {
        id,
        tower: Tower { shooting_timer: Timer::new_repeating(interval_ms), bullet_offset: offset },
        tower_type: None,
        position,
    }
}

fn world_with(targets: Vec<TargetEnt>, towers: Vec<TowerEnt>, next_id: u64) -> World {
    let mut w = World::new();
    w.targets = targets;
    w.towers = towers;
    w.next_id = next_id;
    w
}

#[test]
fn wasted_shot_spawns_nothing_but_still_rearms() {
    // No targets: the timer completes, no bullet appears, and the
    // countdown has restarted — it fires again one interval later.
    let zero = Vec3 { x: 0, y: 0, z: 0 };
    let mut w = world_with(vec![], vec![plain_tower(0, 1000, zero, zero)], 1);
    w.tick(1000);
    assert_eq!(w.bullets.len(), 0);
    assert_eq!(w.towers[0].tower.shooting_timer.elapsed_ms, 0);
    assert!(w.towers[0].tower.shooting_timer.just_finished);
    w.tick(600);
    assert_eq!(w.towers[0].tower.shooting_timer.elapsed_ms, 600);
    assert!(!w.towers[0].tower.shooting_timer.just_finished);
    w.tick(400);
    assert!(w.towers[0].tower.shooting_timer.just_finished);
    assert_eq!(w.bullets.len(), 0);
}

#[test]
fn tower_fires_every_interval_of_cumulative_time() {
    // Interval 1000 ms, ticks of 400 ms: fires on the ticks where the
    // cumulative time crosses 1000, 2000, 3000, ... — never twice in one
    // tick.  The target is far away, so no bullet is ever consumed.
    let zero = Vec3 { x: 0, y: 0, z: 0 };
    let far = still_target(0, Vec3 { x: 100_000_000, y: 0, z: 0 });
    let mut w = world_with(vec![far], vec![plain_tower(1, 1000, zero, zero)], 2);
    let mut expected: usize = 0;
    let mut cumulative: u64 = 0;
    for _ in 0..10 {
        let before = cumulative / 1000;
        w.tick(400);
        cumulative += 400;
        if cumulative / 1000 > before {
            expected += 1;
        }
        assert_eq!(w.bullets.len(), expected);
    }
    assert_eq!(expected, 4); // 4000 ms of the 1000 ms interval
}

#[test]
fn fired_bullet_aims_at_the_nearest_target() {
    // Targets at distances 2, 5 and 9 units: the bullet's direction is
    // the raw (unnormalized) vector to the one at distance 2.
    let zero = Vec3 { x: 0, y: 0, z: 0 };
    let targets = vec![
        still_target(0, Vec3 { x: 5_000_000, y: 0, z: 0 }),
        still_target(1, Vec3 { x: 0, y: 0, z: 2_000_000 }),
        still_target(2, Vec3 { x: 0, y: 9_000_000, z: 0 }),
    ];
    let mut w = world_with(targets, vec![plain_tower(3, 1000, zero, zero)], 4);
    w.tick(1000);
    assert_eq!(w.bullets.len(), 1);
    let b = &w.bullets[0];
    assert_eq!(b.bullet.direction, Vec3 { x: 0, y: 0, z: 2_000_000 });
    assert_eq!(b.bullet.speed, 2_500); // untyped default
    // A bullet spawned this tick has not moved yet: it sits at the
    // tower's spawn point.
    assert_eq!(b.position, zero);
    assert_eq!(b.lifetime.timer.duration_ms, 1_000_500);
}

#[test]
fn equidistant_targets_resolve_to_exactly_one_choice() {
    // Two targets at the same distance: the scan picks the first, and
    // nothing crashes.
    let zero = Vec3 { x: 0, y: 0, z: 0 };
    let targets = vec![
        still_target(0, Vec3 { x: 1_000_000, y: 0, z: 0 }),
        still_target(1, Vec3 { x: -1_000_000, y: 0, z: 0 }),
    ];
    assert_eq!(nearest_target(&targets, zero), 0);
    let mut w = world_with(targets, vec![plain_tower(2, 1000, zero, zero)], 3);
    w.tick(1000);
    assert_eq!(w.bullets.len(), 1);
    assert_eq!(w.bullets[0].bullet.direction, Vec3 { x: 1_000_000, y: 0, z: 0 });
}

#[test]
fn firing_aims_at_positions_after_this_ticks_motion() {
    // The target drifts 0.3 units during the tick that fires: the aim
    // uses the post-motion position.
    let zero = Vec3 { x: 0, y: 0, z: 0 };
    let mover = TargetEnt {
        id: 0,
        target: Target { speed: 300 },
        health: Health { value: 3 },
        position: Vec3 { x: 1_000_000, y: 0, z: 0 },
    };
    let mut w = world_with(vec![mover], vec![plain_tower(1, 1000, zero, zero)], 2);
    w.tick(1000);
    assert_eq!(w.bullets[0].bullet.direction, Vec3 { x: 1_300_000, y: 0, z: 0 });
}

#[test]
fn bullet_spawn_point_is_tower_position_plus_offset() {
    let offset = Vec3 { x: 0, y: 600_000, z: 0 };
    let pos = Vec3 { x: 2_000_000, y: 800_000, z: -1_000_000 };
    let far = still_target(0, Vec3 { x: 100_000_000, y: 0, z: 0 });
    let mut w = world_with(vec![far], vec![plain_tower(1, 500, offset, pos)], 2);
    w.tick(500);
    assert_eq!(w.bullets[0].position, Vec3 { x: 2_000_000, y: 1_400_000, z: -1_000_000 });
}
