use tower_defense::components::{Health, Target, Tower};
use tower_defense::timer::Timer;
use tower_defense::vec3::Vec3;
use tower_defense::world::{TargetEnt, TowerEnt, World};

#[test]
fn three_fire_cycles_destroy_a_three_health_target() {
    // One target at the origin with three health; one untyped tower at
    // the origin with a 1.0 s interval whose spawn offset (0.1 units)
    // puts each bullet within the 0.2 hit radius immediately.  Every
    // cycle lands one hit; after 3.0 s of simulated time the target is
    // destroyed and nothing referencing it remains.
    let zero = Vec3 { x: 0, y: 0, z: 0 };
    let mut w = World::new();
    w.targets.push(TargetEnt {
        id: 0,
        target: Target { speed: 0 },
        health: Health { value: 3 },
        position: zero,
    });
    w.towers.push(TowerEnt {
        id: 1,
        tower: Tower {
            shooting_timer: Timer::new_repeating(1000),
            bullet_offset: Vec3 { x: 0, y: 100_000, z: 0 },
        },
        tower_type: None,
        position: zero,
    });
    w.next_id = 2;

    w.tick(1000);
    assert_eq!(w.targets.len(), 1);
    assert_eq!(w.targets[0].health.value, 2);
    assert_eq!(w.bullets.len(), 0); // the bullet hit in the same tick

    w.tick(1000);
    assert_eq!(w.targets[0].health.value, 1);

    w.tick(1000);
    assert_eq!(w.targets.len(), 0);
    assert_eq!(w.bullets.len(), 0);
    assert_eq!(w.towers.len(), 1);

    // Further cycles are wasted shots: the world stays clear.
    w.tick(1000);
    assert_eq!(w.targets.len(), 0);
    assert_eq!(w.bullets.len(), 0);
}

#[test]
fn bullet_flies_until_it_reaches_the_target() {
    // Tower at the origin, target one unit away: the bullet covers
    // 0.25 units per 100 ms tick (speed 2.5 units/s), does not move in
    // the tick it is fired, and lands on the fourth flight tick, when
    // its distance to the target first drops below 0.2 units.
    let zero = Vec3 { x: 0, y: 0, z: 0 };
    let mut w = World::new();
    w.targets.push(TargetEnt {
        id: 0,
        target: Target { speed: 0 },
        health: Health { value: 3 },
        position: Vec3 { x: 0, y: 0, z: 1_000_000 },
    });
    w.towers.push(TowerEnt {
        id: 1,
        tower: Tower { shooting_timer: Timer::new_repeating(1000), bullet_offset: zero },
        tower_type: None,
        position: zero,
    });
    w.next_id = 2;

    for _ in 0..10 {
        w.tick(100);
    }
    // Fired on the tenth tick; not yet moved.
    assert_eq!(w.bullets.len(), 1);
    assert_eq!(w.bullets[0].position, zero);

    w.tick(100);
    assert_eq!(w.bullets[0].position.z, 250_000);
    w.tick(100);
    assert_eq!(w.bullets[0].position.z, 500_000);
    w.tick(100);
    // 0.25 units away: still at or above the 0.2 hit radius.
    assert_eq!(w.bullets[0].position.z, 750_000);
    assert_eq!(w.targets[0].health.value, 3);
    w.tick(100);
    // Reached the target: consumed, one point of damage.
    assert_eq!(w.bullets.len(), 0);
    assert_eq!(w.targets[0].health.value, 2);
}

#[test]
fn lethal_hit_is_cleaned_up_in_the_same_tick() {
    // A target at one health dies in the tick its bullet lands.
    let zero = Vec3 { x: 0, y: 0, z: 0 };
    let mut w = World::new();
    w.targets.push(TargetEnt {
        id: 0,
        target: Target { speed: 0 },
        health: Health { value: 1 },
        position: zero,
    });
    w.towers.push(TowerEnt {
        id: 1,
        tower: Tower {
            shooting_timer: Timer::new_repeating(100),
            bullet_offset: Vec3 { x: 0, y: 100_000, z: 0 },
        },
        tower_type: None,
        position: zero,
    });
    w.next_id = 2;
    w.tick(100);
    assert_eq!(w.targets.len(), 0);
    assert_eq!(w.bullets.len(), 0);
}
