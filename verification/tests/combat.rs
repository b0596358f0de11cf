use tower_defense::collision::{bullet_collision, target_death};
use tower_defense::components::{Bullet, Health, Lifetime, Target};
use tower_defense::timer::Timer;
use tower_defense::vec3::Vec3;
use tower_defense::world::{BulletEnt, TargetEnt};

fn target_at(id: u64, position: Vec3, health: i32) -> TargetEnt {
    TargetEnt { id, target: Target { speed: 0 }, health: Health { value: health }, position }
}

fn bullet_at(id: u64, position: Vec3) -> BulletEnt {
    BulletEnt {
        id,
        bullet: Bullet { direction: Vec3 { x: 0, y: 0, z: 0 }, speed: 0 },
        lifetime: Lifetime { timer: Timer::new_once(1_000_500) },
        position,
    }
}

#[test]
fn proximity_hit_damages_target_and_consumes_bullet() {
    // 0.1 units apart: below the 0.2 hit radius.
    let mut bullets = vec![bullet_at(10, Vec3 { x: 0, y: 0, z: 0 })];
    let mut targets = vec![target_at(0, Vec3 { x: 100_000, y: 0, z: 0 }, 2)];
    bullet_collision(&mut bullets, &mut targets);
    assert_eq!(bullets.len(), 0);
    assert_eq!(targets[0].health.value, 1);
}

#[test]
fn distant_bullet_hits_nothing() {
    // Exactly 0.2 units apart: not strictly below the radius.
    let mut bullets = vec![bullet_at(10, Vec3 { x: 0, y: 0, z: 0 })];
    let mut targets = vec![target_at(0, Vec3 { x: 200_000, y: 0, z: 0 }, 2)];
    bullet_collision(&mut bullets, &mut targets);
    assert_eq!(bullets.len(), 1);
    assert_eq!(targets[0].health.value, 2);
}

#[test]
fn target_absorbs_every_bullet_arriving_in_one_tick() {
    let mut bullets = vec![
        bullet_at(10, Vec3 { x: 0, y: 0, z: 0 }),
        bullet_at(11, Vec3 { x: 50_000, y: 0, z: 0 }),
    ];
    let mut targets = vec![target_at(0, Vec3 { x: 100_000, y: 0, z: 0 }, 3)];
    bullet_collision(&mut bullets, &mut targets);
    assert_eq!(bullets.len(), 0);
    assert_eq!(targets[0].health.value, 1);
}

#[test]
fn bullet_hits_only_first_target_in_scan_order() {
    let mut bullets = vec![bullet_at(10, Vec3 { x: 0, y: 0, z: 0 })];
    let mut targets = vec![
        target_at(0, Vec3 { x: 100_000, y: 0, z: 0 }, 3),
        target_at(1, Vec3 { x: -100_000, y: 0, z: 0 }, 3),
    ];
    bullet_collision(&mut bullets, &mut targets);
    assert_eq!(bullets.len(), 0);
    assert_eq!(targets[0].health.value, 2);
    assert_eq!(targets[1].health.value, 3);
}

#[test]
fn surviving_bullets_keep_their_order() {
    let far = Vec3 { x: 10_000_000, y: 0, z: 0 };
    let mut bullets = vec![
        bullet_at(10, far),
        bullet_at(11, Vec3 { x: 0, y: 0, z: 0 }),
        bullet_at(12, far),
    ];
    let mut targets = vec![target_at(0, Vec3 { x: 100_000, y: 0, z: 0 }, 3)];
    bullet_collision(&mut bullets, &mut targets);
    assert_eq!(bullets.len(), 2);
    assert_eq!(bullets[0].id, 10);
    assert_eq!(bullets[1].id, 12);
}

#[test]
fn death_removes_exactly_the_targets_at_or_below_zero() {
    let p = Vec3 { x: 0, y: 0, z: 0 };
    let mut targets = vec![
        target_at(0, p, 3),
        target_at(1, p, 0),
        target_at(2, p, -1),
        target_at(3, p, 2),
    ];
    target_death(&mut targets);
    assert_eq!(targets.len(), 2);
    assert_eq!(targets[0].id, 0);
    assert_eq!(targets[1].id, 3);
}
