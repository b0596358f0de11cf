use tower_defense::components::{Bullet, Health, Lifetime, Target};
use tower_defense::math::isqrt;
use tower_defense::motion::{bullet_despawn, move_bullets, move_targets};
use tower_defense::timer::Timer;
use tower_defense::vec3::Vec3;
use tower_defense::world::{BulletEnt, TargetEnt};

fn target_at(id: u64, speed: i64, x: i64) -> TargetEnt {
    TargetEnt {
        id,
        target: Target { speed },
        health: Health { value: 3 },
        position: Vec3 { x, y: 400_000, z: 2_500_000 },
    }
}

fn bullet_with(direction: Vec3, speed: i64, position: Vec3) -> BulletEnt {
    BulletEnt {
        id: 0,
        bullet: Bullet { direction, speed },
        lifetime: Lifetime { timer: Timer::new_once(1_000_500) },
        position,
    }
}

#[test]
fn target_drift_is_exactly_speed_times_elapsed_time() {
    // Speed 0.3 units/s is 300 micro-units/ms: five 100 ms ticks with no
    // tower firing advance x by exactly 300 * 500 = 150_000.
    let mut targets = vec![target_at(0, 300, -2_000_000), target_at(1, 300, -4_000_000)];
    for _ in 0..5 {
        move_targets(&mut targets, 100);
    }
    assert_eq!(targets[0].position.x, -2_000_000 + 150_000);
    assert_eq!(targets[1].position.x, -4_000_000 + 150_000);
    // Nothing but x changes.
    assert_eq!(targets[0].position.y, 400_000);
    assert_eq!(targets[0].position.z, 2_500_000);
    assert_eq!(targets[0].health.value, 3);
    assert_eq!(targets[0].target.speed, 300);
}

#[test]
fn drift_accumulation_is_independent_of_tick_sizes() {
    let mut a = vec![target_at(0, 700, 0)];
    let mut b = vec![target_at(0, 700, 0)];
    move_targets(&mut a, 1000);
    for _ in 0..10 {
        move_targets(&mut b, 100);
    }
    assert_eq!(a[0].position.x, b[0].position.x);
    assert_eq!(a[0].position.x, 700_000);
}

#[test]
fn bullet_moves_along_normalized_direction() {
    // Direction (0.3, 0, 0.4) has length 0.5; at speed 1 unit/s for
    // 100 ms the step is 0.1 units, split 3:4 over x and z.
    let dir = Vec3 { x: 300_000, y: 0, z: 400_000 };
    let mut bullets = vec![bullet_with(dir, 1_000, Vec3 { x: 0, y: 0, z: 0 })];
    move_bullets(&mut bullets, 100);
    assert_eq!(bullets[0].position.x, 60_000);
    assert_eq!(bullets[0].position.y, 0);
    assert_eq!(bullets[0].position.z, 80_000);
    // The raw direction is stored unchanged.
    assert_eq!(bullets[0].bullet.direction, dir);
}

#[test]
fn zero_direction_bullet_stays_put() {
    let origin = Vec3 { x: 1_000, y: 2_000, z: 3_000 };
    let mut bullets = vec![bullet_with(Vec3 { x: 0, y: 0, z: 0 }, 2_500, origin)];
    move_bullets(&mut bullets, 1000);
    assert_eq!(bullets[0].position, origin);
}

#[test]
fn expiry_destroys_bullet_when_lifetime_completes() {
    let mut bullets = vec![BulletEnt {
        id: 7,
        bullet: Bullet { direction: Vec3 { x: 0, y: 0, z: 0 }, speed: 0 },
        lifetime: Lifetime { timer: Timer::new_once(500) },
        position: Vec3 { x: 0, y: 0, z: 0 },
    }];
    bullet_despawn(&mut bullets, 200);
    assert_eq!(bullets.len(), 1);
    bullet_despawn(&mut bullets, 200);
    assert_eq!(bullets.len(), 1);
    // Cumulative 600 >= 500: destroyed on exactly this tick.
    bullet_despawn(&mut bullets, 200);
    assert_eq!(bullets.len(), 0);
}

#[test]
fn isqrt_matches_floor_of_square_root() {
    assert_eq!(isqrt(0), 0);
    assert_eq!(isqrt(1), 1);
    assert_eq!(isqrt(24), 4);
    assert_eq!(isqrt(25), 5);
    assert_eq!(isqrt(250_000_000_000), 500_000);
    assert_eq!(isqrt(u64::MAX), 4_294_967_295);
}
