use tower_defense::components::{
    default_tower, new_lifetime, Health, Target, TowerType,
};
use tower_defense::placement::{build_tower, spawn_basic_scene, spawn_tower};
use tower_defense::vec3::Vec3;
use tower_defense::world::TargetEnt;

#[test]
fn basic_scene_contents() {
    let w = spawn_basic_scene();
    assert_eq!(w.targets.len(), 2);
    assert_eq!(w.targets[0].position, Vec3 { x: -2_000_000, y: 400_000, z: 2_500_000 });
    assert_eq!(w.targets[1].position, Vec3 { x: -4_000_000, y: 400_000, z: 2_500_000 });
    assert_eq!(w.targets[0].target.speed, 300);
    assert_eq!(w.targets[0].health.value, 3);
    assert_eq!(w.towers.len(), 0);
    assert_eq!(w.bullets.len(), 0);
    assert_eq!(w.placeholders.len(), 5);
    for (i, p) in w.placeholders.iter().enumerate() {
        assert_eq!(p.position, Vec3 { x: 500_000 + (i as i64) * 1_000_000, y: 800_000, z: 0 });
        assert!(!p.selected);
    }
    assert_eq!(w.next_id, 7);
}

#[test]
fn archetype_table_values() {
    let tomato = TowerType::Tomato.get_tower();
    assert_eq!(tomato.shooting_timer.duration_ms, 500);
    let potato = TowerType::Potato.get_tower();
    assert_eq!(potato.shooting_timer.duration_ms, 100);
    let cabbage = TowerType::Cabbage.get_tower();
    assert_eq!(cabbage.shooting_timer.duration_ms, 800);
    assert_eq!(tomato.bullet_offset, Vec3 { x: 0, y: 600_000, z: 0 });

    let dir = Vec3 { x: 1, y: 2, z: 3 };
    assert_eq!(TowerType::Tomato.get_bullet(dir).speed, 3_500);
    assert_eq!(TowerType::Potato.get_bullet(dir).speed, 6_500);
    assert_eq!(TowerType::Cabbage.get_bullet(dir).speed, 1_500);
    assert_eq!(TowerType::Tomato.get_bullet(dir).direction, dir);

    let plain = default_tower();
    assert_eq!(plain.shooting_timer.duration_ms, 1_000);
    assert_eq!(new_lifetime().timer.duration_ms, 1_000_500);
}

#[test]
fn spawn_tower_hands_out_the_next_identifier() {
    let mut w = spawn_basic_scene();
    let pos = Vec3 { x: 1_000_000, y: 0, z: 0 };
    let id = spawn_tower(&mut w, pos, TowerType::Cabbage);
    assert_eq!(id, 7);
    assert_eq!(w.next_id, 8);
    assert_eq!(w.towers.len(), 1);
    assert_eq!(w.towers[0].position, pos);
    assert_eq!(w.towers[0].tower_type, Some(TowerType::Cabbage));
    assert_eq!(w.towers[0].tower.shooting_timer.duration_ms, 800);
}

#[test]
fn placement_replaces_the_selected_site_and_is_idempotent() {
    let mut w = spawn_basic_scene();
    w.placeholders[0].selected = true;
    let site_pos = w.placeholders[0].position;
    build_tower(&mut w, TowerType::Potato);
    assert_eq!(w.placeholders.len(), 4);
    assert_eq!(w.towers.len(), 1);
    assert_eq!(w.towers[0].position, site_pos);
    assert_eq!(w.towers[0].id, 7);
    assert_eq!(w.next_id, 8);
    // The site is gone, so triggering placement again is a no-op.
    build_tower(&mut w, TowerType::Potato);
    assert_eq!(w.placeholders.len(), 4);
    assert_eq!(w.towers.len(), 1);
    assert_eq!(w.next_id, 8);
}

#[test]
fn placed_potato_tower_fires_its_archetype_bullet() {
    // Round trip: placing a Potato yields a 0.1 s interval, and one fire
    // cycle later its bullet carries speed 6.5 (6_500 in fixed point).
    let mut w = spawn_basic_scene();
    w.targets.clear();
    w.placeholders[0].selected = true;
    build_tower(&mut w, TowerType::Potato);
    assert_eq!(w.towers[0].tower.shooting_timer.duration_ms, 100);
    let spawn_point = Vec3 {
        x: w.towers[0].position.x,
        y: w.towers[0].position.y + 600_000,
        z: w.towers[0].position.z,
    };
    // One target a unit away from the spawn point, so the bullet is
    // observable after the cycle rather than consumed at once.
    w.targets.push(TargetEnt {
        id: 8,
        target: Target { speed: 0 },
        health: Health { value: 3 },
        position: Vec3 { x: spawn_point.x, y: spawn_point.y, z: spawn_point.z + 1_000_000 },
    });
    w.next_id = 9;
    w.tick(100);
    assert_eq!(w.bullets.len(), 1);
    assert_eq!(w.bullets[0].bullet.speed, 6_500);
    assert_eq!(w.bullets[0].bullet.direction, Vec3 { x: 0, y: 0, z: 1_000_000 });
    assert_eq!(w.bullets[0].position, spawn_point);
}
