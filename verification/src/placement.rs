//! Tower placement: replacing a selected build site with a concrete
//! tower of a chosen archetype, and setting up the demo scene.

use vstd::prelude::*;

use crate::components::{spec_archetype_offset, spec_interval_ms, Health, Target, Tower, TowerType};
use crate::timer::{Timer, TimerMode};
use crate::units::COORD_LIMIT;
use crate::vec3::{in_world, Vec3};
use crate::world::{lemma_filter_elems, Placeholder, TargetEnt, TowerEnt, World};

verus! {

/// A position a tower can be spawned at: inside the world, with room
/// for the bullet spawn offset above it.
pub open spec fn placement_ok(position: Vec3) -> bool {
    &&& in_world(position)
    &&& position.y + spec_archetype_offset().y <= COORD_LIMIT
}

/// The tower entity placement creates: the archetype's parameters at the
/// given position, with a fresh firing countdown.
pub open spec fn spec_spawned_tower(id: u64, position: Vec3, tt: TowerType) -> TowerEnt {
    TowerEnt {
        id,
        tower: Tower {
            shooting_timer: Timer {
                mode: TimerMode::Repeating,
                duration_ms: spec_interval_ms(tt),
                elapsed_ms: 0u64,
                just_finished: false,
            },
            bullet_offset: spec_archetype_offset(),
        },
        tower_type: Some(tt),
        position,
    }
}

/// The towers one placement pass creates: one per selected build site,
/// in scan order, with identifiers handed out consecutively from `base`.
pub open spec fn spec_placed_towers(ps: Seq<Placeholder>, tt: TowerType, base: u64) -> Seq<
    TowerEnt,
>
    decreases ps.len(),
{
    if ps.len() == 0 {
        Seq::empty()
    } else {
        let rest = spec_placed_towers(ps.drop_last(), tt, base);
        if ps.last().selected {
            rest.push(spec_spawned_tower((base + rest.len()) as u64, ps.last().position, tt))
        } else {
            rest
        }
    }
}

/// Placement creates at most one tower per build site.
pub proof fn lemma_placed_towers_len(ps: Seq<Placeholder>, tt: TowerType, base: u64)
    ensures
        spec_placed_towers(ps, tt, base).len() <= ps.len(),
    decreases ps.len(),
{
    if ps.len() > 0 {
        lemma_placed_towers_len(ps.drop_last(), tt, base);
    }
}

/// Spawns a tower of the chosen archetype at `position` and returns its
/// entity identifier.
pub fn spawn_tower(world: &mut World, position: Vec3, tower_type: TowerType) -> (id: u64)
    requires
        old(world).wf(),
        placement_ok(position),
        old(world).next_id < u64::MAX,
    ensures
        id == old(world).next_id,
        final(world).towers@ =~= old(world).towers@.push(
            spec_spawned_tower(old(world).next_id, position, tower_type),
        ),
        final(world).targets == old(world).targets,
        final(world).bullets == old(world).bullets,
        final(world).placeholders == old(world).placeholders,
        final(world).next_id == old(world).next_id + 1,
        final(world).wf(),
{
    let id = world.next_id;
    let ent = TowerEnt {
        id,
        tower: tower_type.get_tower(),
        tower_type: Some(tower_type),
        position,
    };
    world.towers.push(ent);
    world.next_id = world.next_id + 1;
    id
}

/// Replaces every currently selected build site with a tower of the
/// chosen archetype at the site's position.  The sites are destroyed, so
/// a repeated trigger without a new selection is a no-op.
#[verifier::loop_isolation(false)]
pub fn build_tower(world: &mut World, tower_type: TowerType)
    requires
        old(world).wf(),
        old(world).next_id + old(world).placeholders@.len() <= u64::MAX,
        forall|i: int|
            0 <= i < old(world).placeholders@.len() && (#[trigger] old(
                world,
            ).placeholders@[i]).selected ==> placement_ok(old(world).placeholders@[i].position),
    ensures
        final(world).placeholders@ =~= old(world).placeholders@.filter(
            |p: Placeholder| !p.selected,
        ),
        final(world).towers@ =~= old(world).towers@ + spec_placed_towers(
            old(world).placeholders@,
            tower_type,
            old(world).next_id,
        ),
        final(world).next_id == old(world).next_id + spec_placed_towers(
            old(world).placeholders@,
            tower_type,
            old(world).next_id,
        ).len(),
        final(world).targets == old(world).targets,
        final(world).bullets == old(world).bullets,
        final(world).wf(),
{
    let ghost ps0 = old(world).placeholders@;
    let ghost base = old(world).next_id;
    let mut kept: Vec<Placeholder> = Vec::new();
    proof {
        reveal(Seq::filter);
        assert(kept@ =~= ps0.take(0).filter(|p: Placeholder| !p.selected));
    }
    let n = world.placeholders.len();
    for i in 0..n
        invariant
            world.placeholders@ == ps0,
            world.targets == old(world).targets,
            world.bullets == old(world).bullets,
            world.towers@ =~= old(world).towers@ + spec_placed_towers(
                ps0.take(i as int),
                tower_type,
                base,
            ),
            world.next_id == base + spec_placed_towers(ps0.take(i as int), tower_type, base).len(),
            spec_placed_towers(ps0.take(i as int), tower_type, base).len() <= i,
            kept@ =~= ps0.take(i as int).filter(|p: Placeholder| !p.selected),
            forall|j: int| 0 <= j < world.towers@.len() ==> (#[trigger] world.towers@[j]).wf(),
            forall|j: int|
                0 <= j < world.towers@.len() ==> (#[trigger] world.towers@[j]).id
                    < world.next_id,
    {
        proof {
            reveal(Seq::filter);
            assert(ps0.take(i + 1).drop_last() =~= ps0.take(i as int));
            assert(ps0.take(i + 1).last() == ps0[i as int]);
        }
        let p = world.placeholders[i];
        if p.selected {
            let ent = TowerEnt {
                id: world.next_id,
                tower: tower_type.get_tower(),
                tower_type: Some(tower_type),
                position: p.position,
            };
            world.towers.push(ent);
            world.next_id = world.next_id + 1;
        } else {
            kept.push(p);
        }
    }
    proof {
        reveal(Seq::filter);
        assert(ps0.take(n as int) =~= ps0);
    }
    world.placeholders = kept;
    proof {
        lemma_filter_elems(ps0, |p: Placeholder| !p.selected);
        assert forall|j: int|
            0 <= j < world.placeholders@.len() implies (#[trigger] world.placeholders@[j]).wf()
                && world.placeholders@[j].id < world.next_id by {
            let x = world.placeholders@[j];
            assert(ps0.contains(x));
            let k = choose|k: int| 0 <= k < ps0.len() && ps0[k] == x;
            assert(old(world).placeholders@[k].wf());
        }
    }
}

/// The demo scene: two slow targets with three health each approaching
/// from negative X, and five unselected build sites in a row.
pub fn spawn_basic_scene() -> (w: World)
    ensures
        w.targets@.len() == 2,
        w.targets@[0] == (TargetEnt {
            id: 0u64,
            target: Target { speed: 300i64 },
            health: Health { value: 3i32 },
            position: Vec3 { x: -2_000_000i64, y: 400_000i64, z: 2_500_000i64 },
        }),
        w.targets@[1] == (TargetEnt {
            id: 1u64,
            target: Target { speed: 300i64 },
            health: Health { value: 3i32 },
            position: Vec3 { x: -4_000_000i64, y: 400_000i64, z: 2_500_000i64 },
        }),
        w.towers@.len() == 0,
        w.bullets@.len() == 0,
        w.placeholders@.len() == 5,
        forall|i: int|
            0 <= i < 5 ==> #[trigger] w.placeholders@[i] == (Placeholder {
                id: (2 + i) as u64,
                position: Vec3 { x: (500_000 + i * 1_000_000) as i64, y: 800_000i64, z: 0i64 },
                selected: false,
            }),
        w.next_id == 7,
        w.wf(),
{
    let mut w = World::new();
    w.targets.push(
        TargetEnt {
            id: 0,
            target: Target { speed: 300 },
            health: Health { value: 3 },
            position: Vec3::new(-2_000_000, 400_000, 2_500_000),
        },
    );
    w.targets.push(
        TargetEnt {
            id: 1,
            target: Target { speed: 300 },
            health: Health { value: 3 },
            position: Vec3::new(-4_000_000, 400_000, 2_500_000),
        },
    );
    let mut i: u64 = 0;
    while i < 5
        invariant
            0 <= i <= 5,
            w.targets@.len() == 2,
            w.targets@[0] == (TargetEnt {
                id: 0u64,
                target: Target { speed: 300i64 },
                health: Health { value: 3i32 },
                position: Vec3 { x: -2_000_000i64, y: 400_000i64, z: 2_500_000i64 },
            }),
            w.targets@[1] == (TargetEnt {
                id: 1u64,
                target: Target { speed: 300i64 },
                health: Health { value: 3i32 },
                position: Vec3 { x: -4_000_000i64, y: 400_000i64, z: 2_500_000i64 },
            }),
            w.towers@.len() == 0,
            w.bullets@.len() == 0,
            w.placeholders@.len() == i,
            forall|j: int|
                0 <= j < i ==> #[trigger] w.placeholders@[j] == (Placeholder {
                    id: (2 + j) as u64,
                    position: Vec3 {
                        x: (500_000 + j * 1_000_000) as i64,
                        y: 800_000i64,
                        z: 0i64,
                    },
                    selected: false,
                }),
        decreases 5 - i,
    {
        w.placeholders.push(
            Placeholder {
                id: 2 + i,
                position: Vec3::new(500_000 + (i as i64) * 1_000_000, 800_000, 0),
                selected: false,
            },
        );
        i = i + 1;
    }
    w.next_id = 7;
    w
}

} // verus!
