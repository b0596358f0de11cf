//! Entities and the world that owns them.
//!
//! In place of a generic entity/component store, the world holds one typed
//! collection per entity kind, each entry carrying an identifier that is
//! unique for the lifetime of the world (identifiers are handed out from
//! `next_id` and never reused).

use vstd::prelude::*;

use crate::components::{Bullet, Health, Lifetime, Target, Tower, TowerType};
use crate::units::COORD_LIMIT;
use crate::vec3::{in_world, spec_add, Vec3};

verus! {

/// Every element of a filtered sequence is an element of the original:
/// filtering preserves any property the original's elements share.
pub proof fn lemma_filter_elems<A>(s: Seq<A>, pred: spec_fn(A) -> bool)
    ensures
        forall|i: int|
            0 <= i < s.filter(pred).len() ==> s.contains(#[trigger] s.filter(pred)[i]),
    decreases s.len(),
{
    reveal(Seq::filter);
    if s.len() > 0 {
        let rest = s.drop_last();
        lemma_filter_elems(rest, pred);
        assert forall|i: int|
            0 <= i < s.filter(pred).len() implies s.contains(#[trigger] s.filter(pred)[i]) by {
            let x = s.filter(pred)[i];
            if i < rest.filter(pred).len() {
                assert(rest.contains(x));
                let w = choose|w: int| 0 <= w < rest.len() && rest[w] == x;
                assert(s[w] == x);
            } else {
                assert(x == s.last());
                assert(s[s.len() - 1] == x);
            }
        }
    }
}

/// A hostile target entity: drifts along X, carries health.
#[derive(Clone, Copy, Debug, PartialEq)]
pub struct TargetEnt {
    pub id: u64,
    pub target: Target,
    pub health: Health,
    pub position: Vec3,
}

impl TargetEnt {
    /// Between ticks a live target has positive health; any entity whose
    /// health reached zero or below is destroyed before the tick ends.
    pub open spec fn wf(self) -> bool {
        &&& self.target.wf()
        &&& in_world(self.position)
        &&& self.health.value >= 1
    }
}

/// A tower entity: a firing countdown, an optional archetype, a position.
#[derive(Clone, Copy, Debug, PartialEq)]
pub struct TowerEnt {
    pub id: u64,
    pub tower: Tower,
    /// `None` selects the hard-coded default parameters.
    pub tower_type: Option<TowerType>,
    pub position: Vec3,
}

impl TowerEnt {
    /// Where this tower's bullets appear: its position plus its local
    /// bullet offset, computed once at fire time.
    pub open spec fn spec_spawn_point(self) -> Vec3 {
        spec_add(self.position, self.tower.bullet_offset)
    }

    /// The spawn point stays inside the world, so the sums are exact.
    pub open spec fn spawn_point_ok(self) -> bool {
        &&& -COORD_LIMIT <= self.position.x + self.tower.bullet_offset.x <= COORD_LIMIT
        &&& -COORD_LIMIT <= self.position.y + self.tower.bullet_offset.y <= COORD_LIMIT
        &&& -COORD_LIMIT <= self.position.z + self.tower.bullet_offset.z <= COORD_LIMIT
    }

    pub open spec fn wf(self) -> bool {
        &&& self.tower.wf()
        &&& in_world(self.position)
        &&& self.spawn_point_ok()
    }
}

/// A projectile entity: raw aim vector, speed, expiry countdown, position.
#[derive(Clone, Copy, Debug, PartialEq)]
pub struct BulletEnt {
    pub id: u64,
    pub bullet: Bullet,
    pub lifetime: Lifetime,
    pub position: Vec3,
}

impl BulletEnt {
    pub open spec fn wf(self) -> bool {
        &&& self.bullet.wf()
        &&& self.lifetime.wf()
        &&& in_world(self.position)
    }
}

/// A build site: an entity a player can select; tower placement replaces
/// it with a concrete tower.
#[derive(Clone, Copy, Debug, PartialEq)]
pub struct Placeholder {
    pub id: u64,
    pub position: Vec3,
    /// External selection signal, written by the front end.
    pub selected: bool,
}

impl Placeholder {
    pub open spec fn wf(self) -> bool {
        in_world(self.position)
    }
}

/// The world: one typed collection per entity kind plus the identifier
/// counter.
#[derive(Debug, PartialEq)]
pub struct World {
    pub targets: Vec<TargetEnt>,
    pub towers: Vec<TowerEnt>,
    pub bullets: Vec<BulletEnt>,
    pub placeholders: Vec<Placeholder>,
    /// Next entity identifier to hand out; larger than every identifier
    /// in use.
    pub next_id: u64,
}

impl World {
    pub open spec fn wf(self) -> bool {
        &&& forall|i: int| 0 <= i < self.targets@.len() ==> (#[trigger] self.targets@[i]).wf()
        &&& forall|i: int| 0 <= i < self.towers@.len() ==> (#[trigger] self.towers@[i]).wf()
        &&& forall|i: int| 0 <= i < self.bullets@.len() ==> (#[trigger] self.bullets@[i]).wf()
        &&& forall|i: int|
            0 <= i < self.placeholders@.len() ==> (#[trigger] self.placeholders@[i]).wf()
        &&& forall|i: int|
            0 <= i < self.targets@.len() ==> (#[trigger] self.targets@[i]).id < self.next_id
        &&& forall|i: int|
            0 <= i < self.towers@.len() ==> (#[trigger] self.towers@[i]).id < self.next_id
        &&& forall|i: int|
            0 <= i < self.bullets@.len() ==> (#[trigger] self.bullets@[i]).id < self.next_id
        &&& forall|i: int|
            0 <= i < self.placeholders@.len() ==> (#[trigger] self.placeholders@[i]).id
                < self.next_id
    }

    /// An empty world.
    pub fn new() -> (w: World)
        ensures
            w.targets@ == Seq::<TargetEnt>::empty(),
            w.towers@ == Seq::<TowerEnt>::empty(),
            w.bullets@ == Seq::<BulletEnt>::empty(),
            w.placeholders@ == Seq::<Placeholder>::empty(),
            w.next_id == 0,
            w.wf(),
    {
        let w = World {
            targets: Vec::new(),
            towers: Vec::new(),
            bullets: Vec::new(),
            placeholders: Vec::new(),
            next_id: 0,
        };
        proof {
            assert(w.targets@ =~= Seq::<TargetEnt>::empty());
            assert(w.towers@ =~= Seq::<TowerEnt>::empty());
            assert(w.bullets@ =~= Seq::<BulletEnt>::empty());
            assert(w.placeholders@ =~= Seq::<Placeholder>::empty());
        }
        w
    }
}

} // verus!
