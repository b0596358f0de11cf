//! One simulation tick: every combat system, in the mandated order.

use vstd::prelude::*;

use crate::collision::{
    bullet_collision, spec_damaged, spec_hit_count, spec_misses_all, target_death,
};
use crate::motion::{
    bullet_despawn, bullet_move_ok, lemma_moved_bullet_in_world, move_bullets, move_targets,
    spec_aged_bullet, spec_expired, spec_moved_bullet, spec_moved_target, target_move_ok,
};
use crate::shooting::{
    lemma_volley_elems, lemma_volley_len, spec_ticked_tower, spec_volley, tower_shooting,
};
use crate::units::DT_LIMIT;
use crate::vec3::in_world;
use crate::world::{lemma_filter_elems, BulletEnt, TargetEnt, TowerEnt, World};

verus! {

impl World {
    /// The targets after this tick's motion pass.
    pub open spec fn spec_targets_after_motion(self, dt: u64) -> Seq<TargetEnt> {
        self.targets@.map_values(|t: TargetEnt| spec_moved_target(t, dt))
    }

    /// The pre-existing bullets that survive this tick's flight and
    /// expiry (bullets fired this tick neither move nor expire yet).
    pub open spec fn spec_bullets_after_flight(self, dt: u64) -> Seq<BulletEnt> {
        self.bullets@.map_values(|e: BulletEnt| spec_moved_bullet(e, dt)).map_values(
            |e: BulletEnt| spec_aged_bullet(e, dt),
        ).filter(|e: BulletEnt| !spec_expired(e))
    }

    /// The bullets fired this tick, aimed at post-motion positions.
    pub open spec fn spec_tick_volley(self, dt: u64) -> Seq<BulletEnt> {
        spec_volley(self.towers@, self.spec_targets_after_motion(dt), dt, self.next_id)
    }

    /// Every bullet alive when collision resolution runs.
    pub open spec fn spec_bullets_before_collision(self, dt: u64) -> Seq<BulletEnt> {
        self.spec_bullets_after_flight(dt) + self.spec_tick_volley(dt)
    }

    /// The bullets that survive the whole tick.
    pub open spec fn spec_bullets_after_tick(self, dt: u64) -> Seq<BulletEnt> {
        self.spec_bullets_before_collision(dt).filter(
            |b: BulletEnt| spec_misses_all(b, self.spec_targets_after_motion(dt)),
        )
    }

    /// The targets after collision damage, before death cleanup.
    pub open spec fn spec_targets_after_collision(self, dt: u64) -> Seq<TargetEnt> {
        let t1 = self.spec_targets_after_motion(dt);
        let b2 = self.spec_bullets_before_collision(dt);
        Seq::new(t1.len(), |j: int| spec_damaged(t1[j], spec_hit_count(b2, t1, j)))
    }

    /// The targets that survive the whole tick.
    pub open spec fn spec_targets_after_tick(self, dt: u64) -> Seq<TargetEnt> {
        self.spec_targets_after_collision(dt).filter(|t: TargetEnt| t.health.value > 0)
    }

    /// The towers after this tick: countdowns advanced, nothing else.
    pub open spec fn spec_towers_after_tick(self, dt: u64) -> Seq<TowerEnt> {
        self.towers@.map_values(|t: TowerEnt| spec_ticked_tower(t, dt))
    }

    /// The identifier counter after this tick: one fresh identifier per
    /// bullet fired.
    pub open spec fn spec_next_id_after_tick(self, dt: u64) -> int {
        self.next_id + self.spec_tick_volley(dt).len()
    }

    /// The machine-limit margins one tick needs: a bounded time step,
    /// room for every entity to move without leaving the world, bounded
    /// entity counts, and identifier headroom.
    pub open spec fn spec_can_tick(self, dt: u64) -> bool {
        &&& dt <= DT_LIMIT
        &&& forall|i: int|
            0 <= i < self.targets@.len() ==> target_move_ok(#[trigger] self.targets@[i], dt)
        &&& forall|i: int|
            0 <= i < self.bullets@.len() ==> bullet_move_ok(#[trigger] self.bullets@[i], dt)
        &&& self.bullets@.len() + self.towers@.len() < 0x8000_0000
        &&& self.next_id + self.towers@.len() <= u64::MAX
    }

    /// One simulation step of `dt` milliseconds.  The order is fixed:
    /// target motion first (firing aims at this tick's positions), then
    /// projectile flight and expiry, then tower firing (a bullet spawned
    /// this tick does not move until the next tick), then collision
    /// resolution against current-tick positions, then target death,
    /// which sees this tick's damage.
    pub fn tick(&mut self, dt: u64)
        requires
            old(self).wf(),
            old(self).spec_can_tick(dt),
        ensures
            final(self).targets@ =~= old(self).spec_targets_after_tick(dt),
            final(self).towers@ =~= old(self).spec_towers_after_tick(dt),
            final(self).bullets@ =~= old(self).spec_bullets_after_tick(dt),
            final(self).placeholders == old(self).placeholders,
            final(self).next_id == old(self).spec_next_id_after_tick(dt),
            final(self).wf(),
    {
        let ghost w0 = *old(self);

        // 1. Target motion.
        move_targets(&mut self.targets, dt);
        let ghost t1 = self.targets@;
        proof {
            assert(t1 =~= w0.spec_targets_after_motion(dt));
            assert forall|k: int| 0 <= k < t1.len() implies in_world((#[trigger] t1[k]).position)
                && t1[k].health == w0.targets@[k].health && t1[k].target == w0.targets@[k].target
                && t1[k].id == w0.targets@[k].id by {
                assert(w0.targets@[k].wf());
                assert(target_move_ok(w0.targets@[k], dt));
            }
        }

        // 2. Projectile flight and expiry.
        proof {
            assert forall|k: int| 0 <= k < self.bullets@.len() implies (
            #[trigger] self.bullets@[k]).wf() && bullet_move_ok(self.bullets@[k], dt) by {
                assert(w0.bullets@[k].wf());
            }
        }
        move_bullets(&mut self.bullets, dt);
        let ghost m1 = w0.bullets@.map_values(|e: BulletEnt| spec_moved_bullet(e, dt));
        proof {
            assert(self.bullets@ == m1);
            assert forall|k: int| 0 <= k < m1.len() implies (#[trigger] m1[k]).lifetime.wf()
                && m1[k].bullet.wf() && in_world(m1[k].position) && m1[k].id
                < w0.next_id by {
                assert(w0.bullets@[k].wf());
                lemma_moved_bullet_in_world(w0.bullets@[k], dt);
            }
        }
        bullet_despawn(&mut self.bullets, dt);
        let ghost m2 = m1.map_values(|e: BulletEnt| spec_aged_bullet(e, dt));
        let ghost b1 = self.bullets@;
        proof {
            assert(b1 == m2.filter(|e: BulletEnt| !spec_expired(e)));
            assert(b1 =~= w0.spec_bullets_after_flight(dt));
            assert forall|k: int| 0 <= k < m2.len() implies (#[trigger] m2[k]).wf() && m2[k].id
                < w0.next_id by {
                assert(m1[k].lifetime.wf() && m1[k].bullet.wf() && in_world(m1[k].position));
                m1[k].lifetime.timer.lemma_spec_tick_wf(dt);
            }
            lemma_filter_elems(m2, |e: BulletEnt| !spec_expired(e));
            assert forall|k: int| 0 <= k < b1.len() implies (#[trigger] b1[k]).wf() && b1[k].id
                < w0.next_id by {
                assert(m2.contains(b1[k]));
                let j = choose|j: int| 0 <= j < m2.len() && m2[j] == b1[k];
                assert(m2[j].wf());
            }
            m2.lemma_filter_len(|e: BulletEnt| !spec_expired(e));
        }

        // 3. Tower targeting and firing, aimed at post-motion positions.
        tower_shooting(&mut self.towers, &self.targets, &mut self.bullets, &mut self.next_id, dt);
        let ghost vol = spec_volley(w0.towers@, t1, dt, w0.next_id);
        let ghost b2 = self.bullets@;
        proof {
            assert(vol =~= w0.spec_tick_volley(dt));
            assert(b2 =~= b1 + vol);
            assert(b2 =~= w0.spec_bullets_before_collision(dt));
            lemma_volley_len(w0.towers@, t1, dt, w0.next_id);
            lemma_volley_elems(w0.towers@, t1, dt, w0.next_id);
            assert(self.towers@ =~= w0.spec_towers_after_tick(dt));
            assert(self.next_id == w0.next_id + vol.len());
            assert forall|k: int| 0 <= k < b2.len() implies (#[trigger] b2[k]).wf() && b2[k].id
                < self.next_id by {
                if k < b1.len() {
                    assert(b2[k] == b1[k]);
                } else {
                    assert(b2[k] == vol[k - b1.len()]);
                }
            }
        }

        // 4. Collision resolution.
        proof {
            assert forall|j: int| 0 <= j < t1.len() implies (#[trigger] t1[j]).health.value
                - b2.len() >= i32::MIN by {
                assert(w0.targets@[j].wf());
            }
        }
        bullet_collision(&mut self.bullets, &mut self.targets);
        let ghost t2 = w0.spec_targets_after_collision(dt);
        proof {
            assert(self.bullets@ =~= b2.filter(|b: BulletEnt| spec_misses_all(b, t1)));
            assert((|b: BulletEnt| spec_misses_all(b, t1)) =~= (
            |b: BulletEnt| spec_misses_all(b, w0.spec_targets_after_motion(dt))));
            assert(self.bullets@ =~= w0.spec_bullets_after_tick(dt));
            assert(self.targets@ =~= t2);
            lemma_filter_elems(b2, |b: BulletEnt| spec_misses_all(b, t1));
            assert forall|k: int| 0 <= k < self.bullets@.len() implies (
            #[trigger] self.bullets@[k]).wf() && self.bullets@[k].id < self.next_id by {
                assert(b2.contains(self.bullets@[k]));
                let j = choose|j: int| 0 <= j < b2.len() && b2[j] == self.bullets@[k];
                assert(b2[j].wf());
            }
            assert forall|j: int| 0 <= j < t2.len() implies (#[trigger] t2[j]).target.wf()
                && in_world(t2[j].position) && t2[j].id < w0.next_id by {
                assert(t2[j] == spec_damaged(t1[j], spec_hit_count(b2, t1, j)));
                assert(w0.targets@[j].wf());
            }
        }

        // 5. Target death, which sees this tick's damage.
        target_death(&mut self.targets);
        proof {
            assert(self.targets@ == t2.filter(|t: TargetEnt| t.health.value > 0));
            assert(self.targets@ =~= w0.spec_targets_after_tick(dt));
            lemma_filter_elems(t2, |t: TargetEnt| t.health.value > 0);
            assert forall|k: int| 0 <= k < self.targets@.len() implies (
            #[trigger] self.targets@[k]).wf() && self.targets@[k].id < self.next_id by {
                assert(t2.contains(self.targets@[k]));
                let j = choose|j: int| 0 <= j < t2.len() && t2[j] == self.targets@[k];
                assert(t2[j].target.wf() && in_world(t2[j].position) && t2[j].id < w0.next_id);
                t2.lemma_filter_pred(|t: TargetEnt| t.health.value > 0, k);
            }
        }

        // The world is well-formed again: every surviving entity is
        // well-formed and every identifier in use is below `next_id`.
        proof {
            assert forall|k: int| 0 <= k < self.towers@.len() implies (
            #[trigger] self.towers@[k]).wf() && self.towers@[k].id < self.next_id by {
                assert(w0.towers@[k].wf());
                w0.towers@[k].tower.shooting_timer.lemma_spec_tick_wf(dt);
                assert(self.towers@[k] == spec_ticked_tower(w0.towers@[k], dt));
            }
            assert forall|k: int| 0 <= k < self.placeholders@.len() implies (
            #[trigger] self.placeholders@[k]).wf() && self.placeholders@[k].id
                < self.next_id by {
                assert(w0.placeholders@[k].wf());
            }
        }
    }
}

} // verus!
