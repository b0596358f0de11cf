//! Tower targeting and firing.
//!
//! Each tick every tower's firing countdown advances; a tower whose
//! countdown completes this tick fires once: it acquires the live target
//! nearest to its bullet spawn point (first in scan order on ties) and
//! spawns a bullet aimed at it.  With no live targets the shot is wasted:
//! no bullet appears, but the countdown has rearmed all the same.

use vstd::prelude::*;

use crate::components::{
    new_lifetime, bullet_speed_of, spec_bullet_speed_of, Bullet, Lifetime, Tower,
    BULLET_LIFETIME_MS,
};
use crate::timer::{Timer, TimerMode};
use crate::units::DT_LIMIT;
use crate::vec3::{in_world, spec_dist_sq, spec_sub, Vec3};
use crate::world::{BulletEnt, TargetEnt, TowerEnt};

verus! {

/// A tower after its firing countdown advanced by `dt`.
pub open spec fn spec_ticked_tower(t: TowerEnt, dt: u64) -> TowerEnt {
    TowerEnt {
        tower: Tower { shooting_timer: t.tower.shooting_timer.spec_tick(dt), ..t.tower },
        ..t
    }
}

/// True when the tower's countdown completes within this tick.
pub open spec fn spec_fires(t: TowerEnt, dt: u64) -> bool {
    t.tower.shooting_timer.spec_tick(dt).just_finished
}

/// The index of the target nearest to `p`, scanning forward and keeping
/// the earliest on ties (0 if there are no targets).
pub open spec fn nearest_idx(ts: Seq<TargetEnt>, p: Vec3) -> int
    decreases ts.len(),
{
    if ts.len() <= 1 {
        0
    } else {
        let r = nearest_idx(ts.drop_last(), p);
        if spec_dist_sq(ts.last().position, p) < spec_dist_sq(ts[r].position, p) {
            ts.len() - 1
        } else {
            r
        }
    }
}

/// `j` is the first index at minimal distance from `p`.
pub open spec fn spec_nearest(ts: Seq<TargetEnt>, p: Vec3, j: int) -> bool {
    &&& 0 <= j < ts.len()
    &&& forall|k: int|
        0 <= k < ts.len() ==> spec_dist_sq(ts[j].position, p) <= spec_dist_sq(
            (#[trigger] ts[k]).position,
            p,
        )
    &&& forall|k: int|
        0 <= k < j ==> spec_dist_sq(ts[j].position, p) < spec_dist_sq(
            (#[trigger] ts[k]).position,
            p,
        )
}

/// `nearest_idx` picks exactly the first index at minimal distance.
pub proof fn lemma_nearest_is_first_min(ts: Seq<TargetEnt>, p: Vec3)
    requires
        ts.len() > 0,
    ensures
        spec_nearest(ts, p, nearest_idx(ts, p)),
    decreases ts.len(),
{
    if ts.len() > 1 {
        let rest = ts.drop_last();
        lemma_nearest_is_first_min(rest, p);
        let r = nearest_idx(rest, p);
        let j = nearest_idx(ts, p);
        assert forall|k: int| 0 <= k < ts.len() implies spec_dist_sq(ts[j].position, p)
            <= spec_dist_sq((#[trigger] ts[k]).position, p) by {
            if k < ts.len() - 1 {
                assert(ts[k] == rest[k]);
                assert(spec_dist_sq(rest[r].position, p) <= spec_dist_sq(rest[k].position, p));
            }
        }
        assert forall|k: int| 0 <= k < j implies spec_dist_sq(ts[j].position, p) < spec_dist_sq(
            (#[trigger] ts[k]).position,
            p,
        ) by {
            if j == ts.len() - 1 {
                assert(ts[k] == rest[k]);
                assert(spec_dist_sq(rest[r].position, p) <= spec_dist_sq(rest[k].position, p));
            } else {
                assert(ts[k] == rest[k]);
                assert(spec_dist_sq(rest[r].position, p) < spec_dist_sq(rest[k].position, p));
            }
        }
    }
}

/// The bullet a tower fires: spawned at the tower's spawn point, aimed
/// by the raw difference vector to the nearest target, at the archetype's
/// bullet speed, with a fresh expiry countdown.
pub open spec fn spec_fired_bullet(t: TowerEnt, ts: Seq<TargetEnt>, id: u64) -> BulletEnt {
    let sp = t.spec_spawn_point();
    let j = nearest_idx(ts, sp);
    BulletEnt {
        id,
        bullet: Bullet {
            direction: spec_sub(ts[j].position, sp),
            speed: spec_bullet_speed_of(t.tower_type),
        },
        lifetime: Lifetime {
            timer: Timer {
                mode: TimerMode::Once,
                duration_ms: BULLET_LIFETIME_MS,
                elapsed_ms: 0u64,
                just_finished: false,
            },
        },
        position: sp,
    }
}

/// All bullets fired in one tick, in tower scan order, with identifiers
/// handed out consecutively from `base`.
pub open spec fn spec_volley(
    towers: Seq<TowerEnt>,
    ts: Seq<TargetEnt>,
    dt: u64,
    base: u64,
) -> Seq<BulletEnt>
    decreases towers.len(),
{
    if towers.len() == 0 {
        Seq::empty()
    } else {
        let rest = spec_volley(towers.drop_last(), ts, dt, base);
        if spec_fires(towers.last(), dt) && ts.len() > 0 {
            rest.push(spec_fired_bullet(towers.last(), ts, (base + rest.len()) as u64))
        } else {
            rest
        }
    }
}

/// A volley holds at most one bullet per tower.
pub proof fn lemma_volley_len(towers: Seq<TowerEnt>, ts: Seq<TargetEnt>, dt: u64, base: u64)
    ensures
        spec_volley(towers, ts, dt, base).len() <= towers.len(),
    decreases towers.len(),
{
    if towers.len() > 0 {
        lemma_volley_len(towers.drop_last(), ts, dt, base);
    }
}

/// Every bullet of a volley is well-formed — spawned inside the world,
/// aimed by an in-range direction, at a bounded speed, with a fresh
/// expiry countdown — and carries the identifier `base + i`.
pub proof fn lemma_volley_elems(towers: Seq<TowerEnt>, ts: Seq<TargetEnt>, dt: u64, base: u64)
    requires
        forall|i: int| 0 <= i < towers.len() ==> (#[trigger] towers[i]).wf(),
        forall|k: int| 0 <= k < ts.len() ==> in_world((#[trigger] ts[k]).position),
        base + towers.len() <= u64::MAX,
    ensures
        forall|i: int|
            0 <= i < spec_volley(towers, ts, dt, base).len() ==> {
                let b = #[trigger] spec_volley(towers, ts, dt, base)[i];
                b.wf() && b.id == base + i
            },
    decreases towers.len(),
{
    if towers.len() > 0 {
        let head = towers.drop_last();
        assert forall|i: int| 0 <= i < head.len() implies (#[trigger] head[i]).wf() by {
            assert(towers[i].wf());
        }
        lemma_volley_elems(head, ts, dt, base);
        lemma_volley_len(head, ts, dt, base);
        let rest = spec_volley(head, ts, dt, base);
        let vol = spec_volley(towers, ts, dt, base);
        if spec_fires(towers.last(), dt) && ts.len() > 0 {
            let tw = towers.last();
            assert(tw.wf());
            let sp = tw.spec_spawn_point();
            assert(in_world(sp));
            lemma_nearest_is_first_min(ts, sp);
            let j = nearest_idx(ts, sp);
            assert(in_world(ts[j].position));
            let b = spec_fired_bullet(tw, ts, (base + rest.len()) as u64);
            assert(b.wf()) by {
                assert(0 <= spec_bullet_speed_of(tw.tower_type) <= crate::units::SPEED_LIMIT);
            }
            assert forall|i: int| 0 <= i < vol.len() implies {
                let bb = #[trigger] vol[i];
                bb.wf() && bb.id == base + i
            } by {
                if i < rest.len() {
                    assert(vol[i] == rest[i]);
                } else {
                    assert(vol[i] == b);
                }
            }
        }
    }
}

/// With no live targets no bullet is ever created, whatever fires.
pub proof fn lemma_no_targets_no_bullets(towers: Seq<TowerEnt>, dt: u64, base: u64)
    ensures
        spec_volley(towers, Seq::empty(), dt, base) =~= Seq::<BulletEnt>::empty(),
    decreases towers.len(),
{
    if towers.len() > 0 {
        lemma_no_targets_no_bullets(towers.drop_last(), dt, base);
    }
}

/// The index of the live target nearest to `p` (first in scan order on
/// ties).
#[verifier::loop_isolation(false)]
pub fn nearest_target(targets: &Vec<TargetEnt>, p: Vec3) -> (r: usize)
    requires
        targets@.len() > 0,
        in_world(p),
        forall|k: int| 0 <= k < targets@.len() ==> in_world((#[trigger] targets@[k]).position),
    ensures
        r as int == nearest_idx(targets@, p),
        spec_nearest(targets@, p, r as int),
{
    let mut best: usize = 0;
    let mut best_d: i64 = targets[0].position.dist_sq(p);
    let n = targets.len();
    for k in 1..n
        invariant
            best < k,
            best as int == nearest_idx(targets@.take(k as int), p),
            best_d == spec_dist_sq(targets@[best as int].position, p),
    {
        proof {
            assert(targets@.take(k + 1).drop_last() =~= targets@.take(k as int));
            assert(targets@.take(k + 1).last() == targets@[k as int]);
        }
        let d = targets[k].position.dist_sq(p);
        if d < best_d {
            best = k;
            best_d = d;
        }
    }
    proof {
        assert(targets@.take(n as int) =~= targets@);
        lemma_nearest_is_first_min(targets@, p);
    }
    best
}

/// Advances every tower's firing countdown by `dt` and appends the fired
/// bullets, handing out fresh identifiers from `next_id`.
#[verifier::loop_isolation(false)]
pub fn tower_shooting(
    towers: &mut Vec<TowerEnt>,
    targets: &Vec<TargetEnt>,
    bullets: &mut Vec<BulletEnt>,
    next_id: &mut u64,
    dt: u64,
)
    requires
        dt <= DT_LIMIT,
        forall|i: int| 0 <= i < old(towers)@.len() ==> (#[trigger] old(towers)@[i]).wf(),
        forall|k: int| 0 <= k < targets@.len() ==> in_world((#[trigger] targets@[k]).position),
        *old(next_id) + old(towers)@.len() <= u64::MAX,
    ensures
        final(towers)@ =~= old(towers)@.map_values(|t: TowerEnt| spec_ticked_tower(t, dt)),
        final(bullets)@ =~= old(bullets)@ + spec_volley(
            old(towers)@,
            targets@,
            dt,
            *old(next_id),
        ),
        *final(next_id) == *old(next_id) + spec_volley(
            old(towers)@,
            targets@,
            dt,
            *old(next_id),
        ).len(),
{
    let ghost tws0 = old(towers)@;
    let ghost base = *old(next_id);
    let n = towers.len();
    for i in 0..n
        invariant
            towers@.len() == tws0.len(),
            forall|j: int| 0 <= j < i ==> towers@[j] == spec_ticked_tower(tws0[j], dt),
            forall|j: int| i <= j < tws0.len() ==> towers@[j] == tws0[j],
            bullets@ =~= old(bullets)@ + spec_volley(tws0.take(i as int), targets@, dt, base),
            *next_id == base + spec_volley(tws0.take(i as int), targets@, dt, base).len(),
            spec_volley(tws0.take(i as int), targets@, dt, base).len() <= i,
    {
        proof {
            assert(tws0.take(i + 1).drop_last() =~= tws0.take(i as int));
            assert(tws0.take(i + 1).last() == tws0[i as int]);
        }
        let ghost rest = spec_volley(tws0.take(i as int), targets@, dt, base);
        let mut t = towers[i];
        t.tower.shooting_timer.tick(dt);
        towers.set(i, t);
        if t.tower.shooting_timer.just_finished && targets.len() > 0 {
            let sp = t.position.add(t.tower.bullet_offset);
            let j = nearest_target(targets, sp);
            let dir = targets[j].position.sub(sp);
            let ent = BulletEnt {
                id: *next_id,
                bullet: Bullet { direction: dir, speed: bullet_speed_of(t.tower_type) },
                lifetime: new_lifetime(),
                position: sp,
            };
            bullets.push(ent);
            *next_id = *next_id + 1;
            proof {
                assert(ent == spec_fired_bullet(tws0[i as int], targets@, (base
                    + rest.len()) as u64));
            }
        }
    }
    proof {
        assert(tws0.take(n as int) =~= tws0);
        assert(towers@ =~= tws0.map_values(|t: TowerEnt| spec_ticked_tower(t, dt)));
    }
}

} // verus!
