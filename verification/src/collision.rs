//! Collision resolution and target death.
//!
//! Collision runs strictly after motion and strictly before death within
//! a tick: a hit is checked against current-tick positions and a lethal
//! hit is visible to death cleanup in the same tick.

use vstd::prelude::*;

use crate::components::Health;
use crate::units::HIT_RADIUS_SQ;
use crate::vec3::{in_world, spec_dist_sq};
use crate::world::{BulletEnt, TargetEnt};

verus! {

/// A bullet strikes a target when their positions are closer than the
/// hit radius.
pub open spec fn spec_hits(b: BulletEnt, t: TargetEnt) -> bool {
    spec_dist_sq(b.position, t.position) < HIT_RADIUS_SQ
}

/// The bullet strikes none of the first `j` targets.
pub open spec fn no_hit_before(b: BulletEnt, ts: Seq<TargetEnt>, j: int) -> bool {
    forall|k: int| 0 <= k < j ==> !spec_hits(b, #[trigger] ts[k])
}

/// The bullet strikes no target at all; it survives the collision pass.
pub open spec fn spec_misses_all(b: BulletEnt, ts: Seq<TargetEnt>) -> bool {
    no_hit_before(b, ts, ts.len() as int)
}

/// Target `j` is the first target in scan order that the bullet strikes;
/// the bullet is consumed by it and damages no later target.
pub open spec fn spec_first_hit(b: BulletEnt, ts: Seq<TargetEnt>, j: int) -> bool {
    &&& 0 <= j < ts.len()
    &&& spec_hits(b, ts[j])
    &&& no_hit_before(b, ts, j)
}

/// How many of the bullets are consumed by target `j` in one collision
/// pass (each bullet damages only the first target it strikes).
pub open spec fn spec_hit_count(bs: Seq<BulletEnt>, ts: Seq<TargetEnt>, j: int) -> int
    decreases bs.len(),
{
    if bs.len() == 0 {
        0
    } else {
        spec_hit_count(bs.drop_last(), ts, j) + if spec_first_hit(bs.last(), ts, j) {
            1int
        } else {
            0int
        }
    }
}

/// A target after absorbing `hits` points of damage.
pub open spec fn spec_damaged(t: TargetEnt, hits: int) -> TargetEnt {
    TargetEnt { health: Health { value: (t.health.value - hits) as i32 }, ..t }
}

/// A collision pass consumes at most one bullet per bullet.
pub proof fn lemma_hit_count_le(bs: Seq<BulletEnt>, ts: Seq<TargetEnt>, j: int)
    ensures
        0 <= spec_hit_count(bs, ts, j) <= bs.len(),
    decreases bs.len(),
{
    if bs.len() > 0 {
        lemma_hit_count_le(bs.drop_last(), ts, j);
    }
}

/// The index of the first target the bullet strikes, if any.
#[verifier::loop_isolation(false)]
fn find_first_hit(b: &BulletEnt, targets: &Vec<TargetEnt>) -> (r: Option<usize>)
    requires
        in_world(b.position),
        forall|k: int| 0 <= k < targets@.len() ==> in_world((#[trigger] targets@[k]).position),
    ensures
        match r {
            Option::Some(j) => spec_first_hit(*b, targets@, j as int),
            Option::None => spec_misses_all(*b, targets@),
        },
{
    let n = targets.len();
    for j in 0..n
        invariant
            no_hit_before(*b, targets@, j as int),
    {
        let t = targets[j];
        if b.position.dist_sq(t.position) < HIT_RADIUS_SQ {
            return Option::Some(j);
        }
    }
    Option::None
}

/// Resolves all projectile/target proximity hits of this tick: every
/// bullet that strikes a target is consumed by the first target it
/// strikes (scan order), which loses one point of health per consuming
/// bullet; bullets that strike nothing survive in order.
#[verifier::loop_isolation(false)]
pub fn bullet_collision(bullets: &mut Vec<BulletEnt>, targets: &mut Vec<TargetEnt>)
    requires
        forall|i: int| 0 <= i < old(bullets)@.len() ==> in_world(
            (#[trigger] old(bullets)@[i]).position,
        ),
        forall|j: int| 0 <= j < old(targets)@.len() ==> in_world(
            (#[trigger] old(targets)@[j]).position,
        ),
        forall|j: int|
            0 <= j < old(targets)@.len() ==> (#[trigger] old(targets)@[j]).health.value - old(
                bullets,
            )@.len() >= i32::MIN,
    ensures
        final(bullets)@ =~= old(bullets)@.filter(
            |b: BulletEnt| spec_misses_all(b, old(targets)@),
        ),
        final(targets)@.len() == old(targets)@.len(),
        forall|j: int|
            0 <= j < old(targets)@.len() ==> final(targets)@[j] == spec_damaged(
                #[trigger] old(targets)@[j],
                spec_hit_count(old(bullets)@, old(targets)@, j),
            ),
{
    let ghost bs0 = old(bullets)@;
    let ghost ts0 = old(targets)@;
    let mut kept: Vec<BulletEnt> = Vec::new();
    proof {
        reveal(Seq::filter);
        assert(kept@ =~= bs0.take(0).filter(|b: BulletEnt| spec_misses_all(b, ts0)));
    }
    let n = bullets.len();
    for i in 0..n
        invariant
            bullets@ == bs0,
            targets@.len() == ts0.len(),
            forall|j: int|
                0 <= j < ts0.len() ==> {
                    let t = #[trigger] targets@[j];
                    t.position == ts0[j].position && t.id == ts0[j].id && t.target == ts0[j].target
                },
            forall|j: int|
                0 <= j < ts0.len() ==> (#[trigger] targets@[j]).health.value == ts0[j].health.value
                    - spec_hit_count(bs0.take(i as int), ts0, j),
            kept@ =~= bs0.take(i as int).filter(|b: BulletEnt| spec_misses_all(b, ts0)),
    {
        let b = bullets[i];
        let hit = find_first_hit(&b, targets);
        proof {
            reveal(Seq::filter);
            assert forall|k: int| 0 <= k < ts0.len() implies spec_hits(b, targets@[k])
                == spec_hits(b, #[trigger] ts0[k]) by {
                assert(targets@[k].position == ts0[k].position);
            }
            assert(bs0.take(i + 1).drop_last() =~= bs0.take(i as int));
            assert(bs0.take(i + 1).last() == b);
        }
        match hit {
            Option::Some(j) => {
                proof {
                    assert(spec_first_hit(b, ts0, j as int)) by {
                        assert(spec_hits(b, targets@[j as int]));
                        assert forall|k: int| 0 <= k < j implies !spec_hits(
                            b,
                            #[trigger] ts0[k],
                        ) by {
                            assert(!spec_hits(b, targets@[k]));
                        }
                    }
                    assert forall|j2: int|
                        0 <= j2 < ts0.len() implies spec_hit_count(bs0.take(i + 1), ts0, j2)
                        == spec_hit_count(bs0.take(i as int), ts0, j2) + (if j2 == j {
                        1int
                    } else {
                        0int
                    }) by {
                        if j2 != j {
                            assert(!spec_first_hit(b, ts0, j2)) by {
                                if spec_first_hit(b, ts0, j2) {
                                    if j2 < j {
                                        assert(!spec_hits(b, ts0[j2]));
                                    } else {
                                        assert(!spec_hits(b, ts0[j as int]));
                                    }
                                }
                            }
                        }
                        lemma_hit_count_le(bs0.take(i as int), ts0, j2);
                    }
                }
                let mut t = targets[j];
                proof {
                    lemma_hit_count_le(bs0.take(i as int), ts0, j as int);
                }
                t.health.value = t.health.value - 1;
                targets.set(j, t);
            },
            Option::None => {
                proof {
                    assert(spec_misses_all(b, ts0)) by {
                        assert forall|k: int| 0 <= k < ts0.len() implies !spec_hits(
                            b,
                            #[trigger] ts0[k],
                        ) by {
                            assert(!spec_hits(b, targets@[k]));
                        }
                    }
                    assert forall|j2: int|
                        0 <= j2 < ts0.len() implies spec_hit_count(bs0.take(i + 1), ts0, j2)
                        == spec_hit_count(bs0.take(i as int), ts0, j2) by {
                        assert(!spec_first_hit(b, ts0, j2));
                    }
                }
                kept.push(b);
            },
        }
    }
    proof {
        reveal(Seq::filter);
        assert(bs0.take(n as int) =~= bs0);
    }
    *bullets = kept;
}

/// Destroys every target whose health has reached zero or below, keeping
/// the order of the survivors.
#[verifier::loop_isolation(false)]
pub fn target_death(targets: &mut Vec<TargetEnt>)
    ensures
        final(targets)@ =~= old(targets)@.filter(|t: TargetEnt| t.health.value > 0),
{
    let ghost ts0 = old(targets)@;
    let mut kept: Vec<TargetEnt> = Vec::new();
    proof {
        reveal(Seq::filter);
        assert(kept@ =~= ts0.take(0).filter(|t: TargetEnt| t.health.value > 0));
    }
    let n = targets.len();
    for i in 0..n
        invariant
            targets@ == ts0,
            kept@ =~= ts0.take(i as int).filter(|t: TargetEnt| t.health.value > 0),
    {
        let t = targets[i];
        proof {
            reveal(Seq::filter);
            assert(ts0.take(i + 1).drop_last() =~= ts0.take(i as int));
            assert(ts0.take(i + 1).last() == t);
        }
        if t.health.value > 0 {
            kept.push(t);
        }
    }
    proof {
        reveal(Seq::filter);
        assert(ts0.take(n as int) =~= ts0);
    }
    *targets = kept;
}

} // verus!
