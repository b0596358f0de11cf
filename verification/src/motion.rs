//! Per-tick motion: target drift, projectile flight, projectile expiry.

use vstd::prelude::*;

use crate::components::Lifetime;
use crate::math::{lemma_mul_range, lemma_square_bound, lemma_component_le_sqrt, isqrt, sqrt_floor};
use crate::units::{COORD_LIMIT, DIR_LIMIT, DT_LIMIT, SPEED_LIMIT};
use crate::vec3::{spec_mag_sq, Vec3};
use crate::world::{BulletEnt, TargetEnt};

verus! {

/// A target after one tick of drift: `position.x` advances by exactly
/// `speed * dt`; everything else is unchanged.
pub open spec fn spec_moved_target(t: TargetEnt, dt: u64) -> TargetEnt {
    TargetEnt {
        position: Vec3 { x: (t.position.x + t.target.speed * dt) as i64, ..t.position },
        ..t
    }
}

/// The drift keeps the target inside the world this tick.
pub open spec fn target_move_ok(t: TargetEnt, dt: u64) -> bool {
    -COORD_LIMIT <= t.position.x + t.target.speed * dt <= COORD_LIMIT
}

/// Advances every target along the world X axis by `speed * dt`.
#[verifier::loop_isolation(false)]
pub fn move_targets(targets: &mut Vec<TargetEnt>, dt: u64)
    requires
        dt <= DT_LIMIT,
        forall|i: int| 0 <= i < old(targets)@.len() ==> (#[trigger] old(targets)@[i]).target.wf(),
        forall|i: int|
            0 <= i < old(targets)@.len() ==> target_move_ok(#[trigger] old(targets)@[i], dt),
    ensures
        final(targets)@ =~= old(targets)@.map_values(|t: TargetEnt| spec_moved_target(t, dt)),
{
    let n = targets.len();
    for i in 0..n
        invariant
            targets@.len() == old(targets)@.len(),
            forall|j: int| 0 <= j < i ==> targets@[j] == spec_moved_target(old(targets)@[j], dt),
            forall|j: int| i <= j < targets@.len() ==> targets@[j] == old(targets)@[j],
    {
        let ent = targets[i];
        proof {
            lemma_mul_range(ent.target.speed as int, SPEED_LIMIT as int, dt as int, DT_LIMIT as int);
        }
        let step: i64 = ent.target.speed * (dt as i64);
        let moved = TargetEnt {
            position: Vec3 { x: ent.position.x + step, ..ent.position },
            ..ent
        };
        targets.set(i, moved);
    }
    proof {
        assert(targets@ =~= old(targets)@.map_values(|t: TargetEnt| spec_moved_target(t, dt)));
    }
}

/// One axis of a projectile displacement: `d * step / len`, rounded
/// towards zero, where `len` normalizes the raw direction vector.
pub open spec fn spec_axis_delta(d: int, step: int, len_: int) -> int {
    if d >= 0 {
        (d * step) / len_
    } else {
        -(((-d) * step) / len_)
    }
}

/// A bullet after one tick of flight: its position advances by
/// `normalize(direction) * speed * dt` in fixed point (each axis moves by
/// `direction_axis * speed * dt / |direction|`, rounded towards zero).
/// A bullet with a zero direction does not move.
pub open spec fn spec_moved_bullet(e: BulletEnt, dt: u64) -> BulletEnt {
    let step = e.bullet.speed * dt;
    let len_ = sqrt_floor(spec_mag_sq(e.bullet.direction));
    if len_ == 0 {
        e
    } else {
        BulletEnt {
            position: Vec3 {
                x: (e.position.x + spec_axis_delta(e.bullet.direction.x as int, step, len_)) as i64,
                y: (e.position.y + spec_axis_delta(e.bullet.direction.y as int, step, len_)) as i64,
                z: (e.position.z + spec_axis_delta(e.bullet.direction.z as int, step, len_)) as i64,
            },
            ..e
        }
    }
}

/// The flight keeps the bullet inside the world this tick: each axis
/// moves by at most `speed * dt`.
pub open spec fn bullet_move_ok(e: BulletEnt, dt: u64) -> bool {
    &&& -COORD_LIMIT <= e.position.x - e.bullet.speed * dt
    &&& e.position.x + e.bullet.speed * dt <= COORD_LIMIT
    &&& -COORD_LIMIT <= e.position.y - e.bullet.speed * dt
    &&& e.position.y + e.bullet.speed * dt <= COORD_LIMIT
    &&& -COORD_LIMIT <= e.position.z - e.bullet.speed * dt
    &&& e.position.z + e.bullet.speed * dt <= COORD_LIMIT
}

/// One tick of flight moves a bullet by at most `speed * dt` per axis,
/// so the margins of `bullet_move_ok` keep it inside the world; nothing
/// but the position changes.
pub proof fn lemma_moved_bullet_in_world(e: BulletEnt, dt: u64)
    requires
        e.bullet.wf(),
        crate::vec3::in_world(e.position),
        bullet_move_ok(e, dt),
        dt <= DT_LIMIT,
    ensures
        crate::vec3::in_world(spec_moved_bullet(e, dt).position),
        spec_moved_bullet(e, dt).bullet == e.bullet,
        spec_moved_bullet(e, dt).lifetime == e.lifetime,
        spec_moved_bullet(e, dt).id == e.id,
{
    let step = e.bullet.speed * dt;
    lemma_mul_range(e.bullet.speed as int, SPEED_LIMIT as int, dt as int, DT_LIMIT as int);
    vstd::arithmetic::mul::lemma_mul_nonnegative(e.bullet.speed as int, dt as int);
    let d = e.bullet.direction;
    lemma_square_bound(d.x as int, DIR_LIMIT as int);
    lemma_square_bound(d.y as int, DIR_LIMIT as int);
    lemma_square_bound(d.z as int, DIR_LIMIT as int);
    let msq = spec_mag_sq(d);
    let len_ = sqrt_floor(msq);
    if len_ != 0 {
        crate::math::lemma_sqrt_floor_bounds(msq);
        lemma_component_le_sqrt(msq, d.x as int);
        lemma_component_le_sqrt(msq, d.y as int);
        lemma_component_le_sqrt(msq, d.z as int);
        lemma_axis_delta_bound(d.x as int, step, len_);
        lemma_axis_delta_bound(d.y as int, step, len_);
        lemma_axis_delta_bound(d.z as int, step, len_);
    }
}

/// The fixed-point axis displacement never exceeds `step` in magnitude.
proof fn lemma_axis_delta_bound(d: int, step: int, len_: int)
    requires
        1 <= len_,
        -len_ <= d <= len_,
        0 <= step,
    ensures
        -step <= spec_axis_delta(d, step, len_) <= step,
{
    if d >= 0 {
        vstd::arithmetic::mul::lemma_mul_nonnegative(d, step);
        vstd::arithmetic::mul::lemma_mul_inequality(d, len_, step);
        vstd::arithmetic::div_mod::lemma_div_is_ordered(d * step, len_ * step, len_);
        vstd::arithmetic::div_mod::lemma_div_multiples_vanish(step, len_);
        vstd::arithmetic::div_mod::lemma_div_pos_is_pos(d * step, len_);
    } else {
        vstd::arithmetic::mul::lemma_mul_nonnegative(-d, step);
        vstd::arithmetic::mul::lemma_mul_inequality(-d, len_, step);
        vstd::arithmetic::div_mod::lemma_div_is_ordered((-d) * step, len_ * step, len_);
        vstd::arithmetic::div_mod::lemma_div_multiples_vanish(step, len_);
        vstd::arithmetic::div_mod::lemma_div_pos_is_pos((-d) * step, len_);
    }
}

/// One axis of the fixed-point displacement, with magnitude at most `step`.
fn axis_delta(d: i64, step: i64, len_: u64) -> (r: i64)
    requires
        1 <= len_,
        -DIR_LIMIT <= d <= DIR_LIMIT,
        -len_ <= d <= len_,
        0 <= step <= SPEED_LIMIT * DT_LIMIT,
    ensures
        r == spec_axis_delta(d as int, step as int, len_ as int),
        -step <= r <= step,
{
    let mag: u128 = if d >= 0 {
        d as u128
    } else {
        (-d) as u128
    };
    proof {
        lemma_mul_range(mag as int, DIR_LIMIT as int, step as int, SPEED_LIMIT * DT_LIMIT);
        vstd::arithmetic::mul::lemma_mul_inequality(mag as int, len_ as int, step as int);
        vstd::arithmetic::div_mod::lemma_div_is_ordered(
            mag * step,
            (len_ as int) * (step as int),
            len_ as int,
        );
        vstd::arithmetic::div_mod::lemma_div_multiples_vanish(step as int, len_ as int);
        vstd::arithmetic::div_mod::lemma_div_pos_is_pos(mag * step, len_ as int);
    }
    let q: u128 = (mag * (step as u128)) / (len_ as u128);
    if d >= 0 {
        q as i64
    } else {
        -(q as i64)
    }
}

/// Advances every bullet by `normalize(direction) * speed * dt`.
#[verifier::loop_isolation(false)]
pub fn move_bullets(bullets: &mut Vec<BulletEnt>, dt: u64)
    requires
        dt <= DT_LIMIT,
        forall|i: int| 0 <= i < old(bullets)@.len() ==> (#[trigger] old(bullets)@[i]).wf(),
        forall|i: int|
            0 <= i < old(bullets)@.len() ==> bullet_move_ok(#[trigger] old(bullets)@[i], dt),
    ensures
        final(bullets)@ =~= old(bullets)@.map_values(|e: BulletEnt| spec_moved_bullet(e, dt)),
{
    let n = bullets.len();
    for i in 0..n
        invariant
            bullets@.len() == old(bullets)@.len(),
            forall|j: int| 0 <= j < i ==> bullets@[j] == spec_moved_bullet(old(bullets)@[j], dt),
            forall|j: int| i <= j < bullets@.len() ==> bullets@[j] == old(bullets)@[j],
    {
        let ent = bullets[i];
        let msq: i64 = ent.bullet.direction.mag_sq();
        let len_: u64 = isqrt(msq as u64);
        if len_ > 0 {
            proof {
                lemma_mul_range(
                    ent.bullet.speed as int,
                    SPEED_LIMIT as int,
                    dt as int,
                    DT_LIMIT as int,
                );
                let d = ent.bullet.direction;
                lemma_square_bound(d.x as int, DIR_LIMIT as int);
                lemma_square_bound(d.y as int, DIR_LIMIT as int);
                lemma_square_bound(d.z as int, DIR_LIMIT as int);
                lemma_component_le_sqrt(msq as int, d.x as int);
                lemma_component_le_sqrt(msq as int, d.y as int);
                lemma_component_le_sqrt(msq as int, d.z as int);
            }
            let step: i64 = ent.bullet.speed * (dt as i64);
            let dx = axis_delta(ent.bullet.direction.x, step, len_);
            let dy = axis_delta(ent.bullet.direction.y, step, len_);
            let dz = axis_delta(ent.bullet.direction.z, step, len_);
            let moved = BulletEnt {
                position: Vec3 {
                    x: ent.position.x + dx,
                    y: ent.position.y + dy,
                    z: ent.position.z + dz,
                },
                ..ent
            };
            bullets.set(i, moved);
        } else {
            proof {
                assert(bullets@[i as int] == spec_moved_bullet(old(bullets)@[i as int], dt));
            }
        }
    }
    proof {
        assert(bullets@ =~= old(bullets)@.map_values(|e: BulletEnt| spec_moved_bullet(e, dt)));
    }
}

/// A bullet after its expiry countdown advanced by `dt`.
pub open spec fn spec_aged_bullet(e: BulletEnt, dt: u64) -> BulletEnt {
    BulletEnt { lifetime: Lifetime { timer: e.lifetime.timer.spec_tick(dt) }, ..e }
}

/// True when the countdown completed in the tick just applied.
pub open spec fn spec_expired(e: BulletEnt) -> bool {
    e.lifetime.timer.just_finished
}

/// Ages every bullet's expiry countdown by `dt` and destroys the bullets
/// whose countdown completed this tick, keeping the order of the rest.
#[verifier::loop_isolation(false)]
pub fn bullet_despawn(bullets: &mut Vec<BulletEnt>, dt: u64)
    requires
        dt <= DT_LIMIT,
        forall|i: int| 0 <= i < old(bullets)@.len() ==> (#[trigger] old(bullets)@[i]).wf(),
    ensures
        final(bullets)@ =~= old(bullets)@.map_values(|e: BulletEnt| spec_aged_bullet(e, dt))
            .filter(|e: BulletEnt| !spec_expired(e)),
{
    let ghost aged = old(bullets)@.map_values(|e: BulletEnt| spec_aged_bullet(e, dt));
    let mut kept: Vec<BulletEnt> = Vec::new();
    let n = bullets.len();
    proof {
        reveal(Seq::filter);
        assert(kept@ =~= aged.take(0).filter(|e: BulletEnt| !spec_expired(e)));
    }
    for i in 0..n
        invariant
            bullets@ == old(bullets)@,
            kept@ =~= aged.take(i as int).filter(|e: BulletEnt| !spec_expired(e)),
    {
        let mut ent = bullets[i];
        ent.lifetime.timer.tick(dt);
        proof {
            reveal(Seq::filter);
            assert(ent == aged[i as int]);
            assert(aged.take(i + 1).drop_last() =~= aged.take(i as int));
            assert(aged.take(i + 1).last() == aged[i as int]);
        }
        if !ent.lifetime.timer.just_finished {
            kept.push(ent);
        }
    }
    proof {
        reveal(Seq::filter);
        assert(aged.take(n as int) =~= aged);
    }
    *bullets = kept;
}

} // verus!
