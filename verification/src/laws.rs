//! The engine's cross-tick laws, stated over runs of many ticks and
//! proved from the per-tick contracts.

use vstd::prelude::*;

use crate::collision::{spec_first_hit, spec_hit_count, spec_misses_all};
use crate::motion::spec_moved_target;
use crate::timer::{Timer, TimerMode};
use crate::units::{COORD_LIMIT, DT_LIMIT};
use crate::world::{BulletEnt, TargetEnt, World};

verus! {

/// The total elapsed time of a run of ticks, in milliseconds.
pub open spec fn sum_dts(dts: Seq<u64>) -> int
    decreases dts.len(),
{
    if dts.len() == 0 {
        0
    } else {
        sum_dts(dts.drop_last()) + dts.last()
    }
}

/// Every tick of the run is within the per-tick time limit.
pub open spec fn dts_ok(dts: Seq<u64>) -> bool {
    forall|k: int| 0 <= k < dts.len() ==> #[trigger] dts[k] <= DT_LIMIT
}

/// A timer after a whole run of ticks.
pub open spec fn run_timer(t: Timer, dts: Seq<u64>) -> Timer
    decreases dts.len(),
{
    if dts.len() == 0 {
        t
    } else {
        run_timer(t, dts.drop_last()).spec_tick(dts.last())
    }
}

/// A target after a whole run of motion passes.
pub open spec fn run_target_motion(t: TargetEnt, dts: Seq<u64>) -> TargetEnt
    decreases dts.len(),
{
    if dts.len() == 0 {
        t
    } else {
        spec_moved_target(run_target_motion(t, dts.drop_last()), dts.last())
    }
}

/// The total elapsed time of a run is never negative.
pub proof fn lemma_sum_dts_nonneg(dts: Seq<u64>)
    ensures
        0 <= sum_dts(dts),
    decreases dts.len(),
{
    if dts.len() > 0 {
        lemma_sum_dts_nonneg(dts.drop_last());
    }
}

/// Law: over any run of ticks in which no tower fires at it, a target's
/// `position.x` advances by exactly `speed * total_elapsed_time`, and
/// nothing else about it changes — provided the drift stays inside the
/// world throughout the run.
pub proof fn lemma_target_motion_accumulates(t: TargetEnt, dts: Seq<u64>)
    requires
        t.target.wf(),
        dts_ok(dts),
        forall|k: int|
            0 <= k <= dts.len() ==> -COORD_LIMIT <= t.position.x + t.target.speed * sum_dts(
                #[trigger] dts.take(k),
            ) <= COORD_LIMIT,
    ensures
        run_target_motion(t, dts).position.x == t.position.x + t.target.speed * sum_dts(dts),
        run_target_motion(t, dts).position.y == t.position.y,
        run_target_motion(t, dts).position.z == t.position.z,
        run_target_motion(t, dts).target == t.target,
        run_target_motion(t, dts).health == t.health,
        run_target_motion(t, dts).id == t.id,
    decreases dts.len(),
{
    if dts.len() == 0 {
        assert(dts.take(0) =~= dts);
        assert(t.target.speed * 0 == 0);
    } else {
        let head = dts.drop_last();
        let d = dts.last();
        assert forall|k: int|
            0 <= k <= head.len() implies -COORD_LIMIT <= t.position.x + t.target.speed * sum_dts(
            #[trigger] head.take(k),
        ) <= COORD_LIMIT by {
            assert(head.take(k) =~= dts.take(k));
        }
        lemma_target_motion_accumulates(t, head);
        let prev = run_target_motion(t, head);
        assert(dts.take(dts.len() as int) =~= dts);
        assert(dts.take(head.len() as int) =~= head);
        vstd::arithmetic::mul::lemma_mul_is_distributive_add(
            t.target.speed as int,
            sum_dts(head),
            d as int,
        );
        assert(t.position.x + t.target.speed * sum_dts(dts) == prev.position.x + t.target.speed
            * d);
    }
}

/// A repeating timer's progress after a run equals the total elapsed
/// time (plus any initial progress) modulo its interval.
pub proof fn lemma_repeating_elapsed(t: Timer, dts: Seq<u64>)
    requires
        t.wf(),
        t.mode is Repeating,
        dts_ok(dts),
    ensures
        run_timer(t, dts).wf(),
        run_timer(t, dts).mode is Repeating,
        run_timer(t, dts).duration_ms == t.duration_ms,
        run_timer(t, dts).elapsed_ms == (t.elapsed_ms + sum_dts(dts)) % (t.duration_ms as int),
    decreases dts.len(),
{
    let m = t.duration_ms as int;
    if dts.len() == 0 {
        vstd::arithmetic::div_mod::lemma_small_mod(t.elapsed_ms as nat, t.duration_ms as nat);
    } else {
        let head = dts.drop_last();
        let d = dts.last();
        lemma_repeating_elapsed(t, head);
        lemma_sum_dts_nonneg(head);
        let prev = run_timer(t, head);
        let x = t.elapsed_ms + sum_dts(head);
        let e = prev.elapsed_ms + d;
        prev.lemma_spec_tick_wf(d);
        vstd::arithmetic::div_mod::lemma_add_mod_noop_right(d as int, x, m);
        if e < m {
            vstd::arithmetic::div_mod::lemma_small_mod(e as nat, t.duration_ms as nat);
        }
    }
}

/// Law: a repeating timer with interval `I` completes on exactly the
/// ticks in which the cumulative elapsed time crosses a new multiple of
/// `I` — so it first fires on the first tick where the cumulative time
/// reaches `I`, then after every further `I` of cumulative time, and
/// never more than once per tick.
pub proof fn lemma_repeating_fires_on_crossings(t: Timer, dts: Seq<u64>, k: int)
    requires
        t.wf(),
        t.mode is Repeating,
        dts_ok(dts),
        0 <= k < dts.len(),
    ensures
        run_timer(t, dts.take(k + 1)).just_finished <==> (t.elapsed_ms + sum_dts(
            dts.take(k + 1),
        )) / (t.duration_ms as int) > (t.elapsed_ms + sum_dts(dts.take(k))) / (
        t.duration_ms as int),
{
    let m = t.duration_ms as int;
    let pre = dts.take(k);
    let cur = dts.take(k + 1);
    assert(cur.drop_last() =~= pre);
    assert(cur.last() == dts[k]);
    assert forall|j: int| 0 <= j < pre.len() implies #[trigger] pre[j] <= DT_LIMIT by {
        assert(dts[j] <= DT_LIMIT);
    }
    lemma_repeating_elapsed(t, pre);
    lemma_sum_dts_nonneg(pre);
    let prev = run_timer(t, pre);
    let x = t.elapsed_ms + sum_dts(pre);
    let d = dts[k] as int;
    let q = x / m;
    let r = x % m;
    vstd::arithmetic::div_mod::lemma_fundamental_div_mod(x, m);
    vstd::arithmetic::div_mod::lemma_mod_division_less_than_divisor(x, m);
    // (x + d) / m == q + (r + d) / m
    vstd::arithmetic::div_mod::lemma_hoist_over_denominator(r + d, q, t.duration_ms as nat);
    assert(q * m == m * q) by (nonlinear_arith);
    assert(x + d == (r + d) + q * m);
    if r + d >= m {
        vstd::arithmetic::div_mod::lemma_div_is_ordered(m, r + d, m);
        vstd::arithmetic::div_mod::lemma_div_by_self(m);
        assert((x + d) / m > q);
    } else {
        vstd::arithmetic::div_mod::lemma_basic_div(r + d, m);
        assert((x + d) / m == q);
    }
}

/// A one-shot timer's progress after a run is the total elapsed time,
/// capped at its duration.
pub proof fn lemma_once_elapsed(t: Timer, dts: Seq<u64>)
    requires
        t.wf(),
        t.mode is Once,
        dts_ok(dts),
    ensures
        run_timer(t, dts).wf(),
        run_timer(t, dts).mode is Once,
        run_timer(t, dts).duration_ms == t.duration_ms,
        run_timer(t, dts).elapsed_ms == if t.elapsed_ms + sum_dts(dts) >= t.duration_ms {
            t.duration_ms as int
        } else {
            t.elapsed_ms + sum_dts(dts)
        },
    decreases dts.len(),
{
    if dts.len() > 0 {
        lemma_once_elapsed(t, dts.drop_last());
        lemma_sum_dts_nonneg(dts.drop_last());
        run_timer(t, dts.drop_last()).lemma_spec_tick_wf(dts.last());
    }
}

/// Law: a one-shot countdown of duration `L` completes on exactly the
/// first tick in which the cumulative elapsed time since it was started
/// reaches `L` — it never completes earlier, later, or a second time.
/// Projectile expiry destroys a bullet on exactly the tick in which its
/// lifetime completes, so a bullet that never collides is destroyed at
/// the first tick where the cumulative time since its creation reaches
/// its lifetime.
pub proof fn lemma_once_fires_at_expiry(t: Timer, dts: Seq<u64>, k: int)
    requires
        t.wf(),
        t.mode is Once,
        dts_ok(dts),
        0 <= k < dts.len(),
    ensures
        run_timer(t, dts.take(k + 1)).just_finished <==> (t.elapsed_ms + sum_dts(dts.take(k))
            < t.duration_ms <= t.elapsed_ms + sum_dts(dts.take(k + 1))),
{
    let pre = dts.take(k);
    let cur = dts.take(k + 1);
    assert(cur.drop_last() =~= pre);
    assert(cur.last() == dts[k]);
    assert forall|j: int| 0 <= j < pre.len() implies #[trigger] pre[j] <= DT_LIMIT by {
        assert(dts[j] <= DT_LIMIT);
    }
    lemma_once_elapsed(t, pre);
    lemma_sum_dts_nonneg(pre);
}

/// Law: a bullet that strikes a target is consumed in the same tick
/// (it does not survive the collision pass), and the struck target is
/// damaged: it absorbs at least that one hit.
pub proof fn lemma_hit_resolved(bs: Seq<BulletEnt>, ts: Seq<TargetEnt>, i: int, j: int)
    requires
        0 <= i < bs.len(),
        spec_first_hit(bs[i], ts, j),
    ensures
        !spec_misses_all(bs[i], ts),
        spec_hit_count(bs, ts, j) >= 1,
    decreases bs.len(),
{
    crate::collision::lemma_hit_count_le(bs.drop_last(), ts, j);
    if i < bs.len() - 1 {
        lemma_hit_resolved(bs.drop_last(), ts, i, j);
    }
}

/// Law: a target whose health has been driven to zero or below does not
/// survive the tick in which that happened — after any tick every
/// remaining target has positive health.
pub proof fn lemma_no_dead_survivors(w: World, dt: u64, k: int)
    requires
        0 <= k < w.spec_targets_after_tick(dt).len(),
    ensures
        w.spec_targets_after_tick(dt)[k].health.value > 0,
{
    w.spec_targets_after_collision(dt).lemma_filter_pred(
        |t: TargetEnt| t.health.value > 0,
        k,
    );
}

} // verus!
