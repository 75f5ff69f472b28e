//! The enemy spawner: a periodic timer advanced by the real elapsed time of
//! each frame (not the fixed simulation step). When the accumulated time
//! reaches the period the timer fires — at most once per tick — resets its
//! accumulator, and one enemy is created at a random whole-degree angle on
//! the spawn ring.

use crate::trig::{ring_point, ring_point_vec};
use crate::world::{enemy_wf, timer_wf, wf, Enemy, SpawnTimer, World};
use crate::{ENEMY_SPEED, MAX_DELTA_MS, SPAWN_RADIUS};
use vstd::arithmetic::div_mod::lemma_fundamental_div_mod;
use vstd::prelude::*;

verus! {

/// One advance of the timer's accumulator by `delta` milliseconds: it
/// resets to zero when the period is reached, else it keeps accumulating.
pub open spec fn timer_step(elapsed: int, delta: int, period: int) -> int {
    if elapsed + delta >= period {
        0
    } else {
        elapsed + delta
    }
}

impl SpawnTimer {
    /// The timer fires on the tick that carries its accumulator to the
    /// period or beyond.
    pub open spec fn fires(self, delta: u64) -> bool {
        self.elapsed_ms + delta >= self.period_ms
    }
}

/// Advance the timer by the frame's real elapsed time. Returns whether it
/// fired: true exactly on the tick the accumulated time crosses the
/// period, at most once per tick however large `delta_ms` is; firing
/// resets the accumulator to zero.
pub fn timer_tick(t: &mut SpawnTimer, delta_ms: u64) -> (fired: bool)
    requires
        timer_wf(*old(t)),
        delta_ms <= MAX_DELTA_MS,
    ensures
        timer_wf(*final(t)),
        fired == old(t).fires(delta_ms),
        final(t).period_ms == old(t).period_ms,
        final(t).elapsed_ms == timer_step(
            old(t).elapsed_ms as int,
            delta_ms as int,
            old(t).period_ms as int,
        ),
{
    let acc = t.elapsed_ms + delta_ms;
    if acc >= t.period_ms {
        t.elapsed_ms = 0;
        true
    } else {
        t.elapsed_ms = acc;
        false
    }
}

/// Relies on `rand::Rng::gen_range` over the half-open range `0..360`,
/// which samples a value of that range uniformly (and panics only on an
/// empty range, which `0..360` is not).
#[verifier::external_body]
fn random_angle_deg() -> (r: u64)
    ensures
        r < 360,
{
    rand::Rng::gen_range(&mut rand::thread_rng(), 0..360u64)
}

/// The enemy created for spawn angle `deg` under identity `next_id`: on
/// the spawn ring, with the fixed enemy speed.
pub open spec fn spawned_enemy(next_id: u64, deg: int) -> Enemy {
    Enemy { id: next_id, pos: ring_point_vec(deg), speed: ENEMY_SPEED }
}

/// Create one enemy at the given whole-degree angle of the spawn ring.
/// Exactly one enemy is appended; nothing else changes.
pub fn spawn_enemy_at(w: &mut World, deg: u64)
    requires
        wf(*old(w)),
        deg < 360,
        old(w).next_id < u64::MAX,
    ensures
        wf(*final(w)),
        final(w).enemies@ == old(w).enemies@.push(spawned_enemy(old(w).next_id, deg as int)),
        final(w).next_id == old(w).next_id + 1,
        final(w).player == old(w).player,
        final(w).bullets@ == old(w).bullets@,
        final(w).score == old(w).score,
        final(w).timer == old(w).timer,
{
    let pos = ring_point(deg);
    let e = Enemy { id: w.next_id, pos, speed: ENEMY_SPEED };
    proof {
        assert(SPAWN_RADIUS <= crate::EXT_X);
        assert(enemy_wf(e));
    }
    w.enemies.push(e);
    w.next_id = w.next_id + 1;
}

/// Run the enemy spawner for one tick: advance the timer by the frame's
/// real elapsed time; if it fires, create one enemy at a uniformly random
/// whole-degree angle on the spawn ring. Whatever angle the randomness
/// picked, the new enemy is `spawned_enemy` of some angle below 360.
pub fn spawn_enemies(w: &mut World, delta_ms: u64) -> (fired: bool)
    requires
        wf(*old(w)),
        delta_ms <= MAX_DELTA_MS,
        old(w).next_id < u64::MAX,
    ensures
        wf(*final(w)),
        fired == old(w).timer.fires(delta_ms),
        final(w).timer.period_ms == old(w).timer.period_ms,
        final(w).timer.elapsed_ms == timer_step(
            old(w).timer.elapsed_ms as int,
            delta_ms as int,
            old(w).timer.period_ms as int,
        ),
        fired ==> exists|deg: int|
            0 <= deg < 360 && final(w).enemies@ == old(w).enemies@.push(
                spawned_enemy(old(w).next_id, deg),
            ),
        fired ==> final(w).enemies@.len() == old(w).enemies@.len() + 1,
        fired ==> final(w).next_id == old(w).next_id + 1,
        !fired ==> final(w).enemies@ == old(w).enemies@ && final(w).next_id == old(w).next_id,
        final(w).player == old(w).player,
        final(w).bullets@ == old(w).bullets@,
        final(w).score == old(w).score,
{
    let fired = timer_tick(&mut w.timer, delta_ms);
    if fired {
        let deg = random_angle_deg();
        spawn_enemy_at(w, deg);
        proof {
            assert(final(w).enemies@ == old(w).enemies@.push(
                spawned_enemy(old(w).next_id, deg as int),
            ));
        }
    }
    fired
}

/// The accumulator of a fresh timer after `n` ticks, each fed a constant
/// real-time delta of `d` milliseconds.
pub open spec fn elapsed_after(n: nat, d: int, period: int) -> int
    decreases n,
{
    if n == 0 {
        0
    } else {
        timer_step(elapsed_after((n - 1) as nat, d, period), d, period)
    }
}

/// The timer fires on tick `n` (counted from 1) of that constant feed.
pub open spec fn fires_at(n: nat, d: int, period: int) -> bool
    recommends
        n >= 1,
{
    elapsed_after((n - 1) as nat, d, period) + d >= period
}

/// The number of ticks between fires under a constant feed of `d`
/// milliseconds per tick: the period divided by `d`, rounded up.
pub open spec fn ticks_per_fire(period: int, d: int) -> int {
    (period + d - 1) / d
}

/// The ceiling division really brackets the period:
/// `(k-1)·d < period <= k·d` for `k = ticks_per_fire(period, d)`.
pub proof fn lemma_ticks_per_fire_brackets(period: int, d: int)
    requires
        0 < d,
        0 < period,
    ensures
        1 <= ticks_per_fire(period, d),
        (ticks_per_fire(period, d) - 1) * d < period,
        period <= ticks_per_fire(period, d) * d,
{
    let k = ticks_per_fire(period, d);
    lemma_fundamental_div_mod(period + d - 1, d);
    let r = (period + d - 1) % d;
    assert(period + d - 1 == d * k + r);
    assert(k * d == d * k) by (nonlinear_arith);
    assert((k - 1) * d == d * k - d) by (nonlinear_arith);
    assert(k >= 1) by (nonlinear_arith)
        requires
            d * k == period + d - 1 - r,
            0 <= r < d,
            0 < period,
            0 < d,
    ;
}

/// Within one cycle the accumulator just counts: after `m < k` ticks of a
/// constant feed it holds exactly `m·d`.
pub proof fn lemma_elapsed_counts(m: nat, d: int, period: int)
    requires
        0 < d,
        0 < period,
        m < ticks_per_fire(period, d),
    ensures
        elapsed_after(m, d, period) == m * d,
    decreases m,
{
    lemma_ticks_per_fire_brackets(period, d);
    let k = ticks_per_fire(period, d);
    if m == 0 {
        assert(m * d == 0) by (nonlinear_arith)
            requires
                m == 0,
        ;
    } else {
        lemma_elapsed_counts((m - 1) as nat, d, period);
        assert(m * d <= (k - 1) * d) by (nonlinear_arith)
            requires
                m <= k - 1,
                0 < d,
        ;
        assert((m - 1) * d + d == m * d) by (nonlinear_arith);
    }
}

/// Spawn-timer periodicity, first half: under a constant feed of `d`
/// milliseconds per tick a fresh timer stays silent for the first `k - 1`
/// ticks and fires on tick `k = ⌈period/d⌉`, the tick on which the
/// accumulated time first reaches the period — and its accumulator is then
/// zero again, as at the start.
pub proof fn lemma_timer_first_fire(n: nat, d: int, period: int)
    requires
        0 < d,
        0 < period,
        1 <= n <= ticks_per_fire(period, d),
    ensures
        fires_at(n, d, period) <==> n == ticks_per_fire(period, d),
        n == ticks_per_fire(period, d) ==> elapsed_after(n, d, period) == 0,
{
    let k = ticks_per_fire(period, d);
    lemma_ticks_per_fire_brackets(period, d);
    lemma_elapsed_counts((n - 1) as nat, d, period);
    assert((n - 1) * d + d == n * d) by (nonlinear_arith);
    if n < k {
        assert(n * d <= (k - 1) * d) by (nonlinear_arith)
            requires
                n <= k - 1,
                0 < d,
        ;
    }
}

/// Spawn-timer periodicity, in full: under a constant feed of `d`
/// milliseconds per tick a fresh timer fires exactly on the ticks that are
/// multiples of `⌈period/d⌉` — the first fire on the tick the cumulative
/// time first reaches the period, one fire every `⌈period/d⌉` ticks after
/// that, and never in between.
pub proof fn lemma_timer_fires_at_multiples(n: nat, d: int, period: int)
    requires
        0 < d,
        0 < period,
        n >= 1,
    ensures
        fires_at(n, d, period) <==> (n as int) % ticks_per_fire(period, d) == 0,
    decreases n,
{
    let k = ticks_per_fire(period, d);
    lemma_ticks_per_fire_brackets(period, d);
    if n <= k {
        lemma_timer_first_fire(n, d, period);
        if n == k {
            vstd::arithmetic::div_mod::lemma_mod_self_0(k);
        } else {
            vstd::arithmetic::div_mod::lemma_small_mod(n, k as nat);
        }
    } else {
        lemma_timer_fires_at_multiples((n - k) as nat, d, period);
        lemma_timer_periodic((n - k) as nat, d, period);
        vstd::arithmetic::div_mod::lemma_mod_sub_multiples_vanish(n as int, k);
    }
}

/// Spawn-timer periodicity, second half: the feed is memoryless across a
/// fire — after `k` further ticks the accumulator repeats itself, so the
/// timer fires exactly on every `k`-th tick, never more than once per
/// tick.
pub proof fn lemma_timer_periodic(n: nat, d: int, period: int)
    requires
        0 < d,
        0 < period,
    ensures
        elapsed_after((n + ticks_per_fire(period, d)) as nat, d, period) == elapsed_after(
            n,
            d,
            period,
        ),
        n >= 1 ==> (fires_at((n + ticks_per_fire(period, d)) as nat, d, period) <==> fires_at(
            n,
            d,
            period,
        )),
    decreases n,
{
    let k = ticks_per_fire(period, d);
    lemma_ticks_per_fire_brackets(period, d);
    if n == 0 {
        lemma_timer_first_fire(k as nat, d, period);
    } else {
        lemma_timer_periodic((n - 1) as nat, d, period);
        assert((n + k - 1) as nat == ((n - 1) + k) as nat);
    }
}

} // verus!
