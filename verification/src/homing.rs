//! The enemy homing subsystem: once per tick every enemy moves a fixed
//! distance straight toward the player's current position. The direction is
//! the integer normalization of the offset: each component is scaled by
//! `speed / distance`, truncated toward zero. When the enemy is within one
//! step of the player (including exactly on it, where normalizing would be
//! undefined) it snaps to the player's position instead of overshooting.

use crate::math::{
    is_sqrt_floor, isqrt, lemma_scale_toward, lemma_sqrt_floor_exists, lemma_sqrt_floor_unique,
    scale, scale_spec, sqrt_floor, Vec2i,
};
use crate::world::{enemy_wf, in_bounds, wf, Enemy, World};
use crate::{EXT_X, MAX_STEP};
use vstd::math::abs;
use vstd::prelude::*;

verus! {

/// The squared distance between two points.
pub open spec fn dist_sq(a: Vec2i, b: Vec2i) -> int {
    (b.x - a.x) * (b.x - a.x) + (b.y - a.y) * (b.y - a.y)
}

/// The enemy one tick later: moved `speed` subunits toward `p` (each
/// component advanced by its truncated share of the step), or snapped onto
/// `p` when the whole distance is within one step — which also covers the
/// degenerate case of an enemy exactly on the player, whose offset cannot
/// be normalized.
pub open spec fn home_enemy(e: Enemy, p: Vec2i) -> Enemy {
    let dx = p.x - e.pos.x;
    let dy = p.y - e.pos.y;
    let l = sqrt_floor(dx * dx + dy * dy);
    if l <= e.speed {
        Enemy { pos: p, ..e }
    } else {
        Enemy {
            pos: Vec2i {
                x: (e.pos.x + scale_spec(dx, e.speed as int, l)) as i64,
                y: (e.pos.y + scale_spec(dy, e.speed as int, l)) as i64,
            },
            ..e
        }
    }
}

/// For a well-formed enemy and a player inside the arena, the homing step
/// keeps each coordinate between its old value and the player's, so the
/// casts in `home_enemy` are exact and the enemy invariant is preserved.
pub proof fn lemma_home_enemy_in_range(e: Enemy, p: Vec2i)
    requires
        enemy_wf(e),
        in_bounds(p),
    ensures
        enemy_wf(home_enemy(e, p)),
        home_enemy(e, p).id == e.id,
        home_enemy(e, p).speed == e.speed,
        p.x >= e.pos.x ==> e.pos.x <= home_enemy(e, p).pos.x <= p.x,
        p.x < e.pos.x ==> p.x <= home_enemy(e, p).pos.x <= e.pos.x,
        p.y >= e.pos.y ==> e.pos.y <= home_enemy(e, p).pos.y <= p.y,
        p.y < e.pos.y ==> p.y <= home_enemy(e, p).pos.y <= e.pos.y,
{
    let dx = p.x - e.pos.x;
    let dy = p.y - e.pos.y;
    assert(dx * dx >= 0 && dy * dy >= 0) by (nonlinear_arith);
    lemma_sqrt_floor_exists(dx * dx + dy * dy);
    let l = sqrt_floor(dx * dx + dy * dy);
    if l > e.speed {
        lemma_scale_toward(dx, e.speed as int, l);
        lemma_scale_toward(dy, e.speed as int, l);
    }
}

/// Run the homing subsystem for one tick: every enemy independently takes
/// one `home_enemy` step toward the player's current position. Nothing
/// else changes.
pub fn move_enemies(w: &mut World)
    requires
        wf(*old(w)),
    ensures
        wf(*final(w)),
        final(w).enemies@.len() == old(w).enemies@.len(),
        forall|i: int|
            0 <= i < old(w).enemies@.len() ==> final(w).enemies@[i] == home_enemy(
                #[trigger] old(w).enemies@[i],
                old(w).player.pos,
            ),
        final(w).player == old(w).player,
        final(w).bullets@ == old(w).bullets@,
        final(w).next_id == old(w).next_id,
        final(w).score == old(w).score,
        final(w).timer == old(w).timer,
{
    let ghost s = w.enemies@;
    let p = w.player.pos;
    let mut moved: Vec<Enemy> = Vec::new();
    let mut i: usize = 0;
    while i < w.enemies.len()
        invariant
            wf(*w),
            w.enemies@ == s,
            in_bounds(p),
            i <= s.len(),
            moved@.len() == i,
            forall|k: int| 0 <= k < i ==> moved@[k] == home_enemy(#[trigger] s[k], p),
        decreases s.len() - i,
    {
        let e = w.enemies[i];
        proof {
            assert(enemy_wf(e));
            lemma_home_enemy_in_range(e, p);
        }
        let dx = p.x - e.pos.x;
        let dy = p.y - e.pos.y;
        proof {
            assert(dx * dx + dy * dy <= 2 * (2 * EXT_X) * (2 * EXT_X)) by (nonlinear_arith)
                requires
                    -2 * EXT_X <= dx <= 2 * EXT_X,
                    -2 * EXT_X <= dy <= 2 * EXT_X,
            ;
            assert(dx * dx >= 0 && dy * dy >= 0) by (nonlinear_arith);
        }
        let sq: u64 = (dx * dx + dy * dy) as u64;
        let l64 = isqrt(sq);
        proof {
            assert((l64 as int) * (l64 as int) <= sq as int);
            assert(l64 < 0x2_0000_0000) by (nonlinear_arith)
                requires
                    (l64 as int) * (l64 as int) <= sq as int,
                    sq < 0x4000_0000_0000_0000,
                    l64 >= 0,
            ;
        }
        let l = l64 as i64;
        let ne: Enemy;
        if l <= e.speed {
            ne = Enemy { pos: p, ..e };
        } else {
            proof {
                assert(-0x4000_0000_0000_0000 <= dx * e.speed <= 0x4000_0000_0000_0000)
                    by (nonlinear_arith)
                    requires
                        -2 * EXT_X <= dx <= 2 * EXT_X,
                        0 < e.speed <= MAX_STEP,
                ;
                assert(-0x4000_0000_0000_0000 <= dy * e.speed <= 0x4000_0000_0000_0000)
                    by (nonlinear_arith)
                    requires
                        -2 * EXT_X <= dy <= 2 * EXT_X,
                        0 < e.speed <= MAX_STEP,
                ;
                lemma_scale_toward(dx as int, e.speed as int, l as int);
                lemma_scale_toward(dy as int, e.speed as int, l as int);
            }
            let mx = scale(dx, e.speed, l);
            let my = scale(dy, e.speed, l);
            ne = Enemy { pos: Vec2i { x: e.pos.x + mx, y: e.pos.y + my }, ..e };
        }
        proof {
            lemma_sqrt_floor_exists(dx * dx + dy * dy);
            lemma_sqrt_floor_unique(
                dx * dx + dy * dy,
                l as int,
                sqrt_floor(dx * dx + dy * dy),
            );
            assert(ne == home_enemy(e, p));
        }
        moved.push(ne);
        i = i + 1;
    }
    proof {
        assert forall|k: int| 0 <= k < s.len() implies enemy_wf(
            #[trigger] moved@[k],
        ) && moved@[k].id == s[k].id by {
            lemma_home_enemy_in_range(s[k], p);
        }
    }
    w.enemies = moved;
}

/// Homing convergence, general form: one homing step never increases the
/// squared distance between enemy and player; once the distance is within
/// one step the enemy reaches the player exactly (the overshoot policy:
/// snap, never fly past).
pub proof fn lemma_homing_distance_non_increasing(e: Enemy, p: Vec2i)
    requires
        enemy_wf(e),
        in_bounds(p),
    ensures
        dist_sq(home_enemy(e, p).pos, p) <= dist_sq(e.pos, p),
        sqrt_floor(dist_sq(e.pos, p)) <= e.speed ==> home_enemy(e, p).pos == p,
{
    let dx = p.x - e.pos.x;
    let dy = p.y - e.pos.y;
    lemma_home_enemy_in_range(e, p);
    let h = home_enemy(e, p).pos;
    assert((p.x - h.x) * (p.x - h.x) <= dx * dx) by (nonlinear_arith)
        requires
            (0 <= p.x - h.x <= dx) || (dx <= p.x - h.x <= 0),
    ;
    assert((p.y - h.y) * (p.y - h.y) <= dy * dy) by (nonlinear_arith)
        requires
            (0 <= p.y - h.y <= dy) || (dy <= p.y - h.y <= 0),
    ;
}

/// Homing convergence, exact form on an axis-aligned approach: an enemy on
/// the player's horizontal moves exactly its speed per tick, so its
/// distance to a stationary player decreases by `speed` every tick until
/// the last step snaps it onto the player.
pub proof fn lemma_homing_aligned_progress(e: Enemy, p: Vec2i)
    requires
        enemy_wf(e),
        in_bounds(p),
        e.pos.y == p.y,
    ensures
        abs(p.x - e.pos.x) <= e.speed ==> home_enemy(e, p).pos == p,
        abs(p.x - e.pos.x) > e.speed ==> {
            &&& home_enemy(e, p).pos.y == p.y
            &&& abs(p.x - home_enemy(e, p).pos.x) == abs(p.x - e.pos.x) - e.speed
        },
{
    let dx = p.x - e.pos.x;
    let a = abs(dx) as int;
    assert(dx * dx == a * a) by (nonlinear_arith)
        requires
            a == if dx >= 0 { dx } else { -dx },
    ;
    assert(is_sqrt_floor(dx * dx + 0 * 0, a)) by (nonlinear_arith)
        requires
            dx * dx == a * a,
            a >= 0,
    ;
    lemma_sqrt_floor_exists(dx * dx + 0 * 0);
    lemma_sqrt_floor_unique(dx * dx + 0 * 0, a, sqrt_floor(dx * dx + 0 * 0));
    if a > e.speed {
        // The offset normalizes exactly: dx * speed / |dx| is ±speed, and
        // the y share of the step is zero.
        assert(scale_spec(0, e.speed as int, a) == 0) by {
            assert(0 * e.speed == 0) by (nonlinear_arith);
            vstd::arithmetic::div_mod::lemma_div_of0(a);
        }
        if dx >= 0 {
            assert(dx * e.speed == a * e.speed);
            assert(a * e.speed == e.speed * a) by (nonlinear_arith);
            vstd::arithmetic::div_mod::lemma_div_multiples_vanish(e.speed as int, a);
            assert(scale_spec(dx, e.speed as int, a) == e.speed);
        } else {
            assert(-dx * e.speed == a * e.speed);
            assert(a * e.speed == e.speed * a) by (nonlinear_arith);
            vstd::arithmetic::div_mod::lemma_div_multiples_vanish(e.speed as int, a);
            assert(scale_spec(dx, e.speed as int, a) == -(e.speed as int));
        }
        lemma_home_enemy_in_range(e, p);
    }
}

} // verus!
