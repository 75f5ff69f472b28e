//! One simulation tick: the subsystems run in a fixed sequential order —
//! movement, then shooting, then the enemy spawner, then homing — over the
//! one shared world. The ordering is the whole concurrency discipline:
//! shooting and homing read the player pose that movement settled this
//! tick, and the spawner's insertion cannot race the cull pass.

use crate::movement::{moved_player, player_movement, InputState};
use crate::shooting::{exit_count, player_shooting, step_bullets};
use crate::spawner::{spawn_enemies, timer_step};
use crate::homing::{home_enemy, move_enemies};
use crate::trig::{heading_vec, ring_point_vec};
use crate::world::{in_bounds, wf, Bullet, Enemy, World};
use crate::{BULLET_SPEED, ENEMY_SPEED, MAX_DELTA_MS};
use vstd::prelude::*;

verus! {

/// The bullet a tick spawns: at the player's freshly moved position,
/// heading where the freshly turned ship points, under the first free
/// identity.
pub open spec fn tick_spawned_bullet(w: World, inp: InputState) -> Bullet {
    Bullet {
        id: w.next_id,
        pos: moved_player(w.player, inp).pos,
        dir: heading_vec(moved_player(w.player, inp).angle_deg as int),
        speed: BULLET_SPEED,
    }
}

/// The enemy a tick spawns when the timer fires, for ring angle `deg`: its
/// identity follows the tick's bullet.
pub open spec fn tick_spawned_enemy(w: World, deg: int) -> Enemy {
    Enemy { id: (w.next_id + 1) as u64, pos: ring_point_vec(deg), speed: ENEMY_SPEED }
}

/// Run one whole simulation tick: move the player under the held keys,
/// advance/cull the bullets and spawn one, feed the spawn timer the
/// frame's real elapsed time (spawning one enemy on fire), and home every
/// enemy toward the player. Returns whether the spawn timer fired.
pub fn tick(w: &mut World, inp: &InputState, delta_ms: u64) -> (fired: bool)
    requires
        wf(*old(w)),
        delta_ms <= MAX_DELTA_MS,
        old(w).next_id < u64::MAX - 1,
    ensures
        wf(*final(w)),
        final(w).player == moved_player(old(w).player, *inp),
        in_bounds(final(w).player.pos),
        final(w).bullets@ == step_bullets(old(w).bullets@).push(
            tick_spawned_bullet(*old(w), *inp),
        ),
        final(w).bullets@.len() == old(w).bullets@.len() + 1 - exit_count(old(w).bullets@),
        fired == old(w).timer.fires(delta_ms),
        final(w).timer.period_ms == old(w).timer.period_ms,
        final(w).timer.elapsed_ms == timer_step(
            old(w).timer.elapsed_ms as int,
            delta_ms as int,
            old(w).timer.period_ms as int,
        ),
        forall|i: int|
            0 <= i < old(w).enemies@.len() ==> final(w).enemies@[i] == home_enemy(
                #[trigger] old(w).enemies@[i],
                moved_player(old(w).player, *inp).pos,
            ),
        fired ==> final(w).enemies@.len() == old(w).enemies@.len() + 1,
        fired ==> exists|deg: int|
            0 <= deg < 360 && final(w).enemies@.last() == home_enemy(
                tick_spawned_enemy(*old(w), deg),
                moved_player(old(w).player, *inp).pos,
            ),
        !fired ==> final(w).enemies@ =~= old(w).enemies@.map_values(
            |e: Enemy| home_enemy(e, moved_player(old(w).player, *inp).pos),
        ),
        final(w).next_id == old(w).next_id + if fired {
            2int
        } else {
            1int
        },
        final(w).score == old(w).score,
{
    player_movement(w, inp);
    let ghost w1_player = w.player;
    player_shooting(w);
    let ghost w2_enemies = w.enemies@;
    let ghost w2_next_id = w.next_id;
    let fired = spawn_enemies(w, delta_ms);
    let ghost w3_enemies = w.enemies@;
    move_enemies(w);
    proof {
        if fired {
            let deg = choose|deg: int|
                0 <= deg < 360 && w3_enemies == w2_enemies.push(
                    #[trigger] crate::spawner::spawned_enemy(w2_next_id, deg),
                );
            assert(0 <= deg < 360 && w3_enemies == w2_enemies.push(
                crate::spawner::spawned_enemy(w2_next_id, deg),
            ));
            let ppos = moved_player(old(w).player, *inp).pos;
            assert forall|i: int| 0 <= i < old(w).enemies@.len() implies final(w).enemies@[i]
                == home_enemy(#[trigger] old(w).enemies@[i], ppos) by {
                assert(w3_enemies[i] == w2_enemies[i]);
                assert(final(w).enemies@[i] == home_enemy(w3_enemies[i], w1_player.pos));
            }
            assert(crate::spawner::spawned_enemy(w2_next_id, deg) == tick_spawned_enemy(
                *old(w),
                deg,
            ));
            assert(w3_enemies.last() == tick_spawned_enemy(*old(w), deg));
            assert(final(w).enemies@.last() == home_enemy(
                w3_enemies[w3_enemies.len() - 1],
                w1_player.pos,
            ));
            assert(0 <= deg < 360 && final(w).enemies@.last() == home_enemy(
                tick_spawned_enemy(*old(w), deg),
                ppos,
            ));
        } else {
            assert(final(w).enemies@ =~= old(w).enemies@.map_values(
                |e: Enemy| home_enemy(e, moved_player(old(w).player, *inp).pos),
            ));
        }
    }
    fired
}

} // verus!
