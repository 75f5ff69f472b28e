//! The shooting subsystem: once per tick it advances every live bullet
//! along its frozen direction, removes the bullets that left the arena,
//! and spawns exactly one new bullet at the player's pose, heading the way
//! the ship points. The new bullet is committed after the advance pass, so
//! it does not move on its spawn tick; removal happens only after the whole
//! pass, never during it.

use crate::math::{lemma_scale_abs_bound, scale, scale_spec, Vec2i};
use crate::trig::{heading, heading_vec};
use crate::world::{bullet_ids_bounded, bullet_wf, in_bounds_xy, wf, Bullet, World};
use crate::{BULLET_SPEED, DIR_SCALE, EXT_X, EXT_Y, MAX_STEP};
use vstd::arithmetic::div_mod::lemma_div_multiples_vanish;
use vstd::prelude::*;

verus! {

/// A bullet's x coordinate after one tick: its position advanced by its
/// speed along its direction, the fixed-point product truncated toward
/// zero.
pub open spec fn advanced_x(b: Bullet) -> int {
    b.pos.x + scale_spec(b.dir.x as int, b.speed as int, DIR_SCALE as int)
}

/// A bullet's y coordinate after one tick.
pub open spec fn advanced_y(b: Bullet) -> int {
    b.pos.y + scale_spec(b.dir.y as int, b.speed as int, DIR_SCALE as int)
}

/// The advanced bullet leaves the arena this tick, so it is removed.
pub open spec fn bullet_exits(b: Bullet) -> bool {
    !in_bounds_xy(advanced_x(b), advanced_y(b))
}

/// The bullet one tick later: position advanced, identity, direction and
/// speed untouched.
pub open spec fn advance_bullet(b: Bullet) -> Bullet {
    Bullet { pos: Vec2i { x: advanced_x(b) as i64, y: advanced_y(b) as i64 }, ..b }
}

/// A well-formed bullet advances by at most its speed per axis, so the
/// advanced coordinates stay in range and `advance_bullet` computes them
/// exactly.
pub proof fn lemma_advanced_in_range(b: Bullet)
    requires
        bullet_wf(b),
    ensures
        -(EXT_X + MAX_STEP) <= advanced_x(b) <= EXT_X + MAX_STEP,
        -(EXT_Y + MAX_STEP) <= advanced_y(b) <= EXT_Y + MAX_STEP,
        advance_bullet(b).pos.x == advanced_x(b),
        advance_bullet(b).pos.y == advanced_y(b),
{
    lemma_scale_abs_bound(b.dir.x as int, b.speed as int, DIR_SCALE as int, DIR_SCALE as int);
    lemma_scale_abs_bound(b.dir.y as int, b.speed as int, DIR_SCALE as int, DIR_SCALE as int);
    lemma_div_multiples_vanish(b.speed as int, DIR_SCALE as int);
}

/// The bullets that survive the advance-and-cull pass, in their old order:
/// every live bullet advanced, the ones that left the arena dropped.
pub open spec fn step_bullets(s: Seq<Bullet>) -> Seq<Bullet>
    decreases s.len(),
{
    if s.len() == 0 {
        Seq::empty()
    } else {
        let pre = step_bullets(s.drop_last());
        if bullet_exits(s.last()) {
            pre
        } else {
            pre.push(advance_bullet(s.last()))
        }
    }
}

/// How many bullets of `s` leave the arena when advanced.
pub open spec fn exit_count(s: Seq<Bullet>) -> int
    decreases s.len(),
{
    if s.len() == 0 {
        0
    } else {
        exit_count(s.drop_last()) + if bullet_exits(s.last()) {
            1int
        } else {
            0int
        }
    }
}

/// The advance-and-cull pass removes exactly the bullets that exit:
/// `|step_bullets(s)| == |s| - exit_count(s)`.
pub proof fn lemma_step_bullets_len(s: Seq<Bullet>)
    ensures
        0 <= exit_count(s) <= s.len(),
        step_bullets(s).len() == s.len() - exit_count(s),
    decreases s.len(),
{
    if s.len() > 0 {
        lemma_step_bullets_len(s.drop_last());
    }
}

/// The pass preserves well-formedness, the identity order and each
/// survivor's provenance: every surviving bullet is some old bullet
/// advanced.
pub proof fn lemma_step_bullets_props(s: Seq<Bullet>, bound: int)
    requires
        forall|i: int| 0 <= i < s.len() ==> bullet_wf(#[trigger] s[i]),
        bullet_ids_bounded(s, bound),
    ensures
        forall|j: int|
            0 <= j < step_bullets(s).len() ==> bullet_wf(#[trigger] step_bullets(s)[j]),
        bullet_ids_bounded(step_bullets(s), bound),
        forall|j: int|
            0 <= j < step_bullets(s).len() ==> exists|i: int|
                0 <= i < s.len() && #[trigger] step_bullets(s)[j] == advance_bullet(s[i]),
    decreases s.len(),
{
    if s.len() > 0 {
        let pre = step_bullets(s.drop_last());
        lemma_step_bullets_props(s.drop_last(), s.last().id as int);
        lemma_step_bullets_props(s.drop_last(), bound);
        if !bullet_exits(s.last()) {
            lemma_advanced_in_range(s.last());
            let out = step_bullets(s);
            assert forall|j: int| 0 <= j < out.len() implies exists|i: int|
                0 <= i < s.len() && #[trigger] out[j] == advance_bullet(s[i]) by {
                if j < pre.len() {
                    let i = choose|i: int|
                        0 <= i < s.drop_last().len() && pre[j] == advance_bullet(
                            s.drop_last()[i],
                        );
                    assert(out[j] == advance_bullet(s[i]));
                } else {
                    assert(out[j] == advance_bullet(s[s.len() - 1]));
                }
            }
        }
    }
}

/// Direction freeze: a bullet that survives the advance-and-cull pass
/// keeps the direction (and speed) it was spawned with — whatever happened
/// to the player since. Identities pair the survivor with its old self.
pub proof fn lemma_direction_freeze(s: Seq<Bullet>, bound: int, i: int, j: int)
    requires
        forall|k: int| 0 <= k < s.len() ==> bullet_wf(#[trigger] s[k]),
        bullet_ids_bounded(s, bound),
        0 <= i < s.len(),
        0 <= j < step_bullets(s).len(),
        step_bullets(s)[j].id == s[i].id,
    ensures
        step_bullets(s)[j].dir == s[i].dir,
        step_bullets(s)[j].speed == s[i].speed,
{
    lemma_step_bullets_props(s, bound);
    let src = choose|k: int|
        0 <= k < s.len() && step_bullets(s)[j] == advance_bullet(s[k]);
    assert(s[src].id == s[i].id);
    if src < i {
        assert(s[src].id < s[i].id);
    } else if i < src {
        assert(s[i].id < s[src].id);
    }
    assert(src == i);
}

/// Direction freeze across a whole tick: after the advance-and-cull pass
/// and the spawn of one fresh bullet (whose identity is new), any bullet
/// that was live before the tick and is still live after it carries the
/// direction and speed it had — subsequent player rotation never touches
/// a live bullet.
pub proof fn lemma_tick_direction_freeze(
    s: Seq<Bullet>,
    spawned: Bullet,
    bound: int,
    i: int,
    j: int,
)
    requires
        forall|k: int| 0 <= k < s.len() ==> bullet_wf(#[trigger] s[k]),
        bullet_ids_bounded(s, bound),
        spawned.id >= bound,
        0 <= i < s.len(),
        0 <= j < step_bullets(s).push(spawned).len(),
        step_bullets(s).push(spawned)[j].id == s[i].id,
    ensures
        step_bullets(s).push(spawned)[j].dir == s[i].dir,
        step_bullets(s).push(spawned)[j].speed == s[i].speed,
{
    if j < step_bullets(s).len() {
        lemma_direction_freeze(s, bound, i, j);
    } else {
        assert(step_bullets(s).push(spawned)[j] == spawned);
        assert(s[i].id < bound);
    }
}

/// The bullet the weapon spawns this tick: at the player's position, its
/// direction the ship's forward vector, frozen from here on.
pub open spec fn spawned_bullet(w: World) -> Bullet {
    Bullet {
        id: w.next_id,
        pos: w.player.pos,
        dir: heading_vec(w.player.angle_deg as int),
        speed: BULLET_SPEED,
    }
}

/// Run the shooting subsystem for one tick: advance and cull the bullets
/// that were live at tick start, then spawn one new bullet at the player's
/// pose. The bullet count changes by exactly one minus the number of
/// bullets that left the arena.
pub fn player_shooting(w: &mut World)
    requires
        wf(*old(w)),
        old(w).next_id < u64::MAX,
    ensures
        wf(*final(w)),
        final(w).bullets@ == step_bullets(old(w).bullets@).push(spawned_bullet(*old(w))),
        final(w).bullets@.len() == old(w).bullets@.len() + 1 - exit_count(old(w).bullets@),
        final(w).next_id == old(w).next_id + 1,
        final(w).player == old(w).player,
        final(w).enemies@ == old(w).enemies@,
        final(w).score == old(w).score,
        final(w).timer == old(w).timer,
{
    let ghost s = w.bullets@;
    let mut kept: Vec<Bullet> = Vec::new();
    let mut i: usize = 0;
    while i < w.bullets.len()
        invariant
            wf(*w),
            w.bullets@ == s,
            i <= s.len(),
            kept@ == step_bullets(s.take(i as int)),
        decreases s.len() - i,
    {
        let b = w.bullets[i];
        proof {
            assert(bullet_wf(b));
            assert(-0x4000_0000_0000_0000 <= b.dir.x * b.speed <= 0x4000_0000_0000_0000)
                by (nonlinear_arith)
                requires
                    -10000 <= b.dir.x <= 10000,
                    0 < b.speed <= 60000,
            ;
            assert(-0x4000_0000_0000_0000 <= b.dir.y * b.speed <= 0x4000_0000_0000_0000)
                by (nonlinear_arith)
                requires
                    -10000 <= b.dir.y <= 10000,
                    0 < b.speed <= 60000,
            ;
            lemma_advanced_in_range(b);
        }
        let dx = scale(b.dir.x, b.speed, DIR_SCALE);
        let dy = scale(b.dir.y, b.speed, DIR_SCALE);
        let nb = Bullet { pos: Vec2i { x: b.pos.x + dx, y: b.pos.y + dy }, ..b };
        if -EXT_X <= nb.pos.x && nb.pos.x <= EXT_X && -EXT_Y <= nb.pos.y && nb.pos.y <= EXT_Y {
            proof {
                assert(!bullet_exits(b));
                assert(nb == advance_bullet(b));
            }
            kept.push(nb);
        } else {
            proof {
                assert(bullet_exits(b));
            }
        }
        proof {
            assert(s.take(i + 1).drop_last() =~= s.take(i as int));
            assert(s.take(i + 1).last() == s[i as int]);
        }
        i = i + 1;
    }
    proof {
        assert(s.take(s.len() as int) =~= s);
        lemma_step_bullets_len(s);
        lemma_step_bullets_props(s, old(w).next_id as int);
    }
    w.bullets = kept;

    let dir = heading(w.player.angle_deg);
    let nb = Bullet { id: w.next_id, pos: w.player.pos, dir, speed: BULLET_SPEED };
    w.bullets.push(nb);
    w.next_id = w.next_id + 1;
}

} // verus!
