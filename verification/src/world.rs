//! The entity store and the simulation state.
//!
//! The world owns all simulation entities: the single player ship, the live
//! bullets and the live enemies, each carrying a pose in subunits. Bullets
//! and enemies carry stable identities drawn from one counter, so removals
//! and cross-tick observations can name an entity; within each kind the
//! identities grow with insertion order, which keeps iteration
//! deterministic.

use crate::math::Vec2i;
use crate::{
    BULLET_SPEED, DIR_SCALE, EXT_X, EXT_Y, MAX_STEP, PLAYER_ROT_STEP, PLAYER_SPEED,
    TIMER_PERIOD_MS,
};
use vstd::prelude::*;

verus! {

/// The player ship: a pose plus its motion attributes.
#[derive(Clone, Copy, PartialEq, Eq, Structural, Debug)]
pub struct Player {
    /// Position in subunits, kept inside the arena bounds.
    pub pos: Vec2i,
    /// Rotation, in whole degrees counterclockwise from `+Y`, in `[0, 360)`.
    pub angle_deg: u64,
    /// Linear speed, in subunits per tick (= world units per second).
    pub speed: i64,
    /// Turn rate, in degrees per tick.
    pub rot_step: u64,
}

/// A bullet: a position, a frozen direction and a speed.
#[derive(Clone, Copy, PartialEq, Eq, Structural, Debug)]
pub struct Bullet {
    /// Stable identity.
    pub id: u64,
    /// Position in subunits, inside the arena bounds while the bullet lives.
    pub pos: Vec2i,
    /// Unit direction scaled by `DIR_SCALE`, fixed at spawn time.
    pub dir: Vec2i,
    /// Speed, in subunits per tick.
    pub speed: i64,
}

/// An enemy: a position and a speed; it homes toward the player.
#[derive(Clone, Copy, PartialEq, Eq, Structural, Debug)]
pub struct Enemy {
    /// Stable identity.
    pub id: u64,
    /// Position in subunits.
    pub pos: Vec2i,
    /// Speed, in subunits per tick.
    pub speed: i64,
}

/// The periodic enemy-spawn timer: elapsed real time accumulates until it
/// reaches the period; on firing it resets to zero.
#[derive(Clone, Copy, PartialEq, Eq, Structural, Debug)]
pub struct SpawnTimer {
    /// The period, in milliseconds.
    pub period_ms: u64,
    /// Real time accumulated since the last fire, in milliseconds.
    pub elapsed_ms: u64,
}

/// The whole simulation state for one run.
pub struct World {
    /// The single player ship.
    pub player: Player,
    /// Live bullets, in spawn order.
    pub bullets: Vec<Bullet>,
    /// Live enemies, in spawn order.
    pub enemies: Vec<Enemy>,
    /// The next unused entity identity.
    pub next_id: u64,
    /// The score counter; owned by the simulation, displayed elsewhere.
    pub score: u64,
    /// The enemy-spawn timer.
    pub timer: SpawnTimer,
}

/// `(x, y)` lies inside the arena's axis-aligned bounding box.
pub open spec fn in_bounds_xy(x: int, y: int) -> bool {
    -EXT_X <= x <= EXT_X && -EXT_Y <= y <= EXT_Y
}

/// The point lies inside the arena's axis-aligned bounding box.
pub open spec fn in_bounds(p: Vec2i) -> bool {
    in_bounds_xy(p.x as int, p.y as int)
}

/// The player's invariant: clamped into the arena, a normalized angle and
/// bounded positive speeds.
pub open spec fn player_wf(p: Player) -> bool {
    &&& in_bounds(p.pos)
    &&& p.angle_deg < 360
    &&& 0 < p.speed <= MAX_STEP
    &&& 0 < p.rot_step < 360
}

/// A bullet's invariant: inside the arena (it is removed the tick it
/// leaves), direction components within the unit scale, bounded positive
/// speed.
pub open spec fn bullet_wf(b: Bullet) -> bool {
    &&& in_bounds(b.pos)
    &&& -DIR_SCALE <= b.dir.x <= DIR_SCALE
    &&& -DIR_SCALE <= b.dir.y <= DIR_SCALE
    &&& 0 < b.speed <= MAX_STEP
}

/// An enemy's invariant: both coordinates within `EXT_X` of the origin.
/// Enemies are never culled, but they spawn on a ring of radius
/// `SPAWN_RADIUS <= EXT_X` and homing only moves each coordinate toward
/// the player's, which lies inside the arena.
pub open spec fn enemy_wf(e: Enemy) -> bool {
    &&& -EXT_X <= e.pos.x <= EXT_X
    &&& -EXT_X <= e.pos.y <= EXT_X
    &&& 0 < e.speed <= MAX_STEP
}

/// The timer's invariant: a positive bounded period, and accumulated time
/// strictly below it (firing resets the accumulator).
pub open spec fn timer_wf(t: SpawnTimer) -> bool {
    &&& 0 < t.period_ms <= 1_000_000_000
    &&& t.elapsed_ms < t.period_ms
}

/// Identities in `s` grow strictly with the index and stay below `bound`.
pub open spec fn bullet_ids_bounded(s: Seq<Bullet>, bound: int) -> bool {
    &&& forall|i: int, j: int|
        0 <= i < j < s.len() ==> s[i].id < s[j].id
    &&& forall|i: int| 0 <= i < s.len() ==> #[trigger] s[i].id < bound
}

/// Identities in `s` grow strictly with the index and stay below `bound`.
pub open spec fn enemy_ids_bounded(s: Seq<Enemy>, bound: int) -> bool {
    &&& forall|i: int, j: int|
        0 <= i < j < s.len() ==> s[i].id < s[j].id
    &&& forall|i: int| 0 <= i < s.len() ==> #[trigger] s[i].id < bound
}

/// The world's invariant: every entity is well formed and every identity
/// was drawn from the counter.
pub open spec fn wf(w: World) -> bool {
    &&& player_wf(w.player)
    &&& forall|i: int| 0 <= i < w.bullets@.len() ==> bullet_wf(#[trigger] w.bullets@[i])
    &&& forall|i: int| 0 <= i < w.enemies@.len() ==> enemy_wf(#[trigger] w.enemies@[i])
    &&& bullet_ids_bounded(w.bullets@, w.next_id as int)
    &&& enemy_ids_bounded(w.enemies@, w.next_id as int)
    &&& timer_wf(w.timer)
}

impl World {
    /// The state at simulation start: score zero, the player at the origin
    /// facing `+Y`, one bullet at the origin heading `+Y`, no enemies, and
    /// a fresh spawn timer.
    pub fn new() -> (w: World)
        ensures
            wf(w),
            w.score == 0,
            w.player == (Player {
                pos: Vec2i { x: 0, y: 0 },
                angle_deg: 0,
                speed: PLAYER_SPEED,
                rot_step: PLAYER_ROT_STEP,
            }),
            w.bullets@ =~= seq![
                Bullet {
                    id: 0,
                    pos: Vec2i { x: 0, y: 0 },
                    dir: Vec2i { x: 0, y: DIR_SCALE },
                    speed: BULLET_SPEED,
                },
            ],
            w.enemies@ =~= Seq::<Enemy>::empty(),
            w.next_id == 1,
            w.timer == (SpawnTimer { period_ms: TIMER_PERIOD_MS, elapsed_ms: 0 }),
    {
        let mut bullets: Vec<Bullet> = Vec::new();
        bullets.push(
            Bullet {
                id: 0,
                pos: Vec2i { x: 0, y: 0 },
                dir: Vec2i { x: 0, y: DIR_SCALE },
                speed: BULLET_SPEED,
            },
        );
        World {
            player: Player {
                pos: Vec2i { x: 0, y: 0 },
                angle_deg: 0,
                speed: PLAYER_SPEED,
                rot_step: PLAYER_ROT_STEP,
            },
            bullets,
            enemies: Vec::new(),
            next_id: 1,
            score: 0,
            timer: SpawnTimer { period_ms: TIMER_PERIOD_MS, elapsed_ms: 0 },
        }
    }
}

} // verus!
