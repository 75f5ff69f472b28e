use arcade_sim::homing::move_enemies;
use arcade_sim::math::{isqrt, Vec2i};
use arcade_sim::movement::{player_movement, InputState};
use arcade_sim::shooting::player_shooting;
use arcade_sim::sim::tick;
use arcade_sim::spawner::{spawn_enemies, timer_tick};
use arcade_sim::trig::{cos_deg, heading, ring_point, sin_deg};
use arcade_sim::world::{Enemy, SpawnTimer, World};
use arcade_sim::{
    BULLET_SPEED, DIR_SCALE, ENEMY_SPEED, EXT_X, EXT_Y, PLAYER_SPEED, SPAWN_RADIUS,
    TIMER_PERIOD_MS,
};

fn held(rl: bool, rr: bool, up: bool, down: bool, left: bool, right: bool) -> InputState {
    InputState { rotate_left: rl, rotate_right: rr, up, down, left, right }
}

#[test]
fn initial_world() {
    let w = World::new();
    assert_eq!(w.score, 0);
    assert_eq!(w.player.pos, Vec2i { x: 0, y: 0 });
    assert_eq!(w.player.angle_deg, 0);
    assert_eq!(w.player.speed, PLAYER_SPEED);
    assert_eq!(w.bullets.len(), 1);
    assert_eq!(w.bullets[0].id, 0);
    assert_eq!(w.bullets[0].dir, Vec2i { x: 0, y: DIR_SCALE });
    assert_eq!(w.bullets[0].speed, BULLET_SPEED);
    assert!(w.enemies.is_empty());
    assert_eq!(w.next_id, 1);
    assert_eq!(w.timer, SpawnTimer { period_ms: TIMER_PERIOD_MS, elapsed_ms: 0 });
}

// Scenario: arena half-extent 600 world units (36000 subunits), player speed
// 500, starting at 590 world units (35400). One tick of "move right" adds
// exactly 500 subunits (500/60 world units), to 598.33 units — still inside;
// the second tick would land at 606.67 and is clamped to exactly 600 units
// (36000), where the player then stays.
#[test]
fn clamp_at_right_wall() {
    let mut w = World::new();
    w.player.pos = Vec2i { x: 35400, y: 0 };
    let right = held(false, false, false, false, false, true);
    player_movement(&mut w, &right);
    assert_eq!(w.player.pos, Vec2i { x: 35900, y: 0 });
    player_movement(&mut w, &right);
    assert_eq!(w.player.pos, Vec2i { x: EXT_X, y: 0 });
    player_movement(&mut w, &right);
    assert_eq!(w.player.pos, Vec2i { x: EXT_X, y: 0 });
}

// Bounds invariant: even from a corner with every key held, the player stays
// inside the arena box.
#[test]
fn movement_bounds_all_keys() {
    let mut w = World::new();
    w.player.pos = Vec2i { x: EXT_X, y: EXT_Y };
    let all = held(true, true, true, true, true, true);
    let up_right = held(false, false, true, false, false, true);
    for _ in 0..10 {
        player_movement(&mut w, &all);
        assert!(-EXT_X <= w.player.pos.x && w.player.pos.x <= EXT_X);
        assert!(-EXT_Y <= w.player.pos.y && w.player.pos.y <= EXT_Y);
        player_movement(&mut w, &up_right);
        assert!(-EXT_X <= w.player.pos.x && w.player.pos.x <= EXT_X);
        assert!(-EXT_Y <= w.player.pos.y && w.player.pos.y <= EXT_Y);
    }
    assert_eq!(w.player.pos, Vec2i { x: EXT_X, y: EXT_Y });
}

// Diagonal speed-up: one tick of up+right displaces by (speed, speed) —
// squared length 2·speed² — where right alone gives (speed, 0).
#[test]
fn diagonal_speedup() {
    let mut w = World::new();
    player_movement(&mut w, &held(false, false, true, false, false, true));
    assert_eq!(w.player.pos, Vec2i { x: PLAYER_SPEED, y: PLAYER_SPEED });
    let diag_sq = w.player.pos.x * w.player.pos.x + w.player.pos.y * w.player.pos.y;

    let mut w2 = World::new();
    player_movement(&mut w2, &held(false, false, false, false, false, true));
    assert_eq!(w2.player.pos, Vec2i { x: PLAYER_SPEED, y: 0 });
    let single_sq = w2.player.pos.x * w2.player.pos.x + w2.player.pos.y * w2.player.pos.y;

    assert_eq!(diag_sq, 2 * single_sq);
}

// Rotation composes and wraps: 6 degrees per tick, counterclockwise for
// rotate-left, clockwise for rotate-right.
#[test]
fn rotation_wraps() {
    let mut w = World::new();
    player_movement(&mut w, &held(false, true, false, false, false, false));
    assert_eq!(w.player.angle_deg, 354);
    player_movement(&mut w, &held(true, false, false, false, false, false));
    assert_eq!(w.player.angle_deg, 0);
    for _ in 0..60 {
        player_movement(&mut w, &held(true, false, false, false, false, false));
    }
    assert_eq!(w.player.angle_deg, 0);
}

// Scenario: the initial bullet sits at the origin heading +Y with speed 750
// (12.5 world units per tick). It crosses the top bound of 320 world units
// on tick ceil(320 / 12.5) = 26 and is removed on exactly that tick.
#[test]
fn bullet_exits_top() {
    let mut w = World::new();
    for t in 1..=25 {
        player_shooting(&mut w);
        let b0 = w.bullets.iter().find(|b| b.id == 0);
        let b0 = b0.expect("bullet 0 must still be live");
        assert_eq!(b0.pos.y, 750 * t);
    }
    assert_eq!(25 * 750, 18750);
    player_shooting(&mut w);
    assert!(w.bullets.iter().all(|b| b.id != 0));
}

// Bullet lifecycle: each tick the count changes by exactly one minus the
// number of bullets whose advanced position left the arena.
#[test]
fn bullet_count_lifecycle() {
    let mut w = World::new();
    // Nothing near the bounds: net +1.
    player_shooting(&mut w);
    assert_eq!(w.bullets.len(), 2);
    player_shooting(&mut w);
    assert_eq!(w.bullets.len(), 3);
    // Push one bullet close to the top: it advances out and is culled, so
    // the count stays level (+1 spawned, -1 removed).
    w.bullets[0].pos.y = EXT_Y - 100;
    player_shooting(&mut w);
    assert_eq!(w.bullets.len(), 3);
}

// Direction freeze: rotating the player after a bullet spawned never
// changes that bullet's direction.
#[test]
fn direction_freeze() {
    let mut w = World::new();
    player_shooting(&mut w);
    let frozen: Vec<(u64, Vec2i)> = w.bullets.iter().map(|b| (b.id, b.dir)).collect();
    for _ in 0..7 {
        player_movement(&mut w, &held(true, false, false, false, false, false));
        player_shooting(&mut w);
        for (id, dir) in &frozen {
            if let Some(b) = w.bullets.iter().find(|b| b.id == *id) {
                assert_eq!(b.dir, *dir);
            }
        }
    }
    // The player did rotate, so later bullets head elsewhere.
    assert_ne!(w.bullets.last().unwrap().dir, Vec2i { x: 0, y: DIR_SCALE });
}

// Spawn timer periodicity: at 300 ms per tick the timer first fires on tick
// 2 (600 ms >= 500 ms), and then on every 2nd tick, never twice in a row.
#[test]
fn timer_periodicity() {
    let mut t = SpawnTimer { period_ms: 500, elapsed_ms: 0 };
    let mut fires = Vec::new();
    for _ in 0..10 {
        fires.push(timer_tick(&mut t, 300));
    }
    assert_eq!(
        fires,
        vec![false, true, false, true, false, true, false, true, false, true]
    );
    // A delta above the period fires every tick, once per tick.
    let mut t2 = SpawnTimer { period_ms: 500, elapsed_ms: 0 };
    for _ in 0..5 {
        assert!(timer_tick(&mut t2, 600));
        assert_eq!(t2.elapsed_ms, 0);
    }
}

// The spawner creates exactly one enemy on fire, somewhere on the spawn
// ring, and none while the timer is still accumulating.
#[test]
fn spawner_creates_enemy() {
    let mut w = World::new();
    assert!(!spawn_enemies(&mut w, 100));
    assert!(w.enemies.is_empty());
    assert!(spawn_enemies(&mut w, 400));
    assert_eq!(w.enemies.len(), 1);
    let e = &w.enemies[0];
    assert_eq!(e.speed, ENEMY_SPEED);
    assert_eq!(e.id, 1);
    assert!(e.pos.x.abs() <= SPAWN_RADIUS);
    assert!(e.pos.y.abs() <= SPAWN_RADIUS);
    // On the ring: the squared radius is SPAWN_RADIUS² within one percent
    // (the fixed-point sine is accurate to about 0.2%).
    let r_sq = e.pos.x * e.pos.x + e.pos.y * e.pos.y;
    assert!(r_sq >= SPAWN_RADIUS * SPAWN_RADIUS / 100 * 99);
    assert!(r_sq <= SPAWN_RADIUS * SPAWN_RADIUS / 100 * 101);
}

// Homing convergence: an enemy on the player's axis closes in by exactly
// its speed per tick, monotonically, and snaps onto the player on the last
// step without overshooting.
#[test]
fn enemy_homing_converges() {
    let mut w = World::new();
    w.enemies.push(Enemy { id: 1, pos: Vec2i { x: 24000, y: 0 }, speed: ENEMY_SPEED });
    w.next_id = 2;
    let mut last = 24000;
    for t in 1..=96 {
        move_enemies(&mut w);
        let d = w.enemies[0].pos.x;
        assert_eq!(d, 24000 - 250 * t);
        assert!(d < last);
        assert_eq!(w.enemies[0].pos.y, 0);
        last = d;
    }
    assert_eq!(w.enemies[0].pos, Vec2i { x: 0, y: 0 });
    // Once on the player, it stays (zero offset never becomes NaN-like).
    move_enemies(&mut w);
    assert_eq!(w.enemies[0].pos, Vec2i { x: 0, y: 0 });
}

// An enemy off-axis also approaches: squared distance never increases.
#[test]
fn enemy_homing_distance_monotone() {
    let mut w = World::new();
    w.enemies.push(Enemy { id: 1, pos: Vec2i { x: 9000, y: 12000 }, speed: ENEMY_SPEED });
    w.next_id = 2;
    let mut last_sq = 9000i64 * 9000 + 12000i64 * 12000;
    for _ in 0..200 {
        move_enemies(&mut w);
        let dx = w.enemies[0].pos.x;
        let dy = w.enemies[0].pos.y;
        let sq = dx * dx + dy * dy;
        assert!(sq <= last_sq);
        last_sq = sq;
    }
    assert_eq!(w.enemies[0].pos, Vec2i { x: 0, y: 0 });
}

// Exact values of the integer sine: Bhaskara's approximation is exact at
// the multiples of 30 degrees that the simulation meets most.
#[test]
fn sin_cos_exact_values() {
    assert_eq!(sin_deg(0), 0);
    assert_eq!(sin_deg(30), 5000);
    assert_eq!(sin_deg(90), 10000);
    assert_eq!(sin_deg(150), 5000);
    assert_eq!(sin_deg(180), 0);
    assert_eq!(sin_deg(210), -5000);
    assert_eq!(sin_deg(270), -10000);
    assert_eq!(cos_deg(0), 10000);
    assert_eq!(cos_deg(90), 0);
    assert_eq!(cos_deg(180), -10000);
    assert_eq!(cos_deg(270), 0);
    for d in 0..360 {
        let s = sin_deg(d);
        let c = cos_deg(d);
        assert!(-10000 <= s && s <= 10000);
        assert!(-10000 <= c && c <= 10000);
    }
}

#[test]
fn heading_cardinal_values() {
    assert_eq!(heading(0), Vec2i { x: 0, y: 10000 });
    assert_eq!(heading(90), Vec2i { x: -10000, y: 0 });
    assert_eq!(heading(180), Vec2i { x: 0, y: -10000 });
    assert_eq!(heading(270), Vec2i { x: 10000, y: 0 });
}

#[test]
fn ring_point_cardinal_values() {
    assert_eq!(ring_point(0), Vec2i { x: 0, y: SPAWN_RADIUS });
    assert_eq!(ring_point(90), Vec2i { x: SPAWN_RADIUS, y: 0 });
    assert_eq!(ring_point(180), Vec2i { x: 0, y: -SPAWN_RADIUS });
    assert_eq!(ring_point(270), Vec2i { x: -SPAWN_RADIUS, y: 0 });
}

#[test]
fn isqrt_values() {
    assert_eq!(isqrt(0), 0);
    assert_eq!(isqrt(1), 1);
    assert_eq!(isqrt(3), 1);
    assert_eq!(isqrt(4), 2);
    assert_eq!(isqrt(24), 4);
    assert_eq!(isqrt(25), 5);
    assert_eq!(isqrt(10_000_000_000), 100_000);
    assert_eq!(isqrt(9_999_999_999), 99_999);
}

// One whole tick runs the subsystems in order: movement, shooting, spawner,
// homing. With a 500 ms delta the timer fires immediately.
#[test]
fn tick_composes_subsystems() {
    let mut w = World::new();
    let fired = tick(&mut w, &held(false, false, false, false, false, false), 500);
    assert!(fired);
    assert_eq!(w.player.pos, Vec2i { x: 0, y: 0 });
    assert_eq!(w.bullets.len(), 2);
    assert_eq!(w.enemies.len(), 1);
    assert_eq!(w.next_id, 3);
    assert_eq!(w.score, 0);
    assert_eq!(w.timer.elapsed_ms, 0);
    let fired2 = tick(&mut w, &held(false, false, false, false, false, false), 100);
    assert!(!fired2);
    assert_eq!(w.bullets.len(), 3);
    assert_eq!(w.enemies.len(), 1);
    assert_eq!(w.timer.elapsed_ms, 100);
}
