//! The movement subsystem: once per tick it reads the held keys, turns the
//! player by its turn rate, translates it along the summed key axes by its
//! speed, and clamps the position into the arena bounds.

use crate::math::{clamp, clamp_spec, Vec2i};
use crate::world::{in_bounds, player_wf, wf, Player, World};
use crate::{EXT_X, EXT_Y};
use vstd::prelude::*;

verus! {

/// Which of the six logical keys are held this tick.
#[derive(Clone, Copy, PartialEq, Eq, Structural, Debug)]
pub struct InputState {
    pub rotate_left: bool,
    pub rotate_right: bool,
    pub up: bool,
    pub down: bool,
    pub left: bool,
    pub right: bool,
}

/// The net turn direction: `+1` for rotate-left, `-1` for rotate-right,
/// their sum when both are held.
pub open spec fn rotation_factor(inp: InputState) -> int {
    (if inp.rotate_left {
        1int
    } else {
        0int
    }) - (if inp.rotate_right {
        1int
    } else {
        0int
    })
}

/// The x component of the movement axis: the sum of the horizontal keys.
/// Diagonal input is deliberately not normalized, so two orthogonal keys
/// move the player √2 times faster than one.
pub open spec fn axis_x(inp: InputState) -> int {
    (if inp.right {
        1int
    } else {
        0int
    }) - (if inp.left {
        1int
    } else {
        0int
    })
}

/// The y component of the movement axis: the sum of the vertical keys.
pub open spec fn axis_y(inp: InputState) -> int {
    (if inp.up {
        1int
    } else {
        0int
    }) - (if inp.down {
        1int
    } else {
        0int
    })
}

/// Normalize an angle from `(-360, 720)` into `[0, 360)`.
pub open spec fn wrap_deg(a: int) -> int {
    if a < 0 {
        a + 360
    } else if a >= 360 {
        a - 360
    } else {
        a
    }
}

/// The player's angle after one tick of input: the old angle composed with
/// the net turn.
pub open spec fn turned_angle(p: Player, inp: InputState) -> int {
    wrap_deg(p.angle_deg + rotation_factor(inp) * p.rot_step)
}

/// The player's x coordinate after one tick of input: translated along the
/// movement axis by the player's speed, then clamped into the arena.
pub open spec fn moved_x(p: Player, inp: InputState) -> int {
    clamp_spec(p.pos.x + axis_x(inp) * p.speed, -EXT_X as int, EXT_X as int)
}

/// The player's y coordinate after one tick of input.
pub open spec fn moved_y(p: Player, inp: InputState) -> int {
    clamp_spec(p.pos.y + axis_y(inp) * p.speed, -EXT_Y as int, EXT_Y as int)
}

/// The whole player state after one tick of input: pose updated, the
/// attributes untouched.
pub open spec fn moved_player(p: Player, inp: InputState) -> Player {
    Player {
        pos: Vec2i { x: moved_x(p, inp) as i64, y: moved_y(p, inp) as i64 },
        angle_deg: turned_angle(p, inp) as u64,
        ..p
    }
}

/// Run the movement subsystem for one tick. Only the player changes, to
/// exactly `moved_player`; afterwards its position lies inside the arena
/// bounds, whatever keys were held and wherever the player started.
pub fn player_movement(w: &mut World, inp: &InputState)
    requires
        wf(*old(w)),
    ensures
        wf(*final(w)),
        final(w).player == moved_player(old(w).player, *inp),
        in_bounds(final(w).player.pos),
        final(w).bullets@ == old(w).bullets@,
        final(w).enemies@ == old(w).enemies@,
        final(w).next_id == old(w).next_id,
        final(w).score == old(w).score,
        final(w).timer == old(w).timer,
{
    let mut rotation: i64 = 0;
    if inp.rotate_left {
        rotation = rotation + 1;
    }
    if inp.rotate_right {
        rotation = rotation - 1;
    }

    let mut ax: i64 = 0;
    let mut ay: i64 = 0;
    if inp.right {
        ax = ax + 1;
    }
    if inp.left {
        ax = ax - 1;
    }
    if inp.up {
        ay = ay + 1;
    }
    if inp.down {
        ay = ay - 1;
    }

    let turned: i64 = w.player.angle_deg as i64 + rotation * (w.player.rot_step as i64);
    let wrapped: i64 = if turned < 0 {
        turned + 360
    } else if turned >= 360 {
        turned - 360
    } else {
        turned
    };

    let nx = clamp(w.player.pos.x + ax * w.player.speed, -EXT_X, EXT_X);
    let ny = clamp(w.player.pos.y + ay * w.player.speed, -EXT_Y, EXT_Y);

    w.player = Player {
        pos: Vec2i { x: nx, y: ny },
        angle_deg: wrapped as u64,
        ..w.player
    };
}

/// The squared length of the player's displacement in one tick of input,
/// before any clamping takes effect.
pub open spec fn raw_step_sq(p: Player, inp: InputState) -> int {
    (axis_x(inp) * p.speed) * (axis_x(inp) * p.speed) + (axis_y(inp) * p.speed) * (axis_y(inp)
        * p.speed)
}

/// Diagonal speed-up, a documented quirk: holding one horizontal and one
/// vertical key in the same tick displaces the player along a vector of
/// squared length `2·speed²`, where a single key gives `speed²` — diagonal
/// movement is √2 times faster, because the movement axis is not
/// normalized. Stated over the raw displacement; when no clamp binds, the
/// moved position realizes it exactly.
pub proof fn lemma_diagonal_speedup(p: Player, diag: InputState, single: InputState)
    requires
        player_wf(p),
        diag.left != diag.right,
        diag.up != diag.down,
        single.left != single.right,
        !single.up && !single.down,
    ensures
        raw_step_sq(p, diag) == 2 * p.speed * p.speed,
        raw_step_sq(p, single) == p.speed * p.speed,
        raw_step_sq(p, diag) == 2 * raw_step_sq(p, single),
{
    let s: int = p.speed as int;
    let xd: int = axis_x(diag);
    let yd: int = axis_y(diag);
    let xs: int = axis_x(single);
    assert(xd == 1 || xd == -1);
    assert(yd == 1 || yd == -1);
    assert(xs == 1 || xs == -1);
    assert(axis_y(single) == 0);
    assert((xd * s) * (xd * s) == s * s) by (nonlinear_arith)
        requires
            xd == 1 || xd == -1,
    ;
    assert((yd * s) * (yd * s) == s * s) by (nonlinear_arith)
        requires
            yd == 1 || yd == -1,
    ;
    assert((xs * s) * (xs * s) == s * s) by (nonlinear_arith)
        requires
            xs == 1 || xs == -1,
    ;
    assert((0int * s) * (0int * s) == 0) by (nonlinear_arith);
    assert(2 * s * s == s * s + s * s) by (nonlinear_arith);
}

/// When no clamp binds, the clamped displacement equals the raw one: the
/// diagonal tick really lands `speed` away on both axes.
pub proof fn lemma_moved_realizes_raw_step(p: Player, inp: InputState)
    requires
        player_wf(p),
        -EXT_X <= p.pos.x + axis_x(inp) * p.speed <= EXT_X,
        -EXT_Y <= p.pos.y + axis_y(inp) * p.speed <= EXT_Y,
    ensures
        moved_x(p, inp) - p.pos.x == axis_x(inp) * p.speed,
        moved_y(p, inp) - p.pos.y == axis_y(inp) * p.speed,
{
}

} // verus!
