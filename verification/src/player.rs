//! The paddle: input-driven horizontal motion, clamped to the canvas.
//!
//! All positions are in thousandths of a unit; time is in milliseconds. A
//! speed in thousandths of a unit per millisecond is numerically the speed
//! in units per second.

use vstd::prelude::*;
use crate::geometry::spec_clamp;

verus! {

/// Horizontal speed of the paddle, in thousandths of a unit per millisecond.
pub const PLAYER_SPEED: i64 = 400;

/// The paddle's x coordinate is kept inside `[-PLAYER_CLAMP, PLAYER_CLAMP]`.
pub const PLAYER_CLAMP: i64 = 400_000;

/// The paddle's fixed vertical position.
pub const PLAYER_Y: i64 = -350_000;

/// The paddle's initial horizontal position.
pub const PLAYER_START_X: i64 = 0;

/// Full extent of the paddle's box on either axis.
pub const PLAYER_SIZE: i64 = 50_000;

/// Net direction of the pressed keys: right counts +1 and left counts -1,
/// so holding both or neither gives 0.
pub open spec fn net_direction(left: bool, right: bool) -> int {
    (if right {
        1int
    } else {
        0int
    }) - (if left {
        1int
    } else {
        0int
    })
}

/// Where the paddle stands after one frame: displaced by speed times net
/// direction times elapsed time, then clamped to the canvas. The result is
/// inside the clamp bound whatever `x` and `dt` are.
pub fn player_new_x(x: i64, left: bool, right: bool, dt: i64) -> (r: i64)
    requires
        0 <= dt,
    ensures
        r as int == spec_clamp(
            x + PLAYER_SPEED * net_direction(left, right) * dt,
            -PLAYER_CLAMP as int,
            PLAYER_CLAMP as int,
        ),
        -PLAYER_CLAMP <= r <= PLAYER_CLAMP,
{
    let dtw: i128 = dt as i128;
    let mag: i128 = 400 * dtw;
    let delta: i128 = if right && !left {
        mag
    } else if left && !right {
        -mag
    } else {
        0
    };
    proof {
        let nd = net_direction(left, right);
        assert(PLAYER_SPEED * nd * dt == if nd == 1 {
            400 * dt
        } else if nd == -1 {
            -(400 * dt)
        } else {
            0int
        }) by (nonlinear_arith)
            requires
                -1 <= nd <= 1,
        ;
    }
    assert(delta == PLAYER_SPEED * net_direction(left, right) * dt);
    let moved: i128 = x as i128 + delta;
    let lo: i128 = -(PLAYER_CLAMP as i128);
    let hi: i128 = PLAYER_CLAMP as i128;
    let clamped: i128 = if moved < lo {
        lo
    } else if moved > hi {
        hi
    } else {
        moved
    };
    clamped as i64
}

} // verus!
