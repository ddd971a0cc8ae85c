//! A small integer reference simulation.
//!
//! The protocol core is generic over any `Simulation`; this one gives the
//! crate a concrete, fully verified instance: two players on an integer
//! grid with walking, a jump, and gravity. Being all-integer it is
//! bit-reproducible on any platform, which makes it the natural vehicle
//! for exercising prediction, rollback, and the end-to-end session logic.

use vstd::prelude::*;

use crate::sim::{InputBits, InputPair, Simulation, JUMP_BIT, LEFT_BIT, RIGHT_BIT};

verus! {

/// Rightmost reachable x position.
pub const GRID_X_MAX: i64 = 208;

/// The floor's y position (y grows downward; 0 is the ceiling).
pub const GRID_Y_MAX: i64 = 108;

/// Horizontal distance walked in one tick.
pub const WALK_SPEED: i64 = 2;

/// Upward velocity granted by a jump.
pub const JUMP_SPEED: i64 = 6;

/// Largest magnitude the vertical velocity may reach.
pub const FALL_CAP: i64 = 10;

/// One player on the grid.
#[derive(Clone, Copy, Debug, PartialEq, Eq, Structural)]
pub struct GridPlayer {
    pub x: i64,
    pub y: i64,
    pub vy: i64,
}

/// The whole simulation state: both players.
#[derive(Clone, Copy, Debug, PartialEq, Eq, Structural)]
pub struct GridState {
    pub p0: GridPlayer,
    pub p1: GridPlayer,
}

/// The grid world's step function.
pub struct GridSim;

/// `v` forced into `[lo, hi]`.
pub open spec fn spec_clamp(v: int, lo: int, hi: int) -> int {
    if v < lo {
        lo
    } else if v > hi {
        hi
    } else {
        v
    }
}

/// One player advanced by one tick under input bits `b`.
pub open spec fn spec_step_player(p: GridPlayer, b: u8) -> GridPlayer {
    let x0 = spec_clamp(p.x as int, 0, GRID_X_MAX as int);
    let y0 = spec_clamp(p.y as int, 0, GRID_Y_MAX as int);
    let v0 = spec_clamp(p.vy as int, -FALL_CAP as int, FALL_CAP as int);
    let dx: int = (if b & RIGHT_BIT == RIGHT_BIT {
        1int
    } else {
        0int
    }) - (if b & LEFT_BIT == LEFT_BIT {
        1int
    } else {
        0int
    });
    let x1 = spec_clamp(x0 + dx * (WALK_SPEED as int), 0, GRID_X_MAX as int);
    let on_ground = y0 == GRID_Y_MAX as int;
    let v1 = if b & JUMP_BIT == JUMP_BIT && on_ground {
        -JUMP_SPEED as int
    } else {
        spec_clamp(v0 + 1, -FALL_CAP as int, FALL_CAP as int)
    };
    let y1 = spec_clamp(y0 + v1, 0, GRID_Y_MAX as int);
    let v2 = if y1 == 0 && v1 < 0 {
        0int
    } else if y1 == GRID_Y_MAX as int && v1 > 0 {
        0int
    } else {
        v1
    };
    GridPlayer { x: x1 as i64, y: y1 as i64, vy: v2 as i64 }
}

/// The whole state advanced by one tick.
pub open spec fn spec_step_state(s: GridState, inputs: InputPair) -> GridState {
    GridState { p0: spec_step_player(s.p0, inputs.p0), p1: spec_step_player(s.p1, inputs.p1) }
}

/// Both players standing on the floor, apart from each other.
pub open spec fn spec_grid_initial() -> GridState {
    GridState {
        p0: GridPlayer { x: 20, y: GRID_Y_MAX, vy: 0 },
        p1: GridPlayer { x: 100, y: GRID_Y_MAX, vy: 0 },
    }
}

/// The starting state of the grid world.
pub fn grid_initial() -> (r: GridState)
    ensures
        r == spec_grid_initial(),
{
    GridState {
        p0: GridPlayer { x: 20, y: GRID_Y_MAX, vy: 0 },
        p1: GridPlayer { x: 100, y: GRID_Y_MAX, vy: 0 },
    }
}

fn clamp(v: i64, lo: i64, hi: i64) -> (r: i64)
    requires
        lo <= hi,
    ensures
        r == spec_clamp(v as int, lo as int, hi as int),
{
    if v < lo {
        lo
    } else if v > hi {
        hi
    } else {
        v
    }
}

fn step_player(p: GridPlayer, b: u8) -> (r: GridPlayer)
    ensures
        r == spec_step_player(p, b),
{
    let bits = InputBits::from_u8(b);
    let x0 = clamp(p.x, 0, GRID_X_MAX);
    let y0 = clamp(p.y, 0, GRID_Y_MAX);
    let v0 = clamp(p.vy, -FALL_CAP, FALL_CAP);
    let mut dx: i64 = 0;
    if bits.contains(InputBits::right()) {
        dx = dx + 1;
    }
    if bits.contains(InputBits::left()) {
        dx = dx - 1;
    }
    proof {
        assert(b & RIGHT_BIT & 0x07 == b & RIGHT_BIT) by (bit_vector);
        assert(b & LEFT_BIT & 0x07 == b & LEFT_BIT) by (bit_vector);
        assert(b & JUMP_BIT & 0x07 == b & JUMP_BIT) by (bit_vector);
        assert((b & 0x07) & RIGHT_BIT == b & RIGHT_BIT) by (bit_vector);
        assert((b & 0x07) & LEFT_BIT == b & LEFT_BIT) by (bit_vector);
        assert((b & 0x07) & JUMP_BIT == b & JUMP_BIT) by (bit_vector);
    }
    let x1 = clamp(x0 + dx * WALK_SPEED, 0, GRID_X_MAX);
    let on_ground = y0 == GRID_Y_MAX;
    let v1 = if bits.contains(InputBits::jump()) && on_ground {
        -JUMP_SPEED
    } else {
        clamp(v0 + 1, -FALL_CAP, FALL_CAP)
    };
    let y1 = clamp(y0 + v1, 0, GRID_Y_MAX);
    let v2 = if y1 == 0 && v1 < 0 {
        0
    } else if y1 == GRID_Y_MAX && v1 > 0 {
        0
    } else {
        v1
    };
    GridPlayer { x: x1, y: y1, vy: v2 }
}

impl Simulation for GridSim {
    type State = GridState;

    open spec fn step_spec(s: GridState, inputs: InputPair) -> GridState {
        spec_step_state(s, inputs)
    }

    fn step(&self, s: GridState, inputs: InputPair) -> (r: GridState) {
        GridState { p0: step_player(s.p0, inputs.p0), p1: step_player(s.p1, inputs.p1) }
    }
}

} // verus!
