//! The tick clock shared by server and clients.
//!
//! Both sides agree on a start instant and a fixed tick rate; the wall tick
//! at any moment is the number of whole tick periods that have elapsed
//! since the start. Time reaches the core as integer microseconds, so the
//! same elapsed time yields the same tick on every participant.

use vstd::prelude::*;

use crate::config::{D_MAX, LEAD_TICKS, TPS};

verus! {

/// The wall tick after `elapsed_us` microseconds:
/// `floor(elapsed_seconds * TPS)`, saturating at `u32::MAX`.
pub open spec fn spec_wall_tick(elapsed_us: u64) -> u32 {
    let t = (elapsed_us as int) * (TPS as int) / 1_000_000;
    if t > u32::MAX {
        u32::MAX
    } else {
        t as u32
    }
}

/// The tick a participant should be processing `elapsed_us` after start,
/// allowing for the server's deliberate lag: `wall_tick - LEAD_TICKS`,
/// floored at 0. The server advances toward this; a client uses it as its
/// estimate of the server's current tick.
pub open spec fn spec_target_tick(wall: u32) -> u32 {
    if wall >= LEAD_TICKS {
        (wall - LEAD_TICKS) as u32
    } else {
        0
    }
}

/// How many whole ticks fit in an artificial delay of `delay_ms`
/// milliseconds.
pub open spec fn spec_latency_ticks(delay_ms: u32) -> u32 {
    ((delay_ms as int) * (TPS as int) / 1000) as u32
}

/// Computes the wall tick from elapsed microseconds.
pub fn wall_tick(elapsed_us: u64) -> (r: u32)
    ensures
        r == spec_wall_tick(elapsed_us),
{
    proof {
        assert((elapsed_us as int) * (TPS as int) <= (u64::MAX as int) * (TPS as int))
            by (nonlinear_arith)
            requires
                elapsed_us <= u64::MAX,
        ;
    }
    let ticks: u128 = (elapsed_us as u128) * (TPS as u128) / 1_000_000;
    if ticks > u32::MAX as u128 {
        u32::MAX
    } else {
        ticks as u32
    }
}

/// Computes the lag-adjusted target tick from a wall tick.
pub fn target_tick(wall: u32) -> (r: u32)
    ensures
        r == spec_target_tick(wall),
{
    if wall >= LEAD_TICKS {
        wall - LEAD_TICKS
    } else {
        0
    }
}

/// Computes how many whole ticks an artificial delay spans.
pub fn latency_ticks(delay_ms: u32) -> (r: u32)
    ensures
        r == spec_latency_ticks(delay_ms),
{
    proof {
        assert((delay_ms as int) * (TPS as int) <= (u32::MAX as int) * (TPS as int))
            by (nonlinear_arith)
            requires
                delay_ms <= u32::MAX,
        ;
        assert((u32::MAX as int) * (TPS as int) / 1000 <= u32::MAX);
    }
    let t: u64 = (delay_ms as u64) * (TPS as u64) / 1000;
    t as u32
}

/// The highest tick a client may stamp on an input so the server, at
/// estimated tick `server_est`, still accepts it: `server_est + D_MAX`,
/// saturating.
pub open spec fn spec_max_stamp(server_est: u32) -> u32 {
    if server_est + D_MAX > u32::MAX {
        u32::MAX
    } else {
        (server_est + D_MAX) as u32
    }
}

/// Computes the highest acceptable stamp tick.
pub fn max_stamp(server_est: u32) -> (r: u32)
    ensures
        r == spec_max_stamp(server_est),
{
    if server_est > u32::MAX - D_MAX {
        u32::MAX
    } else {
        server_est + D_MAX
    }
}

/// The tick a client stamps on the input it simulated at `local_tick`:
/// shifted forward by the delay's worth of ticks so it lands "current" at
/// the server, clamped into the server's acceptance window.
pub open spec fn spec_stamp_tick(local_tick: u32, latency: u32, server_est: u32) -> u32 {
    let shifted = if local_tick + latency > u32::MAX {
        u32::MAX
    } else {
        (local_tick + latency) as u32
    };
    if shifted > spec_max_stamp(server_est) {
        spec_max_stamp(server_est)
    } else {
        shifted
    }
}

/// Computes the stamp tick for an outbound input.
pub fn stamp_tick(local_tick: u32, latency: u32, server_est: u32) -> (r: u32)
    ensures
        r == spec_stamp_tick(local_tick, latency, server_est),
{
    let shifted = if local_tick > u32::MAX - latency {
        u32::MAX
    } else {
        local_tick + latency
    };
    let cap = max_stamp(server_est);
    if shifted > cap {
        cap
    } else {
        shifted
    }
}

} // verus!
