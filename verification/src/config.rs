//! Process-wide protocol constants, fixed at build time.

use vstd::prelude::*;

verus! {

/// Simulation ticks per second.
pub const TPS: u32 = 60;

/// Length of one tick in microseconds (the tick accumulators count
/// microseconds).
pub const DT_US: u64 = 1_000_000 / 60;

/// How many ticks the server intentionally runs behind the wall clock,
/// giving client inputs time to arrive.
pub const LEAD_TICKS: u32 = 4;

/// The server accepts client inputs stamped for ticks in
/// `[server_tick, server_tick + D_MAX]`.
pub const D_MAX: u32 = 32;

/// Ring size for the client's authoritative / used / snapshot histories.
pub const HISTORY: usize = 2048;

/// Largest number of ticks a client simulates in one rendered frame.
pub const CATCHUP_BUDGET_TICKS: u32 = 2000;

/// Gap between the handshake and the shared start instant, in milliseconds.
pub const START_DELAY_MS: u32 = 800;

/// Number of participating players; the protocol is fixed at two.
pub const PLAYER_COUNT: usize = 2;

} // verus!
