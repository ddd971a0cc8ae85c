//! Deterministic lockstep networking core: an input-exchange protocol in
//! which a server arbitrates per-tick input bits for a fixed pair of
//! players and broadcasts them, while each client predicts ahead, detects
//! authoritative mismatches, and rolls back and replays.
//!
//! Only input bits ever cross the wire; simulation states are recomputed
//! locally by every participant from the same deterministic step function,
//! so a client that tampers with its own state can bend nothing but its
//! own render.
//!
//! - [`sim`]: input bits and pairs, the deterministic-step contract, and
//!   determinism of step sequences;
//! - [`protocol`] and [`codec`]: the message set and its canonical
//!   length-framed binary encoding, with the round-trip laws;
//! - [`clock`]: wall-clock ticks, the server's deliberate lag, and input
//!   stamping;
//! - [`server`]: the input arbiter — acceptance window, first submission
//!   wins, carryover, and in-order broadcast;
//! - [`client`]: the predictor — prediction, rollback, replay, and time
//!   dilation;
//! - [`delay`]: the artificial-latency injector used for testing;
//! - [`net`]: the in-process event and command forms of the wire traffic;
//! - [`refsim`]: a small integer simulation implementing the step
//!   contract, for exercising the whole core;
//! - [`config`]: the protocol's fixed constants.

pub mod client;
pub mod clock;
pub mod codec;
pub mod config;
pub mod delay;
pub mod net;
pub mod protocol;
pub mod refsim;
pub mod server;
pub mod sim;
