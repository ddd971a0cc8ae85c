//! The message set of the wire protocol.
//!
//! Three messages exist. The server sends `AssignStart` once per connection
//! and `TickInputs` once per tick; a client sends `Input` for each tick it
//! simulates. An `Input` deliberately carries no player identity: on the
//! server, identity comes from the accepting connection alone.

use vstd::prelude::*;

use crate::sim::InputPair;

verus! {

/// Server-to-client handshake: the connection's player id and how many
/// milliseconds after receipt the shared simulation start lies.
#[derive(Clone, Copy, Debug, PartialEq, Eq, Structural)]
pub struct AssignStart {
    pub player_id: u8,
    pub start_after_ms: u32,
}

/// Server-to-client broadcast: the authoritative input pair for one tick.
#[derive(Clone, Copy, Debug, PartialEq, Eq, Structural)]
pub struct TickInputs {
    pub tick: u32,
    pub inputs: InputPair,
}

/// Client-to-server submission: the sender's input bits, stamped with the
/// tick they are meant for.
#[derive(Clone, Copy, Debug, PartialEq, Eq, Structural)]
pub struct InputMsg {
    pub tick: u32,
    pub bits: u8,
}

/// Every message a client may send to the server.
#[derive(Clone, Copy, Debug, PartialEq, Eq, Structural)]
pub enum C2S {
    Input(InputMsg),
}

/// Every message the server may send to a client.
#[derive(Clone, Copy, Debug, PartialEq, Eq, Structural)]
pub enum S2C {
    AssignStart(AssignStart),
    TickInputs(TickInputs),
}

} // verus!
