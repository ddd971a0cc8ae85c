//! In-process forms of the wire traffic on a client.
//!
//! A reader worker turns decoded server frames into `NetEvent`s; a writer
//! worker turns `NetCmd`s into client frames. The conversions both ways
//! are exact, so nothing is gained or lost between a socket and the
//! predictor.

use vstd::prelude::*;

use crate::protocol::{AssignStart, InputMsg, TickInputs, C2S, S2C};

verus! {

/// A decoded server message, as delivered to the predictor.
#[derive(Clone, Copy, Debug, PartialEq, Eq, Structural)]
pub enum NetEvent {
    AssignStart(AssignStart),
    TickInputs(TickInputs),
}

/// An instruction to the writer worker.
#[derive(Clone, Copy, Debug, PartialEq, Eq, Structural)]
pub enum NetCmd {
    SendInput { tick: u32, bits: u8 },
}

/// The event a received server message becomes.
pub open spec fn spec_event_of_s2c(m: S2C) -> NetEvent {
    match m {
        S2C::AssignStart(a) => NetEvent::AssignStart(a),
        S2C::TickInputs(t) => NetEvent::TickInputs(t),
    }
}

/// The wire message a writer command becomes.
pub open spec fn spec_c2s_of_cmd(c: NetCmd) -> C2S {
    match c {
        NetCmd::SendInput { tick, bits } => C2S::Input(InputMsg { tick, bits }),
    }
}

/// Converts a received server message into its event.
pub fn event_of_s2c(m: S2C) -> (r: NetEvent)
    ensures
        r == spec_event_of_s2c(m),
{
    match m {
        S2C::AssignStart(a) => NetEvent::AssignStart(a),
        S2C::TickInputs(t) => NetEvent::TickInputs(t),
    }
}

/// Converts a writer command into the wire message to encode.
pub fn c2s_of_cmd(c: NetCmd) -> (r: C2S)
    ensures
        r == spec_c2s_of_cmd(c),
{
    match c {
        NetCmd::SendInput { tick, bits } => C2S::Input(InputMsg { tick, bits }),
    }
}

/// Whether an inbound event bypasses the artificial-delay queue. The
/// handshake must arrive promptly no matter the delay setting, so only
/// `AssignStart` does.
pub fn delivered_immediately(ev: &NetEvent) -> (r: bool)
    ensures
        r == (*ev is AssignStart),
{
    match ev {
        NetEvent::AssignStart(_) => true,
        NetEvent::TickInputs(_) => false,
    }
}

} // verus!
