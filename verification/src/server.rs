//! Server-side input arbitration.
//!
//! The arbiter holds the server tick, the pending-input window, and the
//! last known bits of each player. Network code feeds it `InboundInput`
//! records (tagging each with the id the server assigned to the accepting
//! connection — never anything a client wrote) and asks it to advance;
//! every acceptance rule of the protocol lives here:
//!
//! - no retroactive inputs: a record for a tick already processed is dropped;
//! - bounded future: a record beyond `server_tick + D_MAX` is dropped;
//! - first submission wins: a second record for the same `(player, tick)`
//!   is dropped;
//! - carryover: when a tick arrives with no fresh record for a player, that
//!   player's most recent known bits are reused.

use vstd::prelude::*;

use crate::config::{D_MAX, DT_US, PLAYER_COUNT};
use crate::protocol::TickInputs;
use crate::sim::InputPair;

verus! {

/// An input record as it leaves a server reader thread: the wire message's
/// fields plus the player id of the connection it arrived on.
#[derive(Clone, Copy, Debug, PartialEq, Eq, Structural)]
pub struct InboundInput {
    pub player_id: usize,
    pub tick: u32,
    pub bits: u8,
}

/// A snapshot of the server's own telemetry simulation after one tick, as
/// handed to its render loop.
#[derive(Clone, Copy, Debug)]
pub struct ServerRender<S> {
    pub tick: u32,
    pub state: S,
}

/// What the arbiter did with one inbound record.
#[derive(Clone, Copy, Debug, PartialEq, Eq, Structural)]
pub enum IngestOutcome {
    /// Stored; it will be used when its tick is processed.
    Accepted,
    /// Dropped: stamped for a tick the server has already processed.
    Stale,
    /// Dropped: stamped further ahead than `server_tick + D_MAX`.
    OutOfWindow,
    /// Dropped: an earlier record for the same `(player, tick)` stands.
    DuplicateTick,
}

/// Width of the pending window: one slot for each acceptable tick,
/// `server_tick` through `server_tick + D_MAX`.
pub const PENDING_SLOTS: usize = 33;

/// The server's input arbiter.
pub struct Arbiter {
    tick: u32,
    /// Slot `i` holds the pending bits of player 0 for tick `tick + i`.
    pending0: Vec<Option<u8>>,
    /// Slot `i` holds the pending bits of player 1 for tick `tick + i`.
    pending1: Vec<Option<u8>>,
    last: InputPair,
}

impl Arbiter {
    /// Both pending windows span exactly the acceptable ticks.
    pub closed spec fn wf(self) -> bool {
        &&& self.pending0@.len() == PENDING_SLOTS
        &&& self.pending1@.len() == PENDING_SLOTS
        &&& PENDING_SLOTS == D_MAX + 1
    }

    /// The tick the arbiter will arbitrate next.
    pub closed spec fn spec_server_tick(self) -> u32 {
        self.tick
    }

    /// Each player's most recent known bits: what carryover will reuse.
    pub closed spec fn spec_last_bits(self) -> InputPair {
        self.last
    }

    /// The tick the arbiter will arbitrate next.
    pub fn server_tick(&self) -> (r: u32)
        ensures
            r == self.spec_server_tick(),
    {
        self.tick
    }

    /// Each player's most recent known bits.
    pub fn last_bits(&self) -> (r: InputPair)
        ensures
            r == self.spec_last_bits(),
    {
        self.last
    }

    /// The stored pending bits of player `pid` for tick `t`, if a record
    /// was accepted for it and its tick has not yet been processed.
    pub closed spec fn spec_pending(self, pid: int, t: u32) -> Option<u8> {
        if self.tick <= t <= self.tick + D_MAX {
            if pid == 0 {
                self.pending0@[t - self.tick]
            } else if pid == 1 {
                self.pending1@[t - self.tick]
            } else {
                None
            }
        } else {
            None
        }
    }

    /// A fresh arbiter: tick 0, nothing pending, carryover bits all zero.
    pub fn new() -> (r: Arbiter)
        ensures
            r.wf(),
            r.spec_server_tick() == 0,
            r.spec_last_bits() == InputPair::spec_zero(),
            forall|pid: int, t: u32| r.spec_pending(pid, t) is None,
    {
        let mut pending0: Vec<Option<u8>> = Vec::new();
        let mut pending1: Vec<Option<u8>> = Vec::new();
        let mut i: usize = 0;
        while i < PENDING_SLOTS
            invariant
                i <= PENDING_SLOTS,
                pending0@.len() == i,
                pending1@.len() == i,
                forall|j: int| 0 <= j < i ==> pending0@[j] is None,
                forall|j: int| 0 <= j < i ==> pending1@[j] is None,
            decreases PENDING_SLOTS - i,
        {
            pending0.push(None);
            pending1.push(None);
            i = i + 1;
        }
        Arbiter { tick: 0, pending0, pending1, last: InputPair::zero() }
    }

    /// Applies the acceptance rules to one inbound record.
    ///
    /// The record is stored exactly when its tick lies in
    /// `[server_tick, server_tick + D_MAX]` and no record for the same
    /// `(player, tick)` stands; otherwise the arbiter is left untouched.
    /// No other player's pending window is ever affected.
    pub fn ingest(&mut self, msg: InboundInput) -> (o: IngestOutcome)
        requires
            old(self).wf(),
            msg.player_id < PLAYER_COUNT,
        ensures
            final(self).wf(),
            final(self).spec_server_tick() == old(self).spec_server_tick(),
            final(self).spec_last_bits() == old(self).spec_last_bits(),
            o == IngestOutcome::Stale <==> msg.tick < old(self).spec_server_tick(),
            o == IngestOutcome::OutOfWindow <==> msg.tick > old(self).spec_server_tick() + D_MAX,
            o == IngestOutcome::DuplicateTick <==> (old(self).spec_server_tick() <= msg.tick
                <= old(self).spec_server_tick() + D_MAX && old(self).spec_pending(
                msg.player_id as int,
                msg.tick,
            ) is Some),
            o == IngestOutcome::Accepted <==> (old(self).spec_server_tick() <= msg.tick <= old(
                self,
            ).spec_server_tick() + D_MAX && old(self).spec_pending(msg.player_id as int, msg.tick)
                is None),
            o == IngestOutcome::Accepted ==> final(self).spec_pending(
                msg.player_id as int,
                msg.tick,
            ) == Some(msg.bits),
            o != IngestOutcome::Accepted ==> *final(self) == *old(self),
            forall|p: int, t: u32|
                !(p == msg.player_id as int && t == msg.tick) ==> final(self).spec_pending(p, t)
                    == old(self).spec_pending(p, t),
    {
        if msg.tick < self.tick {
            return IngestOutcome::Stale;
        }
        if msg.tick - self.tick > D_MAX {
            return IngestOutcome::OutOfWindow;
        }
        let idx = (msg.tick - self.tick) as usize;
        if msg.player_id == 0 {
            if self.pending0[idx].is_some() {
                IngestOutcome::DuplicateTick
            } else {
                self.pending0.set(idx, Some(msg.bits));
                IngestOutcome::Accepted
            }
        } else {
            if self.pending1[idx].is_some() {
                IngestOutcome::DuplicateTick
            } else {
                self.pending1.set(idx, Some(msg.bits));
                IngestOutcome::Accepted
            }
        }
    }

    /// The bits the arbiter will choose for player `pid` at tick `t`,
    /// given no further records arrive: the pending bits for the greatest
    /// tick at or below `t` that has any, and the carryover bits when none
    /// has.
    pub open spec fn spec_chosen_bits(self, pid: int, t: u32) -> u8
        decreases t,
    {
        match self.spec_pending(pid, t) {
            Some(b) => b,
            None => if t <= self.spec_server_tick() || t == 0 {
                self.spec_last_bits().spec_get(pid)
            } else {
                self.spec_chosen_bits(pid, (t - 1) as u32)
            },
        }
    }

    /// Arbitrates the current tick: builds the authoritative input pair
    /// from pending records (or carryover), consumes those records, and
    /// steps the server tick.
    pub fn advance(&mut self) -> (ti: TickInputs)
        requires
            old(self).wf(),
            old(self).spec_server_tick() < u32::MAX,
        ensures
            final(self).wf(),
            ti.tick == old(self).spec_server_tick(),
            final(self).spec_server_tick() == old(self).spec_server_tick() + 1,
            ti.inputs == (InputPair {
                p0: old(self).spec_chosen_bits(0, old(self).spec_server_tick()),
                p1: old(self).spec_chosen_bits(1, old(self).spec_server_tick()),
            }),
            final(self).spec_last_bits() == ti.inputs,
            forall|p: int, t: u32|
                t != old(self).spec_server_tick() ==> final(self).spec_pending(p, t) == old(
                    self,
                ).spec_pending(p, t),
            forall|p: int| final(self).spec_pending(p, old(self).spec_server_tick()) is None,
    {
        let t = self.tick;
        let mut inputs = self.last;
        if let Some(b) = self.pending0[0] {
            inputs = inputs.with(0, b);
        }
        if let Some(b) = self.pending1[0] {
            inputs = inputs.with(1, b);
        }
        self.pending0.remove(0);
        self.pending0.push(None);
        self.pending1.remove(0);
        self.pending1.push(None);
        self.last = inputs;
        self.tick = t + 1;
        proof {
            assert forall|p: int, tt: u32| tt != t implies self.spec_pending(p, tt) == old(
                self,
            ).spec_pending(p, tt) by {
                if old(self).tick <= tt <= old(self).tick + D_MAX && tt != t {
                    assert(self.pending0@[tt - self.tick] == old(self).pending0@[tt - old(
                        self,
                    ).tick]);
                    assert(self.pending1@[tt - self.tick] == old(self).pending1@[tt - old(
                        self,
                    ).tick]);
                }
            }
        }
        TickInputs { tick: t, inputs }
    }

    /// Runs `advance` for every whole tick period in the accumulator, as
    /// long as the server tick has not passed `max_tick`; the returned
    /// broadcasts carry strictly consecutive ticks.
    pub fn advance_due(&mut self, acc_us: &mut u64, max_tick: u32) -> (out: Vec<TickInputs>)
        requires
            old(self).wf(),
            max_tick < u32::MAX,
        ensures
            final(self).wf(),
            final(self).spec_server_tick() == old(self).spec_server_tick() + out@.len(),
            *final(acc_us) == *old(acc_us) - out@.len() * DT_US,
            forall|k: int|
                0 <= k < out@.len() ==> (#[trigger] out@[k]) == (TickInputs {
                    tick: (old(self).spec_server_tick() + k) as u32,
                    inputs: InputPair {
                        p0: old(self).spec_chosen_bits(
                            0,
                            (old(self).spec_server_tick() + k) as u32,
                        ),
                        p1: old(self).spec_chosen_bits(
                            1,
                            (old(self).spec_server_tick() + k) as u32,
                        ),
                    },
                }),
            *final(acc_us) < DT_US || final(self).spec_server_tick() > max_tick,
            final(self).spec_server_tick() <= max_tick + 1 || *final(self) == *old(self),
            out@.len() == 0 ==> *final(self) == *old(self),
    {
        let mut out: Vec<TickInputs> = Vec::new();
        while *acc_us >= DT_US && self.tick <= max_tick
            invariant
                self.wf(),
                self.spec_server_tick() <= max_tick + 1 || *self == *old(self),
                max_tick < u32::MAX,
                self.spec_server_tick() == old(self).spec_server_tick() + out@.len(),
                *acc_us == *old(acc_us) - out@.len() * DT_US,
                forall|k: int|
                    0 <= k < out@.len() ==> (#[trigger] out@[k]) == (TickInputs {
                        tick: (old(self).spec_server_tick() + k) as u32,
                        inputs: InputPair {
                            p0: old(self).spec_chosen_bits(
                                0,
                                (old(self).spec_server_tick() + k) as u32,
                            ),
                            p1: old(self).spec_chosen_bits(
                                1,
                                (old(self).spec_server_tick() + k) as u32,
                            ),
                        },
                    }),
                forall|p: int, t: u32|
                    t >= self.spec_server_tick() ==> self.spec_pending(p, t) == old(self).spec_pending(
                        p,
                        t,
                    ),
                out@.len() > 0 ==> self.spec_last_bits() == (InputPair {
                    p0: old(self).spec_chosen_bits(0, (self.spec_server_tick() - 1) as u32),
                    p1: old(self).spec_chosen_bits(1, (self.spec_server_tick() - 1) as u32),
                }),
                out@.len() == 0 ==> *self == *old(self),
            decreases (max_tick - self.tick) as int + 1,
        {
            let ghost prev = *self;
            let ti = self.advance();
            proof {
                let cur = (old(self).spec_server_tick() + out@.len()) as u32;
                assert(prev.spec_server_tick() == cur);
                assert(ti.tick == cur);
                // the pending record consumed this iteration is the one the
                // pre-loop arbiter held for this tick, and the carryover
                // bits are the previous tick's chosen bits
                assert forall|pid: int| 0 <= pid < PLAYER_COUNT implies prev.spec_chosen_bits(
                    pid,
                    cur,
                ) == old(self).spec_chosen_bits(pid, cur) by {
                    assert(prev.spec_pending(pid, cur) == old(self).spec_pending(pid, cur));
                    assert(old(self).spec_chosen_bits(pid, cur) == match old(self).spec_pending(
                        pid,
                        cur,
                    ) {
                        Some(b) => b,
                        None => if cur <= old(self).spec_server_tick() || cur == 0 {
                            old(self).spec_last_bits().spec_get(pid)
                        } else {
                            old(self).spec_chosen_bits(pid, (cur - 1) as u32)
                        },
                    });
                }
                assert(ti == (TickInputs {
                    tick: cur,
                    inputs: InputPair {
                        p0: old(self).spec_chosen_bits(0, cur),
                        p1: old(self).spec_chosen_bits(1, cur),
                    },
                }));
            }
            out.push(ti);
            *acc_us = *acc_us - DT_US;
            proof {
                assert(out@.len() * DT_US == (out@.len() - 1) * DT_US + DT_US) by (nonlinear_arith);
            }
        }
        out
    }
}

} // verus!
