//! Client-side prediction, rollback, and time dilation.
//!
//! The predictor runs one `advance_frame` per rendered frame. It simulates
//! ticks ahead of the authoritative stream, using the authoritative pair
//! where one is known and predicting otherwise (its own sampled bits for
//! itself, last-known bits for the remote player). Three rings, keyed by
//! `tick mod HISTORY` and tagged with their tick, remember what arrived
//! (`auth`), what was fed to the step function (`used`), and the state at
//! the start of each tick (`snap`); when an authoritative pair contradicts
//! a used pair, the predictor rewinds to the snapshot and replays.

use vstd::prelude::*;

use crate::clock::{
    spec_latency_ticks, spec_stamp_tick, spec_target_tick, spec_wall_tick, latency_ticks,
    stamp_tick, target_tick, wall_tick,
};
use crate::config::{CATCHUP_BUDGET_TICKS, DT_US, HISTORY, LEAD_TICKS, PLAYER_COUNT};
use crate::net::NetCmd;
use crate::sim::{replay_spec, InputPair, Simulation};

verus! {

/// Tag-checked lookup in a history ring: slot `t mod HISTORY`, valid only
/// if it records tick `t` itself.
pub open spec fn ring_lookup<V>(ring: Seq<Option<(u32, V)>>, t: u32) -> Option<V>
    recommends
        ring.len() == HISTORY,
{
    match ring[(t as int) % (HISTORY as int)] {
        Some(e) => if e.0 == t {
            Some(e.1)
        } else {
            None
        },
        None => None,
    }
}

/// The client predictor for one simulation `Sim`.
pub struct Predictor<Sim: Simulation> {
    my_id: usize,
    started: bool,
    initial: Sim::State,
    state: Sim::State,
    prev_state: Sim::State,
    local_tick: u32,
    auth: Vec<Option<(u32, InputPair)>>,
    used: Vec<Option<(u32, InputPair)>>,
    snap: Vec<Option<(u32, Sim::State)>>,
    last_remote: InputPair,
    latest_server_tick: u32,
    pending_rollback: Option<u32>,
    accumulator_us: u64,
}

impl<Sim: Simulation> Predictor<Sim> {
    /// The rings span the whole history window, every entry sits in the
    /// slot its tick selects, and the player id is in range.
    pub closed spec fn wf(self) -> bool {
        &&& self.my_id < PLAYER_COUNT
        &&& self.auth@.len() == HISTORY
        &&& self.used@.len() == HISTORY
        &&& self.snap@.len() == HISTORY
        &&& forall|i: int|
            0 <= i < HISTORY ==> ((#[trigger] self.auth@[i]) matches Some(e) ==> e.0 % (
            HISTORY as u32) == i)
        &&& forall|i: int|
            0 <= i < HISTORY ==> ((#[trigger] self.used@[i]) matches Some(e) ==> e.0 % (
            HISTORY as u32) == i)
        &&& forall|i: int|
            0 <= i < HISTORY ==> ((#[trigger] self.snap@[i]) matches Some(e) ==> e.0 % (
            HISTORY as u32) == i)
    }

    /// This client's player id.
    pub closed spec fn spec_my_id(self) -> usize {
        self.my_id
    }

    /// Whether a handshake has arrived since construction.
    pub closed spec fn spec_started(self) -> bool {
        self.started
    }

    /// The state every reset returns to.
    pub closed spec fn spec_initial(self) -> Sim::State {
        self.initial
    }

    /// The current simulation state.
    pub closed spec fn spec_state(self) -> Sim::State {
        self.state
    }

    /// The state before the most recent simulated tick, kept for render
    /// interpolation.
    pub closed spec fn spec_prev_state(self) -> Sim::State {
        self.prev_state
    }

    /// The next tick this client will simulate.
    pub closed spec fn spec_local_tick(self) -> u32 {
        self.local_tick
    }

    /// The most recently seen bits of each player, used to predict the
    /// remote.
    pub closed spec fn spec_last_remote(self) -> InputPair {
        self.last_remote
    }

    /// The highest authoritative tick seen so far.
    pub closed spec fn spec_latest_server_tick(self) -> u32 {
        self.latest_server_tick
    }

    /// The earliest tick at which an authoritative pair contradicted a
    /// used pair, if the contradiction is still to be repaired.
    pub closed spec fn spec_pending_rollback(self) -> Option<u32> {
        self.pending_rollback
    }

    /// Microseconds of simulation time owed but not yet spent.
    pub closed spec fn spec_accumulator_us(self) -> u64 {
        self.accumulator_us
    }

    /// The authoritative input pair recorded for tick `t`, if any.
    pub closed spec fn auth_at(self, t: u32) -> Option<InputPair> {
        ring_lookup(self.auth@, t)
    }

    /// The input pair this client fed to the step function at tick `t`,
    /// if that record survives in the ring.
    pub closed spec fn used_at(self, t: u32) -> Option<InputPair> {
        ring_lookup(self.used@, t)
    }

    /// The state observed at the start of tick `t`, if that snapshot
    /// survives in the ring.
    pub closed spec fn snap_at(self, t: u32) -> Option<Sim::State> {
        ring_lookup(self.snap@, t)
    }

    /// A fresh predictor that has seen no handshake.
    pub fn new(initial: Sim::State) -> (r: Predictor<Sim>)
        ensures
            r.wf(),
            !r.spec_started(),
            r.spec_my_id() == 0,
            r.spec_initial() == initial,
            r.spec_state() == initial,
            r.spec_prev_state() == initial,
            r.spec_local_tick() == 0,
            r.spec_last_remote() == InputPair::spec_zero(),
            r.spec_latest_server_tick() == 0,
            r.spec_pending_rollback() is None,
            r.spec_accumulator_us() == 0,
            forall|t: u32| r.auth_at(t) is None,
            forall|t: u32| r.used_at(t) is None,
            forall|t: u32| r.snap_at(t) is None,
    {
        let mut auth: Vec<Option<(u32, InputPair)>> = Vec::new();
        let mut used: Vec<Option<(u32, InputPair)>> = Vec::new();
        let mut snap: Vec<Option<(u32, Sim::State)>> = Vec::new();
        let mut i: usize = 0;
        while i < HISTORY
            invariant
                i <= HISTORY,
                auth@.len() == i,
                used@.len() == i,
                snap@.len() == i,
                forall|j: int| 0 <= j < i ==> auth@[j] is None,
                forall|j: int| 0 <= j < i ==> used@[j] is None,
                forall|j: int| 0 <= j < i ==> snap@[j] is None,
            decreases HISTORY - i,
        {
            auth.push(None);
            used.push(None);
            snap.push(None);
            i = i + 1;
        }
        Predictor {
            my_id: 0,
            started: false,
            initial,
            state: initial,
            prev_state: initial,
            local_tick: 0,
            auth,
            used,
            snap,
            last_remote: InputPair::zero(),
            latest_server_tick: 0,
            pending_rollback: None,
            accumulator_us: 0,
        }
    }

    /// Handles the handshake: records this client's id and resets every
    /// piece of state for a cold start. A handshake naming an impossible
    /// player id comes from a broken peer and is ignored, never panicked
    /// on.
    pub fn on_assign_start(&mut self, player_id: u8)
        requires
            old(self).wf(),
        ensures
            final(self).wf(),
            player_id >= PLAYER_COUNT ==> *final(self) == *old(self),
            player_id < PLAYER_COUNT ==> {
                &&& final(self).spec_my_id() == player_id
                &&& final(self).spec_started()
                &&& final(self).spec_initial() == old(self).spec_initial()
                &&& final(self).spec_state() == old(self).spec_initial()
                &&& final(self).spec_prev_state() == old(self).spec_initial()
                &&& final(self).spec_local_tick() == 0
                &&& final(self).spec_last_remote() == InputPair::spec_zero()
                &&& final(self).spec_latest_server_tick() == 0
                &&& final(self).spec_pending_rollback() is None
                &&& final(self).spec_accumulator_us() == 0
                &&& forall|t: u32| final(self).auth_at(t) is None
                &&& forall|t: u32| final(self).used_at(t) is None
                &&& forall|t: u32| final(self).snap_at(t) is None
            },
    {
        if player_id as usize >= PLAYER_COUNT {
            return ;
        }
        self.my_id = player_id as usize;
        self.started = true;
        self.state = self.initial;
        self.prev_state = self.initial;
        self.local_tick = 0;
        self.last_remote = InputPair::zero();
        self.latest_server_tick = 0;
        self.pending_rollback = None;
        self.accumulator_us = 0;
        let mut i: usize = 0;
        while i < HISTORY
            invariant
                i <= HISTORY,
                self.auth@.len() == HISTORY,
                self.used@.len() == HISTORY,
                self.snap@.len() == HISTORY,
                forall|j: int| 0 <= j < i ==> self.auth@[j] is None,
                forall|j: int| 0 <= j < i ==> self.used@[j] is None,
                forall|j: int| 0 <= j < i ==> self.snap@[j] is None,
                self.my_id == player_id as usize,
                self.started,
                self.initial == old(self).spec_initial(),
                self.state == old(self).spec_initial(),
                self.prev_state == old(self).spec_initial(),
                self.local_tick == 0,
                self.last_remote == InputPair::spec_zero(),
                self.latest_server_tick == 0,
                self.pending_rollback is None,
                self.accumulator_us == 0,
            decreases HISTORY - i,
        {
            self.auth.set(i, None);
            self.used.set(i, None);
            self.snap.set(i, None);
            i = i + 1;
        }
    }

    /// The rollback tick after learning of a mismatch at `t`: the
    /// earliest repair outstanding.
    pub open spec fn spec_min_rollback(pr: Option<u32>, t: u32) -> Option<u32> {
        match pr {
            Some(t0) => if t < t0 {
                Some(t)
            } else {
                Some(t0)
            },
            None => Some(t),
        }
    }

    /// Handles an authoritative broadcast for tick `tick`: records it,
    /// refreshes the last-known bits of every player, and — if this
    /// client already simulated that tick with different inputs —
    /// schedules a rollback no later than it.
    pub fn on_tick_inputs(&mut self, tick: u32, inputs: InputPair)
        requires
            old(self).wf(),
        ensures
            final(self).wf(),
            final(self).spec_latest_server_tick() == if tick > old(
                self,
            ).spec_latest_server_tick() {
                tick
            } else {
                old(self).spec_latest_server_tick()
            },
            final(self).auth_at(tick) == Some(inputs),
            forall|t: u32|
                t != tick ==> final(self).auth_at(t) == (if t % (HISTORY as u32) == tick % (
                HISTORY as u32) {
                    None
                } else {
                    old(self).auth_at(t)
                }),
            forall|t: u32|
                t != tick && t < tick + HISTORY && tick < t + HISTORY
                    ==> #[trigger] final(self).auth_at(t) == old(self).auth_at(t),
            final(self).spec_last_remote() == inputs,
            final(self).spec_pending_rollback() == (if old(self).used_at(tick) matches Some(u)
                && u != inputs {
                Predictor::<Sim>::spec_min_rollback(old(self).spec_pending_rollback(), tick)
            } else {
                old(self).spec_pending_rollback()
            }),
            forall|t: u32| final(self).used_at(t) == old(self).used_at(t),
            forall|t: u32| final(self).snap_at(t) == old(self).snap_at(t),
            final(self).spec_my_id() == old(self).spec_my_id(),
            final(self).spec_started() == old(self).spec_started(),
            final(self).spec_initial() == old(self).spec_initial(),
            final(self).spec_state() == old(self).spec_state(),
            final(self).spec_prev_state() == old(self).spec_prev_state(),
            final(self).spec_local_tick() == old(self).spec_local_tick(),
            final(self).spec_accumulator_us() == old(self).spec_accumulator_us(),
    {
        if tick > self.latest_server_tick {
            self.latest_server_tick = tick;
        }
        let idx = (tick as usize) % HISTORY;
        self.auth.set(idx, Some((tick, inputs)));
        self.last_remote = inputs;
        if let Some((t_used, used)) = self.used[idx] {
            if t_used == tick && !(used == inputs) {
                self.pending_rollback = match self.pending_rollback {
                    Some(t0) => if tick < t0 {
                        Some(tick)
                    } else {
                        Some(t0)
                    },
                    None => Some(tick),
                };
            }
        }
        proof {
            assert forall|t: u32| t != tick && t < tick + HISTORY && tick < t + HISTORY implies (
            #[trigger] self.auth_at(t)) == old(self).auth_at(t) by {
                lemma_ring_slot_distinct(t, tick);
            }
        }
    }

    /// Applies an outstanding rollback, if any. When the snapshot for the
    /// mismatched tick survives, the state rewinds to it and simulation
    /// resumes from that tick; when the ring has already overwritten it,
    /// the rollback is dropped — the tick is beyond the history horizon,
    /// and convergence is left to future authoritative frames.
    pub fn apply_pending_rollback(&mut self)
        requires
            old(self).wf(),
        ensures
            final(self).wf(),
            final(self).spec_pending_rollback() is None,
            old(self).spec_pending_rollback() is None ==> *final(self) == *old(self),
            old(self).spec_pending_rollback() matches Some(t) ==> match old(self).snap_at(t) {
                Some(s) => {
                    &&& final(self).spec_state() == s
                    &&& final(self).spec_prev_state() == s
                    &&& final(self).spec_local_tick() == t
                },
                None => {
                    &&& final(self).spec_state() == old(self).spec_state()
                    &&& final(self).spec_prev_state() == old(self).spec_prev_state()
                    &&& final(self).spec_local_tick() == old(self).spec_local_tick()
                },
            },
            forall|t: u32| final(self).auth_at(t) == old(self).auth_at(t),
            forall|t: u32| final(self).used_at(t) == old(self).used_at(t),
            forall|t: u32| final(self).snap_at(t) == old(self).snap_at(t),
            final(self).spec_my_id() == old(self).spec_my_id(),
            final(self).spec_started() == old(self).spec_started(),
            final(self).spec_initial() == old(self).spec_initial(),
            final(self).spec_last_remote() == old(self).spec_last_remote(),
            final(self).spec_latest_server_tick() == old(self).spec_latest_server_tick(),
            final(self).spec_accumulator_us() == old(self).spec_accumulator_us(),
    {
        let Some(t_rb) = self.pending_rollback else {
            return ;
        };
        let idx = (t_rb as usize) % HISTORY;
        if let Some((t_saved, saved)) = self.snap[idx] {
            if t_saved == t_rb {
                self.state = saved;
                self.prev_state = saved;
                self.local_tick = t_rb;
            }
        }
        self.pending_rollback = None;
    }

    /// The input pair this client feeds to tick `t`: the authoritative
    /// pair when one is recorded, otherwise its own sampled bits combined
    /// with the remote player's last-known bits.
    pub open spec fn spec_chosen_inputs(self, t: u32, local_bits: u8) -> InputPair {
        match self.auth_at(t) {
            Some(p) => p,
            None => self.spec_last_remote().spec_with(self.spec_my_id() as int, local_bits),
        }
    }

    /// The state `k` ticks after the current one, stepping each tick with
    /// its chosen inputs.
    pub open spec fn spec_state_after(self, k: nat, local_bits: u8) -> Sim::State
        decreases k,
    {
        if k == 0 {
            self.spec_state()
        } else {
            Sim::step_spec(
                self.spec_state_after((k - 1) as nat, local_bits),
                self.spec_chosen_inputs(((self.spec_local_tick() + k - 1) as u32), local_bits),
            )
        }
    }

    /// Simulates one rendered frame's worth of ticks.
    ///
    /// Banks `frame_us` of time (dilated by the pacing controller), then
    /// steps toward the wall-clock target tick, bounded by the catch-up
    /// budget. Each simulated tick snapshots the pre-tick state, records
    /// the chosen inputs, and emits a send command stamped for the tick
    /// the input should reach the server at. Call it only between
    /// `apply_pending_rollback` and rendering, so a detected mismatch is
    /// repaired before new ticks build on it.
    pub fn advance_frame(
        &mut self,
        sim: &Sim,
        elapsed_us: u64,
        frame_us: u64,
        delay_ms: u32,
        local_bits: u8,
    ) -> (cmds: Vec<NetCmd>)
        requires
            old(self).wf(),
            old(self).spec_started(),
        ensures
            final(self).wf(),
            ({
                let target = spec_wall_tick(elapsed_us);
                let est = spec_target_tick(target);
                let pct = spec_sim_rate_pct(old(self).spec_local_tick(), est);
                let acc0 = spec_boosted_acc(old(self).spec_accumulator_us(), frame_us, pct);
                let n = spec_frame_steps(old(self).spec_local_tick(), target, acc0);
                let lat = spec_latency_ticks(delay_ms);
                let lt0 = old(self).spec_local_tick();
                &&& final(self).spec_local_tick() == lt0 + n
                &&& final(self).spec_accumulator_us() == spec_acc_after(acc0, n)
                &&& cmds@.len() == n
                &&& forall|k: int|
                    0 <= k < n ==> (#[trigger] cmds@[k]) == (NetCmd::SendInput {
                        tick: spec_stamp_tick(((lt0 + k) as u32), lat, est),
                        bits: old(self).spec_chosen_inputs(
                            ((lt0 + k) as u32),
                            local_bits,
                        ).spec_get(old(self).spec_my_id() as int),
                    })
                &&& forall|t: u32|
                    lt0 <= t < lt0 + n ==> #[trigger] final(self).used_at(t) == Some(
                        old(self).spec_chosen_inputs(t, local_bits),
                    )
                &&& forall|t: u32|
                    lt0 <= t < lt0 + n ==> #[trigger] final(self).snap_at(t) == Some(
                        old(self).spec_state_after((t - lt0) as nat, local_bits),
                    )
                &&& final(self).spec_state() == old(self).spec_state_after(n as nat, local_bits)
                &&& final(self).spec_prev_state() == (if n > 0 {
                    old(self).spec_state_after((n - 1) as nat, local_bits)
                } else {
                    old(self).spec_prev_state()
                })
                &&& forall|t: u32|
                    t < lt0 || t >= lt0 + n ==> (final(self).used_at(t) == old(self).used_at(t)
                        || final(self).used_at(t) is None)
                &&& forall|t: u32|
                    t < lt0 || t >= lt0 + n ==> (final(self).snap_at(t) == old(self).snap_at(t)
                        || final(self).snap_at(t) is None)
                &&& forall|t: u32|
                    t < lt0 && lt0 - t <= HISTORY - n ==> #[trigger] final(self).used_at(t) == old(
                        self,
                    ).used_at(t)
                &&& forall|t: u32|
                    t < lt0 && lt0 - t <= HISTORY - n ==> #[trigger] final(self).snap_at(t) == old(
                        self,
                    ).snap_at(t)
            }),
            forall|t: u32| final(self).auth_at(t) == old(self).auth_at(t),
            final(self).spec_my_id() == old(self).spec_my_id(),
            final(self).spec_started() == old(self).spec_started(),
            final(self).spec_initial() == old(self).spec_initial(),
            final(self).spec_last_remote() == old(self).spec_last_remote(),
            final(self).spec_latest_server_tick() == old(self).spec_latest_server_tick(),
            final(self).spec_pending_rollback() == old(self).spec_pending_rollback(),
    {
        let target = wall_tick(elapsed_us);
        let est = target_tick(target);
        let lat = latency_ticks(delay_ms);
        let pct = sim_rate_pct(self.local_tick, est);
        self.accumulator_us = boost_acc(self.accumulator_us, frame_us, pct);
        let ghost acc0 = self.accumulator_us;
        let ghost lt0 = old(self).spec_local_tick();
        let ghost n = spec_frame_steps(self.local_tick, target, acc0);
        let mut cmds: Vec<NetCmd> = Vec::new();
        let mut steps: u32 = 0;
        while self.local_tick < target && steps < CATCHUP_BUDGET_TICKS && (self.accumulator_us
            >= DT_US || self.local_tick + 1 < target)
            invariant
                self.wf(),
                self.my_id == old(self).my_id,
                self.started == old(self).started,
                self.initial == old(self).initial,
                self.last_remote == old(self).last_remote,
                self.latest_server_tick == old(self).latest_server_tick,
                self.pending_rollback == old(self).pending_rollback,
                self.auth@ == old(self).auth@,
                n == spec_frame_steps(lt0, target, acc0),
                steps <= n,
                self.local_tick == lt0 + steps,
                self.accumulator_us == spec_acc_after(acc0, steps as int),
                cmds@.len() == steps,
                forall|k: int|
                    0 <= k < steps ==> (#[trigger] cmds@[k]) == (NetCmd::SendInput {
                        tick: spec_stamp_tick(((lt0 + k) as u32), lat, est),
                        bits: old(self).spec_chosen_inputs(
                            ((lt0 + k) as u32),
                            local_bits,
                        ).spec_get(old(self).spec_my_id() as int),
                    }),
                forall|t: u32|
                    lt0 <= t < lt0 + steps ==> #[trigger] self.used_at(t) == Some(
                        old(self).spec_chosen_inputs(t, local_bits),
                    ),
                forall|t: u32|
                    lt0 <= t < lt0 + steps ==> #[trigger] self.snap_at(t) == Some(
                        old(self).spec_state_after((t - lt0) as nat, local_bits),
                    ),
                self.state == old(self).spec_state_after(steps as nat, local_bits),
                steps > 0 ==> self.prev_state == old(self).spec_state_after(
                    (steps - 1) as nat,
                    local_bits,
                ),
                steps == 0 ==> self.prev_state == old(self).prev_state,
                forall|t: u32|
                    t < lt0 || t >= lt0 + steps ==> (self.used_at(t) == old(self).used_at(t)
                        || self.used_at(t) is None),
                forall|t: u32|
                    t < lt0 || t >= lt0 + steps ==> (self.snap_at(t) == old(self).snap_at(t)
                        || self.snap_at(t) is None),
                forall|t: u32|
                    t < lt0 && lt0 - t <= HISTORY - steps ==> #[trigger] self.used_at(t) == old(
                        self,
                    ).used_at(t),
                forall|t: u32|
                    t < lt0 && lt0 - t <= HISTORY - steps ==> #[trigger] self.snap_at(t) == old(
                        self,
                    ).snap_at(t),
                target == spec_wall_tick(elapsed_us),
                est == spec_target_tick(target),
                lat == spec_latency_ticks(delay_ms),
                acc0 == spec_boosted_acc(old(self).spec_accumulator_us(), frame_us, pct),
                lt0 == old(self).spec_local_tick(),
            decreases CATCHUP_BUDGET_TICKS - steps,
        {
            proof {
                lemma_steps_below_n(lt0, target, acc0, steps as int, self.accumulator_us);
            }
            let ghost pre = *self;
            if self.accumulator_us < DT_US {
                self.accumulator_us = DT_US;
            }
            self.prev_state = self.state;
            let lt = self.local_tick;
            let idx = (lt as usize) % HISTORY;
            self.snap.set(idx, Some((lt, self.state)));
            let predicted = self.last_remote.with(self.my_id, local_bits);
            let inputs = match self.auth[idx] {
                Some((ta, pa)) => if ta == lt {
                    pa
                } else {
                    predicted
                },
                None => predicted,
            };
            self.used.set(idx, Some((lt, inputs)));
            let stamp = stamp_tick(lt, lat, est);
            cmds.push(NetCmd::SendInput { tick: stamp, bits: inputs.get(self.my_id) });
            self.state = sim.step(self.state, inputs);
            self.local_tick = lt + 1;
            self.accumulator_us = self.accumulator_us - DT_US;
            steps = steps + 1;
            proof {
                let h = HISTORY as int;
                assert(inputs == old(self).spec_chosen_inputs(lt, local_bits));
                assert(self.state == old(self).spec_state_after(steps as nat, local_bits));
                assert forall|t: u32| lt0 <= t < lt0 + steps implies #[trigger] self.used_at(t)
                    == Some(old(self).spec_chosen_inputs(t, local_bits)) by {
                    if t != lt {
                        lemma_ring_slot_distinct(t, lt);
                        assert(pre.used_at(t) == Some(
                            old(self).spec_chosen_inputs(t, local_bits),
                        ));
                        assert(self.used@[(t as int) % h] == pre.used@[(t as int) % h]);
                    }
                }
                assert forall|t: u32| lt0 <= t < lt0 + steps implies #[trigger] self.snap_at(t)
                    == Some(old(self).spec_state_after((t - lt0) as nat, local_bits)) by {
                    if t != lt {
                        lemma_ring_slot_distinct(t, lt);
                        assert(pre.snap_at(t) == Some(
                            old(self).spec_state_after((t - lt0) as nat, local_bits),
                        ));
                        assert(self.snap@[(t as int) % h] == pre.snap@[(t as int) % h]);
                    }
                }
                assert forall|t: u32| t < lt0 || t >= lt0 + steps implies (#[trigger] self.used_at(
                    t,
                ) == old(self).used_at(t) || self.used_at(t) is None) by {
                    assert(pre.used_at(t) == old(self).used_at(t) || pre.used_at(t) is None);
                    if (t as int) % h != (lt as int) % h {
                        assert(self.used@[(t as int) % h] == pre.used@[(t as int) % h]);
                    }
                }
                assert forall|t: u32| t < lt0 || t >= lt0 + steps implies (#[trigger] self.snap_at(
                    t,
                ) == old(self).snap_at(t) || self.snap_at(t) is None) by {
                    assert(pre.snap_at(t) == old(self).snap_at(t) || pre.snap_at(t) is None);
                    if (t as int) % h != (lt as int) % h {
                        assert(self.snap@[(t as int) % h] == pre.snap@[(t as int) % h]);
                    }
                }
                assert forall|t: u32| t < lt0 && lt0 - t <= HISTORY - steps implies (
                #[trigger] self.used_at(t)) == old(self).used_at(t) by {
                    lemma_ring_slot_distinct(t, lt);
                    assert(pre.used_at(t) == old(self).used_at(t));
                    assert(self.used@[(t as int) % h] == pre.used@[(t as int) % h]);
                }
                assert forall|t: u32| t < lt0 && lt0 - t <= HISTORY - steps implies (
                #[trigger] self.snap_at(t)) == old(self).snap_at(t) by {
                    lemma_ring_slot_distinct(t, lt);
                    assert(pre.snap_at(t) == old(self).snap_at(t));
                    assert(self.snap@[(t as int) % h] == pre.snap@[(t as int) % h]);
                }
            }
        }
        proof {
            lemma_steps_at_exit(
                lt0,
                target,
                acc0,
                steps as int,
                self.accumulator_us,
                self.local_tick as int,
                steps >= CATCHUP_BUDGET_TICKS,
            );
        }
        cmds
    }

    /// This client's player id.
    pub fn my_id(&self) -> (r: usize)
        ensures
            r == self.spec_my_id(),
    {
        self.my_id
    }

    /// Whether a handshake has arrived since construction.
    pub fn started(&self) -> (r: bool)
        ensures
            r == self.spec_started(),
    {
        self.started
    }

    /// The current simulation state, for rendering.
    pub fn state(&self) -> (r: Sim::State)
        ensures
            r == self.spec_state(),
    {
        self.state
    }

    /// The state before the most recent simulated tick, for render
    /// interpolation.
    pub fn prev_state(&self) -> (r: Sim::State)
        ensures
            r == self.spec_prev_state(),
    {
        self.prev_state
    }

    /// The next tick this client will simulate.
    pub fn local_tick(&self) -> (r: u32)
        ensures
            r == self.spec_local_tick(),
    {
        self.local_tick
    }

    /// The highest authoritative tick seen so far.
    pub fn latest_server_tick(&self) -> (r: u32)
        ensures
            r == self.spec_latest_server_tick(),
    {
        self.latest_server_tick
    }

    /// Microseconds of simulation time owed but not yet spent; with the
    /// tick length this yields the render interpolation factor.
    pub fn accumulator_us(&self) -> (r: u64)
        ensures
            r == self.spec_accumulator_us(),
    {
        self.accumulator_us
    }

    /// The authoritative input pair recorded for tick `t`, if any.
    pub fn auth_for(&self, t: u32) -> (r: Option<InputPair>)
        requires
            self.wf(),
        ensures
            r == self.auth_at(t),
    {
        let idx = (t as usize) % HISTORY;
        match self.auth[idx] {
            Some((tt, p)) => if tt == t {
                Some(p)
            } else {
                None
            },
            None => None,
        }
    }

    /// The input pair fed to the step function at tick `t`, if recorded.
    pub fn used_for(&self, t: u32) -> (r: Option<InputPair>)
        requires
            self.wf(),
        ensures
            r == self.used_at(t),
    {
        let idx = (t as usize) % HISTORY;
        match self.used[idx] {
            Some((tt, p)) => if tt == t {
                Some(p)
            } else {
                None
            },
            None => None,
        }
    }

    /// The snapshot taken at the start of tick `t`, if it survives.
    pub fn snap_for(&self, t: u32) -> (r: Option<Sim::State>)
        requires
            self.wf(),
        ensures
            r == self.snap_at(t),
    {
        let idx = (t as usize) % HISTORY;
        match self.snap[idx] {
            Some((tt, s)) => if tt == t {
                Some(s)
            } else {
                None
            },
            None => None,
        }
    }

    /// Whether a rollback is scheduled and not yet applied.
    pub fn has_pending_rollback(&self) -> (r: bool)
        ensures
            r == (self.spec_pending_rollback() is Some),
    {
        self.pending_rollback.is_some()
    }

    /// Overwrites the local simulation state, touching nothing else.
    ///
    /// This is the hook a tampering client uses after a step; it exists
    /// to demonstrate that such tampering stays local. What the predictor
    /// sends is pinned by `advance_frame`'s contract to the sampled and
    /// authoritative input bits alone — see
    /// `lemma_commands_ignore_state` — so an overwritten state can bend
    /// only this client's own render.
    pub fn override_state(&mut self, s: Sim::State)
        requires
            old(self).wf(),
        ensures
            final(self).wf(),
            final(self).spec_state() == s,
            final(self).spec_prev_state() == old(self).spec_prev_state(),
            final(self).spec_local_tick() == old(self).spec_local_tick(),
            final(self).spec_my_id() == old(self).spec_my_id(),
            final(self).spec_started() == old(self).spec_started(),
            final(self).spec_initial() == old(self).spec_initial(),
            final(self).spec_last_remote() == old(self).spec_last_remote(),
            final(self).spec_latest_server_tick() == old(self).spec_latest_server_tick(),
            final(self).spec_pending_rollback() == old(self).spec_pending_rollback(),
            final(self).spec_accumulator_us() == old(self).spec_accumulator_us(),
            forall|t: u32| final(self).auth_at(t) == old(self).auth_at(t),
            forall|t: u32| final(self).used_at(t) == old(self).used_at(t),
            forall|t: u32| final(self).snap_at(t) == old(self).snap_at(t),
    {
        self.state = s;
    }
}

/// If two ticks lie less than a full ring apart, their slots differ.
proof fn lemma_ring_slot_distinct(t1: u32, t2: u32)
    requires
        t1 != t2,
        t1 < t2 + HISTORY,
        t2 < t1 + HISTORY,
    ensures
        t1 % (HISTORY as u32) != t2 % (HISTORY as u32),
{
    if t1 % (HISTORY as u32) == t2 % (HISTORY as u32) {
        lemma_ring_slot_injective(t1, t2);
    }
}

/// While the frame loop's guard holds, fewer than `n` steps have run.
proof fn lemma_steps_below_n(lt0: u32, target: u32, acc0: u64, steps: int, acc: u64)
    requires
        0 <= steps,
        steps <= spec_frame_steps(lt0, target, acc0),
        acc == spec_acc_after(acc0, steps),
        lt0 + steps < target,
        steps < CATCHUP_BUDGET_TICKS,
        acc >= DT_US || lt0 + steps + 1 < target,
    ensures
        steps < spec_frame_steps(lt0, target, acc0),
{
    let full = target - lt0;
    if lt0 + steps + 1 < target {
        assert(steps < full - 1);
    } else {
        assert(lt0 + steps == target - 1);
        assert(acc >= DT_US);
        assert(acc0 >= steps * DT_US + DT_US);
        assert(full * DT_US == (steps + 1) * DT_US);
        assert(acc0 >= full * DT_US);
    }
}

/// When the frame loop exits, exactly `n` steps have run.
proof fn lemma_steps_at_exit(
    lt0: u32,
    target: u32,
    acc0: u64,
    steps: int,
    acc: u64,
    lt: int,
    hit_budget: bool,
)
    requires
        0 <= steps,
        steps <= spec_frame_steps(lt0, target, acc0),
        acc == spec_acc_after(acc0, steps),
        lt == lt0 + steps,
        lt >= target || hit_budget || (acc < DT_US && lt + 1 >= target),
        hit_budget ==> steps >= CATCHUP_BUDGET_TICKS,
    ensures
        steps == spec_frame_steps(lt0, target, acc0),
{
    let n = spec_frame_steps(lt0, target, acc0);
    if lt0 >= target {
        assert(n == 0);
    } else {
        let full = target - lt0;
        if lt >= target {
            assert(steps >= full);
            assert(n <= full);
        } else if hit_budget {
            assert(n <= CATCHUP_BUDGET_TICKS);
        } else {
            assert(lt0 + steps == target - 1);
            assert(acc < DT_US);
            if acc0 >= steps * DT_US {
                assert(acc == acc0 - steps * DT_US);
                assert(acc0 < (steps + 1) * DT_US);
                assert(acc0 < full * DT_US);
            } else {
                assert(acc0 < full * DT_US);
            }
            assert(n <= full - 1);
        }
    }
}

/// Authority wins at every simulated tick: once an authoritative pair is
/// recorded for a tick, the inputs chosen for that tick are that pair —
/// local sampling and remote prediction are consulted only in its
/// absence. With `advance_frame`'s contract, every tick simulated after
/// the pair arrived (directly or by rollback replay) records it in
/// `used`.
pub proof fn lemma_authority_wins<Sim: Simulation>(p: Predictor<Sim>, t: u32, local_bits: u8)
    requires
        p.auth_at(t) is Some,
    ensures
        p.spec_chosen_inputs(t, local_bits) == p.auth_at(t).unwrap(),
{
}

/// Local tampering cannot reach the wire: the inputs a predictor chooses
/// — and with `advance_frame`'s contract, every command it sends —
/// depend only on its id, its last-known remote bits, its authoritative
/// history, and the sampled local bits. Two predictors that differ in
/// nothing but simulation state (and its snapshots) choose identical
/// inputs.
pub proof fn lemma_commands_ignore_state<Sim: Simulation>(
    p1: Predictor<Sim>,
    p2: Predictor<Sim>,
    t: u32,
    local_bits: u8,
)
    requires
        p1.spec_my_id() == p2.spec_my_id(),
        p1.spec_last_remote() == p2.spec_last_remote(),
        p1.auth_at(t) == p2.auth_at(t),
    ensures
        p1.spec_chosen_inputs(t, local_bits) == p2.spec_chosen_inputs(t, local_bits),
{
}

/// Rollback convergence: when the authoritative pair is known for every
/// tick the predictor is about to simulate, the state it reaches is
/// exactly the step function folded over that authoritative prefix —
/// whatever it would have predicted, and whatever bits are sampled
/// locally. Applied after `apply_pending_rollback` restored `snap[t_rb]`
/// and rewound `local_tick` to `t_rb`, this is the replayed client
/// agreeing with the authoritative stream.
pub proof fn lemma_rollback_replay_follows_authority<Sim: Simulation>(
    p: Predictor<Sim>,
    local_bits: u8,
    n: nat,
)
    requires
        p.spec_local_tick() + n <= u32::MAX,
        forall|t: u32|
            p.spec_local_tick() <= t < p.spec_local_tick() + n ==> (#[trigger] p.auth_at(t))
                is Some,
    ensures
        p.spec_state_after(n, local_bits) == replay_spec::<Sim>(
            p.spec_state(),
            Seq::new(n, |k: int| p.auth_at(((p.spec_local_tick() + k) as u32)).unwrap()),
        ),
    decreases n,
{
    let lt0 = p.spec_local_tick();
    let auth_seq = Seq::new(n, |k: int| p.auth_at(((lt0 + k) as u32)).unwrap());
    if n > 0 {
        lemma_rollback_replay_follows_authority(p, local_bits, (n - 1) as nat);
        let shorter = Seq::new((n - 1) as nat, |k: int| p.auth_at(((lt0 + k) as u32)).unwrap());
        assert(auth_seq.drop_last() =~= shorter);
        let t_last = ((lt0 + n - 1) as u32);
        assert(p.auth_at(t_last) is Some);
        assert(p.spec_chosen_inputs(t_last, local_bits) == auth_seq.last());
    }
}

/// Two distinct ticks share a history slot only when they lie a full ring
/// apart.
pub proof fn lemma_ring_slot_injective(t1: u32, t2: u32)
    requires
        t1 != t2,
        t1 % (HISTORY as u32) == t2 % (HISTORY as u32),
    ensures
        t1 >= t2 + HISTORY || t2 >= t1 + HISTORY,
{
    let h = HISTORY as int;
    vstd::arithmetic::div_mod::lemma_fundamental_div_mod(t1 as int, h);
    vstd::arithmetic::div_mod::lemma_fundamental_div_mod(t2 as int, h);
    let q1 = (t1 as int) / h;
    let q2 = (t2 as int) / h;
    assert(t1 as int - t2 as int == h * (q1 - q2));
    assert(q1 != q2);
    assert(q1 > q2 ==> h * (q1 - q2) >= h) by (nonlinear_arith)
        requires
            h > 0,
    ;
    assert(q2 > q1 ==> h * (q2 - q1) >= h) by (nonlinear_arith)
        requires
            h > 0,
    ;
    assert(h * (q2 - q1) == -(h * (q1 - q2))) by (nonlinear_arith);
}

/// The frame's simulation-rate multiplier, in percent: run a little fast
/// when the local tick has fallen under the lead margin, a little slow
/// when it has overshot the dead band, and in real time otherwise.
pub open spec fn spec_sim_rate_pct(local_tick: u32, server_est: u32) -> u64 {
    let ahead = local_tick - server_est;
    if ahead < LEAD_TICKS - 1 {
        103
    } else if ahead > LEAD_TICKS + 2 {
        98
    } else {
        100
    }
}

/// Computes the frame's simulation-rate percentage.
pub fn sim_rate_pct(local_tick: u32, server_est: u32) -> (r: u64)
    ensures
        r == spec_sim_rate_pct(local_tick, server_est),
{
    let ahead: i64 = local_tick as i64 - server_est as i64;
    if ahead < LEAD_TICKS as i64 - 1 {
        103
    } else if ahead > LEAD_TICKS as i64 + 2 {
        98
    } else {
        100
    }
}

/// The accumulator after banking one frame's time, dilated by the rate
/// percentage and saturating at `u64::MAX`.
pub open spec fn spec_boosted_acc(acc: u64, frame_us: u64, pct: u64) -> u64 {
    let inc = (frame_us as int) * (pct as int) / 100;
    if acc + inc > u64::MAX {
        u64::MAX
    } else {
        (acc + inc) as u64
    }
}

fn boost_acc(acc: u64, frame_us: u64, pct: u64) -> (r: u64)
    requires
        pct <= 103,
    ensures
        r == spec_boosted_acc(acc, frame_us, pct),
{
    proof {
        assert((frame_us as int) * (pct as int) <= (u64::MAX as int) * 103) by (nonlinear_arith)
            requires
                frame_us <= u64::MAX,
                pct <= 103,
        ;
    }
    let inc: u128 = (frame_us as u128) * (pct as u128) / 100;
    let total: u128 = (acc as u128) + inc;
    if total > u64::MAX as u128 {
        u64::MAX
    } else {
        total as u64
    }
}

/// How many ticks one frame simulates, given the local tick, the target
/// tick, and the banked accumulator: all the way to the target when the
/// accumulator covers it, to one short of the target otherwise (forced
/// catch-up), never more than the catch-up budget.
pub open spec fn spec_frame_steps(lt: u32, target: u32, acc0: u64) -> int {
    if lt >= target {
        0
    } else {
        let full = target - lt;
        let by_acc = if acc0 >= full * DT_US {
            full as int
        } else {
            full - 1
        };
        if by_acc > CATCHUP_BUDGET_TICKS {
            CATCHUP_BUDGET_TICKS as int
        } else {
            by_acc
        }
    }
}

/// The accumulator left after simulating `n` ticks: each tick costs a
/// whole period, topped up to one period when forced catch-up runs ahead
/// of banked time.
pub open spec fn spec_acc_after(acc0: u64, n: int) -> u64 {
    if acc0 >= n * DT_US {
        (acc0 - n * DT_US) as u64
    } else {
        0
    }
}

} // verus!
