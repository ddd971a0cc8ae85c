//! Input bits, per-player input pairs, and the contract of the deterministic
//! simulation step.
//!
//! The step function itself is a collaborator: the core only requires that it
//! is a pure, total function of the state and the two players' input bits.
//! That requirement is the `Simulation` trait; everything the core proves
//! about prediction and rollback holds for every implementation of it.

use vstd::prelude::*;

use crate::config::PLAYER_COUNT;

verus! {

/// One player's input bits for one tick. Three flags are meaningful; the
/// remaining bits are reserved and are preserved bitwise by the codec.
#[derive(Clone, Copy, Debug, PartialEq, Eq, Structural)]
pub struct InputBits {
    bits: u8,
}

/// The LEFT flag's bit.
pub const LEFT_BIT: u8 = 0x01;

/// The RIGHT flag's bit.
pub const RIGHT_BIT: u8 = 0x02;

/// The JUMP flag's bit.
pub const JUMP_BIT: u8 = 0x04;

/// Mask of the three meaningful flags.
pub const FLAG_MASK: u8 = 0x07;

impl View for InputBits {
    type V = u8;

    closed spec fn view(&self) -> u8 {
        self.bits
    }
}

impl InputBits {
    /// The LEFT flag alone.
    pub fn left() -> (r: InputBits)
        ensures
            r@ == LEFT_BIT,
    {
        InputBits { bits: LEFT_BIT }
    }

    /// The RIGHT flag alone.
    pub fn right() -> (r: InputBits)
        ensures
            r@ == RIGHT_BIT,
    {
        InputBits { bits: RIGHT_BIT }
    }

    /// The JUMP flag alone.
    pub fn jump() -> (r: InputBits)
        ensures
            r@ == JUMP_BIT,
    {
        InputBits { bits: JUMP_BIT }
    }

    /// No flags set.
    pub fn empty() -> (r: InputBits)
        ensures
            r@ == 0,
    {
        InputBits { bits: 0 }
    }

    /// The raw byte, exactly as it travels on the wire.
    pub fn as_u8(self) -> (r: u8)
        ensures
            r == self@,
    {
        self.bits
    }

    /// Reads a wire byte, keeping only the meaningful flags.
    pub fn from_u8(b: u8) -> (r: InputBits)
        ensures
            r@ == b & FLAG_MASK,
    {
        InputBits { bits: b & FLAG_MASK }
    }

    /// True when every flag of `m` is also set in `self`.
    pub fn contains(self, m: InputBits) -> (r: bool)
        ensures
            r == ((self@ & m@) == m@),
    {
        (self.bits & m.bits) == m.bits
    }

    /// The union of the flags of `self` and `m`.
    pub fn union(self, m: InputBits) -> (r: InputBits)
        ensures
            r@ == (self@ | m@),
    {
        InputBits { bits: self.bits | m.bits }
    }
}

/// The input bytes of both players for one tick, in player order. This is
/// the unit the server arbitrates and broadcasts, and the unit the client
/// stores in its histories. Equality is bitwise.
#[derive(Clone, Copy, Debug, PartialEq, Eq, Structural)]
pub struct InputPair {
    pub p0: u8,
    pub p1: u8,
}

impl InputPair {
    /// The pair with both players' bits zero.
    pub open spec fn spec_zero() -> InputPair {
        InputPair { p0: 0, p1: 0 }
    }

    /// The bits of player `pid`.
    pub open spec fn spec_get(self, pid: int) -> u8 {
        if pid == 0 {
            self.p0
        } else {
            self.p1
        }
    }

    /// The pair with player `pid`'s bits replaced by `bits`.
    pub open spec fn spec_with(self, pid: int, bits: u8) -> InputPair {
        if pid == 0 {
            InputPair { p0: bits, ..self }
        } else {
            InputPair { p1: bits, ..self }
        }
    }

    /// The pair with both players' bits zero.
    pub fn zero() -> (r: InputPair)
        ensures
            r == InputPair::spec_zero(),
    {
        InputPair { p0: 0, p1: 0 }
    }

    /// The bits of player `pid`.
    pub fn get(self, pid: usize) -> (r: u8)
        requires
            pid < PLAYER_COUNT,
        ensures
            r == self.spec_get(pid as int),
    {
        if pid == 0 {
            self.p0
        } else {
            self.p1
        }
    }

    /// Replaces player `pid`'s bits with `bits`.
    pub fn with(self, pid: usize, bits: u8) -> (r: InputPair)
        requires
            pid < PLAYER_COUNT,
        ensures
            r == self.spec_with(pid as int, bits),
    {
        if pid == 0 {
            InputPair { p0: bits, ..self }
        } else {
            InputPair { p1: bits, ..self }
        }
    }
}

/// The deterministic simulation step, supplied by the user of the core.
///
/// `step` must behave as a pure function of `(state, inputs)`: that is the
/// whole contract, and it is exactly the determinism the protocol relies on.
/// A step that consulted the wall clock, a random source, or anything else
/// besides its arguments could not satisfy it.
pub trait Simulation {
    /// The simulation state advanced by `step`.
    type State: Copy;

    /// The mathematical function that `step` computes. An implementation
    /// verified here gives it a body; one supplied from outside the
    /// verifier may keep the default — an unspecified function — and the
    /// core's guarantees about it then hold exactly as far as its `step`
    /// really is a pure function of its arguments.
    open spec fn step_spec(s: Self::State, inputs: InputPair) -> Self::State {
        vstd::pervasive::arbitrary()
    }

    /// Advances `s` by one tick under `inputs`.
    fn step(&self, s: Self::State, inputs: InputPair) -> (r: Self::State)
        ensures
            r == Self::step_spec(s, inputs),
    ;
}

/// The state reached from `s0` after stepping through `inputs`, one tick per
/// element, in order.
pub open spec fn replay_spec<Sim: Simulation>(s0: Sim::State, inputs: Seq<InputPair>) -> Sim::State
    decreases inputs.len(),
{
    if inputs.len() == 0 {
        s0
    } else {
        Sim::step_spec(replay_spec::<Sim>(s0, inputs.drop_last()), inputs.last())
    }
}

/// Runs the step function over a whole input sequence.
pub fn run_sequence<Sim: Simulation>(sim: &Sim, s0: Sim::State, inputs: &Vec<InputPair>) -> (r:
    Sim::State)
    ensures
        r == replay_spec::<Sim>(s0, inputs@),
{
    let mut state = s0;
    let n = inputs.len();
    let mut i: usize = 0;
    while i < n
        invariant
            i <= n,
            n == inputs@.len(),
            state == replay_spec::<Sim>(s0, inputs@.take(i as int)),
        decreases n - i,
    {
        state = sim.step(state, inputs[i]);
        proof {
            assert(inputs@.take(i + 1).drop_last() =~= inputs@.take(i as int));
            assert(inputs@.take(i + 1).last() == inputs@[i as int]);
        }
        i = i + 1;
    }
    proof {
        assert(inputs@.take(n as int) =~= inputs@);
    }
    state
}

/// Holds when `states` is the full trajectory of a step sequence: it starts
/// at `s0` and each later entry is the step function applied to its
/// predecessor and that tick's input pair.
pub open spec fn is_trace<Sim: Simulation>(
    s0: Sim::State,
    inputs: Seq<InputPair>,
    states: Seq<Sim::State>,
) -> bool {
    &&& states.len() == inputs.len() + 1
    &&& states[0] == s0
    &&& forall|k: int|
        0 <= k < inputs.len() ==> states[k + 1] == Sim::step_spec(states[k], #[trigger] inputs[k])
}

proof fn lemma_trace_prefix_agrees<Sim: Simulation>(
    s0: Sim::State,
    inputs: Seq<InputPair>,
    tr1: Seq<Sim::State>,
    tr2: Seq<Sim::State>,
    k: int,
)
    requires
        is_trace::<Sim>(s0, inputs, tr1),
        is_trace::<Sim>(s0, inputs, tr2),
        0 <= k <= inputs.len(),
    ensures
        tr1[k] == tr2[k],
    decreases k,
{
    if k > 0 {
        lemma_trace_prefix_agrees::<Sim>(s0, inputs, tr1, tr2, k - 1);
        assert(tr1[k] == Sim::step_spec(tr1[k - 1], inputs[k - 1]));
        assert(tr2[k] == Sim::step_spec(tr2[k - 1], inputs[k - 1]));
    }
}

/// Determinism of the step sequence: two trajectories that start from the
/// same initial state and consume the same per-tick input pairs are
/// identical, state by state.
pub proof fn lemma_step_sequences_deterministic<Sim: Simulation>(
    s0: Sim::State,
    inputs: Seq<InputPair>,
    tr1: Seq<Sim::State>,
    tr2: Seq<Sim::State>,
)
    requires
        is_trace::<Sim>(s0, inputs, tr1),
        is_trace::<Sim>(s0, inputs, tr2),
    ensures
        tr1 =~= tr2,
{
    assert forall|k: int| 0 <= k < tr1.len() implies tr1[k] == tr2[k] by {
        lemma_trace_prefix_agrees::<Sim>(s0, inputs, tr1, tr2, k);
    }
}

/// Every trace ends at the replay of its inputs; with
/// `lemma_step_sequences_deterministic` this ties the loop in
/// `run_sequence` to the recursive `replay_spec`.
pub proof fn lemma_trace_ends_at_replay<Sim: Simulation>(
    s0: Sim::State,
    inputs: Seq<InputPair>,
    states: Seq<Sim::State>,
)
    requires
        is_trace::<Sim>(s0, inputs, states),
    ensures
        states.last() == replay_spec::<Sim>(s0, inputs),
    decreases inputs.len(),
{
    if inputs.len() > 0 {
        let shorter = inputs.drop_last();
        let prefix = states.drop_last();
        assert(is_trace::<Sim>(s0, shorter, prefix));
        lemma_trace_ends_at_replay::<Sim>(s0, shorter, prefix);
        assert(states.last() == Sim::step_spec(states[inputs.len() - 1], inputs[inputs.len() - 1]));
    }
}

} // verus!
