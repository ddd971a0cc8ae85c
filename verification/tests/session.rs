//! End-to-end sessions run entirely in memory: a real arbiter and two real
//! predictors exchanging the real message types frame by frame, with the
//! wall clock supplied as synthetic microseconds.

use lockstep::client::Predictor;
use lockstep::clock::{target_tick, wall_tick};
use lockstep::net::NetCmd;
use lockstep::protocol::TickInputs;
use lockstep::refsim::{grid_initial, GridSim};
use lockstep::server::{Arbiter, InboundInput};
use lockstep::sim::{run_sequence, InputPair};

const TICK_US: u64 = 16_667;

fn submit(arb: &mut Arbiter, player_id: usize, cmds: Vec<NetCmd>) {
    for cmd in cmds {
        match cmd {
            NetCmd::SendInput { tick, bits } => {
                arb.ingest(InboundInput {
                    player_id,
                    tick,
                    bits,
                });
            }
        }
    }
}

/// Runs a two-client session for `frames` frames. Client 0 always presses
/// LEFT (bits 1), client 1 always RIGHT (bits 2). When `tamper` is set,
/// client 1 shoves its own player upward after every frame, as the
/// malicious mode does.
fn run_session(
    frames: u64,
    tamper: bool,
) -> (Vec<TickInputs>, Predictor<GridSim>, Predictor<GridSim>) {
    let sim = GridSim;
    let mut arb = Arbiter::new();
    let mut acc: u64 = 0;
    let mut a: Predictor<GridSim> = Predictor::new(grid_initial());
    let mut b: Predictor<GridSim> = Predictor::new(grid_initial());
    a.on_assign_start(0);
    b.on_assign_start(1);
    let mut got_a: Vec<TickInputs> = Vec::new();

    for frame in 0..frames {
        let elapsed = frame * TICK_US;

        // each client repairs any detected mismatch, then simulates
        a.apply_pending_rollback();
        let cmds_a = a.advance_frame(&sim, elapsed, TICK_US, 0, 1);
        b.apply_pending_rollback();
        let cmds_b = b.advance_frame(&sim, elapsed, TICK_US, 0, 2);
        if tamper {
            let mut s = b.state();
            s.p1.y -= 20;
            s.p1.vy = 0;
            b.override_state(s);
        }
        submit(&mut arb, 0, cmds_a);
        submit(&mut arb, 1, cmds_b);

        // the server banks the frame's time and arbitrates what is due
        acc += TICK_US;
        let max_tick = target_tick(wall_tick(elapsed));
        for ti in arb.advance_due(&mut acc, max_tick) {
            a.on_tick_inputs(ti.tick, ti.inputs);
            b.on_tick_inputs(ti.tick, ti.inputs);
            got_a.push(ti);
        }
    }
    (got_a, a, b)
}

#[test]
fn steady_stream_arrives_in_order_with_everyones_bits() {
    let (got, a, _) = run_session(130, false);
    assert!(got.len() >= 120);
    for (k, ti) in got.iter().enumerate() {
        assert_eq!(ti.tick, k as u32);
    }
    // from tick 1 on the pipeline is warm: every broadcast carries what
    // the clients actually sent (tick 0 raced the very first arbitration
    // and fell back to the zero carryover)
    for ti in got.iter().take(120).skip(1) {
        assert_eq!(ti.inputs, InputPair { p0: 1, p1: 2 });
    }
    // with every mismatch repaired, the client's state is exactly the
    // step function folded over the inputs it recorded as used
    assert!(!a.has_pending_rollback());
    let mut used = Vec::new();
    for t in 0..a.local_tick() {
        used.push(a.used_for(t).expect("within history"));
    }
    assert_eq!(a.state(), run_sequence(&GridSim, grid_initial(), &used));
}

#[test]
fn malicious_tampering_stays_local() {
    let (honest_stream, honest_a, honest_b) = run_session(130, false);
    let (tampered_stream, tampered_a, tampered_b) = run_session(130, true);
    // the authoritative stream is byte-for-byte unaffected
    assert_eq!(honest_stream, tampered_stream);
    // the honest client's world is unaffected too: it renders the
    // tampering player from authoritative inputs, not from that player's
    // local state
    assert_eq!(honest_a.state(), tampered_a.state());
    // only the tampering client's own render diverges
    assert_ne!(honest_b.state(), tampered_b.state());
}
