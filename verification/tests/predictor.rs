use lockstep::client::{sim_rate_pct, Predictor};
use lockstep::net::NetCmd;
use lockstep::refsim::{grid_initial, GridSim};
use lockstep::sim::{run_sequence, InputPair};

const TICK_US: u64 = 16_667;
const BIG_FRAME_US: u64 = 1_000_000_000;

fn pair(a: u8, b: u8) -> InputPair {
    InputPair { p0: a, p1: b }
}

fn fresh(id: u8) -> Predictor<GridSim> {
    let mut p: Predictor<GridSim> = Predictor::new(grid_initial());
    p.on_assign_start(id);
    p
}

#[test]
fn new_predictor_waits_for_the_handshake() {
    let p: Predictor<GridSim> = Predictor::new(grid_initial());
    assert!(!p.started());
    assert_eq!(p.local_tick(), 0);
}

#[test]
fn handshake_records_id_and_resets() {
    let sim = GridSim;
    let mut p = fresh(0);
    p.on_tick_inputs(0, pair(1, 2));
    p.advance_frame(&sim, 5 * TICK_US, BIG_FRAME_US, 0, 1);
    assert!(p.local_tick() > 0);
    p.on_assign_start(1);
    assert!(p.started());
    assert_eq!(p.my_id(), 1);
    assert_eq!(p.local_tick(), 0);
    assert_eq!(p.latest_server_tick(), 0);
    assert_eq!(p.state(), grid_initial());
    assert_eq!(p.auth_for(0), None);
    assert_eq!(p.used_for(0), None);
    assert_eq!(p.snap_for(0), None);
    assert!(!p.has_pending_rollback());
}

#[test]
fn handshake_with_impossible_id_is_ignored() {
    let mut p = fresh(1);
    p.on_assign_start(7);
    assert_eq!(p.my_id(), 1);
}

#[test]
fn authoritative_inputs_beat_prediction() {
    let sim = GridSim;
    let mut p = fresh(0);
    // the pair for tick 0 is known before it is simulated
    p.on_tick_inputs(0, pair(3, 5));
    let cmds = p.advance_frame(&sim, 3 * TICK_US, BIG_FRAME_US, 0, 1);
    assert_eq!(p.local_tick(), 3);
    // tick 0 used the authoritative pair; 1 and 2 predicted:
    // own sampled bits, last-known remote bits
    assert_eq!(p.used_for(0), Some(pair(3, 5)));
    assert_eq!(p.used_for(1), Some(pair(1, 5)));
    assert_eq!(p.used_for(2), Some(pair(1, 5)));
    // the state is the step function folded over exactly those pairs
    let expected = run_sequence(
        &sim,
        grid_initial(),
        &vec![pair(3, 5), pair(1, 5), pair(1, 5)],
    );
    assert_eq!(p.state(), expected);
    // one send per simulated tick, carrying this client's chosen bits
    assert_eq!(cmds.len(), 3);
    assert_eq!(cmds[0], NetCmd::SendInput { tick: 0, bits: 3 });
    assert_eq!(cmds[1], NetCmd::SendInput { tick: 1, bits: 1 });
    assert_eq!(cmds[2], NetCmd::SendInput { tick: 2, bits: 1 });
}

#[test]
fn input_stamps_shift_by_latency_and_clamp() {
    let sim = GridSim;
    // 200 ms of artificial delay is 12 ticks at 60 TPS
    let mut p = fresh(0);
    let cmds = p.advance_frame(&sim, 10 * TICK_US, BIG_FRAME_US, 200, 0);
    assert_eq!(cmds.len(), 10);
    for (k, cmd) in cmds.iter().enumerate() {
        let NetCmd::SendInput { tick, .. } = *cmd else {
            unreachable!()
        };
        assert_eq!(tick, k as u32 + 12);
    }
    // an absurd delay is clamped into the server's acceptance window:
    // estimated server tick 6 (target 10 minus lead 4) plus the window
    let mut q = fresh(0);
    let cmds = q.advance_frame(&sim, 10 * TICK_US, BIG_FRAME_US, 60_000, 0);
    for cmd in cmds.iter() {
        let NetCmd::SendInput { tick, .. } = *cmd else {
            unreachable!()
        };
        assert_eq!(tick, 6 + 32);
    }
}

#[test]
fn matching_confirmation_causes_no_rollback() {
    let sim = GridSim;
    let mut p = fresh(0);
    p.advance_frame(&sim, 10 * TICK_US, BIG_FRAME_US, 0, 1);
    assert_eq!(p.local_tick(), 10);
    // the authoritative stream confirms exactly what was predicted
    for t in 0..10 {
        p.on_tick_inputs(t, pair(1, 0));
        assert!(!p.has_pending_rollback());
    }
    assert_eq!(p.latest_server_tick(), 9);
}

#[test]
fn mismatch_rolls_back_and_replays_to_the_authoritative_state() {
    let sim = GridSim;
    let mut p = fresh(0);
    p.advance_frame(&sim, 10 * TICK_US, BIG_FRAME_US, 0, 1);
    assert_eq!(p.local_tick(), 10);
    // the remote player actually pressed something else from tick 5 on
    for t in 5..10 {
        p.on_tick_inputs(t, pair(1, 2));
    }
    assert!(p.has_pending_rollback());
    p.apply_pending_rollback();
    assert!(!p.has_pending_rollback());
    assert_eq!(p.local_tick(), 5);
    // the restored state is the snapshot: the fold of what was used up to 5
    let before_5 = run_sequence(&sim, grid_initial(), &vec![pair(1, 0); 5]);
    assert_eq!(p.state(), before_5);
    // replay to 10: ticks 5..9 now follow the authoritative pairs
    p.advance_frame(&sim, 10 * TICK_US, BIG_FRAME_US, 0, 1);
    assert_eq!(p.local_tick(), 10);
    for t in 5..10 {
        assert_eq!(p.used_for(t), Some(pair(1, 2)));
    }
    let mut inputs = vec![pair(1, 0); 5];
    inputs.extend_from_slice(&[pair(1, 2); 5]);
    let expected = run_sequence(&sim, grid_initial(), &inputs);
    assert_eq!(p.state(), expected);
}

#[test]
fn rollback_beyond_the_horizon_is_dropped() {
    let sim = GridSim;
    let mut p = fresh(0);
    p.advance_frame(&sim, 4200 * TICK_US, BIG_FRAME_US, 0, 1);
    // the catch-up budget caps one frame at 2000 ticks
    assert_eq!(p.local_tick(), 2000);
    // a mismatch at tick 5 is noticed while its records still exist
    p.on_tick_inputs(5, pair(9, 9));
    assert!(p.has_pending_rollback());
    // ... but the ring wraps past tick 5 before the rollback is applied
    p.advance_frame(&sim, 4200 * TICK_US, BIG_FRAME_US, 0, 1);
    p.advance_frame(&sim, 4200 * TICK_US, BIG_FRAME_US, 0, 1);
    assert_eq!(p.local_tick(), 4200);
    assert_eq!(p.snap_for(5), None);
    p.apply_pending_rollback();
    // dropped silently: no rewind, nothing pending
    assert!(!p.has_pending_rollback());
    assert_eq!(p.local_tick(), 4200);
}

#[test]
fn pacing_dead_band_is_asymmetric() {
    // behind the lead margin: run fast
    assert_eq!(sim_rate_pct(0, 0), 103);
    assert_eq!(sim_rate_pct(0, 10), 103);
    assert_eq!(sim_rate_pct(12, 10), 103);
    // inside the dead band: real time
    assert_eq!(sim_rate_pct(13, 10), 100);
    assert_eq!(sim_rate_pct(14, 10), 100);
    assert_eq!(sim_rate_pct(16, 10), 100);
    // overshot: run slow
    assert_eq!(sim_rate_pct(17, 10), 98);
}

#[test]
fn forced_catchup_stops_one_tick_short_of_the_target() {
    let sim = GridSim;
    let mut p = fresh(0);
    // no banked time at all: catch-up still runs, but leaves the final
    // tick for a frame whose accumulator covers it
    let cmds = p.advance_frame(&sim, 10 * TICK_US, 0, 0, 0);
    assert_eq!(p.local_tick(), 9);
    assert_eq!(cmds.len(), 9);
}

#[test]
fn tampering_with_the_state_never_changes_what_is_sent() {
    let sim = GridSim;
    let mut honest = fresh(0);
    let mut tampering = fresh(0);
    let mut weird = grid_initial();
    for frame in 1..=20u64 {
        let elapsed = frame * TICK_US;
        let a = honest.advance_frame(&sim, elapsed, TICK_US, 0, 1);
        let b = tampering.advance_frame(&sim, elapsed, TICK_US, 0, 1);
        assert_eq!(a, b);
        // shove the tampering client's own player around after stepping
        weird.p0.y -= 20;
        tampering.override_state(weird);
    }
    assert_ne!(honest.state(), tampering.state());
}
