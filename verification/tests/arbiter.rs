use lockstep::server::{Arbiter, InboundInput, IngestOutcome};
use lockstep::sim::InputPair;

const DT_US: u64 = 16_666;

fn record(player_id: usize, tick: u32, bits: u8) -> InboundInput {
    InboundInput {
        player_id,
        tick,
        bits,
    }
}

#[test]
fn accepts_inputs_inside_the_window() {
    let mut arb = Arbiter::new();
    assert_eq!(arb.ingest(record(0, 0, 1)), IngestOutcome::Accepted);
    assert_eq!(arb.ingest(record(0, 32, 1)), IngestOutcome::Accepted);
    assert_eq!(arb.ingest(record(1, 5, 2)), IngestOutcome::Accepted);
}

#[test]
fn stale_input_is_dropped_and_carryover_used() {
    let mut arb = Arbiter::new();
    // tick 0 arrives in time and is used
    assert_eq!(arb.ingest(record(0, 0, 3)), IngestOutcome::Accepted);
    let t0 = arb.advance();
    assert_eq!(t0.tick, 0);
    assert_eq!(t0.inputs, InputPair { p0: 3, p1: 0 });
    // a late record for tick 0 is stale now
    assert_eq!(arb.ingest(record(0, 0, 9)), IngestOutcome::Stale);
    // the broadcast for tick 1 reuses the last-known bits, not the stale ones
    let t1 = arb.advance();
    assert_eq!(t1.tick, 1);
    assert_eq!(t1.inputs, InputPair { p0: 3, p1: 0 });
}

#[test]
fn out_of_window_input_is_dropped() {
    let mut arb = Arbiter::new();
    assert_eq!(arb.ingest(record(0, 1000, 9)), IngestOutcome::OutOfWindow);
    assert_eq!(arb.ingest(record(0, 33, 9)), IngestOutcome::OutOfWindow);
    // the broadcast is unaffected
    let t0 = arb.advance();
    assert_eq!(t0.inputs, InputPair::zero());
}

#[test]
fn first_submission_wins() {
    let mut arb = Arbiter::new();
    assert_eq!(arb.ingest(record(0, 2, 1)), IngestOutcome::Accepted);
    assert_eq!(arb.ingest(record(0, 2, 7)), IngestOutcome::DuplicateTick);
    arb.advance();
    arb.advance();
    let t2 = arb.advance();
    assert_eq!(t2.tick, 2);
    assert_eq!(t2.inputs.p0, 1);
}

#[test]
fn a_record_only_touches_its_own_player() {
    let mut arb = Arbiter::new();
    assert_eq!(arb.ingest(record(1, 0, 9)), IngestOutcome::Accepted);
    let t0 = arb.advance();
    assert_eq!(t0.inputs, InputPair { p0: 0, p1: 9 });
    // player 0's slot for the same tick was untouched, so a fresh record
    // for player 0 at a later tick is still first-wins for that player
    assert_eq!(arb.ingest(record(0, 1, 4)), IngestOutcome::Accepted);
    let t1 = arb.advance();
    assert_eq!(t1.inputs, InputPair { p0: 4, p1: 9 });
}

#[test]
fn carryover_when_a_player_goes_quiet() {
    let mut arb = Arbiter::new();
    assert_eq!(arb.ingest(record(0, 0, 5)), IngestOutcome::Accepted);
    assert_eq!(arb.advance().inputs, InputPair { p0: 5, p1: 0 });
    // no fresh records: both players carry over
    assert_eq!(arb.advance().inputs, InputPair { p0: 5, p1: 0 });
    assert_eq!(arb.advance().inputs, InputPair { p0: 5, p1: 0 });
    assert_eq!(arb.server_tick(), 3);
}

#[test]
fn broadcast_ticks_count_up_from_zero() {
    let mut arb = Arbiter::new();
    let mut acc: u64 = 120 * DT_US;
    let out = arb.advance_due(&mut acc, 119);
    assert_eq!(out.len(), 120);
    for (k, ti) in out.iter().enumerate() {
        assert_eq!(ti.tick, k as u32);
    }
    assert_eq!(arb.server_tick(), 120);
    assert!(acc < DT_US);
}

#[test]
fn advance_due_respects_the_target() {
    let mut arb = Arbiter::new();
    let mut acc: u64 = 1_000_000_000;
    let out = arb.advance_due(&mut acc, 4);
    assert_eq!(out.len(), 5);
    assert_eq!(arb.server_tick(), 5);
    // and waits for whole tick periods
    let mut small: u64 = DT_US - 1;
    let out2 = arb.advance_due(&mut small, 100);
    assert!(out2.is_empty());
    assert_eq!(small, DT_US - 1);
}
