use lockstep::clock::{latency_ticks, max_stamp, stamp_tick, target_tick, wall_tick};

#[test]
fn wall_tick_floors_elapsed_time() {
    assert_eq!(wall_tick(0), 0);
    assert_eq!(wall_tick(16_666), 0);
    assert_eq!(wall_tick(16_667), 1);
    assert_eq!(wall_tick(1_000_000), 60);
    assert_eq!(wall_tick(1_000_000 * 2 - 1), 119);
}

#[test]
fn wall_tick_saturates() {
    assert_eq!(wall_tick(u64::MAX), u32::MAX);
}

#[test]
fn target_tick_lags_by_lead() {
    assert_eq!(target_tick(0), 0);
    assert_eq!(target_tick(3), 0);
    assert_eq!(target_tick(4), 0);
    assert_eq!(target_tick(10), 6);
}

#[test]
fn latency_ticks_from_delay() {
    assert_eq!(latency_ticks(0), 0);
    assert_eq!(latency_ticks(16), 0);
    assert_eq!(latency_ticks(17), 1);
    assert_eq!(latency_ticks(200), 12);
    assert_eq!(latency_ticks(1000), 60);
}

#[test]
fn stamp_tick_shifts_and_clamps() {
    // shifted forward by latency, inside the window
    assert_eq!(stamp_tick(100, 12, 96), stamp_tick(100, 12, 96));
    assert_eq!(stamp_tick(100, 12, 96), 112);
    // clamped to the window's far edge
    assert_eq!(stamp_tick(100, 120, 96), 96 + 32);
    // saturating shift
    assert_eq!(stamp_tick(u32::MAX, 10, u32::MAX), u32::MAX);
}

#[test]
fn max_stamp_saturates() {
    assert_eq!(max_stamp(0), 32);
    assert_eq!(max_stamp(u32::MAX - 10), u32::MAX);
}
