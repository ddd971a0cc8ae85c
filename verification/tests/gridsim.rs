use lockstep::refsim::{grid_initial, GridSim, GRID_Y_MAX};
use lockstep::sim::{run_sequence, InputPair, Simulation};

fn pair(a: u8, b: u8) -> InputPair {
    InputPair { p0: a, p1: b }
}

#[test]
fn identical_runs_produce_identical_states() {
    let sim = GridSim;
    let inputs: Vec<InputPair> = (0..200u32)
        .map(|i| pair((i % 8) as u8, ((i / 3) % 8) as u8))
        .collect();
    let a = run_sequence(&sim, grid_initial(), &inputs);
    let b = run_sequence(&sim, grid_initial(), &inputs);
    assert_eq!(a, b);
}

#[test]
fn walking_moves_a_player_horizontally() {
    let sim = GridSim;
    // RIGHT is bit 2, LEFT is bit 1; player 0 walks right, player 1 left
    let after = run_sequence(&sim, grid_initial(), &vec![pair(2, 1); 3]);
    assert_eq!(after.p0.x, 20 + 3 * 2);
    assert_eq!(after.p1.x, 100 - 3 * 2);
    // both stay on the floor
    assert_eq!(after.p0.y, GRID_Y_MAX);
    assert_eq!(after.p1.y, GRID_Y_MAX);
}

#[test]
fn jumping_leaves_the_floor_and_gravity_pulls_back() {
    let sim = GridSim;
    let s1 = sim.step(grid_initial(), pair(4, 0));
    // jump grants upward velocity 6 (y shrinks)
    assert_eq!(s1.p0.y, GRID_Y_MAX - 6);
    assert_eq!(s1.p0.vy, -6);
    let s2 = sim.step(s1, pair(0, 0));
    // gravity eats one unit per tick
    assert_eq!(s2.p0.y, GRID_Y_MAX - 6 - 5);
    assert_eq!(s2.p0.vy, -5);
    // the untouched player never moved
    assert_eq!(s2.p1, grid_initial().p1);
}

#[test]
fn walls_clamp_movement() {
    let sim = GridSim;
    // walking left forever stops at the wall
    let after = run_sequence(&sim, grid_initial(), &vec![pair(1, 0); 50]);
    assert_eq!(after.p0.x, 0);
}

#[test]
fn reserved_bits_do_not_move_anyone() {
    let sim = GridSim;
    // only the three flag bits matter; high bits alone do nothing
    let after = run_sequence(&sim, grid_initial(), &vec![pair(0xF8, 0xF8); 4]);
    assert_eq!(after, grid_initial());
}
