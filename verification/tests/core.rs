use cells::grid::Grid;
use cells::history::get_next_skip_index;
use cells::history::HistoryBuffer;
use cells::rules::conway_rules;
use cells::rules::CellRules;
use cells::rules::CellState;
use cells::rules::Rule;
use cells::seed::seed_cells;
use cells::step::cell_generation_tick;
use cells::SimError;

fn dead_grid(side: usize) -> Grid {
    Grid::new_grid(side, side).expect("square dimensions")
}

fn grid_cells(g: &Grid) -> Vec<bool> {
    let mut out = Vec::new();
    let mut i = 0;
    while i < g.len() {
        out.push(g.cell(i));
        i += 1;
    }
    out
}

fn live_coords(g: &Grid) -> Vec<(usize, usize)> {
    let mut out = Vec::new();
    let mut i = 0;
    while i < g.len() {
        if g.cell(i) {
            out.push(g.get_x_y(i));
        }
        i += 1;
    }
    out
}

#[test]
fn new_grid_is_all_dead() {
    let g = dead_grid(4);
    assert_eq!(g.width(), 4);
    assert_eq!(g.height(), 4);
    assert_eq!(g.len(), 16);
    assert!(grid_cells(&g).iter().all(|&c| !c));
}

#[test]
fn new_grid_rejects_bad_dimensions() {
    assert_eq!(Grid::new_grid(0, 0).err(), Some(SimError::InvalidDimensions));
    assert_eq!(Grid::new_grid(0, 5).err(), Some(SimError::InvalidDimensions));
    assert_eq!(Grid::new_grid(3, 4).err(), Some(SimError::InvalidDimensions));
}

#[test]
fn indexing_round_trip() {
    let g = dead_grid(5);
    assert_eq!(g.get_idx(3, 2), 2 * 5 + 3);
    assert_eq!(g.get_x_y(13), (3, 2));
    for i in 0..g.len() {
        let (x, y) = g.get_x_y(i);
        assert_eq!(g.get_idx(x, y), i);
    }
}

#[test]
fn set_and_get_cell() {
    let mut g = dead_grid(3);
    g.set_cell(1, 2, true);
    assert!(g.get_cell(1, 2));
    assert!(!g.get_cell(2, 1));
    assert!(g.cell(2 * 3 + 1));
}

#[test]
fn neighbor_count_center_and_corner() {
    // Horizontal line of three at y = 1.
    let mut g = dead_grid(3);
    g.set_cell(0, 1, true);
    g.set_cell(1, 1, true);
    g.set_cell(2, 1, true);
    assert_eq!(g.neighbor_count(1, 1), 2);
    assert_eq!(g.neighbor_count(1, 0), 3);
    assert_eq!(g.neighbor_count(1, 2), 3);
    assert_eq!(g.neighbor_count(0, 1), 1);
    // The corner examines only its three in-bounds candidates.
    assert_eq!(g.neighbor_count(0, 0), 2);
    let mut full = dead_grid(3);
    for y in 0..3 {
        for x in 0..3 {
            full.set_cell(x, y, true);
        }
    }
    assert_eq!(full.neighbor_count(0, 0), 3);
    assert_eq!(full.neighbor_count(1, 1), 8);
}

#[test]
fn conway_rule_table() {
    let g = dead_grid(3);
    let obs = |alive: bool, n: u8| CellState { x: 1, y: 1, alive, neighbors_alive: n };
    // A live cell survives with 2 or 3 neighbors and otherwise dies.
    assert!(!conway_rules(&g, obs(true, 0)));
    assert!(!conway_rules(&g, obs(true, 1)));
    assert!(conway_rules(&g, obs(true, 2)));
    assert!(conway_rules(&g, obs(true, 3)));
    assert!(!conway_rules(&g, obs(true, 4)));
    assert!(!conway_rules(&g, obs(true, 8)));
    // A dead cell is born with exactly 3 neighbors.
    assert!(!conway_rules(&g, obs(false, 2)));
    assert!(conway_rules(&g, obs(false, 3)));
    assert!(!conway_rules(&g, obs(false, 4)));
}

#[test]
fn rules_cascade_in_registration_order() {
    let g = dead_grid(5);
    let mut engine = CellRules::new();
    assert_eq!(engine.num_rules(), 0);
    engine.add_rule(Rule::Conway);
    engine.add_rule(Rule::SterileOutside { min_x: 0, min_y: 0, max_x: 1, max_y: 1 });
    assert_eq!(engine.num_rules(), 2);
    assert_eq!(engine.rule_at(0), Rule::Conway);
    // Birth at (3, 3) is vetoed by the sterility zone that runs after it...
    let born_outside = CellState { x: 3, y: 3, alive: false, neighbors_alive: 3 };
    assert!(!engine.apply_all(&g, born_outside));
    // ...while the same observation inside the zone stays alive.
    let born_inside = CellState { x: 1, y: 1, alive: false, neighbors_alive: 3 };
    assert!(engine.apply_all(&g, born_inside));
    // An empty engine leaves the flag unchanged.
    let empty = CellRules::new();
    assert!(empty.apply_all(&g, CellState { x: 0, y: 0, alive: true, neighbors_alive: 0 }));
}

#[test]
fn sterility_zone_composes_with_conway_in_a_step() {
    // A blinker whose vertical successor pokes out of the allowed zone:
    // the zone rule, registered after Conway, kills the cell at (2, 3).
    let mut g = dead_grid(5);
    g.set_cell(1, 2, true);
    g.set_cell(2, 2, true);
    g.set_cell(3, 2, true);
    let mut engine = CellRules::new();
    engine.add_rule(Rule::Conway);
    engine.add_rule(Rule::SterileOutside { min_x: 0, min_y: 0, max_x: 4, max_y: 2 });
    let next = cell_generation_tick(&g, &engine);
    let mut lit = live_coords(&next);
    lit.sort();
    assert_eq!(lit, vec![(2, 1), (2, 2)]);
}

#[test]
fn lone_cell_dies_of_underpopulation() {
    // A 5x5 grid with a single live cell at (2, 2), stepped once under the
    // default rule, is entirely dead: no cell reaches 3 neighbors.
    let mut g = dead_grid(5);
    g.set_cell(2, 2, true);
    let engine = CellRules::conway();
    let next = cell_generation_tick(&g, &engine);
    assert_eq!(next.len(), 25);
    assert!(grid_cells(&next).iter().all(|&c| !c));
    // The input grid was not mutated.
    assert!(g.get_cell(2, 2));
}

#[test]
fn blinker_oscillates_with_period_two() {
    // Horizontal line at y = 2, x in {1, 2, 3}.
    let mut g = dead_grid(5);
    g.set_cell(1, 2, true);
    g.set_cell(2, 2, true);
    g.set_cell(3, 2, true);
    let engine = CellRules::conway();
    let once = cell_generation_tick(&g, &engine);
    // One step gives the vertical line at x = 2, y in {1, 2, 3}.
    let mut lit = live_coords(&once);
    lit.sort();
    assert_eq!(lit, vec![(2, 1), (2, 2), (2, 3)]);
    // A second step returns the original horizontal line.
    let twice = cell_generation_tick(&once, &engine);
    assert_eq!(grid_cells(&twice), grid_cells(&g));
}

#[test]
fn dead_cells_never_born_without_three_neighbors() {
    // Two live cells: every dead cell sees at most 2 neighbors, so no
    // births; the live cells themselves die of underpopulation.
    let mut g = dead_grid(4);
    g.set_cell(0, 0, true);
    g.set_cell(1, 0, true);
    let engine = CellRules::conway();
    let next = cell_generation_tick(&g, &engine);
    assert!(grid_cells(&next).iter().all(|&c| !c));
}

#[test]
fn history_push_evicts_oldest_and_keeps_order() {
    let make = |k: usize| {
        let mut g = dead_grid(3);
        g.set_cell(k, 0, true);
        g
    };
    let marked: Vec<Vec<bool>> = (0..4).map(|k| grid_cells(&make(k))).collect();
    let mut h = HistoryBuffer::new_history(make(0), 2).expect("capacity 2");
    assert_eq!(h.len(), 1);
    assert_eq!(h.capacity(), 2);
    h.push(make(1));
    assert_eq!(h.len(), 2);
    h.push(make(2));
    // Capacity 2: the oldest snapshot was evicted, order preserved.
    assert_eq!(h.len(), 2);
    h.jump_to_start();
    assert_eq!(grid_cells(h.current()), marked[1]);
    h.jump_to_end();
    assert_eq!(grid_cells(h.current()), marked[2]);
    h.push(make(3));
    assert_eq!(h.len(), 2);
    h.jump_to_start();
    assert_eq!(grid_cells(h.current()), marked[2]);
}

#[test]
fn history_cursor_follows_snapshot_on_eviction() {
    let make = |k: usize| {
        let mut g = dead_grid(3);
        g.set_cell(k, 0, true);
        g
    };
    let mut h = HistoryBuffer::new_history(make(0), 2).expect("capacity 2");
    h.push(make(1));
    h.jump_to_end();
    let viewed = grid_cells(h.current());
    // The eviction shifts every index down; the decremented cursor still
    // points at the same snapshot.
    h.push(make(2));
    assert_eq!(h.cursor(), 0);
    assert_eq!(grid_cells(h.current()), viewed);
}

#[test]
fn history_rejects_zero_capacity() {
    let g = dead_grid(3);
    assert_eq!(
        HistoryBuffer::new_history(g, 0).err(),
        Some(SimError::InvalidCapacity)
    );
}

#[test]
fn step_forward_at_frontier_simulates() {
    // A blinker: stepping forward at the frontier must record the next
    // generation and move the cursor onto it.
    let mut g = dead_grid(5);
    g.set_cell(1, 2, true);
    g.set_cell(2, 2, true);
    g.set_cell(3, 2, true);
    let horizontal = grid_cells(&g);
    let engine = CellRules::conway();
    let mut h = HistoryBuffer::new_history(g, 10).expect("capacity 10");
    h.step_forward(&engine);
    assert_eq!(h.len(), 2);
    assert_eq!(h.cursor(), 1);
    let mut lit = live_coords(h.current());
    lit.sort();
    assert_eq!(lit, vec![(2, 1), (2, 2), (2, 3)]);
    h.step_forward(&engine);
    assert_eq!(h.len(), 3);
    assert_eq!(grid_cells(h.current()), horizontal);
}

#[test]
fn replay_round_trip_restores_cursor_and_snapshot() {
    let mut g = dead_grid(5);
    g.set_cell(1, 2, true);
    g.set_cell(2, 2, true);
    g.set_cell(3, 2, true);
    let engine = CellRules::conway();
    let mut h = HistoryBuffer::new_history(g, 10).expect("capacity 10");
    h.step_forward(&engine);
    h.step_forward(&engine);
    h.step_forward(&engine);
    let len_before = h.len();
    let cursor_before = h.cursor();
    let seen_before = grid_cells(h.current());
    // Rewind three times, replay three times: same cursor, identical
    // snapshot by value, and no new simulation occurred.
    h.step_backward();
    h.step_backward();
    h.step_backward();
    assert_eq!(h.cursor(), 0);
    h.step_forward(&engine);
    h.step_forward(&engine);
    h.step_forward(&engine);
    assert_eq!(h.cursor(), cursor_before);
    assert_eq!(h.len(), len_before);
    assert_eq!(grid_cells(h.current()), seen_before);
}

#[test]
fn step_backward_clamps_at_start() {
    let g = dead_grid(3);
    let mut h = HistoryBuffer::new_history(g, 5).expect("capacity 5");
    h.step_backward();
    assert_eq!(h.cursor(), 0);
    assert_eq!(h.len(), 1);
}

#[test]
fn skip_index_clamps_both_ways() {
    assert_eq!(get_next_skip_index(-1, 0, 9), 0);
    assert_eq!(get_next_skip_index(-1, 5, 9), 4);
    assert_eq!(get_next_skip_index(1, 5, 9), 6);
    assert_eq!(get_next_skip_index(1, 9, 9), 9);
    assert_eq!(get_next_skip_index(3, 8, 9), 9);
    assert_eq!(get_next_skip_index(-7, 3, 9), 0);
}

#[test]
fn seeding_with_probability_zero_is_all_dead() {
    let mut rng = rand::thread_rng();
    let g = seed_cells(6, 6, 3, 0, 7, &mut rng).expect("valid config");
    assert!(grid_cells(&g).iter().all(|&c| !c));
}

#[test]
fn seeding_with_probability_one_fills_exactly_the_box() {
    let mut rng = rand::thread_rng();
    let side = 6;
    let radius = 2;
    let g = seed_cells(side, side, radius, 7, 7, &mut rng).expect("valid config");
    let half = side / 2;
    for i in 0..g.len() {
        let (x, y) = g.get_x_y(i);
        let dx = if x <= half { half - x } else { x - half };
        let dy = if y <= half { half - y } else { y - half };
        let inside = dx < radius && dy < radius;
        assert_eq!(g.cell(i), inside, "cell ({}, {})", x, y);
    }
    // The box is not empty and not the whole grid, so the trusted draw
    // demonstrably decided both ways.
    assert!(grid_cells(&g).iter().any(|&c| c));
    assert!(grid_cells(&g).iter().any(|&c| !c));
}

#[test]
fn seeding_outside_the_box_is_always_dead() {
    let mut rng = rand::thread_rng();
    let g = seed_cells(8, 8, 2, 1, 2, &mut rng).expect("valid config");
    let half = 8 / 2;
    for i in 0..g.len() {
        let (x, y) = g.get_x_y(i);
        let dx = if x <= half { half - x } else { x - half };
        let dy = if y <= half { half - y } else { y - half };
        if dx >= 2 || dy >= 2 {
            assert!(!g.cell(i), "cell ({}, {}) outside the box must be dead", x, y);
        }
    }
}

#[test]
fn seeding_rejects_bad_probability_and_dimensions() {
    let mut rng = rand::thread_rng();
    assert_eq!(
        seed_cells(6, 6, 2, 3, 2, &mut rng).err(),
        Some(SimError::InvalidProbability)
    );
    assert_eq!(
        seed_cells(6, 6, 2, 0, 0, &mut rng).err(),
        Some(SimError::InvalidProbability)
    );
    assert_eq!(
        seed_cells(0, 0, 2, 1, 2, &mut rng).err(),
        Some(SimError::InvalidDimensions)
    );
    assert_eq!(
        seed_cells(6, 5, 2, 1, 2, &mut rng).err(),
        Some(SimError::InvalidDimensions)
    );
}

#[test]
fn error_messages_describe_each_variant() {
    assert_eq!(SimError::InvalidDimensions.message(), "invalid grid dimensions");
    assert_eq!(
        SimError::InvalidProbability.message(),
        "spawn probability outside [0, 1]"
    );
    assert_eq!(
        SimError::InvalidCapacity.message(),
        "history capacity must be at least 1"
    );
}
