use std::collections::hash_map::DefaultHasher;
use std::hash::{Hash, Hasher};
use std::time::{Duration, Instant};

use game_of_life::controller::AppPhase;
use game_of_life::sim::session::{GameResult, GameSession};
use game_of_life::sim::Grid;

fn make_blinker() -> Grid {
    let mut g = Grid::new(10, 10);
    g.set(4, 5, true);
    g.set(5, 5, true);
    g.set(6, 5, true);
    g
}

fn make_block() -> Grid {
    let mut g = Grid::new(10, 10);
    g.set(4, 4, true);
    g.set(5, 4, true);
    g.set(4, 5, true);
    g.set(5, 5, true);
    g
}

#[test]
fn game_result_variants_exist() {
    let _ = GameResult::StillRunning;
    let _ = GameResult::CycleDetected;
    let _ = GameResult::CapReached;
}

#[test]
fn new_session_starts_at_step_zero() {
    let g = Grid::new(10, 10);
    let session = GameSession::new(g, 300);
    assert_eq!(session.step_count, 0);
    assert_eq!(session.max_steps, 300);
    assert_eq!(session.population_history.len(), 1);
}

#[test]
fn still_life_detected_after_one_advance() {
    let mut s = GameSession::new(make_block(), 300);
    let r = s.advance();
    assert_eq!(r, GameResult::CycleDetected);
    assert_eq!(s.score(), 4);
}

#[test]
fn blinker_detected_after_two_advances() {
    let mut s = GameSession::new(make_blinker(), 300);
    assert_eq!(s.advance(), GameResult::StillRunning);
    assert_eq!(s.advance(), GameResult::CycleDetected);
    assert_eq!(s.score(), 9);
}

#[test]
fn cap_reached_stops_the_game() {
    let mut s = GameSession::new(make_blinker(), 2);
    assert_eq!(s.advance(), GameResult::StillRunning);
    assert_eq!(s.advance(), GameResult::CapReached);
    assert_eq!(s.score(), 9);
}

#[test]
fn population_history_grows_each_advance() {
    let mut s = GameSession::new(make_blinker(), 300);
    assert_eq!(s.population_history.len(), 1);
    s.advance();
    assert_eq!(s.population_history.len(), 2);
    s.advance();
    assert_eq!(s.population_history.len(), 2);
}

#[test]
fn start_transitions_to_running() {
    let grid = Grid::new(5, 5);
    let max_steps = 300;
    let session = GameSession::new(grid.clone(), max_steps);
    let phase = AppPhase::Running;
    assert!(matches!(phase, AppPhase::Running));
    let _ = session;
}

#[test]
fn advance_called_when_enough_time_has_elapsed() {
    let mut g = Grid::new(10, 10);
    g.set(4, 5, true);
    g.set(5, 5, true);
    g.set(6, 5, true);

    let mut session = GameSession::new(g, 300);
    let step_duration = Duration::from_millis(1);
    let mut last_tick = Instant::now() - step_duration;

    if last_tick.elapsed() >= step_duration {
        last_tick = Instant::now();
        let result = session.advance();
        assert_eq!(result, GameResult::StillRunning);
        assert_eq!(session.step_count, 1);
    }
    let _ = last_tick;
}

// Laws on concrete values and edge cases.

#[test]
fn new_session_records_the_initial_state() {
    let s = GameSession::new(make_blinker(), 300);
    assert_eq!(s.seen_hashes.len(), 1);
    assert_eq!(s.population_history, vec![3]);
    assert_eq!(s.score(), 4);
}

#[test]
fn extinct_pattern_is_detected_on_the_next_step() {
    // A lone cell dies: the empty grid is a new state, then it repeats.
    let mut g = Grid::new(10, 10);
    g.set(5, 5, true);
    let mut s = GameSession::new(g, 300);
    assert_eq!(s.advance(), GameResult::StillRunning);
    assert_eq!(s.population_history, vec![1, 0]);
    assert_eq!(s.advance(), GameResult::CycleDetected);
    assert_eq!(s.score(), 9);
    assert_eq!(s.step_count, 2);
}

#[test]
fn cap_of_one_ends_at_the_first_step() {
    let mut s = GameSession::new(make_block(), 1);
    assert_eq!(s.advance(), GameResult::CapReached);
    assert_eq!(s.step_count, 1);
    assert_eq!(s.population_history.len(), 1);
    assert_eq!(s.score(), 4);
}

#[test]
fn cap_of_zero_ends_at_the_first_step() {
    let mut s = GameSession::new(make_blinker(), 0);
    assert_eq!(s.advance(), GameResult::CapReached);
    assert_eq!(s.step_count, 1);
}

#[test]
fn glider_runs_to_the_cap_and_scores_each_state() {
    // On a 20 x 20 torus a glider takes 80 steps to come back.
    let mut g = Grid::new(20, 20);
    for &(x, y) in &[(1, 0), (2, 1), (0, 2), (1, 2), (2, 2)] {
        g.set(x, y, true);
    }
    let mut s = GameSession::new(g, 5);
    for _ in 0..4 {
        assert_eq!(s.advance(), GameResult::StillRunning);
    }
    assert_eq!(s.advance(), GameResult::CapReached);
    assert_eq!(s.step_count, 5);
    assert_eq!(s.population_history, vec![5, 5, 5, 5, 5]);
    assert_eq!(s.score(), 36);
}

#[test]
fn glider_cycle_on_a_torus() {
    let mut g = Grid::new(20, 20);
    for &(x, y) in &[(1, 0), (2, 1), (0, 2), (1, 2), (2, 2)] {
        g.set(x, y, true);
    }
    let mut s = GameSession::new(g, 1000);
    let mut last = GameResult::StillRunning;
    while last == GameResult::StillRunning {
        last = s.advance();
    }
    assert_eq!(last, GameResult::CycleDetected);
    assert_eq!(s.step_count, 80);
    assert_eq!(s.score(), 81 * 81);
}

#[test]
fn score_never_decreases_and_history_tracks_states() {
    let mut s = GameSession::new(make_blinker(), 300);
    let mut prev = s.score();
    for _ in 0..3 {
        let r = s.advance();
        let now = s.score();
        assert!(now >= prev);
        assert_eq!(r == GameResult::StillRunning, now > prev);
        assert_eq!(s.population_history.len(), s.seen_hashes.len());
        assert!(s.seen_hashes.len() <= s.step_count as usize + 1);
        prev = now;
    }
}

#[test]
fn recorded_hash_is_the_grid_hash() {
    // The recorded chunks match the derived `Hash` on 64-bit little-endian targets.
    let g = make_blinker();
    let mut h = DefaultHasher::new();
    g.hash(&mut h);
    let s = GameSession::new(g, 300);
    assert!(s.seen_hashes.contains(&h.finish()));
}

#[test]
fn run_of_three_hundred_unique_states_scores_90601() {
    // A glider on an 80 x 80 torus needs 320 steps to come back, so a cap
    // of 300 ends the run after 300 recorded states.
    let mut g = Grid::new(80, 80);
    for &(x, y) in &[(1, 0), (2, 1), (0, 2), (1, 2), (2, 2)] {
        g.set(x, y, true);
    }
    let mut s = GameSession::new(g, 300);
    let mut last = GameResult::StillRunning;
    while last == GameResult::StillRunning {
        last = s.advance();
    }
    assert_eq!(last, GameResult::CapReached);
    assert_eq!(s.step_count, 300);
    assert_eq!(s.seen_hashes.len(), 300);
    assert_eq!(s.score(), 90_601);
}

#[test]
fn score_over_a_run_counts_the_history() {
    let mut s = GameSession::new(make_blinker(), 300);
    let mut steps = 0;
    loop {
        let n = s.population_history.len() as u64;
        assert_eq!(s.score(), (n + 1) * (n + 1));
        assert_eq!(s.step_count, steps);
        let r = s.advance();
        steps += 1;
        if r != GameResult::StillRunning {
            break;
        }
    }
    assert_eq!(s.population_history.len(), steps as usize);
    assert_eq!(s.score(), ((steps + 1) * (steps + 1)) as u64);
}
