use game_of_life::controller::{
    auto_grid_dims, cell_in_grid, AppAction, AppPhase, AppState, EndReason, Key, MAX_STEP_CAP,
    SPLASH_MS,
};
use game_of_life::sim::session::GameResult;

#[test]
fn q_maps_to_quit() {
    assert_eq!(AppAction::from_key(Key::KeyQ), Some(AppAction::Quit));
}

#[test]
fn f11_maps_to_fullscreen() {
    assert_eq!(AppAction::from_key(Key::F11), Some(AppAction::ToggleFullscreen));
}

#[test]
fn escape_maps_to_exit_fullscreen() {
    assert_eq!(AppAction::from_key(Key::Escape), Some(AppAction::ExitFullscreen));
}

#[test]
fn unbound_key_returns_none() {
    assert_eq!(AppAction::from_key(Key::Other), None);
}

#[test]
fn auto_grid_dims_never_exceeds_what_fits() {
    assert_eq!(auto_grid_dims(0, 0), (0, 0));
    assert_eq!(auto_grid_dims(5, 7), (5, 7));
    assert_eq!(auto_grid_dims(25, 33), (25, 33));
    assert_eq!(auto_grid_dims(41, 61), (40, 60));
    assert_eq!(auto_grid_dims(usize::MAX, 60), (40, 60));
}

#[test]
fn cell_in_grid_checks_both_bounds() {
    assert_eq!(cell_in_grid(0, 0, 5, 5), Some((0, 0)));
    assert_eq!(cell_in_grid(4, 4, 5, 5), Some((4, 4)));
    assert_eq!(cell_in_grid(5, 0, 5, 5), None);
    assert_eq!(cell_in_grid(0, 5, 5, 5), None);
}

#[test]
fn launch_state_is_the_splash_screen() {
    let s = AppState::new();
    assert!(matches!(s.phase, AppPhase::Splash));
    assert_eq!((s.grid.width, s.grid.height), (20, 20));
    assert_eq!(s.max_steps, 300);
    assert!(s.game_session.is_none());
}

#[test]
fn leaving_the_splash_keeps_the_default_grid() {
    let mut s = AppState::new();
    s.leave_splash();
    assert!(matches!(s.phase, AppPhase::Editing));
    assert_eq!((s.grid.width, s.grid.height), (20, 20));
    assert_eq!(s.grid.live_cell_count(), 0);
}

#[test]
fn fullscreen_keys_follow_the_window_state() {
    assert_eq!(AppAction::ToggleFullscreen.fullscreen_change(false), Some(true));
    assert_eq!(AppAction::ToggleFullscreen.fullscreen_change(true), Some(false));
    assert_eq!(AppAction::ExitFullscreen.fullscreen_change(true), Some(false));
    assert_eq!(AppAction::ExitFullscreen.fullscreen_change(false), None);
    assert_eq!(AppAction::Quit.fullscreen_change(true), None);
}

#[test]
fn splash_gives_way_after_its_time() {
    let mut s = AppState::new();
    assert_eq!(s.on_frame(SPLASH_MS - 1, 0, 300), None);
    assert!(matches!(s.phase, AppPhase::Splash));
    assert_eq!(s.on_frame(SPLASH_MS, 10_000, 300), None);
    assert!(matches!(s.phase, AppPhase::Editing));
    assert_eq!((s.grid.width, s.grid.height), (20, 20));
}

#[test]
fn a_step_is_taken_only_when_due() {
    let mut s = AppState::new();
    s.leave_splash();
    s.load_preset(1);
    s.start();
    assert_eq!(s.on_frame(0, 299, 300), None);
    assert_eq!(s.game_session.as_ref().unwrap().step_count, 0);
    assert_eq!(s.on_frame(0, 300, 300), Some(GameResult::StillRunning));
    assert_eq!(s.on_frame(0, 301, 300), Some(GameResult::CycleDetected));
    assert!(matches!(s.phase, AppPhase::Ended(_)));
    assert_eq!(s.end_reason(), Some(EndReason::CycleDetected));
    assert_eq!(s.on_frame(0, 1000, 300), None);
}

#[test]
fn extinction_is_the_reason_when_every_cell_died() {
    let mut s = AppState::new();
    s.leave_splash();
    s.pointer_on_cell(5, 5);
    s.start();
    assert_eq!(s.end_reason(), None);
    assert_eq!(s.on_tick(), Some(GameResult::StillRunning));
    assert_eq!(s.on_tick(), Some(GameResult::CycleDetected));
    assert_eq!(s.end_reason(), Some(EndReason::Extinction));
}

#[test]
fn cap_is_the_reason_when_the_cap_ends_the_run() {
    let mut s = AppState::new();
    s.leave_splash();
    s.load_preset(2);
    s.set_max_steps(1);
    s.start();
    assert_eq!(s.on_tick(), Some(GameResult::CapReached));
    assert_eq!(s.end_reason(), Some(EndReason::CapReached));
}

#[test]
fn drag_toggles_each_cell_once() {
    let mut s = AppState::new();
    s.leave_splash();
    s.pointer_on_cell(3, 4);
    assert!(s.grid.get(3, 4));
    s.pointer_on_cell(3, 4);
    assert!(s.grid.get(3, 4));
    s.pointer_on_cell(4, 4);
    assert!(s.grid.get(4, 4));
    s.pointer_released();
    assert_eq!(s.last_drag_cell, None);
    s.pointer_on_cell(4, 4);
    assert!(!s.grid.get(4, 4));
    assert_eq!(s.last_drag_cell, Some((4, 4)));
}

#[test]
fn presets_load_at_the_centre() {
    let mut s = AppState::new();
    s.resize(40, 40);
    let expected = [4, 3, 5, 48, 5];
    for i in 0..5 {
        s.load_preset(i);
        assert_eq!(s.grid.live_cell_count(), expected[i]);
    }
}

#[test]
fn a_run_goes_from_start_to_the_end_screen() {
    let mut s = AppState::new();
    s.leave_splash();
    s.resize(10, 10);
    s.load_preset(0);
    assert_eq!(s.on_tick(), None);
    s.start();
    assert!(matches!(s.phase, AppPhase::Running));
    assert_eq!(s.on_tick(), Some(GameResult::CycleDetected));
    match &s.phase {
        AppPhase::Ended(e) => {
            assert_eq!(e.reason, GameResult::CycleDetected);
            assert_eq!(e.score, 4);
            assert_eq!(e.step_count, 1);
            assert_eq!(e.population_history, vec![4]);
        }
        other => panic!("expected the end screen, got {:?}", other),
    }
    assert_eq!(s.on_tick(), None);
}

#[test]
fn blinker_run_ends_with_score_nine() {
    let mut s = AppState::new();
    s.leave_splash();
    s.load_preset(1);
    s.start();
    assert_eq!(s.on_tick(), Some(GameResult::StillRunning));
    assert!(matches!(s.phase, AppPhase::Running));
    assert_eq!(s.on_tick(), Some(GameResult::CycleDetected));
    match &s.phase {
        AppPhase::Ended(e) => assert_eq!(e.score, 9),
        other => panic!("expected the end screen, got {:?}", other),
    }
}

#[test]
fn step_cap_ends_the_run() {
    let mut s = AppState::new();
    s.leave_splash();
    s.load_preset(2);
    s.set_max_steps(3);
    s.start();
    assert_eq!(s.on_tick(), Some(GameResult::StillRunning));
    assert_eq!(s.on_tick(), Some(GameResult::StillRunning));
    assert_eq!(s.on_tick(), Some(GameResult::CapReached));
    match &s.phase {
        AppPhase::Ended(e) => {
            assert_eq!(e.reason, GameResult::CapReached);
            assert_eq!(e.step_count, 3);
            assert_eq!(e.score, 16);
        }
        other => panic!("expected the end screen, got {:?}", other),
    }
    assert!(MAX_STEP_CAP >= 3);
}

#[test]
fn restart_returns_to_a_blank_grid() {
    let mut s = AppState::new();
    s.leave_splash();
    s.resize(12, 12);
    s.load_preset(3);
    s.start();
    s.on_tick();
    s.restart();
    assert!(matches!(s.phase, AppPhase::Editing));
    assert!(s.game_session.is_none());
    assert_eq!((s.grid.width, s.grid.height), (12, 12));
    assert_eq!(s.grid.live_cell_count(), 0);
}
