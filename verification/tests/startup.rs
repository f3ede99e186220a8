use focuslock::config::{Config, Stage, StageType};
use focuslock::startup::{bootstrap_state, stage_total_seconds};
use focuslock::state::{AppState, Status};

fn cfg() -> Config {
    Config {
        stages: vec![
            Stage { stage_type: StageType::Work, minutes: 45 },
            Stage { stage_type: StageType::Rest, minutes: 15 },
        ],
        ..Config::default()
    }
}

#[test]
fn first_start_begins_stage_zero() {
    let (s, started) = bootstrap_state(&cfg(), None, 5000);
    assert_eq!(s, AppState::fresh_first_stage(2700, 5000));
    assert_eq!(started, 5000);
    assert_eq!(stage_total_seconds(&cfg(), 1), 900);
}

#[test]
fn long_absence_restarts() {
    let stored = AppState {
        current_stage_index: 1,
        status: Status::Resting,
        last_active_timestamp: 1000,
        remaining_seconds: 100,
    };
    let (s, started) = bootstrap_state(&cfg(), Some(stored), 1000 + 1801);
    assert_eq!(s, AppState::fresh_first_stage(2700, 2801));
    assert_eq!(started, 2801);
}

#[test]
fn paused_state_comes_back_running() {
    let stored = AppState {
        current_stage_index: 0,
        status: Status::Paused,
        last_active_timestamp: 1000,
        remaining_seconds: 700,
    };
    // Even a long pause does not restart the cycle.
    let (s, started) = bootstrap_state(&cfg(), Some(stored), 1_000_000);
    assert_eq!(s.status, Status::Running);
    assert_eq!(s.remaining_seconds, 700);
    assert_eq!(started, 1_000_000 - (2700 - 700));
}

#[test]
fn paused_in_rest_comes_back_resting() {
    let stored = AppState {
        current_stage_index: 1,
        status: Status::Paused,
        last_active_timestamp: 1000,
        remaining_seconds: 300,
    };
    let (s, started) = bootstrap_state(&cfg(), Some(stored), 1200);
    assert_eq!(s.status, Status::Resting);
    assert_eq!(started, 1200 - 600);
}

#[test]
fn recent_state_is_restored() {
    let stored = AppState {
        current_stage_index: 0,
        status: Status::Running,
        last_active_timestamp: 1000,
        remaining_seconds: 3000,
    };
    // More left than the stage holds: the stage is taken to start now.
    let (s, started) = bootstrap_state(&cfg(), Some(stored), 1100);
    assert_eq!(s, stored);
    assert_eq!(started, 1100);
}

#[test]
fn stored_stage_outside_cycle_starts_over() {
    let stored = AppState {
        current_stage_index: 5,
        status: Status::Paused,
        last_active_timestamp: 1000,
        remaining_seconds: 10,
    };
    let (s, started) = bootstrap_state(&cfg(), Some(stored), 1100);
    assert_eq!(s, AppState::fresh_first_stage(2700, 1100));
    assert_eq!(started, 1100);
}
