use focuslock::state::{AppState, Status};

#[test]
fn fresh_first_stage_is_running_at_index_zero() {
    let s = AppState::fresh_first_stage(2700, 1698240000);
    assert_eq!(s.current_stage_index, 0);
    assert_eq!(s.status, Status::Running);
    assert_eq!(s.remaining_seconds, 2700);
    assert_eq!(s.last_active_timestamp, 1698240000);
}

#[test]
fn state_path_joins_data_dir() {
    assert_eq!(AppState::state_path("C:/Users/u/AppData/Roaming/FocusLock"), "C:/Users/u/AppData/Roaming/FocusLock/state.json");
}
