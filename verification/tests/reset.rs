use focuslock::engine::reset::{check_and_reset, ResetVerdict};
use focuslock::state::{AppState, Status};

fn state(status: Status, last_active: i64, remaining: u64) -> AppState {
    AppState {
        current_stage_index: 1,
        status,
        last_active_timestamp: last_active,
        remaining_seconds: remaining,
    }
}

#[test]
fn paused_never_resets_even_if_huge_delta() {
    let s = state(Status::Paused, 1000, 300);
    assert_eq!(check_and_reset(&s, 100000, 1800), ResetVerdict::No);
}

#[test]
fn running_resets_when_delta_exceeds_threshold() {
    let s = state(Status::Running, 1000, 300);
    assert_eq!(check_and_reset(&s, 2000, 1800), ResetVerdict::No);
    assert_eq!(check_and_reset(&s, 3000, 1800), ResetVerdict::Yes);
}

#[test]
fn resting_also_subject_to_reset() {
    let s = state(Status::Resting, 1000, 300);
    assert_eq!(check_and_reset(&s, 3000, 1800), ResetVerdict::Yes);
}

#[test]
fn time_going_backward_does_not_reset() {
    let s = state(Status::Running, 3000, 300);
    assert_eq!(check_and_reset(&s, 1000, 1800), ResetVerdict::No);
}

#[test]
fn exactly_at_threshold_does_not_reset() {
    let s = state(Status::Running, 1000, 300);
    assert_eq!(check_and_reset(&s, 2800, 1800), ResetVerdict::No);
    assert_eq!(check_and_reset(&s, 2801, 1800), ResetVerdict::Yes);
}

#[test]
fn zero_threshold_resets_on_any_forward_jump() {
    let s = state(Status::Running, 1000, 300);
    assert_eq!(check_and_reset(&s, 1000, 0), ResetVerdict::No);
    assert_eq!(check_and_reset(&s, 1001, 0), ResetVerdict::Yes);
}

#[test]
fn paused_state_never_computes_the_absence() {
    let s = state(Status::Paused, i64::MIN, 300);
    assert_eq!(check_and_reset(&s, i64::MAX, 1800), ResetVerdict::No);
}
