//! The persisted run state: where in the cycle the timer stands and how much
//! of the current stage is left.

use vstd::prelude::*;

verus! {

/// The run status.
#[derive(Debug, Clone, Copy, PartialEq, Eq, Structural)]
pub enum Status {
    /// A work stage is counting down.
    Running,
    /// The countdown is frozen.
    Paused,
    /// A rest stage is counting down (the overlay or popup is shown).
    Resting,
}

/// The persisted state.
#[derive(Debug, Clone, Copy, PartialEq, Eq, Structural)]
pub struct AppState {
    /// The index of the current stage in the cycle.
    pub current_stage_index: usize,
    /// The run status.
    pub status: Status,
    /// The Unix time (seconds) of the last update.
    pub last_active_timestamp: i64,
    /// The seconds left in the current stage.
    pub remaining_seconds: u64,
}

impl AppState {
    /// The path of the state file inside the data directory.
    pub fn state_path(data_dir: &str) -> (p: String)
        ensures
            p@ == data_dir@ + "/state.json"@,
    {
        let mut p = String::from_str(data_dir);
        p.append("/state.json");
        p
    }

    /// The state at the start of the first stage of the cycle.
    pub fn fresh_first_stage(stage_seconds: u64, now_timestamp: i64) -> (s: AppState)
        ensures
            s == (AppState {
                current_stage_index: 0,
                status: Status::Running,
                last_active_timestamp: now_timestamp,
                remaining_seconds: stage_seconds,
            }),
    {
        AppState {
            current_stage_index: 0,
            status: Status::Running,
            last_active_timestamp: now_timestamp,
            remaining_seconds: stage_seconds,
        }
    }
}

} // verus!
