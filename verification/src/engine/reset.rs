//! The rule that restarts the cycle after a long absence.

use vstd::prelude::*;
use crate::state::{AppState, Status};

verus! {

/// Whether the cycle must restart.
#[derive(Debug, Clone, Copy, PartialEq, Eq, Structural)]
pub enum ResetVerdict {
    /// Keep going.
    No,
    /// Restart from the first stage (the clock jumped past the threshold).
    Yes,
}

/// Whether a state seen at `now` calls for a restart: never while paused,
/// never when the clock went backwards, and otherwise exactly when more than
/// `threshold_secs` seconds passed since the last update.
pub open spec fn must_reset(state: AppState, now: int, threshold_secs: int) -> bool {
    state.status != Status::Paused && now - state.last_active_timestamp > 0
        && now - state.last_active_timestamp > threshold_secs
}

/// Decides whether the cycle must restart.
pub fn check_and_reset(state: &AppState, now: i64, threshold_secs: u64) -> (v: ResetVerdict)
    requires
        state.status != Status::Paused ==> i64::MIN <= now - state.last_active_timestamp
            <= i64::MAX,
    ensures
        v == (if must_reset(*state, now as int, threshold_secs as int) {
            ResetVerdict::Yes
        } else {
            ResetVerdict::No
        }),
        state.status == Status::Paused ==> v == ResetVerdict::No,
        now <= state.last_active_timestamp ==> v == ResetVerdict::No,
{
    if state.status == Status::Paused {
        return ResetVerdict::No;
    }
    let delta = now - state.last_active_timestamp;
    if delta <= 0 {
        return ResetVerdict::No;
    }
    if (delta as u64) > threshold_secs {
        ResetVerdict::Yes
    } else {
        ResetVerdict::No
    }
}

} // verus!
