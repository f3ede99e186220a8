//! What the application does with the stored configuration and state when it
//! starts: fall back to defaults, restore the countdown, or start over.

use vstd::prelude::*;
use crate::config::{config_valid, Config, StageType};
use crate::engine::reset::{check_and_reset, must_reset, ResetVerdict};
use crate::engine::stage::stage_seconds;
use crate::engine::timer::{diff_fits, sat_sub, status_of};
use crate::state::{AppState, Status};

verus! {

/// The length of stage `index` of the configuration, in seconds.
pub fn stage_total_seconds(config: &Config, index: usize) -> (t: u64)
    requires
        index < config.stages@.len(),
    ensures
        t == stage_seconds(config.stages@[index as int]),
{
    (config.stages[index].minutes as u64) * 60
}

/// What was found where the configuration is stored.
pub enum StoredConfig {
    /// No file could be read (first start).
    Missing,
    /// The file is not a configuration.
    Malformed,
    /// A configuration was read.
    Parsed(Config),
}

/// The configuration to use after reading the stored one.
pub struct LoadedConfig {
    /// The configuration in force.
    pub config: Config,
    /// Whether a stored configuration was rejected in favour of the default
    /// (the user should be told).
    pub fell_back: bool,
    /// Whether the default must be written back to disk.
    pub write_default: bool,
}

/// Chooses the configuration to use: a stored valid configuration as it is;
/// the default otherwise, written back to disk, and flagged as a fallback when
/// a stored configuration was unreadable or invalid (not on a first start).
pub fn resolve_stored_config(stored: StoredConfig) -> (r: LoadedConfig)
    ensures
        match stored {
            StoredConfig::Parsed(c) => if config_valid(c) {
                r.config == c && !r.fell_back && !r.write_default
            } else {
                crate::config::is_default_config(r.config) && r.fell_back && r.write_default
            },
            StoredConfig::Malformed => crate::config::is_default_config(r.config) && r.fell_back
                && r.write_default,
            StoredConfig::Missing => crate::config::is_default_config(r.config) && !r.fell_back
                && r.write_default,
        },
{
    match stored {
        StoredConfig::Parsed(c) => {
            match c.validate() {
                Ok(()) => LoadedConfig { config: c, fell_back: false, write_default: false },
                Err(_) => LoadedConfig {
                    config: Config::default(),
                    fell_back: true,
                    write_default: true,
                },
            }
        },
        StoredConfig::Malformed => LoadedConfig {
            config: Config::default(),
            fell_back: true,
            write_default: true,
        },
        StoredConfig::Missing => LoadedConfig {
            config: Config::default(),
            fell_back: false,
            write_default: true,
        },
    }
}

/// The state and stage start to begin with, given the stored state (if any):
/// - nothing stored, an absence longer than the threshold (while not
///   paused), or a stored stage that is not in the current cycle (saved under
///   a longer one): the first stage, starting now;
/// - otherwise the stored state goes on: a paused state comes back running
///   (or resting, in a rest stage) with its frozen countdown, and the stage
///   start is set so that the stored seconds left count on from now.
pub open spec fn startup_result(config: Config, loaded: Option<AppState>, now: int) -> (
    AppState,
    int,
) {
    let fresh = AppState {
        current_stage_index: 0,
        status: Status::Running,
        last_active_timestamp: now as i64,
        remaining_seconds: stage_seconds(config.stages@[0]) as u64,
    };
    match loaded {
        None => (fresh, now),
        Some(s) => if must_reset(s, now, config.reset_threshold_minutes * 60)
            || s.current_stage_index >= config.stages@.len() {
            (fresh, now)
        } else {
            let stage = config.stages@[s.current_stage_index as int];
            let restored = if s.status == Status::Paused {
                AppState { status: status_of(stage), ..s }
            } else {
                s
            };
            (restored, now - sat_sub(stage_seconds(stage) as int, s.remaining_seconds as int))
        },
    }
}

/// Whether the clock arithmetic of the start-up decision stays within `i64`
/// (and the cycle is not empty).
pub open spec fn startup_ok(config: Config, loaded: Option<AppState>, now: int) -> bool {
    &&& config.stages@.len() > 0
    &&& match loaded {
        None => true,
        Some(s) => {
            &&& s.status != Status::Paused ==> diff_fits(now, s.last_active_timestamp as int)
            &&& !must_reset(s, now, config.reset_threshold_minutes * 60)
                && s.current_stage_index < config.stages@.len() ==> diff_fits(
                now,
                sat_sub(
                    stage_seconds(config.stages@[s.current_stage_index as int]) as int,
                    s.remaining_seconds as int,
                ),
            )
        },
    }
}

/// Decides the state to start with (see `startup_result`).
pub fn bootstrap_state(config: &Config, loaded: Option<AppState>, now: i64) -> (r: (AppState, i64))
    requires
        startup_ok(*config, loaded, now as int),
    ensures
        (r.0, r.1 as int) == startup_result(*config, loaded, now as int),
        r.0.current_stage_index < config.stages@.len(),
{
    let threshold_secs: u64 = (config.reset_threshold_minutes as u64) * 60;
    match loaded {
        None => {
            let total = stage_total_seconds(config, 0);
            (AppState::fresh_first_stage(total, now), now)
        },
        Some(s) => {
            match check_and_reset(&s, now, threshold_secs) {
                ResetVerdict::Yes => {
                    let total = stage_total_seconds(config, 0);
                    (AppState::fresh_first_stage(total, now), now)
                },
                ResetVerdict::No if s.current_stage_index >= config.stages.len() => {
                    let total = stage_total_seconds(config, 0);
                    (AppState::fresh_first_stage(total, now), now)
                },
                ResetVerdict::No => {
                    let mut s = s;
                    let total = stage_total_seconds(config, s.current_stage_index);
                    if s.status == Status::Paused {
                        s.status =
                            if config.stages[s.current_stage_index].stage_type == StageType::Work {
                                Status::Running
                            } else {
                                Status::Resting
                            };
                    }
                    let elapsed: u64 = if total > s.remaining_seconds {
                        total - s.remaining_seconds
                    } else {
                        0
                    };
                    let started = now - (elapsed as i64);
                    (s, started)
                },
            }
        },
    }
}

/// After a restart that keeps the stored state, the countdown picks up
/// exactly where it was saved: an engine built from the result has the stored
/// seconds left at `now` and counts down from there; a state saved while
/// paused comes back running in a work stage and resting in a rest stage.
pub proof fn lemma_restart_continues_countdown(
    config: Config,
    s: AppState,
    now: int,
    d: int,
)
    requires
        startup_ok(config, Some(s), now),
        i64::MIN <= now <= i64::MAX,
        !must_reset(s, now, config.reset_threshold_minutes * 60),
        s.current_stage_index < config.stages@.len(),
        s.remaining_seconds <= stage_seconds(config.stages@[s.current_stage_index as int]),
        0 <= d,
    ensures
        ({
            let r = startup_result(config, Some(s), now);
            let e = crate::engine::timer::EngineInner {
                config: config,
                state: r.0,
                cached_stages: config.stages,
                stage_started_at: r.1 as i64,
                prepare_rest_sent: false,
                last_persist_at: r.1 as i64,
            };
            &&& e.remaining_at(now) == s.remaining_seconds
            &&& e.remaining_at(now + d) == sat_sub(s.remaining_seconds as int, d)
            &&& r.0.current_stage_index == s.current_stage_index
            &&& s.status == Status::Paused ==> r.0.status == status_of(
                config.stages@[s.current_stage_index as int],
            )
        }),
{
}

/// Start-up starts over after a long absence: a stored running or resting
/// state last active more than the reset threshold before `now` gives way to
/// stage 0, running, active `now`, with the full length of stage 0 left and
/// counted from `now`; so does a missing state. A paused state whose stage
/// lies in the cycle keeps its stage and its seconds left, however long the
/// absence.
pub proof fn lemma_long_absence_starts_over(config: Config, s: AppState, now: int)
    requires
        config.stages@.len() > 0,
    ensures
        ({
            let fresh = (
                AppState {
                    current_stage_index: 0,
                    status: Status::Running,
                    last_active_timestamp: now as i64,
                    remaining_seconds: (config.stages@[0].minutes * 60) as u64,
                },
                now,
            );
            &&& s.status != Status::Paused && now - s.last_active_timestamp
                > config.reset_threshold_minutes * 60 ==> startup_result(config, Some(s), now)
                == fresh
            &&& startup_result(config, None, now) == fresh
            &&& s.status == Status::Paused && s.current_stage_index < config.stages@.len() ==> {
                &&& startup_result(config, Some(s), now).0.current_stage_index
                    == s.current_stage_index
                &&& startup_result(config, Some(s), now).0.remaining_seconds == s.remaining_seconds
                &&& startup_result(config, Some(s), now).0.status != Status::Paused
            }
        }),
{
}

} // verus!
