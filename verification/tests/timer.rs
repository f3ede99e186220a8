use focuslock::config::{Config, RestReminderMode, Stage, StageType};
use focuslock::engine::timer::{EngineEvent, EngineInner, SoundCue};
use focuslock::state::{AppState, Status};

fn cfg() -> Config {
    Config {
        stages: vec![
            Stage {
                stage_type: StageType::Work,
                minutes: 1,
            },
            Stage {
                stage_type: StageType::Rest,
                minutes: 1,
            },
        ],
        reset_threshold_minutes: 30,
        notify_before_work_end_minutes: 1,
        ..Config::default()
    }
}

fn status_of(e: &EngineInner) -> (Status, usize, u64) {
    (e.state.status, e.state.current_stage_index, e.state.remaining_seconds)
}

#[test]
fn recompute_remaining_uses_timestamp() {
    let config = cfg();
    let state = AppState::fresh_first_stage(60, 1000);
    let mut inner = EngineInner {
        config: config.clone(),
        state: state.clone(),
        cached_stages: config.stages.clone(),
        stage_started_at: 1000,
        prepare_rest_sent: false,
        last_persist_at: 1000,
    };
    inner.recompute_remaining(1030);
    assert_eq!(inner.state.remaining_seconds, 30);
    inner.recompute_remaining(1060);
    assert_eq!(inner.state.remaining_seconds, 0);
    inner.recompute_remaining(1090);
    assert_eq!(inner.state.remaining_seconds, 0);
}

#[test]
fn pause_freezes_remaining_resume_continues() {
    let config = cfg();
    let state = AppState::fresh_first_stage(60, 1000);
    let mut h = EngineInner::new(config, state, 1000);
    assert!(h.pause(1020).accepted);
    let (st, _, rem) = status_of(&h);
    assert_eq!(st, Status::Paused);
    assert_eq!(rem, 40);
    assert!(h.resume(2000).accepted);
    let (st, _, rem) = status_of(&h);
    assert_eq!(st, Status::Running);
    assert_eq!(rem, 40);
}

#[test]
fn skip_rest_goes_to_next_work() {
    let mut config = cfg();
    config.stages = vec![
        Stage {
            stage_type: StageType::Work,
            minutes: 1,
        },
        Stage {
            stage_type: StageType::Rest,
            minutes: 1,
        },
        Stage {
            stage_type: StageType::Rest,
            minutes: 1,
        },
        Stage {
            stage_type: StageType::Work,
            minutes: 1,
        },
    ];
    let mut state = AppState::fresh_first_stage(60, 1000);
    state.current_stage_index = 1;
    state.status = Status::Resting;
    state.remaining_seconds = 60;
    let mut h = EngineInner::new(config, state, 1000);
    assert!(h.skip_rest(1000).accepted);
    let (st, idx, _) = status_of(&h);
    assert_eq!(st, Status::Running);
    assert_eq!(idx, 3);
}

#[test]
fn reset_to_first_reload_config() {
    let config = cfg();
    let mut state = AppState::fresh_first_stage(60, 1000);
    state.current_stage_index = 1;
    let mut h = EngineInner::new(config, state, 1000);
    let mut new_cfg = cfg();
    new_cfg.stages[0].minutes = 2;
    h.reset_to_first(new_cfg, 5000);
    let (st, idx, rem) = status_of(&h);
    assert_eq!(st, Status::Running);
    assert_eq!(idx, 0);
    assert_eq!(rem, 120);
}

#[test]
fn pause_is_idempotent_and_resume_needs_pause() {
    let mut h = EngineInner::new(cfg(), AppState::fresh_first_stage(60, 1000), 1000);
    let r = h.resume(1010);
    assert!(!r.accepted);
    assert!(r.events.is_empty());
    let r = h.pause(1010);
    assert!(r.accepted && r.persist);
    assert_eq!(r.events, vec![EngineEvent::StatusChanged { status: Status::Paused, remaining: 50 }]);
    let r = h.pause(1500);
    assert!(!r.accepted);
    assert!(!r.persist);
    assert_eq!(status_of(&h), (Status::Paused, 0, 50));
}

#[test]
fn skip_refused_outside_rest() {
    let mut h = EngineInner::new(cfg(), AppState::fresh_first_stage(60, 1000), 1000);
    let r = h.skip_rest(1005);
    assert!(!r.accepted);
    assert_eq!(status_of(&h), (Status::Running, 0, 60));
}

#[test]
fn skip_rest_events() {
    let mut state = AppState::fresh_first_stage(60, 1000);
    state.current_stage_index = 1;
    state.status = Status::Resting;
    let mut h = EngineInner::new(cfg(), state, 1000);
    let r = h.skip_rest(1010);
    assert_eq!(
        r.events,
        vec![
            EngineEvent::RestSkipped,
            EngineEvent::WorkStarted { remaining: 60 },
            EngineEvent::StatusChanged { status: Status::Running, remaining: 60 },
        ]
    );
    assert_eq!(h.stage_started_at, 1010);
}

#[test]
fn tick_counts_down_and_moves_one_stage() {
    let mut h = EngineInner::new(cfg(), AppState::fresh_first_stage(60, 1000), 1000);
    // Inside the notice window (1 minute): the notice goes out once.
    let r = h.tick(1001);
    assert_eq!(r.events, vec![EngineEvent::PrepareRest { remaining: 59 }]);
    assert!(!r.persist);
    let r = h.tick(1002);
    assert!(r.events.is_empty());
    assert_eq!(h.state.remaining_seconds, 58);
    // The work stage runs out: the rest starts.
    let r = h.tick(1060);
    assert_eq!(
        r.events,
        vec![
            EngineEvent::PlaySound { cue: SoundCue::WorkEnd },
            EngineEvent::RestStarted { remaining: 60, mode: RestReminderMode::Fullscreen },
            EngineEvent::StatusChanged { status: Status::Resting, remaining: 60 },
        ]
    );
    assert!(r.persist);
    assert_eq!(status_of(&h), (Status::Resting, 1, 60));
    // The rest runs out: back to work, one stage on (wrapping).
    let r = h.tick(1120);
    assert_eq!(
        r.events,
        vec![
            EngineEvent::PlaySound { cue: SoundCue::RestEnd },
            EngineEvent::RestEnded,
            EngineEvent::WorkStarted { remaining: 60 },
            EngineEvent::StatusChanged { status: Status::Running, remaining: 60 },
        ]
    );
    assert_eq!(status_of(&h), (Status::Running, 0, 60));
    assert_eq!(h.last_persist_at, 1120);
}

#[test]
fn tick_saves_every_minute() {
    let mut c = cfg();
    c.stages[0].minutes = 10;
    let mut h = EngineInner::new(c, AppState::fresh_first_stage(600, 1000), 1000);
    assert!(!h.tick(1030).persist);
    assert!(h.tick(1060).persist);
    assert_eq!(h.last_persist_at, 1060);
    assert!(!h.tick(1061).persist);
    assert_eq!(h.state.last_active_timestamp, 1061);
}

#[test]
fn tick_restarts_after_absence() {
    let mut state = AppState::fresh_first_stage(60, 1000);
    state.current_stage_index = 1;
    state.status = Status::Resting;
    let mut h = EngineInner::new(cfg(), state, 1000);
    let r = h.tick(1000 + 30 * 60 + 1);
    assert_eq!(
        r.events,
        vec![EngineEvent::ResetDueToInactivity, EngineEvent::WorkStarted { remaining: 60 }]
    );
    assert!(r.persist);
    assert_eq!(status_of(&h), (Status::Running, 0, 60));
}

#[test]
fn paused_tick_neither_counts_nor_resets() {
    let mut h = EngineInner::new(cfg(), AppState::fresh_first_stage(60, 1000), 1000);
    h.pause(1010);
    let r = h.tick(1_000_000);
    assert!(r.events.is_empty());
    assert!(!r.persist);
    assert_eq!(status_of(&h), (Status::Paused, 0, 50));
    assert_eq!(h.state.last_active_timestamp, 1_000_000);
    // Resuming much later continues from 50.
    h.resume(2_000_000);
    h.tick(2_000_010);
    assert_eq!(status_of(&h), (Status::Running, 0, 40));
}

#[test]
fn resume_in_rest_stage_returns_to_resting() {
    let mut state = AppState::fresh_first_stage(60, 1000);
    state.current_stage_index = 1;
    state.status = Status::Resting;
    let mut h = EngineInner::new(cfg(), state, 1000);
    h.pause(1015);
    let r = h.resume(1100);
    assert_eq!(r.events, vec![EngineEvent::StatusChanged { status: Status::Resting, remaining: 45 }]);
    assert_eq!(h.stage_started_at, 1085);
}

#[test]
fn toggle_pause_alternates() {
    let mut h = EngineInner::new(cfg(), AppState::fresh_first_stage(60, 1000), 1000);
    h.toggle_pause(1010);
    assert_eq!(h.state.status, Status::Paused);
    h.toggle_pause(1020);
    assert_eq!(h.state.status, Status::Running);
    assert_eq!(h.state.remaining_seconds, 50);
}

#[test]
fn update_config_keeps_countdown() {
    let mut h = EngineInner::new(cfg(), AppState::fresh_first_stage(60, 1000), 1000);
    let mut c = cfg();
    c.stages[0].minutes = 5;
    h.update_config(c);
    assert_eq!(status_of(&h), (Status::Running, 0, 60));
    assert_eq!(h.config.stages[0].minutes, 5);
    assert_eq!(h.cached_stages[0].minutes, 1);
    assert_eq!(h.current_stage_type(), StageType::Work);
    h.tick(1010);
    assert_eq!(h.state.remaining_seconds, 50);
}

#[test]
fn saved_config_applies_only_after_reset() {
    let mut c = cfg();
    c.stages[0].minutes = 45;
    let mut h = EngineInner::new(c, AppState::fresh_first_stage(2700, 1000), 1000);
    // A shorter cycle, with the kinds swapped, is saved mid-stage.
    let saved = Config {
        stages: vec![Stage { stage_type: StageType::Rest, minutes: 25 }],
        ..cfg()
    };
    h.update_config(saved.clone());
    h.tick(1600);
    assert_eq!(status_of(&h), (Status::Running, 0, 2100));
    h.pause(1600);
    h.resume(1700);
    assert_eq!(status_of(&h), (Status::Running, 0, 2100));
    // The restart puts the saved cycle in force.
    h.reset_to_first(saved, 2000);
    assert_eq!(status_of(&h), (Status::Resting, 0, 1500));
    assert_eq!(h.cached_stages.len(), 1);
}

#[test]
fn enter_stage_sets_status_by_kind() {
    let mut h = EngineInner::new(cfg(), AppState::fresh_first_stage(60, 1000), 1000);
    h.prepare_rest_sent = true;
    h.enter_stage(1, 4242);
    assert_eq!(status_of(&h), (Status::Resting, 1, 60));
    assert_eq!(h.stage_started_at, 4242);
    assert_eq!(h.state.last_active_timestamp, 4242);
    assert!(!h.prepare_rest_sent);
}

#[test]
fn paused_engine_outside_cycle_is_left_alone() {
    let config = cfg();
    let mut state = AppState::fresh_first_stage(60, 1000);
    state.status = Status::Paused;
    state.current_stage_index = 9;
    state.remaining_seconds = 30;
    let mut e = EngineInner {
        config: config.clone(),
        state,
        cached_stages: config.stages.clone(),
        stage_started_at: i64::MIN,
        prepare_rest_sent: false,
        last_persist_at: 1000,
    };
    assert!(!e.pause(i64::MAX).accepted);
    assert!(!e.skip_rest(5000).accepted);
    let r = e.tick(i64::MAX);
    assert!(r.events.is_empty());
    assert!(!r.persist);
    assert_eq!(status_of(&e), (Status::Paused, 9, 30));
    assert_eq!(e.state.last_active_timestamp, i64::MAX);
}

#[test]
fn work_into_work_plays_no_cue_and_cue_names() {
    let mut c = cfg();
    c.stages.insert(1, Stage { stage_type: StageType::Work, minutes: 1 });
    let mut h = EngineInner::new(c, AppState::fresh_first_stage(60, 1000), 1000);
    let r = h.tick(1060);
    assert_eq!(
        r.events,
        vec![
            EngineEvent::WorkStarted { remaining: 60 },
            EngineEvent::StatusChanged { status: Status::Running, remaining: 60 },
        ]
    );
    assert_eq!(SoundCue::WorkEnd.sound_type(), "work_end:builtin");
    assert_eq!(SoundCue::RestEnd.sound_type(), "rest_end:builtin");
}
