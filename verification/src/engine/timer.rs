//! The timer state machine.
//!
//! The countdown is derived from timestamps, never from counting ticks: the
//! seconds left in a stage are its length minus the seconds since it started.
//! Every operation takes the current Unix time as an argument and answers
//! with a `Reaction`: whether it was accepted, whether the state must be
//! written to disk, and the events to hand on to the user interface.

use vstd::prelude::*;
use crate::config::{Config, RestReminderMode, Stage, StageType};
use crate::engine::stage::{next_index, skip_reach, skip_target, stage_seconds, StageCursor};
use crate::state::{AppState, Status};

verus! {

/// The sound cues of the cycle, played with the built-in sound.
#[derive(Debug, Clone, Copy, PartialEq, Eq, Structural)]
pub enum SoundCue {
    /// A work stage ran out and a rest starts.
    WorkEnd,
    /// A rest stage ran out.
    RestEnd,
}

impl SoundCue {
    /// The name of the cue for the player: the moment, a colon, and the
    /// sound (always the built-in one).
    pub fn sound_type(&self) -> (r: &'static str)
        ensures
            r@ == (match *self {
                SoundCue::WorkEnd => "work_end:builtin"@,
                SoundCue::RestEnd => "rest_end:builtin"@,
            }),
    {
        match *self {
            SoundCue::WorkEnd => "work_end:builtin",
            SoundCue::RestEnd => "rest_end:builtin",
        }
    }
}

/// What the engine tells the user interface.
#[derive(Debug, Clone, Copy, PartialEq, Eq, Structural)]
pub enum EngineEvent {
    /// A sound cue is due.
    PlaySound { cue: SoundCue },
    /// A work stage started (seconds left).
    WorkStarted { remaining: u64 },
    /// A work stage is about to end (seconds left).
    PrepareRest { remaining: u64 },
    /// A rest stage started (seconds left, how it is announced).
    RestStarted { remaining: u64, mode: RestReminderMode },
    /// A rest stage ran out.
    RestEnded,
    /// A rest was skipped and the next work stage started.
    RestSkipped,
    /// The status or the countdown changed.
    StatusChanged { status: Status, remaining: u64 },
    /// The cycle restarted after a long absence.
    ResetDueToInactivity,
}

/// The answer of the engine to one operation.
pub struct Reaction {
    /// Whether the operation applied (a refused one changes nothing).
    pub accepted: bool,
    /// Whether the state must be written to disk now.
    pub persist: bool,
    /// The events to hand on, in order.
    pub events: Vec<EngineEvent>,
}

/// The engine state.
pub struct EngineInner {
    /// The configuration last saved. Its stage list takes effect only when
    /// the cycle is restarted with it (`reset_to_first`).
    pub config: Config,
    /// The cycle in effect.
    pub cached_stages: Vec<Stage>,
    /// The run state.
    pub state: AppState,
    /// The Unix time at which the current stage (virtually) started.
    pub stage_started_at: i64,
    /// Whether the "rest is coming" notice was sent in this stage.
    pub prepare_rest_sent: bool,
    /// The Unix time of the last periodic save.
    pub last_persist_at: i64,
}

/// `a - b`, or 0 when `b` exceeds `a`.
pub open spec fn sat_sub(a: int, b: int) -> int {
    if a > b {
        a - b
    } else {
        0
    }
}

/// The seconds from `start` to `now`, or 0 when the clock went backwards.
pub open spec fn seconds_since(start: int, now: int) -> int {
    if now - start > 0 {
        now - start
    } else {
        0
    }
}

/// The status of a stage that has just been entered.
pub open spec fn status_of(s: Stage) -> Status {
    if s.stage_type == StageType::Work {
        Status::Running
    } else {
        Status::Resting
    }
}

/// The inactivity threshold in seconds.
pub open spec fn threshold_seconds(c: Config) -> int {
    c.reset_threshold_minutes * 60
}

/// How long before the end of a work stage the notice is sent, in seconds.
pub open spec fn notice_seconds(c: Config) -> int {
    c.notify_before_work_end_minutes * 60
}

/// Whether `a - b` fits in an `i64`.
pub open spec fn diff_fits(a: int, b: int) -> bool {
    i64::MIN <= a - b <= i64::MAX
}

impl EngineInner {
    /// The stage index is inside a non-empty cycle.
    pub open spec fn wf(self) -> bool {
        &&& self.cached_stages@.len() > 0
        &&& self.state.current_stage_index < self.cached_stages@.len()
    }

    /// The current stage.
    pub open spec fn stage(self) -> Stage {
        self.cached_stages@[self.state.current_stage_index as int]
    }

    /// The length of the current stage in seconds.
    pub open spec fn total(self) -> int {
        stage_seconds(self.stage()) as int
    }

    /// Bringing the countdown up to `now` (as a pause does) computes
    /// `now - stage_started_at` in an `i64`; a paused countdown computes nothing.
    pub open spec fn countdown_time_fits(self, now: int) -> bool {
        self.state.status != Status::Paused ==> diff_fits(now, self.stage_started_at as int)
    }

    /// A resume at `now` moves the stage start back by the elapsed part of
    /// the stage, in an `i64`.
    pub open spec fn resume_time_fits(self, now: int) -> bool {
        self.state.status == Status::Paused ==> diff_fits(
            now,
            sat_sub(self.total(), self.state.remaining_seconds as int),
        )
    }

    /// A tick at `now` computes its clock differences in an `i64`: none while
    /// paused, the time since the last activity otherwise, and, unless the
    /// cycle restarts, the time since the stage start and since the last save.
    pub open spec fn tick_time_fits(self, now: int) -> bool {
        self.state.status != Status::Paused ==> {
            &&& diff_fits(now, self.state.last_active_timestamp as int)
            &&& seconds_since(self.state.last_active_timestamp as int, now) <= threshold_seconds(
                self.config,
            ) ==> {
                &&& diff_fits(now, self.stage_started_at as int)
                &&& diff_fits(now, self.last_persist_at as int)
            }
        }
    }

    /// The seconds left at `now`, counted from the stage start.
    pub open spec fn remaining_at(self, now: int) -> int {
        sat_sub(self.total(), seconds_since(self.stage_started_at as int, now))
    }

    /// The engine with the countdown brought up to `now` (unchanged while paused).
    pub open spec fn recomputed(self, now: int) -> EngineInner {
        if self.state.status == Status::Paused {
            self
        } else {
            EngineInner {
                state: AppState { remaining_seconds: self.remaining_at(now) as u64, ..self.state },
                ..self
            }
        }
    }

    /// The engine at the start of stage `index`, entered at `now`.
    pub open spec fn entered(self, index: int, now: int) -> EngineInner {
        let s = self.cached_stages@[index];
        EngineInner {
            state: AppState {
                current_stage_index: index as usize,
                status: status_of(s),
                last_active_timestamp: now as i64,
                remaining_seconds: stage_seconds(s) as u64,
            },
            stage_started_at: now as i64,
            prepare_rest_sent: false,
            ..self
        }
    }

    /// The engine with its last activity set to `now`.
    pub open spec fn touched(self, now: int) -> EngineInner {
        EngineInner {
            state: AppState { last_active_timestamp: now as i64, ..self.state },
            ..self
        }
    }

    /// The engine after a pause at `now` (a paused engine stays as it is).
    pub open spec fn after_pause(self, now: int) -> EngineInner {
        if self.state.status == Status::Paused {
            self
        } else {
            let r = self.recomputed(now);
            EngineInner {
                state: AppState {
                    status: Status::Paused,
                    last_active_timestamp: now as i64,
                    ..r.state
                },
                ..r
            }
        }
    }

    /// The engine after a resume at `now`: the stage start moves so that the
    /// frozen countdown goes on from where it stopped (an engine that is not
    /// paused stays as it is).
    pub open spec fn after_resume(self, now: int) -> EngineInner {
        if self.state.status != Status::Paused {
            self
        } else {
            let elapsed = sat_sub(self.total(), self.state.remaining_seconds as int);
            EngineInner {
                state: AppState {
                    status: status_of(self.stage()),
                    last_active_timestamp: now as i64,
                    ..self.state
                },
                stage_started_at: (now - elapsed) as i64,
                prepare_rest_sent: false,
                ..self
            }
        }
    }

    /// The engine after skipping a rest at `now`: the next work stage starts
    /// (an engine that is not resting stays as it is).
    pub open spec fn after_skip(self, now: int) -> EngineInner {
        if self.state.status != Status::Resting {
            self
        } else {
            self.entered(skip_target(self.cached_stages@, self.state.current_stage_index as int).0, now)
        }
    }

    /// The event announcing the stage just entered.
    pub open spec fn announce(self) -> EngineEvent {
        if self.stage().stage_type == StageType::Work {
            EngineEvent::WorkStarted { remaining: self.state.remaining_seconds }
        } else {
            EngineEvent::RestStarted {
                remaining: self.state.remaining_seconds,
                mode: self.config.rest_reminder_mode,
            }
        }
    }

    /// One second of the timer at `now`: the next engine, the events, and
    /// whether the state must be saved.
    ///
    /// - Paused: only the last activity moves; nothing is sent or saved.
    /// - More than the threshold since the last activity: the cycle restarts
    ///   at stage 0.
    /// - Otherwise the countdown is brought up to `now`; a running stage within
    ///   the notice window sends the notice once; a stage that ran out moves on
    ///   exactly one stage, with a sound cue when a rest ends and when work
    ///   gives way to a rest; the state is saved on a stage change and at
    ///   least every 60 seconds.
    pub open spec fn tick_result(self, now: int) -> (EngineInner, Seq<EngineEvent>, bool) {
        if self.state.status == Status::Paused {
            (self.touched(now), seq![], false)
        } else if seconds_since(self.state.last_active_timestamp as int, now) > threshold_seconds(
            self.config,
        ) {
            let e = self.entered(0, now);
            (
                e,
                seq![
                    EngineEvent::ResetDueToInactivity,
                    EngineEvent::WorkStarted { remaining: e.state.remaining_seconds },
                ],
                true,
            )
        } else {
            let e1 = self.recomputed(now);
            let rem = e1.state.remaining_seconds;
            let warn = e1.state.status == Status::Running && !e1.prepare_rest_sent && rem
                <= notice_seconds(self.config) && rem > 0;
            let e2 = if warn {
                EngineInner { prepare_rest_sent: true, ..e1 }
            } else {
                e1
            };
            let ev1: Seq<EngineEvent> = if warn {
                seq![EngineEvent::PrepareRest { remaining: rem }]
            } else {
                seq![]
            };
            let ended = rem == 0;
            let e3 = if ended {
                e2.entered(
                    next_index(
                        self.state.current_stage_index as int,
                        self.cached_stages@.len() as int,
                    ),
                    now,
                )
            } else {
                e2.touched(now)
            };
            let ev2: Seq<EngineEvent> = if ended {
                (if self.state.status == Status::Resting {
                    seq![EngineEvent::PlaySound { cue: SoundCue::RestEnd }, EngineEvent::RestEnded]
                } else {
                    seq![]
                }) + (if self.state.status == Status::Running && e3.stage().stage_type
                    != StageType::Work {
                    seq![EngineEvent::PlaySound { cue: SoundCue::WorkEnd }]
                } else {
                    seq![]
                }) + seq![
                    e3.announce(),
                    EngineEvent::StatusChanged {
                        status: e3.state.status,
                        remaining: e3.state.remaining_seconds,
                    },
                ]
            } else {
                seq![]
            };
            let due = now - self.last_persist_at >= 60;
            let e4 = if due {
                EngineInner { last_persist_at: now as i64, ..e3 }
            } else {
                e3
            };
            (e4, ev1 + ev2, ended || due)
        }
    }
}

/// A copy of a stage list.
fn copy_stages(stages: &Vec<Stage>) -> (r: Vec<Stage>)
    ensures
        r@ == stages@,
{
    let mut r: Vec<Stage> = Vec::new();
    let mut i: usize = 0;
    while i < stages.len()
        invariant
            i <= stages@.len(),
            r@ == stages@.subrange(0, i as int),
        decreases stages@.len() - i,
    {
        r.push(stages[i]);
        i = i + 1;
    }
    r
}

impl EngineInner {
    /// An engine running the cycle of `config` from `state`, whose current
    /// stage started at `started_at`.
    pub fn new(config: Config, state: AppState, started_at: i64) -> (e: EngineInner)
        ensures
            e.config == config,
            e.cached_stages@ == config.stages@,
            e.state == state,
            e.stage_started_at == started_at,
            !e.prepare_rest_sent,
            e.last_persist_at == started_at,
    {
        let cached_stages = copy_stages(&config.stages);
        EngineInner {
            config,
            state,
            cached_stages,
            stage_started_at: started_at,
            prepare_rest_sent: false,
            last_persist_at: started_at,
        }
    }

    /// The kind of the current stage.
    pub fn current_stage_type(&self) -> (t: StageType)
        requires
            self.wf(),
        ensures
            t == self.stage().stage_type,
    {
        self.cached_stages[self.state.current_stage_index].stage_type
    }

    /// The length of the current stage in seconds.
    fn current_total(&self) -> (t: u64)
        requires
            self.wf(),
        ensures
            t == self.total(),
            t <= u32::MAX * 60,
    {
        let cursor = StageCursor::new(self.cached_stages.as_slice(), self.state.current_stage_index);
        cursor.current_total_seconds()
    }

    /// Brings the countdown up to `now`: the stage length minus the seconds
    /// since the stage started, never below zero. A paused countdown stays frozen.
    pub fn recompute_remaining(&mut self, now: i64)
        requires
            old(self).state.status != Status::Paused ==> old(self).wf(),
            old(self).countdown_time_fits(now as int),
        ensures
            *final(self) == old(self).recomputed(now as int),
    {
        if self.state.status == Status::Paused {
            return;
        }
        let total = self.current_total();
        let d = now - self.stage_started_at;
        let elapsed: u64 = if d > 0 {
            d as u64
        } else {
            0
        };
        self.state.remaining_seconds = if total > elapsed {
            total - elapsed
        } else {
            0
        };
    }

    /// Starts stage `index` at `now`: full countdown, the status that fits the
    /// stage kind, and the notice not yet sent.
    pub fn enter_stage(&mut self, index: usize, now: i64)
        requires
            index < old(self).cached_stages@.len(),
        ensures
            *final(self) == old(self).entered(index as int, now as int),
            final(self).wf(),
    {
        self.state.current_stage_index = index;
        self.stage_started_at = now;
        let total = StageCursor::new(self.cached_stages.as_slice(), index).current_total_seconds();
        self.state.remaining_seconds = total;
        self.state.status = if self.cached_stages[index].stage_type == StageType::Work {
            Status::Running
        } else {
            Status::Resting
        };
        self.state.last_active_timestamp = now;
        self.prepare_rest_sent = false;
    }

    /// Pauses at `now`: the countdown is brought up to date and frozen.
    /// Refused (nothing changes) when already paused.
    pub fn pause(&mut self, now: i64) -> (r: Reaction)
        requires
            old(self).state.status != Status::Paused ==> old(self).wf(),
            old(self).countdown_time_fits(now as int),
        ensures
            *final(self) == old(self).after_pause(now as int),
            old(self).wf() ==> final(self).wf(),
            r.accepted == (old(self).state.status != Status::Paused),
            r.persist == r.accepted,
            r.events@ == (if r.accepted {
                seq![
                    EngineEvent::StatusChanged {
                        status: Status::Paused,
                        remaining: final(self).state.remaining_seconds,
                    },
                ]
            } else {
                seq![]
            }),
    {
        if self.state.status == Status::Paused {
            return Reaction { accepted: false, persist: false, events: Vec::new() };
        }
        self.recompute_remaining(now);
        self.state.status = Status::Paused;
        self.state.last_active_timestamp = now;
        let remaining = self.state.remaining_seconds;
        Reaction {
            accepted: true,
            persist: true,
            events: vec![EngineEvent::StatusChanged { status: Status::Paused, remaining }],
        }
    }

    /// Resumes at `now`: the countdown goes on from the frozen value, the
    /// status fits the current stage kind. Refused when not paused.
    pub fn resume(&mut self, now: i64) -> (r: Reaction)
        requires
            old(self).state.status == Status::Paused ==> old(self).wf(),
            old(self).resume_time_fits(now as int),
        ensures
            *final(self) == old(self).after_resume(now as int),
            old(self).wf() ==> final(self).wf(),
            r.accepted == (old(self).state.status == Status::Paused),
            r.persist == r.accepted,
            r.events@ == (if r.accepted {
                seq![
                    EngineEvent::StatusChanged {
                        status: final(self).state.status,
                        remaining: final(self).state.remaining_seconds,
                    },
                ]
            } else {
                seq![]
            }),
    {
        if self.state.status != Status::Paused {
            return Reaction { accepted: false, persist: false, events: Vec::new() };
        }
        let total = self.current_total();
        let elapsed: u64 = if total > self.state.remaining_seconds {
            total - self.state.remaining_seconds
        } else {
            0
        };
        self.stage_started_at = now - (elapsed as i64);
        self.state.status = if self.current_stage_type() == StageType::Work {
            Status::Running
        } else {
            Status::Resting
        };
        self.state.last_active_timestamp = now;
        self.prepare_rest_sent = false;
        let status = self.state.status;
        let remaining = self.state.remaining_seconds;
        Reaction {
            accepted: true,
            persist: true,
            events: vec![EngineEvent::StatusChanged { status, remaining }],
        }
    }

    /// The tray toggle at `now`: resumes a paused timer, pauses any other.
    pub fn toggle_pause(&mut self, now: i64) -> (r: Reaction)
        requires
            old(self).wf(),
            old(self).countdown_time_fits(now as int),
            old(self).resume_time_fits(now as int),
        ensures
            *final(self) == (if old(self).state.status == Status::Paused {
                old(self).after_resume(now as int)
            } else {
                old(self).after_pause(now as int)
            }),
            final(self).wf(),
            (old(self).state.status == Status::Paused) != (final(self).state.status
                == Status::Paused),
            r.accepted,
            r.persist,
            r.events@ == seq![
                EngineEvent::StatusChanged {
                    status: final(self).state.status,
                    remaining: final(self).state.remaining_seconds,
                },
            ],
    {
        if self.state.status == Status::Paused {
            self.resume(now)
        } else {
            self.pause(now)
        }
    }

    /// Skips the current rest at `now` and starts the next work stage.
    /// Refused when not resting.
    pub fn skip_rest(&mut self, now: i64) -> (r: Reaction)
        requires
            old(self).state.status == Status::Resting ==> old(self).wf() && old(self).state.current_stage_index
                + skip_reach(old(self).cached_stages@, old(self).state.current_stage_index as int)
                <= usize::MAX,
        ensures
            *final(self) == old(self).after_skip(now as int),
            old(self).wf() ==> final(self).wf(),
            r.accepted == (old(self).state.status == Status::Resting),
            r.persist == r.accepted,
            r.events@ == (if r.accepted {
                seq![
                    EngineEvent::RestSkipped,
                    EngineEvent::WorkStarted { remaining: final(self).state.remaining_seconds },
                    EngineEvent::StatusChanged {
                        status: Status::Running,
                        remaining: final(self).state.remaining_seconds,
                    },
                ]
            } else {
                seq![]
            }),
    {
        if self.state.status != Status::Resting {
            return Reaction { accepted: false, persist: false, events: Vec::new() };
        }
        let cursor = StageCursor::new(self.cached_stages.as_slice(), self.state.current_stage_index);
        let (new_index, _skipped) = cursor.skip_rest_to_next_work();
        self.enter_stage(new_index, now);
        let remaining = self.state.remaining_seconds;
        Reaction {
            accepted: true,
            persist: true,
            events: vec![
                EngineEvent::RestSkipped,
                EngineEvent::WorkStarted { remaining },
                EngineEvent::StatusChanged { status: Status::Running, remaining },
            ],
        }
    }

    /// Puts `new_config` in force, its stage list becoming the cycle, and
    /// starts its first stage at `now`.
    pub fn reset_to_first(&mut self, new_config: Config, now: i64) -> (r: Reaction)
        requires
            new_config.stages@.len() > 0,
        ensures
            final(self).cached_stages@ == new_config.stages@,
            *final(self) == (EngineInner {
                config: new_config,
                cached_stages: final(self).cached_stages,
                ..*old(self)
            }).entered(0, now as int),
            final(self).wf(),
            r.accepted,
            r.persist,
            r.events@ == seq![
                EngineEvent::WorkStarted { remaining: final(self).state.remaining_seconds },
                EngineEvent::StatusChanged {
                    status: Status::Running,
                    remaining: final(self).state.remaining_seconds,
                },
            ],
    {
        self.cached_stages = copy_stages(&new_config.stages);
        self.config = new_config;
        self.enter_stage(0, now);
        let remaining = self.state.remaining_seconds;
        Reaction {
            accepted: true,
            persist: true,
            events: vec![
                EngineEvent::WorkStarted { remaining },
                EngineEvent::StatusChanged { status: Status::Running, remaining },
            ],
        }
    }

    /// Stores a saved configuration without touching the running cycle: the
    /// stages, the countdown and the status stay as they are until the cycle
    /// is restarted (`reset_to_first`) or the application starts again.
    pub fn update_config(&mut self, new_config: Config)
        ensures
            *final(self) == (EngineInner { config: new_config, ..*old(self) }),
    {
        self.config = new_config;
    }

    /// One second of the timer at `now` (see `tick_result`).
    pub fn tick(&mut self, now: i64) -> (r: Reaction)
        requires
            old(self).state.status != Status::Paused ==> old(self).wf(),
            old(self).tick_time_fits(now as int),
        ensures
            *final(self) == old(self).tick_result(now as int).0,
            r.events@ == old(self).tick_result(now as int).1,
            r.persist == old(self).tick_result(now as int).2,
            r.accepted,
            old(self).wf() ==> final(self).wf(),
    {
        if self.state.status == Status::Paused {
            self.state.last_active_timestamp = now;
            return Reaction { accepted: true, persist: false, events: Vec::new() };
        }
        let threshold_secs: u64 = (self.config.reset_threshold_minutes as u64) * 60;
        let d = now - self.state.last_active_timestamp;
        let delta: u64 = if d > 0 {
            d as u64
        } else {
            0
        };
        if delta > threshold_secs {
            self.enter_stage(0, now);
            let remaining = self.state.remaining_seconds;
            return Reaction {
                accepted: true,
                persist: true,
                events: vec![
                    EngineEvent::ResetDueToInactivity,
                    EngineEvent::WorkStarted { remaining },
                ],
            };
        }
        let ghost e0 = *self;
        self.recompute_remaining(now);
        let mut events: Vec<EngineEvent> = Vec::new();
        let rem = self.state.remaining_seconds;
        let was_resting = self.state.status == Status::Resting;
        let was_running = self.state.status == Status::Running;
        if self.state.status == Status::Running {
            let notify_secs: u64 = (self.config.notify_before_work_end_minutes as u64) * 60;
            if !self.prepare_rest_sent && rem <= notify_secs && rem > 0 {
                self.prepare_rest_sent = true;
                events.push(EngineEvent::PrepareRest { remaining: rem });
            }
        }
        let ended = rem == 0;
        if ended {
            if was_resting {
                events.push(EngineEvent::PlaySound { cue: SoundCue::RestEnd });
                events.push(EngineEvent::RestEnded);
            }
            let n = self.cached_stages.len();
            assert(self.state.current_stage_index < n);
            let next = StageCursor::new(self.cached_stages.as_slice(), self.state.current_stage_index).advance();
            self.enter_stage(next, now);
            let remaining = self.state.remaining_seconds;
            if self.current_stage_type() == StageType::Work {
                events.push(EngineEvent::WorkStarted { remaining });
            } else {
                if was_running {
                    events.push(EngineEvent::PlaySound { cue: SoundCue::WorkEnd });
                }
                events.push(EngineEvent::RestStarted { remaining, mode: self.config.rest_reminder_mode });
            }
            events.push(EngineEvent::StatusChanged { status: self.state.status, remaining });
        } else {
            self.state.last_active_timestamp = now;
        }
        let due = now - self.last_persist_at >= 60;
        if due {
            self.last_persist_at = now;
        }
        proof {
            assert(events@ =~= e0.tick_result(now as int).1);
        }
        Reaction { accepted: true, persist: ended || due, events }
    }
}

} // verus!
