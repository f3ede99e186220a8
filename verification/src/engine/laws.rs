//! Properties of the timer that span several operations or hold in every state.

use vstd::prelude::*;
use crate::config::{has_work_stage, Stage, StageType};
use crate::engine::stage::{next_index, skip_target, stage_seconds};
use crate::config::Config;
use crate::engine::timer::{
    notice_seconds, sat_sub, seconds_since, status_of, threshold_seconds, EngineEvent, EngineInner,
    SoundCue,
};
use crate::state::Status;

verus! {

/// The index reached from `i` after `k` single steps in a cycle of `n` stages.
pub open spec fn advanced(i: int, k: nat, n: int) -> int
    decreases k,
{
    if k == 0 {
        i
    } else {
        next_index(advanced(i, (k - 1) as nat, n), n)
    }
}

/// Moving on one stage at a time walks the cycle in order: after `k` steps
/// from `i` the cursor stands at `(i + k) % n`, so after `n` steps it is back
/// where it started.
pub proof fn lemma_advance_walks_the_cycle(i: int, k: nat, n: int)
    requires
        0 <= i < n,
    ensures
        advanced(i, k, n) == (i + k) % n,
        advanced(i, n as nat, n) == i,
{
    lemma_advance_steps(i, k, n);
    lemma_advance_steps(i, n as nat, n);
    assert(i + n == n * 1 + i);
    vstd::arithmetic::div_mod::lemma_mod_multiples_vanish(1, i, n);
    vstd::arithmetic::div_mod::lemma_small_mod(i as nat, n as nat);
}

proof fn lemma_advance_steps(i: int, k: nat, n: int)
    requires
        0 <= i < n,
    ensures
        advanced(i, k, n) == (i + k) % n,
    decreases k,
{
    if k > 0 {
        lemma_advance_steps(i, (k - 1) as nat, n);
        vstd::arithmetic::div_mod::lemma_add_mod_noop_right(1, i + k - 1, n);
    } else {
        vstd::arithmetic::div_mod::lemma_small_mod(i as nat, n as nat);
    }
}

/// A pause freezes the countdown and a later resume continues it from the
/// frozen value: however long the pause lasted, right after the resume the
/// same number of seconds is left, and `d` seconds later `d` fewer are left.
/// The resumed status fits the kind of the current stage.
pub proof fn lemma_pause_then_resume_continues(e: EngineInner, t1: int, t2: int, d: int)
    requires
        e.wf(),
        e.state.status != Status::Paused,
        e.after_pause(t1).resume_time_fits(t2),
        0 <= d,
    ensures
        ({
            let p = e.after_pause(t1);
            let q = p.after_resume(t2);
            &&& p.state.status == Status::Paused
            &&& p.state.remaining_seconds == e.remaining_at(t1)
            &&& q.state.remaining_seconds == p.state.remaining_seconds
            &&& q.state.current_stage_index == e.state.current_stage_index
            &&& q.state.status == (if e.stage().stage_type == StageType::Work {
                Status::Running
            } else {
                Status::Resting
            })
            &&& q.remaining_at(t2) == p.state.remaining_seconds
            &&& q.remaining_at(t2 + d) == sat_sub(p.state.remaining_seconds as int, d)
        }),
{
    let p = e.after_pause(t1);
    let q = p.after_resume(t2);
    assert(p.total() == e.total());
    assert(p.state.remaining_seconds <= p.total());
    assert(q.total() == p.total());
}

/// While paused the timer neither counts down nor restarts, whatever the
/// clock says: a tick keeps the stage, the status and the seconds left,
/// sends nothing and saves nothing; pausing again changes nothing.
pub proof fn lemma_paused_timer_holds(e: EngineInner, now: int)
    requires
        e.state.status == Status::Paused,
    ensures
        e.tick_result(now).0.state.current_stage_index == e.state.current_stage_index,
        e.tick_result(now).0.state.status == Status::Paused,
        e.tick_result(now).0.state.remaining_seconds == e.state.remaining_seconds,
        e.tick_result(now).1 == Seq::<EngineEvent>::empty(),
        !e.tick_result(now).2,
        e.after_pause(now) == e,
{
}

/// The countdown never goes up while time goes forward, and never exceeds
/// the length of the stage.
pub proof fn lemma_countdown_never_rises(e: EngineInner, t1: int, t2: int)
    requires
        t1 <= t2,
    ensures
        e.remaining_at(t2) <= e.remaining_at(t1),
        0 <= e.remaining_at(t2) <= e.total(),
{
}

/// A stage that runs out moves the cycle on exactly one stage (wrapping to
/// the first), while skipping a rest goes to the next work stage: in a cycle
/// with a work stage the skip always lands on work.
pub proof fn lemma_end_moves_one_skip_finds_work(e: EngineInner, now: int)
    requires
        e.wf(),
        e.state.status != Status::Paused,
        seconds_since(e.state.last_active_timestamp as int, now) <= threshold_seconds(e.config),
        e.remaining_at(now) == 0,
    ensures
        e.tick_result(now).0.state.current_stage_index == next_index(
            e.state.current_stage_index as int,
            e.cached_stages@.len() as int,
        ),
        e.state.status == Status::Resting && has_work_stage(e.cached_stages@)
            ==> e.after_skip(now).stage().stage_type == StageType::Work,
{
    assert(e.cached_stages@.len() == e.cached_stages.len());
    vstd::arithmetic::div_mod::lemma_mod_bound(
        e.state.current_stage_index as int + 1,
        e.cached_stages@.len() as int,
    );
    if e.state.status == Status::Resting && has_work_stage(e.cached_stages@) {
        lemma_skip_target_in_range(e);
    }
}

proof fn lemma_skip_target_in_range(e: EngineInner)
    requires
        e.wf(),
        has_work_stage(e.cached_stages@),
    ensures
        0 <= skip_target(e.cached_stages@, e.state.current_stage_index as int).0
            < e.cached_stages@.len(),
        e.cached_stages@[skip_target(
            e.cached_stages@,
            e.state.current_stage_index as int,
        ).0].stage_type == StageType::Work,
{
    let stages = e.cached_stages@;
    let index = e.state.current_stage_index as int;
    let j = choose|j: int| 0 <= j < stages.len() && (#[trigger] stages[j]).stage_type == StageType::Work;
    crate::engine::stage::lemma_skip_target_properties(stages, index, j);
}

/// After more than the threshold away from a running or resting timer, the
/// next tick restarts the cycle at its first stage with a full countdown.
pub proof fn lemma_absence_restarts_cycle(e: EngineInner, now: int)
    requires
        e.wf(),
        e.state.status != Status::Paused,
        seconds_since(e.state.last_active_timestamp as int, now) > threshold_seconds(e.config),
    ensures
        e.tick_result(now).0.state.current_stage_index == 0,
        e.tick_result(now).0.state.remaining_seconds == stage_seconds(e.cached_stages@[0]),
        e.tick_result(now).1[0] == EngineEvent::ResetDueToInactivity,
        e.tick_result(now).2,
{
}

/// The "rest is coming" notice goes out at most once per stage: once sent, a
/// tick sends no further notice until a new stage starts.
pub proof fn lemma_notice_at_most_once(e: EngineInner, now: int)
    requires
        e.wf(),
        e.prepare_rest_sent,
    ensures
        forall|i: int|
            0 <= i < e.tick_result(now).1.len() ==> !(#[trigger] e.tick_result(now).1[i] is PrepareRest),
{
}

/// The engine and the events after ticks at the times `ts`, in order.
pub open spec fn run_ticks(e: EngineInner, ts: Seq<int>) -> (EngineInner, Seq<EngineEvent>)
    decreases ts.len(),
{
    if ts.len() == 0 {
        (e, seq![])
    } else {
        let p = run_ticks(e, ts.drop_last());
        let r = p.0.tick_result(ts.last());
        (r.0, p.1 + r.1)
    }
}

/// Whether a tick at `now` stays in the current stage: the timer is paused,
/// or it neither restarts after an absence nor runs out.
pub open spec fn stays_in_stage(e: EngineInner, now: int) -> bool {
    e.state.status == Status::Paused || (seconds_since(e.state.last_active_timestamp as int, now)
        <= threshold_seconds(e.config) && e.remaining_at(now) > 0)
}

/// Whether every tick of the run at `ts` stays in the stage it finds.
pub open spec fn run_stays_in_stage(e: EngineInner, ts: Seq<int>) -> bool {
    forall|k: int| 0 <= k < ts.len() ==> #[trigger] stays_in_stage(run_ticks(e, ts.take(k)).0, ts[k])
}

proof fn lemma_quiet_tick(e: EngineInner, now: int)
    requires
        e.wf(),
        e.prepare_rest_sent,
        stays_in_stage(e, now),
    ensures
        e.tick_result(now).0.wf(),
        e.tick_result(now).0.prepare_rest_sent,
        e.tick_result(now).0.state.current_stage_index == e.state.current_stage_index,
        e.tick_result(now).0.cached_stages == e.cached_stages,
        e.tick_result(now).0.config == e.config,
        e.tick_result(now).1 == Seq::<EngineEvent>::empty(),
{
    assert(e.remaining_at(now) <= e.total());
}

proof fn lemma_quiet_run(e: EngineInner, ts: Seq<int>)
    requires
        e.wf(),
        e.prepare_rest_sent,
        run_stays_in_stage(e, ts),
    ensures
        run_ticks(e, ts).0.wf(),
        run_ticks(e, ts).0.prepare_rest_sent,
        run_ticks(e, ts).0.state.current_stage_index == e.state.current_stage_index,
        run_ticks(e, ts).0.config == e.config,
        run_ticks(e, ts).1 == Seq::<EngineEvent>::empty(),
    decreases ts.len(),
{
    if ts.len() > 0 {
        let pre = ts.drop_last();
        assert forall|k: int| 0 <= k < pre.len() implies #[trigger] stays_in_stage(
            run_ticks(e, pre.take(k)).0,
            pre[k],
        ) by {
            assert(pre.take(k) =~= ts.take(k));
            assert(stays_in_stage(run_ticks(e, ts.take(k)).0, ts[k]));
        }
        lemma_quiet_run(e, pre);
        let last = ts.len() - 1;
        assert(ts.take(last) =~= pre);
        assert(stays_in_stage(run_ticks(e, ts.take(last)).0, ts[last]));
        lemma_quiet_tick(run_ticks(e, pre).0, ts.last());
    }
}

/// The "rest is coming" notice over a run of ticks: in a running work stage
/// whose notice is not yet sent, the first tick that finds between 1 second
/// and the notice window left (without a restart) sends exactly one notice
/// with that number of seconds; after it, no tick sends another as long as
/// the ticks stay in the stage.
pub proof fn lemma_notice_once_over_run(e: EngineInner, t: int, ts: Seq<int>)
    requires
        e.wf(),
        e.state.status == Status::Running,
        !e.prepare_rest_sent,
        seconds_since(e.state.last_active_timestamp as int, t) <= threshold_seconds(e.config),
        0 < e.remaining_at(t) <= notice_seconds(e.config),
        run_stays_in_stage(e.tick_result(t).0, ts),
    ensures
        e.tick_result(t).1 == seq![EngineEvent::PrepareRest { remaining: e.remaining_at(t) as u64 }],
        e.tick_result(t).0.prepare_rest_sent,
        e.tick_result(t).0.state.current_stage_index == e.state.current_stage_index,
        run_ticks(e.tick_result(t).0, ts).1 == Seq::<EngineEvent>::empty(),
        run_ticks(e.tick_result(t).0, ts).0.state.current_stage_index == e.state.current_stage_index,
{
    assert(e.remaining_at(t) <= e.total());
    assert(e.tick_result(t).1 =~= seq![EngineEvent::PrepareRest { remaining: e.remaining_at(t) as u64 }]);
    lemma_quiet_run(e.tick_result(t).0, ts);
}

/// Time spent paused is never counted: after a pause at `t1` with `r`
/// seconds left and a resume at `t2`, a tick at `t3` within the next `r`
/// seconds (and within the inactivity threshold) leaves `r - (t3 - t2)`
/// seconds in the same stage.
pub proof fn lemma_resume_then_tick(e: EngineInner, t1: int, t2: int, t3: int)
    requires
        e.wf(),
        e.state.status != Status::Paused,
        i64::MIN <= t2 <= i64::MAX,
        e.after_pause(t1).resume_time_fits(t2),
        t2 <= t3 < t2 + e.after_pause(t1).state.remaining_seconds,
        t3 - t2 <= threshold_seconds(e.config),
    ensures
        ({
            let p = e.after_pause(t1);
            let q = p.after_resume(t2).tick_result(t3).0;
            &&& q.state.remaining_seconds == p.state.remaining_seconds - (t3 - t2)
            &&& q.state.current_stage_index == e.state.current_stage_index
            &&& q.state.status == status_of(e.stage())
        }),
{
    lemma_pause_then_resume_continues(e, t1, t2, t3 - t2);
    let p = e.after_pause(t1);
    let q = p.after_resume(t2);
    assert(q.remaining_at(t3) <= q.total());
}

/// Saving a configuration leaves the running cycle alone: with any other
/// configuration stored, pausing, resuming and skipping give the same run
/// state and the same cycle.
pub proof fn lemma_saved_config_keeps_cycle(e: EngineInner, c: Config, t1: int, t2: int, now: int)
    ensures
        ({
            let u = EngineInner { config: c, ..e };
            &&& u.cached_stages == e.cached_stages
            &&& u.state == e.state
            &&& u.after_pause(t1).state == e.after_pause(t1).state
            &&& u.after_resume(t2).state == e.after_resume(t2).state
            &&& u.after_resume(t2).stage_started_at == e.after_resume(t2).stage_started_at
            &&& u.after_skip(now).state == e.after_skip(now).state
        }),
{
}

/// The end of a stage is heard: when a rest runs out the tick first plays
/// the rest-end cue and then reports the end of the rest; when a work stage
/// runs out into a rest the tick first plays the work-end cue and then
/// announces the rest. Work followed by work plays nothing.
pub proof fn lemma_stage_end_cues(e: EngineInner, now: int)
    requires
        e.wf(),
        e.state.status != Status::Paused,
        seconds_since(e.state.last_active_timestamp as int, now) <= threshold_seconds(e.config),
        e.remaining_at(now) == 0,
    ensures
        ({
            let ev = e.tick_result(now).1;
            let next = e.cached_stages@[next_index(
                e.state.current_stage_index as int,
                e.cached_stages@.len() as int,
            )];
            &&& e.state.status == Status::Resting ==> ev.len() >= 2 && ev[0]
                == EngineEvent::PlaySound { cue: SoundCue::RestEnd } && ev[1] == EngineEvent::RestEnded
            &&& e.state.status == Status::Running && next.stage_type == StageType::Rest ==> ev.len()
                >= 2 && ev[0] == EngineEvent::PlaySound { cue: SoundCue::WorkEnd } && ev[1] is RestStarted
            &&& e.state.status == Status::Running && next.stage_type == StageType::Work ==> forall|i: int|
                0 <= i < ev.len() ==> !(#[trigger] ev[i] is PlaySound)
        }),
{
    assert(e.cached_stages@.len() == e.cached_stages.len());
    vstd::arithmetic::div_mod::lemma_mod_bound(
        e.state.current_stage_index as int + 1,
        e.cached_stages@.len() as int,
    );
}

/// The "rest is coming" notice is sent only inside the notice window: a tick
/// that sends it found a running work stage whose notice was not yet sent,
/// no restart due, and between 1 second and the window
/// (`notify_before_work_end_minutes` minutes) left; the notice carries those
/// seconds, the stage length less the seconds since the stage started.
pub proof fn lemma_notice_only_in_window(e: EngineInner, now: int)
    requires
        e.wf(),
    ensures
        forall|i: int|
            #![trigger e.tick_result(now).1[i]]
            0 <= i < e.tick_result(now).1.len() ==> (e.tick_result(now).1[i] matches EngineEvent::PrepareRest { remaining } ==> {
                &&& e.state.status == Status::Running
                &&& !e.prepare_rest_sent
                &&& now - e.state.last_active_timestamp <= e.config.reset_threshold_minutes * 60
                &&& 0 < remaining <= e.config.notify_before_work_end_minutes * 60
                &&& now - e.stage_started_at < stage_seconds(e.stage())
                &&& remaining == stage_seconds(e.stage()) - (if now > e.stage_started_at {
                    now - e.stage_started_at
                } else {
                    0
                })
            }),
{
    let ev = e.tick_result(now).1;
    assert forall|i: int| 0 <= i < ev.len() && (ev[i] is PrepareRest) implies {
        let remaining = ev[i]->PrepareRest_remaining;
        &&& e.state.status == Status::Running
        &&& !e.prepare_rest_sent
        &&& now - e.state.last_active_timestamp <= e.config.reset_threshold_minutes * 60
        &&& 0 < remaining <= e.config.notify_before_work_end_minutes * 60
        &&& now - e.stage_started_at < stage_seconds(e.stage())
        &&& remaining == stage_seconds(e.stage()) - (if now > e.stage_started_at {
            now - e.stage_started_at
        } else {
            0
        })
    } by {
        assert(e.state.status != Status::Paused);
        assert(seconds_since(e.state.last_active_timestamp as int, now) <= threshold_seconds(e.config));
        assert(e.remaining_at(now) <= e.total());
        let e1 = e.recomputed(now);
        let rem = e1.state.remaining_seconds;
        let warn = e1.state.status == Status::Running && !e1.prepare_rest_sent && rem
            <= notice_seconds(e.config) && rem > 0;
        if !warn {
            let ev2 = e.tick_result(now).1;
            assert(ev2[i] is PlaySound || ev2[i] is RestEnded || ev2[i] is WorkStarted
                || ev2[i] is RestStarted || ev2[i] is StatusChanged);
        }
    }
}

/// Whether every stage strictly between `i` and `d` steps after it, in cycle
/// order, is a rest.
pub open spec fn only_rests_between(stages: Seq<Stage>, i: int, d: int) -> bool {
    forall|o: int| 1 <= o < d ==> (#[trigger] stages[(i + o) % (stages.len() as int)]).stage_type
        != StageType::Work
}

/// Skipping a rest lands on the first work stage after the current one, in
/// cycle order: the new stage is work and starts in full, and every stage
/// passed over on the way is a rest. With no work stage in the cycle the skip
/// goes to stage 0.
pub proof fn lemma_skip_lands_on_next_work(e: EngineInner, now: int)
    requires
        e.wf(),
        e.state.status == Status::Resting,
    ensures
        ({
            let stages = e.cached_stages@;
            let n = stages.len() as int;
            let i = e.state.current_stage_index as int;
            let s = e.after_skip(now).state;
            let t = s.current_stage_index as int;
            &&& 0 <= t < n
            &&& s.remaining_seconds == stage_seconds(stages[t])
            &&& e.after_skip(now).cached_stages == e.cached_stages
            &&& has_work_stage(stages) ==> {
                &&& stages[t].stage_type == StageType::Work
                &&& s.status == Status::Running
                &&& exists|d: int|
                    1 <= d <= n && (i + d) % n == t && #[trigger] only_rests_between(stages, i, d)
            }
            &&& !has_work_stage(stages) ==> t == 0
        }),
{
    let stages = e.cached_stages@;
    let n = stages.len() as int;
    let i = e.state.current_stage_index as int;
    assert(stages.len() == e.cached_stages.len());
    if has_work_stage(stages) {
        let j = choose|j: int| 0 <= j < stages.len() && (#[trigger] stages[j]).stage_type == StageType::Work;
        crate::engine::stage::lemma_skip_target_properties(stages, i, j);
        let d = choose|o: int| crate::engine::stage::is_first_work_offset(stages, i, o);
        assert forall|o: int| 1 <= o < d implies (#[trigger] stages[(i + o) % n]).stage_type
            != StageType::Work by {
            assert(!crate::engine::stage::work_at_offset(stages, i, o));
        }
        assert(only_rests_between(stages, i, d));
    } else {
        if exists|o: int| crate::engine::stage::is_first_work_offset(stages, i, o) {
            let o = choose|o: int| crate::engine::stage::is_first_work_offset(stages, i, o);
            vstd::arithmetic::div_mod::lemma_mod_bound(i + o, n);
            assert(stages[(i + o) % n].stage_type == StageType::Work);
        }
    }
}

/// A tick within a stage counts it down from the timestamps: when the timer
/// runs or rests, no restart is due and the stage has time left, the stage and
/// the status stay, the seconds left become the stage length less the seconds
/// since the stage started, and the only event that may go out is the notice.
pub proof fn lemma_tick_counts_down(e: EngineInner, now: int)
    requires
        e.wf(),
        e.state.status != Status::Paused,
        now - e.state.last_active_timestamp <= e.config.reset_threshold_minutes * 60,
        (if now > e.stage_started_at {
            now - e.stage_started_at
        } else {
            0
        }) < stage_seconds(e.stage()),
    ensures
        ({
            let r = e.tick_result(now);
            let elapsed = if now > e.stage_started_at {
                now - e.stage_started_at
            } else {
                0
            };
            &&& r.0.state.current_stage_index == e.state.current_stage_index
            &&& r.0.state.status == e.state.status
            &&& r.0.state.remaining_seconds == stage_seconds(e.stage()) - elapsed
            &&& r.0.state.last_active_timestamp == now as i64
            &&& r.0.cached_stages == e.cached_stages
            &&& forall|i: int| 0 <= i < r.1.len() ==> (#[trigger] r.1[i] is PrepareRest)
        }),
{
    assert(e.remaining_at(now) > 0);
}

} // verus!
