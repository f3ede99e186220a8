//! The system notifications sent for engine events: which events are
//! announced and with what title and text.

use vstd::prelude::*;
use crate::config::RestReminderMode;
use crate::engine::timer::EngineEvent;
use crate::state::Status;
use crate::text::{decimal, push_decimal};

verus! {

/// Seconds as `X 分 Y 秒` from a minute on, `Y 秒` below.
pub open spec fn duration_text(secs: nat) -> Seq<char> {
    if secs >= 60 {
        decimal(secs / 60) + " 分 "@ + decimal(secs % 60) + " 秒"@
    } else {
        decimal(secs) + " 秒"@
    }
}

/// The name of a rest reminder mode in notifications.
pub open spec fn mode_text(m: RestReminderMode) -> Seq<char> {
    match m {
        RestReminderMode::Fullscreen => "全屏遮罩"@,
        RestReminderMode::Popup => "弹窗"@,
    }
}

/// The notification (title, text) for an event, or `None` when the event is
/// not announced (a rest running out is followed by the next stage's own
/// notice; entering a rest is announced by `RestStarted`; a sound cue is
/// heard, not shown).
pub open spec fn notification_text(e: EngineEvent) -> Option<(Seq<char>, Seq<char>)> {
    match e {
        EngineEvent::WorkStarted { remaining } => Some(
            (
                "FocusLock · 开始工作"@,
                "进入工作阶段，剩余 "@ + duration_text(remaining as nat),
            ),
        ),
        EngineEvent::PrepareRest { remaining } => Some(
            (
                "FocusLock · 即将休息"@,
                "剩余 "@ + duration_text(remaining as nat)
                    + "，请保存工作。如需暂停循环，请右键托盘选「暂停 / 恢复」。"@,
            ),
        ),
        EngineEvent::RestStarted { remaining, mode } => Some(
            (
                "FocusLock · 开始休息"@,
                mode_text(mode) + "模式，剩余 "@ + duration_text(remaining as nat)
                    + "。按快捷键可跳过休息。"@,
            ),
        ),
        EngineEvent::RestEnded => None,
        EngineEvent::PlaySound { .. } => None,
        EngineEvent::RestSkipped => Some(
            ("FocusLock · 已跳过休息"@, "进入下一个工作阶段。"@),
        ),
        EngineEvent::StatusChanged { status, remaining } => match status {
            Status::Paused => Some(("FocusLock · 已暂停"@, "倒计时已冻结，右键托盘可恢复。"@)),
            Status::Running => Some(
                (
                    "FocusLock · 已恢复"@,
                    "继续倒计时，剩余 "@ + duration_text(remaining as nat),
                ),
            ),
            Status::Resting => None,
        },
        EngineEvent::ResetDueToInactivity => Some(
            ("FocusLock · 检测到长时间离开"@, "已重置计时，从第一阶段重新开始。"@),
        ),
    }
}

/// The title and text of the notification sent at start-up on macOS, which
/// makes the system ask for permission to notify.
pub const STARTUP_TITLE: &'static str = "FocusLock 已启动";

/// See `STARTUP_TITLE`.
pub const STARTUP_BODY: &'static str = "专注节奏管理已就绪。";

/// Appends `duration_text(secs)`.
fn push_duration(out: &mut String, secs: u64)
    ensures
        final(out)@ == old(out)@ + duration_text(secs as nat),
{
    if secs >= 60 {
        push_decimal(out, secs / 60);
        out.append(" 分 ");
        push_decimal(out, secs % 60);
        out.append(" 秒");
    } else {
        push_decimal(out, secs);
        out.append(" 秒");
    }
}

/// Seconds as `X 分 Y 秒` (or `Y 秒` under a minute).
pub fn fmt_remaining(secs: u64) -> (s: String)
    ensures
        s@ == duration_text(secs as nat),
{
    let mut s = String::new();
    push_duration(&mut s, secs);
    s
}

/// The notification for an event (see `notification_text`).
pub fn notification_for(event: &EngineEvent) -> (r: Option<(String, String)>)
    ensures
        match (r, notification_text(*event)) {
            (Some(m), Some(t)) => m.0@ == t.0 && m.1@ == t.1,
            (None, None) => true,
            _ => false,
        },
{
    match *event {
        EngineEvent::WorkStarted { remaining } => {
            let mut body = String::from_str("进入工作阶段，剩余 ");
            push_duration(&mut body, remaining);
            Some((String::from_str("FocusLock · 开始工作"), body))
        },
        EngineEvent::PrepareRest { remaining } => {
            let mut body = String::from_str("剩余 ");
            push_duration(&mut body, remaining);
            body.append("，请保存工作。如需暂停循环，请右键托盘选「暂停 / 恢复」。");
            Some((String::from_str("FocusLock · 即将休息"), body))
        },
        EngineEvent::RestStarted { remaining, mode } => {
            let mut body = match mode {
                RestReminderMode::Fullscreen => String::from_str("全屏遮罩"),
                RestReminderMode::Popup => String::from_str("弹窗"),
            };
            body.append("模式，剩余 ");
            push_duration(&mut body, remaining);
            body.append("。按快捷键可跳过休息。");
            Some((String::from_str("FocusLock · 开始休息"), body))
        },
        EngineEvent::RestEnded => None,
        EngineEvent::PlaySound { .. } => None,
        EngineEvent::RestSkipped => Some(
            (String::from_str("FocusLock · 已跳过休息"), String::from_str("进入下一个工作阶段。")),
        ),
        EngineEvent::StatusChanged { status, remaining } => match status {
            Status::Paused => Some(
                (
                    String::from_str("FocusLock · 已暂停"),
                    String::from_str("倒计时已冻结，右键托盘可恢复。"),
                ),
            ),
            Status::Running => {
                let mut body = String::from_str("继续倒计时，剩余 ");
                push_duration(&mut body, remaining);
                Some((String::from_str("FocusLock · 已恢复"), body))
            },
            Status::Resting => None,
        },
        EngineEvent::ResetDueToInactivity => Some(
            (
                String::from_str("FocusLock · 检测到长时间离开"),
                String::from_str("已重置计时，从第一阶段重新开始。"),
            ),
        ),
    }
}

} // verus!
