//! The tray icon: its picture and tooltip for each status.

use vstd::prelude::*;
use crate::commands::{clock_text, fmt_display};
use crate::state::Status;

verus! {

/// The tray picture for a status.
#[derive(Debug, Clone, Copy, PartialEq, Eq, Structural)]
pub enum TrayIcon {
    /// Blue: working.
    Working,
    /// Green: resting.
    Resting,
    /// Grey: paused.
    Paused,
}

/// The tray id.
pub const TRAY_ID: &'static str = "main";

/// The label of a status in the tray.
pub open spec fn status_text(s: Status) -> Seq<char> {
    match s {
        Status::Running => "工作中"@,
        Status::Resting => "休息中"@,
        Status::Paused => "已暂停"@,
    }
}

/// The tooltip for a status and the seconds left.
pub open spec fn tooltip_text(s: Status, remaining: nat) -> Seq<char> {
    "FocusLock · "@ + status_text(s) + "，剩余 "@ + clock_text(remaining)
}

/// The picture for a status.
pub fn icon_for_status(status: Status) -> (i: TrayIcon)
    ensures
        i == (match status {
            Status::Running => TrayIcon::Working,
            Status::Resting => TrayIcon::Resting,
            Status::Paused => TrayIcon::Paused,
        }),
{
    match status {
        Status::Running => TrayIcon::Working,
        Status::Resting => TrayIcon::Resting,
        Status::Paused => TrayIcon::Paused,
    }
}

/// The label of a status.
pub fn status_label(status: Status) -> (r: &'static str)
    ensures
        r@ == status_text(status),
{
    match status {
        Status::Running => "工作中",
        Status::Resting => "休息中",
        Status::Paused => "已暂停",
    }
}

/// Seconds as `MM:SS`.
pub fn fmt_remaining(secs: u64) -> (s: String)
    ensures
        s@ == clock_text(secs as nat),
{
    fmt_display(secs)
}

/// The tooltip: `FocusLock · <status>，剩余 MM:SS`.
pub fn tooltip(status: Status, remaining: u64) -> (s: String)
    ensures
        s@ == tooltip_text(status, remaining as nat),
{
    let mut s = String::from_str("FocusLock · ");
    s.append(status_label(status));
    s.append("，剩余 ");
    let t = fmt_remaining(remaining);
    s.append(t.as_str());
    s
}

} // verus!
