//! The display layout seen by the overlay: one rectangle per monitor.

use vstd::prelude::*;

verus! {

/// The rectangle of one monitor (logical coordinates).
#[derive(Debug, Clone, Copy, PartialEq, Eq, Structural)]
pub struct MonitorRect {
    pub x: i32,
    pub y: i32,
    pub width: i32,
    pub height: i32,
    pub is_primary: bool,
}

/// Lists the monitors of the machine; each platform provides one.
pub trait MonitorApi {
    /// The rectangles of all monitors.
    fn list_monitors(&self) -> Vec<MonitorRect>;
}

/// The macOS monitor list. Screen enumeration is not wired up on this
/// platform, so the list is empty.
pub struct MacosMonitorApi;

impl MonitorApi for MacosMonitorApi {
    fn list_monitors(&self) -> (v: Vec<MonitorRect>)
        ensures
            v@.len() == 0,
    {
        Vec::new()
    }
}

/// The platform services handed to the overlay.
pub struct PlatformCapabilities {
    pub monitor: Box<dyn MonitorApi>,
}

} // verus!
