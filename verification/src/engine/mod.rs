//! The timer engine: the stage cursor, the inactivity reset rule and the
//! state machine that drives the cycle.

pub mod reset;
pub mod stage;
pub mod timer;
pub mod laws;
