//! FocusLock core: the stage cycle, the timer state machine, the inactivity
//! reset rule, configuration validation and the texts shown to the user.

pub mod config;
pub mod engine;
pub mod state;
pub mod text;
pub mod startup;
pub mod commands;
pub mod notify;
pub mod overlay;
pub mod platform;
pub mod tray;
pub mod version;
