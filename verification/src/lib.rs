//! Verified core of a replay-repair tool: a binary patcher for a known
//! corrupted byte pattern, a single-flight task registry, a polling
//! directory-watcher state machine, and the monitor handle that controls a
//! watching session.

pub mod autostart;
pub mod config;
pub mod fixer;
pub mod message;
pub mod paths;
pub mod monitor;
pub mod registry;
pub mod utils;
pub mod watcher;
