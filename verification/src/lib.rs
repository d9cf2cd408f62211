//! A process/port lifecycle monitor and terminator: it discovers
//! which processes hold which TCP ports, reconciles each scan against
//! the previous snapshot, resolves process and container identity,
//! filters what the user ignores, and terminates processes through a
//! graceful-then-forceful escalation, all behind a guard that keeps
//! termination batches from racing one another.
//!
//! The shell around the library performs the outside work: it runs
//! the enumeration and signal providers, sleeps, and draws. The
//! library holds every decision: what a provider line denotes, what a
//! snapshot is and when it changed, who is ignored, what step a kill
//! session takes next, and what a menu index means.
//!
//! Beside the monitor stand the data model and request decisions of a
//! small contact service that shares this codebase; its HTTP and SQL
//! edges stay in the shell.

use vstd::prelude::*;

pub mod text;
pub mod types;
pub mod snapshot;
pub mod filter;
pub mod notifier;
pub mod scan;
pub mod container;
pub mod engine;
pub mod guard;
pub mod menu;
pub mod cli;
pub mod model;
pub mod error;
pub mod config;
pub mod auth;

verus! {

/// Scan interval of the headless console monitor, in milliseconds.
pub const CONSOLE_SCAN_INTERVAL_MS: u64 = 2000;

/// Scan interval of the interactive status-bar monitor, in
/// milliseconds.
pub const TRAY_SCAN_INTERVAL_MS: u64 = 5000;

/// The fixed wait between the graceful signal and the liveness
/// re-check.
pub const GRACEFUL_WAIT_MS: u64 = 500;

/// The cooldown after a finished batch, during which structural UI
/// refresh stays suppressed.
pub const GUARD_COOLDOWN_MS: u64 = 1000;

} // verus!
