//! Session monitoring and lifecycle reconciliation for a fleet of
//! terminal-hosted coding agents.
//!
//! The library holds the decision logic of the monitor: status
//! classification from recent output, reconciliation of the live session
//! list with persisted metadata, orphan garbage collection, edge-triggered
//! notifications, unique session naming, and the attach retry policy.
//! All host interaction (tmux subprocesses, the filesystem, the network)
//! happens outside, in a thin binary that feeds plain values in and
//! carries plain values out.

pub mod config;
pub mod dates;
pub mod detection;
pub mod host;
pub mod imessage;
pub mod inbox;
pub mod inbox_storage;
pub mod kvmap;
pub mod launch;
pub mod model;
pub mod naming;
pub mod notify;
pub mod preview;
pub mod reconcile;
pub mod registry;
pub mod strutil;
pub mod tailer;
pub mod tasks;
pub mod update;
