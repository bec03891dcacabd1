//! Core data model: session status, the per-tick session view, and task
//! records.

use vstd::prelude::*;

verus! {

/// Operational status of a monitored session, derived fresh on every
/// reconciliation tick and never persisted.
#[derive(Debug, Clone, Copy, PartialEq, Eq, Structural)]
pub enum AgentStatus {
    NeedsInput,
    Running,
    Idle,
    Done,
    Unknown,
}

/// A bound task: the task file it lives in and a display title.
#[derive(Debug, Clone)]
pub struct TaskInfo {
    pub path: String,
    pub title: String,
}

/// The per-tick, in-memory view of one live session: the merge of the
/// session registry, the metadata store, the tailed output, and the
/// derived status. Recomputed on every reconciliation pass and never a
/// source of truth across ticks.
#[derive(Debug, Clone)]
pub struct AgentSession {
    /// Display name: the session name with the reserved prefix stripped.
    pub name: String,
    /// Full session name as the host reports it.
    pub session_name: String,
    /// Agent kind, from the metadata store, defaulted when unset.
    pub agent: String,
    /// Status derived this tick.
    pub status: AgentStatus,
    /// Seconds since the Unix epoch of the last observed output, if known.
    pub last_output: Option<u64>,
    /// Path of the append-only output log for this session.
    pub log_path: String,
    /// Small tail window for list display.
    pub preview: Vec<String>,
    /// The bound task, when one was resolved.
    pub task: Option<TaskInfo>,
    /// Whether the session was started with permission prompts disabled.
    pub is_yolo: bool,
    /// Whether output forwarding is attached; a session with a failed
    /// attach stays visible, degraded.
    pub attached: bool,
}

/// A calendar date, proleptic Gregorian.
#[derive(Debug, Clone, Copy, PartialEq, Eq, Structural)]
pub struct Date {
    pub year: i32,
    pub month: u8,
    pub day: u8,
}

/// A task list entry, read from a task file's front matter.
#[derive(Debug, Clone)]
pub struct TaskEntry {
    pub title: String,
    pub path: String,
    pub due: Option<Date>,
    pub status: Option<String>,
}

/// One day's log file, for list display.
#[derive(Debug, Clone)]
pub struct DailyEntry {
    pub date: Date,
    pub path: String,
    pub preview: String,
}

} // verus!
