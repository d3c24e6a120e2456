//! What a finished run is recorded as.

use vstd::prelude::*;

verus! {

/// Where a run's command came from.
#[derive(Debug, Clone, Copy, PartialEq, Eq, Structural)]
pub enum RunSource {
    Task,
    Inline,
}

/// How a run ended.
#[derive(Debug, Clone, Copy, PartialEq, Eq, Structural)]
pub enum RunStatus {
    Success,
    Failed,
}

/// The summary of one finished run or group, as it is stored.
#[derive(Debug, Clone)]
pub struct RunRecord {
    pub id: String,
    pub name: String,
    pub source: RunSource,
    pub command_preview: String,
    /// Nanoseconds since the Unix epoch, UTC.
    pub started_at: i128,
    pub duration_ms: i64,
    pub exit_code: i32,
    pub status: RunStatus,
    pub stderr_tail: Option<String>,
}

/// The word a source is written as.
pub open spec fn source_word(source: RunSource) -> Seq<char> {
    match source {
        RunSource::Task => "task"@,
        RunSource::Inline => "inline"@,
    }
}

/// The word a status is written as.
pub open spec fn status_word(status: RunStatus) -> Seq<char> {
    match status {
        RunStatus::Success => "success"@,
        RunStatus::Failed => "failed"@,
    }
}

/// The word a source is written as.
pub fn source_to_str(source: RunSource) -> (word: &'static str)
    ensures
        word@ == source_word(source),
{
    match source {
        RunSource::Task => "task",
        RunSource::Inline => "inline",
    }
}

/// The word a status is written as.
pub fn status_to_str(status: RunStatus) -> (word: &'static str)
    ensures
        word@ == status_word(status),
{
    match status {
        RunStatus::Success => "success",
        RunStatus::Failed => "failed",
    }
}

} // verus!
