//! The records that move between the editor extension, the daemon and the
//! providers, held as plain values.

use vstd::prelude::*;

verus! {

/// A point in time in UTC: whole seconds since the Unix epoch and the
/// nanoseconds past that second.
#[derive(Debug, Clone, PartialEq)]
pub struct UtcInstant {
    pub unix_seconds: i64,
    pub nanos: u32,
}

/// A day of the proleptic Gregorian calendar.
#[derive(Debug, Clone, Copy, PartialEq, Eq)]
pub struct CalendarDate {
    pub year: i32,
    pub month: u32,
    pub day: u32,
}

/// A JSON document, with numbers kept in their canonical text form.
#[derive(Debug, PartialEq)]
pub enum JsonValue {
    Null,
    Bool(bool),
    Number(String),
    Str(String),
    Array(Vec<JsonValue>),
    Object(Vec<(String, JsonValue)>),
}

/// The project an event was observed in.
#[derive(Debug, Clone, PartialEq)]
pub struct ProjectContext {
    pub name: Option<String>,
    pub path: Option<String>,
    pub git_branch: Option<String>,
    pub git_remote: Option<String>,
}

/// What the editor observed during one event.
#[derive(Debug, Clone, PartialEq)]
pub struct ActivityPayload {
    pub files_modified: Vec<String>,
    /// Minutes per language, one entry per language name.
    pub languages: Vec<(String, u64)>,
    pub lines_added: i64,
    pub lines_removed: i64,
    pub functions_touched: Vec<String>,
    pub time_spent_minutes: i64,
    pub errors_encountered: i64,
    pub libraries_used: Vec<String>,
}

/// One coding event as the editor extension reports it.
#[derive(Debug, PartialEq)]
pub struct CodingEvent {
    pub timestamp: Option<UtcInstant>,
    pub session_id: String,
    pub event_type: String,
    pub project: ProjectContext,
    pub activity: ActivityPayload,
    pub metadata: JsonValue,
}

} // verus!

verus! {

/// One Git signal of the day: a commit or a snapshot of the work tree.
#[derive(Debug, Clone, PartialEq)]
pub struct GitChange {
    pub subject: Option<String>,
    pub diff_summary: Option<String>,
    pub status_summary: Option<String>,
    pub files_modified: Vec<String>,
    pub lines_added: i64,
    pub lines_removed: i64,
}

/// What one day of work added up to.
#[derive(Debug, Clone, PartialEq)]
pub struct DailySummary {
    pub date: CalendarDate,
    pub event_count: i64,
    pub total_time_minutes: i64,
    pub lines_added: i64,
    pub lines_removed: i64,
    pub git_commits: i64,
    pub projects: Vec<String>,
    /// Minutes per language, in language order.
    pub languages: Vec<(String, i64)>,
    pub files_modified: Vec<String>,
    pub voice_examples: i64,
    pub git_changes: Vec<GitChange>,
}

/// The technical reading of a day, from the Copilot CLI or from local rules.
#[derive(Debug, Clone, PartialEq)]
pub struct TechnicalAnalysis {
    pub source: String,
    pub status: String,
    pub insights: Vec<String>,
    pub tech_stack: Vec<String>,
    pub complexity: Option<i64>,
    pub learnings: Vec<String>,
    pub raw: Option<String>,
    pub error: Option<String>,
}

} // verus!

verus! {

/// A request to approve a draft, optionally with the edited text.
#[derive(Debug, Clone, PartialEq)]
pub struct ApproveDraftRequest {
    pub approved_content: Option<String>,
}

/// A request to reject a draft, with the reason.
#[derive(Debug, Clone, PartialEq)]
pub struct RejectDraftRequest {
    pub reason: String,
}

/// A text the user marks as an example of their voice.
#[derive(Debug, Clone, PartialEq)]
pub struct VoiceExampleRequest {
    pub text: String,
    pub context: Option<String>,
}

/// The answer of the health check.
#[derive(Debug, Clone, PartialEq)]
pub struct HealthResponse {
    pub status: String,
    pub service: String,
    pub database: String,
}

impl HealthResponse {
    /// The answer when the service and its database are up.
    pub fn healthy() -> (r: HealthResponse)
        ensures
            r.status@ == "ok"@,
            r.service@ == "linkedin-dev-companion"@,
            r.database@ == "ok"@,
    {
        HealthResponse {
            status: String::from_str("ok"),
            service: String::from_str("linkedin-dev-companion"),
            database: String::from_str("ok"),
        }
    }
}

} // verus!
