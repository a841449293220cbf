use vstd::prelude::*;

use crate::external::{json_error_text, sql_error_text};
use crate::text::{decimal, decimal_text, has_prefix};

verus! {

/// Everything that can go wrong in the library, each case carrying what a
/// caller needs to report it.
#[derive(Debug)]
pub enum EngramError {
    /// There is no `.engram` directory in the working directory.
    NotInitialized,
    /// A context role name that is none of build, review, debug, resume.
    InvalidRole(String),
    /// A context level name that is none of minimal, standard, full.
    InvalidLevel(String),
    /// A decision status name that is none of active, superseded, reverted.
    InvalidDecisionStatus(String),
    /// A task status name that is none of todo, in_progress, done, blocked.
    InvalidTaskStatus(String),
    /// A task priority name that is none of low, medium, high, critical.
    InvalidTaskPriority(String),
    /// An update addressed a task id that no row has.
    TaskNotFound(String),
    /// An update addressed a session id that no row has.
    SessionNotFound(String),
    /// A session row vanished between its update and the read that followed.
    SessionVanished(String),
    /// No task id starts with the given prefix.
    TaskPrefixNotFound(String),
    /// No decision id starts with the given prefix.
    DecisionPrefixNotFound(String),
    /// Ending a session was asked for while none is active.
    NoActiveSession,
    /// Starting a session was asked for while another one is active.
    SessionAlreadyActive { id: String, goal: String },
    /// An export file carries a version this library does not read.
    UnsupportedExportVersion(u32),
    /// A stored row holds a value that does not decode (named by its column).
    CorruptRow(String),
    /// The database reported an error.
    Sql(rusqlite::Error),
    /// JSON encoding failed.
    Json(serde_json::Error),
}

/// The message of an error that carries no outside error: what the command
/// line prints after "error: ".
pub open spec fn message_of(e: EngramError) -> Seq<char> {
    match e {
        EngramError::NotInitialized => "not an engram project (run `engram init` first)"@,
        EngramError::InvalidRole(s) => "invalid context role: "@ + s@,
        EngramError::InvalidLevel(s) => "invalid context level: "@ + s@,
        EngramError::InvalidDecisionStatus(s) => "invalid decision status: "@ + s@,
        EngramError::InvalidTaskStatus(s) => "invalid task status: "@ + s@,
        EngramError::InvalidTaskPriority(s) => "invalid task priority: "@ + s@,
        EngramError::TaskNotFound(s) => "task not found: "@ + s@,
        EngramError::SessionNotFound(s) => "session not found: "@ + s@,
        EngramError::SessionVanished(s) => "session not found after update: "@ + s@,
        EngramError::TaskPrefixNotFound(s) => "task not found with ID prefix: "@ + s@,
        EngramError::DecisionPrefixNotFound(s) => "decision not found with ID prefix: "@ + s@,
        EngramError::NoActiveSession => "no active session to end"@,
        EngramError::SessionAlreadyActive { id, goal } => "session already active: "@ + id@ + " ("@
            + goal@ + "). End it first with `engram session end`"@,
        EngramError::UnsupportedExportVersion(v) => "unsupported export version: "@ + decimal(
            v as nat,
        ),
        EngramError::CorruptRow(t) => "corrupt row in table "@ + t@,
        EngramError::Sql(_) => "database error: "@,
        EngramError::Json(_) => "json error: "@,
    }
}

/// The answer of the MCP server to an error: as on the command line, but an
/// active session is reported with a shorter hint.
pub open spec fn tool_message_of(e: EngramError) -> Seq<char> {
    match e {
        EngramError::SessionAlreadyActive { id, goal } => "session already active: "@ + id@ + " ("@
            + goal@ + ") - end it first"@,
        _ => message_of(e),
    }
}

impl EngramError {
    /// The message of the error. For an error of the database or of JSON it
    /// is `message_of` followed by the outside error's own text.
    pub fn message(&self) -> (s: String)
        ensures
            match self {
                EngramError::Sql(_) | EngramError::Json(_) => has_prefix(s@, message_of(*self)),
                _ => s@ == message_of(*self),
            },
    {
        let mut s = String::new();
        match self {
            EngramError::NotInitialized => s.append("not an engram project (run `engram init` first)"),
            EngramError::InvalidRole(t) => {
                s.append("invalid context role: ");
                s.append(t.as_str());
            },
            EngramError::InvalidLevel(t) => {
                s.append("invalid context level: ");
                s.append(t.as_str());
            },
            EngramError::InvalidDecisionStatus(t) => {
                s.append("invalid decision status: ");
                s.append(t.as_str());
            },
            EngramError::InvalidTaskStatus(t) => {
                s.append("invalid task status: ");
                s.append(t.as_str());
            },
            EngramError::InvalidTaskPriority(t) => {
                s.append("invalid task priority: ");
                s.append(t.as_str());
            },
            EngramError::TaskNotFound(t) => {
                s.append("task not found: ");
                s.append(t.as_str());
            },
            EngramError::SessionNotFound(t) => {
                s.append("session not found: ");
                s.append(t.as_str());
            },
            EngramError::SessionVanished(t) => {
                s.append("session not found after update: ");
                s.append(t.as_str());
            },
            EngramError::TaskPrefixNotFound(t) => {
                s.append("task not found with ID prefix: ");
                s.append(t.as_str());
            },
            EngramError::DecisionPrefixNotFound(t) => {
                s.append("decision not found with ID prefix: ");
                s.append(t.as_str());
            },
            EngramError::NoActiveSession => s.append("no active session to end"),
            EngramError::SessionAlreadyActive { id, goal } => {
                s.append("session already active: ");
                s.append(id.as_str());
                s.append(" (");
                s.append(goal.as_str());
                s.append("). End it first with `engram session end`");
            },
            EngramError::UnsupportedExportVersion(v) => {
                let n = decimal_text(*v as usize);
                s.append("unsupported export version: ");
                s.append(n.as_str());
            },
            EngramError::CorruptRow(t) => {
                s.append("corrupt row in table ");
                s.append(t.as_str());
            },
            EngramError::Sql(e) => {
                let detail = sql_error_text(e);
                s.append("database error: ");
                let ghost head = s@;
                s.append(detail.as_str());
                proof {
                    assert(s@.take(head.len() as int) =~= head);
                }
            },
            EngramError::Json(e) => {
                let detail = json_error_text(e);
                s.append("json error: ");
                let ghost head = s@;
                s.append(detail.as_str());
                proof {
                    assert(s@.take(head.len() as int) =~= head);
                }
            },
        }
        s
    }

    /// The message of the error as the MCP server answers it.
    pub fn tool_message(&self) -> (s: String)
        ensures
            match self {
                EngramError::Sql(_) | EngramError::Json(_) => has_prefix(s@, tool_message_of(*self)),
                _ => s@ == tool_message_of(*self),
            },
    {
        match self {
            EngramError::SessionAlreadyActive { id, goal } => {
                let mut s = String::new();
                s.append("session already active: ");
                s.append(id.as_str());
                s.append(" (");
                s.append(goal.as_str());
                s.append(") - end it first");
                s
            },
            _ => self.message(),
        }
    }
}

} // verus!
