//! The parameters of the MCP tools.

use vstd::prelude::*;

verus! {

/// Parameters of `get_context`.
#[derive(Debug)]
pub struct GetContextParams {
    /// Role filter: build, review, debug, resume.
    pub role: Option<String>,
    /// Detail level: minimal, standard, full.
    pub level: Option<String>,
}

/// Parameters of `add_decision`.
#[derive(Debug)]
pub struct AddDecisionParams {
    /// Short title for the decision.
    pub title: String,
    /// Why the decision was needed.
    pub context: String,
    /// What was decided.
    pub decision: String,
    /// Alternatives that were considered.
    pub alternatives: Option<Vec<String>>,
    /// Tags for categorization.
    pub tags: Option<Vec<String>>,
}

/// Parameters of `update_task`.
#[derive(Debug)]
pub struct UpdateTaskParams {
    /// Task id or id prefix.
    pub id: String,
    /// New status: todo, in_progress, done, blocked.
    pub status: String,
}

/// Parameters of `summarize_file`.
#[derive(Debug)]
pub struct SummarizeFileParams {
    /// File path relative to the project root.
    pub path: String,
    /// What the file does.
    pub summary: String,
    /// Key types, structs or functions.
    pub key_types: Option<Vec<String>>,
    /// Dependencies or imports.
    pub dependencies: Option<Vec<String>>,
    /// Tags for categorization.
    pub tags: Option<Vec<String>>,
}

/// Parameters of `start_session`.
#[derive(Debug)]
pub struct StartSessionParams {
    /// Agent name.
    pub agent: Option<String>,
    /// What the session aims to accomplish.
    pub goal: String,
    /// Tags for categorization.
    pub tags: Option<Vec<String>>,
}

/// Parameters of `end_session`.
#[derive(Debug)]
pub struct EndSessionParams {
    /// Handoff notes for the next agent.
    pub handoff: String,
}

/// Parameters of `search`.
#[derive(Debug)]
pub struct SearchParams {
    /// Search query (FTS5 syntax).
    pub query: String,
    /// Filter by entity type: decision, task, file, session.
    pub entity_type: Option<String>,
}

} // verus!
