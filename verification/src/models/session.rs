use vstd::prelude::*;

verus! {

/// A work session: which agent worked on what, with its handoff notes.
#[derive(Debug)]
pub struct Session {
    pub id: String,
    pub agent: String,
    pub goal: String,
    pub handoff: Option<String>,
    pub tags: Vec<String>,
    /// RFC 3339 time in UTC.
    pub started_at: String,
    /// RFC 3339 time in UTC; `None` while the session is active.
    pub ended_at: Option<String>,
}

} // verus!
