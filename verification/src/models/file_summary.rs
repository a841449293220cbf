use vstd::prelude::*;

verus! {

/// What a source file does, its key types and dependencies, and the hash of
/// its content when it was summarized.
#[derive(Debug)]
pub struct FileSummary {
    pub id: String,
    pub path: String,
    pub summary: String,
    pub key_types: Vec<String>,
    pub dependencies: Vec<String>,
    pub tags: Vec<String>,
    pub content_hash: String,
    /// RFC 3339 time in UTC.
    pub created_at: String,
    /// RFC 3339 time in UTC.
    pub updated_at: String,
}

} // verus!
