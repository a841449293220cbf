use vstd::prelude::*;

verus! {

/// Project metadata: name, description, tech stack and conventions.
#[derive(Debug)]
pub struct ProjectMeta {
    pub name: String,
    pub description: String,
    pub stack: Vec<String>,
    pub conventions: Vec<String>,
    /// RFC 3339 time in UTC.
    pub created_at: String,
    /// RFC 3339 time in UTC.
    pub updated_at: String,
}

} // verus!
