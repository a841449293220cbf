//! Engram: a memory store for AI agents.
//!
//! Decisions, tasks, file summaries and work sessions are kept in a local
//! SQLite database; the engine renders them as token-efficient markdown,
//! filtered by role and detail level.

pub mod cli;
pub mod engine;
pub mod error;
pub mod external;
pub mod mcp;
pub mod models;
pub mod storage;
pub mod text;

use vstd::prelude::*;

use error::EngramError;
use external::path_is_dir;

verus! {

/// The database path of a project whose `.engram` directory exists, and the
/// error that reports a directory that is not a project otherwise.
pub fn db_path_for(engram_dir_exists: bool) -> (r: Result<String, EngramError>)
    ensures
        engram_dir_exists ==> (r matches Ok(p) && p@ == ".engram/memory.db"@),
        !engram_dir_exists ==> (r matches Err(EngramError::NotInitialized)),
{
    if !engram_dir_exists {
        return Err(EngramError::NotInitialized);
    }
    Ok(".engram/memory.db".to_owned())
}

/// Locates the `.engram/memory.db` database of the project in the current
/// directory; fails with `NotInitialized` when there is no `.engram`
/// directory there (a file of that name does not count). Beside the answer,
/// a ghost record of the path asked about and of whether a directory was
/// found there.
pub fn find_engram_db() -> (r: (Result<String, EngramError>, Ghost<(Seq<char>, bool)>))
    ensures
        r.1@.0 == ".engram"@,
        r.1@.1 ==> (r.0 matches Ok(p) && p@ == ".engram/memory.db"@),
        !r.1@.1 ==> (r.0 matches Err(EngramError::NotInitialized)),
{
    let (found, asked) = path_is_dir(".engram");
    (db_path_for(found), Ghost((asked@, found)))
}

} // verus!
