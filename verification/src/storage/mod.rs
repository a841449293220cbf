//! SQLite storage of all memory types, with full-text search.
//!
//! A `Store` keeps, as ghost state, the transcript of every request it sent
//! to the database and the reply it got. The contracts of its methods say
//! which SQL and which parameters each method sends, in which order, and what
//! it makes of the replies. What SQLite stores and answers is its own matter:
//! no contract claims that a query gives back what a statement wrote.

pub mod calls;
pub mod cells;
pub mod rows;
pub mod schema;

use vstd::prelude::*;

use crate::error::EngramError;
use crate::external::{
    is_uuid_v4_text, new_id, now_timestamp, sql_execute, sql_execute_batch,
    sql_next_row, sql_open, sql_open_in_memory, sql_prepare, sql_query, sql_text_column,
};
use crate::models::{
    Decision, DecisionStatus, FileSummary, ProjectMeta, Session, Task, TaskPriority, TaskStatus,
};
use crate::text::{copy_strings, decimal_text, join, spaced, views};
use cells::{
    decision_cells, decision_params, file_cells, file_params, json_list, meta_cells, meta_params,
    session_cells, session_params, task_cells, task_params, texts,
};
use rows::{
    ReadKind, decision_lookup, decisions_reply, decode_decisions, decode_file_summaries, decode_hits,
    decode_meta, decode_sessions, decode_tasks, file_lookup, files_reply, hits_reply,
    lemma_rows_view, meta_lookup, rows_view, session_from_row, session_lookup, session_row_decodes,
    sessions_reply, task_lookup,
    tasks_reply,
};
use schema::{CREATE_TABLES, PRAGMAS};
use calls::{
    asked, changed_of, extends, found_id, grows, handoff_text, index_body, json_cell, limit_cell, made,
    request_run, succeeded,
    new_call, rows_of, DbCall, Reply,
};

verus! {

broadcast use calls::group_transcript;

/// Maps a database error into the library's error.
fn db<T>(r: Result<T, rusqlite::Error>) -> (out: Result<T, EngramError>)
    ensures
        r is Ok <==> out is Ok,
        r matches Ok(v) ==> out == Ok::<T, EngramError>(v),
        out matches Err(e) ==> e is Sql,
{
    match r {
        Ok(v) => Ok(v),
        Err(e) => Err(EngramError::Sql(e)),
    }
}

// ── The SQL the store sends ──

pub open spec fn sql_get_meta() -> Seq<char> {
    "SELECT name, description, stack, conventions, created_at, updated_at FROM project_meta LIMIT 1"@
}

pub open spec fn sql_delete_meta() -> Seq<char> {
    "DELETE FROM project_meta"@
}

pub open spec fn sql_insert_new_meta() -> Seq<char> {
    "INSERT INTO project_meta (name, description, stack, conventions, created_at, updated_at) VALUES (?1, ?2, '[]', '[]', ?3, ?3)"@
}

pub open spec fn sql_update_stack() -> Seq<char> {
    "UPDATE project_meta SET stack = ?1, updated_at = ?2"@
}

pub open spec fn sql_update_conventions() -> Seq<char> {
    "UPDATE project_meta SET conventions = ?1, updated_at = ?2"@
}

pub open spec fn sql_insert_decision() -> Seq<char> {
    "INSERT INTO decisions (id, title, context, decision, alternatives, tags, status, created_at, updated_at) VALUES (?1, ?2, ?3, ?4, ?5, ?6, 'active', ?7, ?7)"@
}

pub open spec fn sql_index_decision() -> Seq<char> {
    "INSERT INTO search_index (entity_id, entity_type, body) VALUES (?1, 'decision', ?2)"@
}

pub open spec fn sql_index_task() -> Seq<char> {
    "INSERT INTO search_index (entity_id, entity_type, body) VALUES (?1, 'task', ?2)"@
}

pub open spec fn sql_index_file() -> Seq<char> {
    "INSERT INTO search_index (entity_id, entity_type, body) VALUES (?1, 'file', ?2)"@
}

pub open spec fn sql_index_session() -> Seq<char> {
    "INSERT INTO search_index (entity_id, entity_type, body) VALUES (?1, 'session', ?2)"@
}

pub open spec fn sql_list_decisions(by_status: bool) -> Seq<char> {
    if by_status {
        "SELECT id, title, context, decision, alternatives, tags, status, created_at, updated_at FROM decisions WHERE status = ?1 ORDER BY created_at DESC LIMIT 500"@
    } else {
        "SELECT id, title, context, decision, alternatives, tags, status, created_at, updated_at FROM decisions ORDER BY created_at DESC LIMIT 500"@
    }
}

pub open spec fn sql_get_decision() -> Seq<char> {
    "SELECT id, title, context, decision, alternatives, tags, status, created_at, updated_at FROM decisions WHERE id = ?1"@
}

pub open spec fn sql_insert_task() -> Seq<char> {
    "INSERT INTO tasks (id, title, description, status, priority, phase, tags, created_at, updated_at) VALUES (?1, ?2, ?3, 'todo', ?4, ?5, ?6, ?7, ?7)"@
}

pub open spec fn sql_update_task_status() -> Seq<char> {
    "UPDATE tasks SET status = ?1, updated_at = ?2 WHERE id = ?3"@
}

pub open spec fn sql_list_tasks(by_status: bool) -> Seq<char> {
    if by_status {
        "SELECT id, title, description, status, priority, phase, tags, created_at, updated_at FROM tasks WHERE status = ?1 ORDER BY created_at DESC LIMIT 1000"@
    } else {
        "SELECT id, title, description, status, priority, phase, tags, created_at, updated_at FROM tasks ORDER BY created_at DESC LIMIT 1000"@
    }
}

pub open spec fn sql_get_task() -> Seq<char> {
    "SELECT id, title, description, status, priority, phase, tags, created_at, updated_at FROM tasks WHERE id = ?1"@
}

pub open spec fn sql_file_id_by_path() -> Seq<char> {
    "SELECT id FROM file_summaries WHERE path = ?1"@
}

pub open spec fn sql_upsert_file() -> Seq<char> {
    "INSERT INTO file_summaries (id, path, summary, key_types, dependencies, tags, content_hash, created_at, updated_at) VALUES (?1, ?2, ?3, ?4, ?5, ?6, ?7, ?8, ?8) ON CONFLICT(path) DO UPDATE SET summary=?3, key_types=?4, dependencies=?5, tags=?6, content_hash=?7, updated_at=?8"@
}

pub open spec fn sql_unindex_file() -> Seq<char> {
    "DELETE FROM search_index WHERE entity_id = ?1 AND entity_type = 'file'"@
}

pub open spec fn sql_unindex_session() -> Seq<char> {
    "DELETE FROM search_index WHERE entity_id = ?1 AND entity_type = 'session'"@
}

pub open spec fn sql_list_files() -> Seq<char> {
    "SELECT id, path, summary, key_types, dependencies, tags, content_hash, created_at, updated_at FROM file_summaries ORDER BY path LIMIT 1000"@
}

pub open spec fn sql_file_by_path() -> Seq<char> {
    "SELECT id, path, summary, key_types, dependencies, tags, content_hash, created_at, updated_at FROM file_summaries WHERE path = ?1"@
}

pub open spec fn sql_file_by_id() -> Seq<char> {
    "SELECT id, path, summary, key_types, dependencies, tags, content_hash, created_at, updated_at FROM file_summaries WHERE id = ?1"@
}

pub open spec fn sql_insert_session() -> Seq<char> {
    "INSERT INTO sessions (id, agent, goal, tags, started_at) VALUES (?1, ?2, ?3, ?4, ?5)"@
}

pub open spec fn sql_end_session() -> Seq<char> {
    "UPDATE sessions SET handoff = ?1, ended_at = ?2 WHERE id = ?3"@
}

pub open spec fn sql_active_session() -> Seq<char> {
    "SELECT id, agent, goal, handoff, tags, started_at, ended_at FROM sessions WHERE ended_at IS NULL ORDER BY started_at DESC LIMIT 1"@
}

pub open spec fn sql_get_session() -> Seq<char> {
    "SELECT id, agent, goal, handoff, tags, started_at, ended_at FROM sessions WHERE id = ?1"@
}

pub open spec fn sql_list_sessions() -> Seq<char> {
    "SELECT id, agent, goal, handoff, tags, started_at, ended_at FROM sessions ORDER BY started_at DESC LIMIT ?1"@
}

pub open spec fn sql_import_decision() -> Seq<char> {
    "INSERT OR REPLACE INTO decisions (id, title, context, decision, alternatives, tags, status, created_at, updated_at) VALUES (?1, ?2, ?3, ?4, ?5, ?6, ?7, ?8, ?9)"@
}

pub open spec fn sql_import_task() -> Seq<char> {
    "INSERT OR REPLACE INTO tasks (id, title, description, status, priority, phase, tags, created_at, updated_at) VALUES (?1, ?2, ?3, ?4, ?5, ?6, ?7, ?8, ?9)"@
}

pub open spec fn sql_import_file() -> Seq<char> {
    "INSERT OR REPLACE INTO file_summaries (id, path, summary, key_types, dependencies, tags, content_hash, created_at, updated_at) VALUES (?1, ?2, ?3, ?4, ?5, ?6, ?7, ?8, ?9)"@
}

pub open spec fn sql_import_session() -> Seq<char> {
    "INSERT OR REPLACE INTO sessions (id, agent, goal, handoff, tags, started_at, ended_at) VALUES (?1, ?2, ?3, ?4, ?5, ?6, ?7)"@
}

pub open spec fn sql_import_meta() -> Seq<char> {
    "INSERT INTO project_meta (name, description, stack, conventions, created_at, updated_at) VALUES (?1, ?2, ?3, ?4, ?5, ?6)"@
}

pub open spec fn sql_search(by_type: bool) -> Seq<char> {
    if by_type {
        "SELECT entity_id, entity_type FROM search_index WHERE search_index MATCH ?1 AND entity_type = ?2 ORDER BY rank LIMIT 200"@
    } else {
        "SELECT entity_id, entity_type FROM search_index WHERE search_index MATCH ?1 ORDER BY rank LIMIT 200"@
    }
}

// ── What a search answer reads ──

/// The read that a call of a search answer makes: the lookup of a decision,
/// task, file summary or session by id, else the search itself.
pub open spec fn search_read_kind(c: DbCall) -> ReadKind {
    if c.sql == sql_get_decision() {
        ReadKind::OneDecision
    } else if c.sql == sql_get_task() {
        ReadKind::OneTask
    } else if c.sql == sql_file_by_id() {
        ReadKind::OneFile
    } else if c.sql == sql_get_session() {
        ReadKind::OneSession
    } else {
        ReadKind::Hits
    }
}

/// The search queries and the lookups by id or path are different texts.
pub proof fn lemma_search_queries_differ()
    ensures
        sql_get_task() != sql_get_decision(),
        sql_file_by_id() != sql_get_decision() && sql_file_by_id() != sql_get_task(),
        sql_get_session() != sql_get_decision() && sql_get_session() != sql_get_task()
            && sql_get_session() != sql_file_by_id(),
        sql_file_by_path() != sql_get_decision() && sql_file_by_path() != sql_get_task()
            && sql_file_by_path() != sql_get_session() && sql_file_by_path() != sql_file_by_id(),
        forall|t: bool|
            #![trigger sql_search(t)]
            sql_search(t) != sql_file_by_path(),
        forall|t: bool|
            #![trigger sql_search(t)]
            sql_search(t) != sql_get_decision() && sql_search(t) != sql_get_task() && sql_search(t)
                != sql_file_by_id() && sql_search(t) != sql_get_session(),
{
    reveal_strlit("SELECT id, title, context, decision, alternatives, tags, status, created_at, updated_at FROM decisions WHERE id = ?1");
    reveal_strlit("SELECT id, title, description, status, priority, phase, tags, created_at, updated_at FROM tasks WHERE id = ?1");
    reveal_strlit("SELECT id, path, summary, key_types, dependencies, tags, content_hash, created_at, updated_at FROM file_summaries WHERE id = ?1");
    reveal_strlit("SELECT id, agent, goal, handoff, tags, started_at, ended_at FROM sessions WHERE id = ?1");
    reveal_strlit("SELECT entity_id, entity_type FROM search_index WHERE search_index MATCH ?1 AND entity_type = ?2 ORDER BY rank LIMIT 200");
    reveal_strlit("SELECT entity_id, entity_type FROM search_index WHERE search_index MATCH ?1 ORDER BY rank LIMIT 200");
    assert(sql_get_decision().len() == 116);
    assert(sql_get_task().len() == 109);
    assert(sql_file_by_id().len() == 127);
    reveal_strlit("SELECT id, path, summary, key_types, dependencies, tags, content_hash, created_at, updated_at FROM file_summaries WHERE path = ?1");
    assert(sql_file_by_path().len() == 129);
    assert(sql_get_session().len() == 87);
    assert(sql_search(true).len() == 120);
    assert(sql_search(false).len() == 99);
}

// ── What a write sends and gives back ──

/// The same outcome without its value: `Ok(())` for any `Ok`, the error as it is.
pub open spec fn unit_of<T>(r: Result<T, EngramError>) -> Result<(), EngramError> {
    match r {
        Ok(_) => Ok(()),
        Err(e) => Err(e),
    }
}

/// Whether `c` set the status of the task with an id, and `r` is what its
/// reply gives: fine when it changed a row, `TaskNotFound` when it changed
/// none, `Sql` when it failed.
pub open spec fn task_status_set(c: DbCall, id: Seq<char>, status: TaskStatus, r: Result<(), EngramError>) -> bool {
    &&& c.sql == sql_update_task_status() && c.params.len() == 3
    &&& c.params[0] == Some(status.label()) && c.params[1] is Some
    &&& c.params[2] == Some(id)
    &&& match changed_of(c) {
        Some(n) => (n > 0 <==> r is Ok) && (n == 0 ==> (r matches Err(EngramError::TaskNotFound(t)) && t@ == id)),
        None => r matches Err(EngramError::Sql(_)),
    }
}

/// Whether the calls made after `before` set the project's name and
/// description, and `r` is what the replies give: the old metadata is
/// deleted, then the new row is inserted; the run stops at the first
/// failure, which is an `Sql` error.
pub open spec fn meta_set_run(
    before: Seq<DbCall>,
    after: Seq<DbCall>,
    name: Seq<char>,
    description: Seq<char>,
    r: Result<(), EngramError>,
) -> bool {
    let c1 = new_call(before, after, 1);
    &&& request_run(before, after, 2, r is Ok)
    &&& asked(new_call(before, after, 0), sql_delete_meta(), Seq::empty())
    &&& made(before, after) == 2 ==> (c1.sql == sql_insert_new_meta() && c1.params.len() == 3
        && c1.params[0] == Some(name) && c1.params[1] == Some(description) && c1.params[2] is Some)
    &&& r matches Err(e) ==> e is Sql
}

/// Whether the calls made after `before` recorded a decision, and `r` is
/// what the replies give: its row is inserted under a fresh id (as active,
/// with one time for its creation and update), then its title, context and
/// decision are indexed; the run stops at the first failure, which is an
/// `Sql` error.
pub open spec fn decision_add_run(
    before: Seq<DbCall>,
    after: Seq<DbCall>,
    title: Seq<char>,
    context: Seq<char>,
    decision: Seq<char>,
    alternatives: Seq<String>,
    tags: Seq<String>,
    r: Result<Decision, EngramError>,
) -> bool {
    let c0 = new_call(before, after, 0);
    let c1 = new_call(before, after, 1);
    &&& request_run(before, after, 2, r is Ok)
    &&& c0.sql == sql_insert_decision() && c0.params.len() == 7
    &&& (c0.params[0] matches Some(id) && is_uuid_v4_text(id))
    &&& c0.params[1] == Some(title) && c0.params[2] == Some(context)
    &&& c0.params[3] == Some(decision) && c0.params[4] == json_cell(alternatives)
    &&& c0.params[5] == json_cell(tags) && c0.params[6] is Some
    &&& made(before, after) == 2 ==> asked(c1, sql_index_decision(), seq![c0.params[0],
        Some(index_body(seq![title, context, decision]))])
    &&& r matches Err(e) ==> e is Sql
    &&& r matches Ok(d) ==> {
        &&& d.title@ == title
        &&& d.context@ == context
        &&& d.decision@ == decision
        &&& views(d.alternatives@) == views(alternatives)
        &&& views(d.tags@) == views(tags)
        &&& d.status == DecisionStatus::Active
        &&& d.updated_at@ == d.created_at@
        &&& c0.params[0] == Some(d.id@)
        &&& c0.params[6] == Some(d.created_at@)
    }
}

/// Whether the calls made after `before` stored the summary of a path, and
/// `r` is what the replies give: the id the path has is looked up (a failed
/// lookup counts as none), the row is upserted under that id or a fresh one,
/// the path's old index entry is dropped (whatever the reply) and the path
/// and summary are indexed; the outcome is fine exactly when the upsert and
/// the indexing succeed, and a failure is an `Sql` error.
pub open spec fn file_upsert_run(
    before: Seq<DbCall>,
    after: Seq<DbCall>,
    path: Seq<char>,
    summary: Seq<char>,
    key_types: Seq<String>,
    dependencies: Seq<String>,
    tags: Seq<String>,
    content_hash: Seq<char>,
    r: Result<FileSummary, EngramError>,
) -> bool {
    let m = made(before, after);
    let c0 = new_call(before, after, 0);
    let c1 = new_call(before, after, 1);
    &&& grows(before, after)
    &&& m == 2 || m == 4
    &&& asked(c0, sql_file_id_by_path(), seq![Some(path)])
    &&& c1.sql == sql_upsert_file() && c1.params.len() == 8
    &&& (c1.params[0] matches Some(id) && match found_id(c0) {
        Some(existing) => id == existing,
        None => is_uuid_v4_text(id),
    })
    &&& c1.params[1] == Some(path) && c1.params[2] == Some(summary)
    &&& c1.params[3] == json_cell(key_types) && c1.params[4] == json_cell(dependencies)
    &&& c1.params[5] == json_cell(tags) && c1.params[6] == Some(content_hash) && c1.params[7] is Some
    &&& (m == 4 <==> succeeded(c1))
    &&& m == 4 ==> asked(new_call(before, after, 2), sql_unindex_file(), seq![c1.params[0]])
        && asked(new_call(before, after, 3), sql_index_file(), seq![c1.params[0], Some(index_body(seq![path, summary]))])
    &&& (r is Ok <==> (m == 4 && succeeded(after.last())))
    &&& r matches Err(e) ==> e is Sql
    &&& r matches Ok(f) ==> {
        &&& f.path@ == path
        &&& f.summary@ == summary
        &&& views(f.key_types@) == views(key_types)
        &&& views(f.dependencies@) == views(dependencies)
        &&& views(f.tags@) == views(tags)
        &&& f.content_hash@ == content_hash
        &&& f.updated_at@ == f.created_at@
        &&& c1.params[0] == Some(f.id@)
        &&& c1.params[7] == Some(f.created_at@)
    }
}

/// Whether the calls made after `before` added a task, and `r` is what the
/// replies give: its row is inserted under a fresh id (to do, with one time
/// for its creation and update), then its title and description are
/// indexed; the run stops at the first failure, which is an `Sql` error.
pub open spec fn task_add_run(
    before: Seq<DbCall>,
    after: Seq<DbCall>,
    title: Seq<char>,
    description: Seq<char>,
    priority: TaskPriority,
    phase: Option<Seq<char>>,
    tags: Seq<String>,
    r: Result<Task, EngramError>,
) -> bool {
    let c0 = new_call(before, after, 0);
    let c1 = new_call(before, after, 1);
    &&& request_run(before, after, 2, r is Ok)
    &&& c0.sql == sql_insert_task() && c0.params.len() == 7
    &&& (c0.params[0] matches Some(id) && is_uuid_v4_text(id))
    &&& c0.params[1] == Some(title) && c0.params[2] == Some(description)
    &&& c0.params[3] == Some(priority.label()) && c0.params[4] == phase
    &&& c0.params[5] == json_cell(tags) && c0.params[6] is Some
    &&& made(before, after) == 2 ==> asked(c1, sql_index_task(), seq![c0.params[0],
        Some(index_body(seq![title, description]))])
    &&& r matches Err(e) ==> e is Sql
    &&& r matches Ok(t) ==> {
        &&& t.title@ == title
        &&& t.description@ == description
        &&& t.status == TaskStatus::Todo
        &&& t.priority == priority
        &&& match t.phase {
            Some(q) => phase == Some(q@),
            None => phase is None,
        }
        &&& views(t.tags@) == views(tags)
        &&& t.updated_at@ == t.created_at@
        &&& c0.params[0] == Some(t.id@)
        &&& c0.params[6] == Some(t.created_at@)
    }
}

/// Whether the calls made after `before` started a session with an agent,
/// goal and tags, and `r` is what the replies give: the row is inserted
/// under a fresh id, then the agent and goal are indexed; the run stops at
/// the first failure, which is an `Sql` error.
pub open spec fn session_start_run(
    before: Seq<DbCall>,
    after: Seq<DbCall>,
    agent: Seq<char>,
    goal: Seq<char>,
    tags: Seq<String>,
    r: Result<Session, EngramError>,
) -> bool {
    let c0 = new_call(before, after, 0);
    let c1 = new_call(before, after, 1);
    &&& request_run(before, after, 2, r is Ok)
    &&& c0.sql == sql_insert_session() && c0.params.len() == 5
    &&& (c0.params[0] matches Some(id) && is_uuid_v4_text(id))
    &&& c0.params[1] == Some(agent) && c0.params[2] == Some(goal)
    &&& c0.params[3] == json_cell(tags) && c0.params[4] is Some
    &&& made(before, after) == 2 ==> asked(c1, sql_index_session(), seq![c0.params[0], Some(index_body(seq![agent, goal]))])
    &&& r matches Err(e) ==> e is Sql
    &&& r matches Ok(s) ==> {
        &&& s.agent@ == agent
        &&& s.goal@ == goal
        &&& s.handoff is None
        &&& views(s.tags@) == views(tags)
        &&& s.ended_at is None
        &&& c0.params[0] == Some(s.id@)
        &&& c0.params[4] == Some(s.started_at@)
    }
}

/// Whether the calls made after `before` ended the session with an id, and
/// `r` is what the replies give: the end is recorded (`Sql` when that
/// fails, `SessionNotFound` when it changed no row), the old index entry is
/// dropped (whatever the reply), the session is read back (`Sql`,
/// `SessionVanished` when it is gone, `CorruptRow` when its row does not
/// decode) and its agent, goal and handoff notes are indexed, which is fine
/// exactly when that last request succeeds.
pub open spec fn session_end_run(
    before: Seq<DbCall>,
    after: Seq<DbCall>,
    id: Seq<char>,
    handoff: Seq<char>,
    r: Result<(), EngramError>,
) -> bool {
    let m = made(before, after);
    let c0 = new_call(before, after, 0);
    let c1 = new_call(before, after, 1);
    let c2 = new_call(before, after, 2);
    let c3 = new_call(before, after, 3);
    &&& grows(before, after)
    &&& 1 <= m <= 4 && m != 2
    &&& c0.sql == sql_end_session() && c0.params.len() == 3
    &&& c0.params[0] == Some(handoff) && c0.params[1] is Some && c0.params[2] == Some(id)
    &&& (changed_of(c0) is None ==> (r matches Err(EngramError::Sql(_))))
    &&& (changed_of(c0) == Some(0nat) ==> (r matches Err(EngramError::SessionNotFound(t)) && t@ == id))
    &&& (m == 1 <==> !(changed_of(c0) matches Some(n) && n > 0))
    &&& m > 1 ==> asked(c1, sql_unindex_session(), seq![Some(id)]) && asked(c2, sql_get_session(), seq![Some(id)])
    &&& m > 1 ==> (m == 4 <==> (rows_of(c2) matches Some(rows) && rows.len() > 0 && session_row_decodes(rows[0])))
    &&& (m > 1 && rows_of(c2) is None ==> (r matches Err(EngramError::Sql(_))))
    &&& (m > 1 && (rows_of(c2) matches Some(rows) && rows.len() == 0) ==> (r matches Err(
        EngramError::SessionVanished(t),
    ) && t@ == id))
    &&& (m > 1 && (rows_of(c2) matches Some(rows) && rows.len() > 0 && !session_row_decodes(rows[0])) ==> (
    r matches Err(EngramError::CorruptRow(t)) && t@ == "sessions"@))
    &&& m == 4 ==> (rows_of(c2) matches Some(rows) && exists|s: Session|
        #[trigger] session_from_row(s, rows[0]) && asked(
            c3,
            sql_index_session(),
            seq![Some(id), Some(index_body(seq![s.agent@, s.goal@, handoff]))],
        ))
    &&& m == 4 ==> (r is Ok <==> succeeded(after.last()))
    &&& m == 4 && r is Err ==> r matches Err(EngramError::Sql(_))
}

// ── What the runs of writes keep ──

/// Two texts joined by a separator.
proof fn lemma_join_two(a: Seq<char>, b: Seq<char>, sep: Seq<char>)
    ensures
        join(seq![a, b], sep) == a + sep + b,
{
    assert(seq![a, b].drop_last() =~= seq![a]);
    assert(join(seq![a], sep) == a);
    assert(join(seq![a, b], sep) == join(seq![a], sep) + sep + b);
}

/// Three texts joined by a separator.
proof fn lemma_join_three(a: Seq<char>, b: Seq<char>, c: Seq<char>, sep: Seq<char>)
    ensures
        join(seq![a, b, c], sep) == a + sep + b + sep + c,
{
    assert(seq![a, b, c].drop_last() =~= seq![a, b]);
    lemma_join_two(a, b, sep);
    assert(join(seq![a, b, c], sep) == join(seq![a, b], sep) + sep + c);
}

/// Recording a decision indexes it for search under its id with the text
/// made of its title, context and decision joined by single spaces, so every
/// word of each of them is found by a search.
pub proof fn law_decision_index_text(
    before: Seq<DbCall>,
    after: Seq<DbCall>,
    title: Seq<char>,
    context: Seq<char>,
    decision: Seq<char>,
    alternatives: Seq<String>,
    tags: Seq<String>,
    r: Result<Decision, EngramError>,
)
    requires
        decision_add_run(before, after, title, context, decision, alternatives, tags, r),
    ensures
        made(before, after) == 2 ==> new_call(before, after, 1).sql == sql_index_decision() && new_call(
            before,
            after,
            1,
        ).params == seq![new_call(before, after, 0).params[0], Some(title + " "@ + context + " "@ + decision)],
        r matches Ok(d) ==> made(before, after) == 2 && new_call(before, after, 1).params == seq![
            Some(d.id@),
            Some(title + " "@ + context + " "@ + decision),
        ],
{
    lemma_join_three(title, context, decision, " "@);
}

/// Adding a task indexes it for search under its id with its title and
/// description joined by a space.
pub proof fn law_task_index_text(
    before: Seq<DbCall>,
    after: Seq<DbCall>,
    title: Seq<char>,
    description: Seq<char>,
    priority: TaskPriority,
    phase: Option<Seq<char>>,
    tags: Seq<String>,
    r: Result<Task, EngramError>,
)
    requires
        task_add_run(before, after, title, description, priority, phase, tags, r),
    ensures
        made(before, after) == 2 ==> new_call(before, after, 1).sql == sql_index_task() && new_call(
            before,
            after,
            1,
        ).params == seq![new_call(before, after, 0).params[0], Some(title + " "@ + description)],
        r matches Ok(t) ==> made(before, after) == 2 && t.status == TaskStatus::Todo && new_call(before, after, 1).params
            == seq![Some(t.id@), Some(title + " "@ + description)],
{
    lemma_join_two(title, description, " "@);
}

/// Ending a session indexes it anew under its id with its agent, goal and
/// handoff notes joined by spaces, after dropping its old entry.
pub proof fn law_session_end_index_text(
    before: Seq<DbCall>,
    after: Seq<DbCall>,
    id: Seq<char>,
    handoff: Seq<char>,
    r: Result<(), EngramError>,
)
    requires
        session_end_run(before, after, id, handoff, r),
        r is Ok,
    ensures
        made(before, after) == 4,
        new_call(before, after, 1).params == seq![Some(id)],
        new_call(before, after, 3).sql == sql_index_session(),
        exists|s: Session|
            #[trigger] session_from_row(s, rows_of(new_call(before, after, 2))->0[0]) && new_call(before, after, 3).params
                == seq![Some(id), Some(s.agent@ + " "@ + s.goal@ + " "@ + handoff)],
{
    let rows = rows_of(new_call(before, after, 2))->0;
    let s = choose|s: Session|
        #[trigger] session_from_row(s, rows[0]) && asked(
            new_call(before, after, 3),
            sql_index_session(),
            seq![Some(id), Some(index_body(seq![s.agent@, s.goal@, handoff]))],
        );
    lemma_join_three(s.agent@, s.goal@, handoff, " "@);
}

/// Starting a session indexes it for search under its id with its agent and
/// goal joined by a space.
pub proof fn law_session_index_text(
    before: Seq<DbCall>,
    after: Seq<DbCall>,
    agent: Seq<char>,
    goal: Seq<char>,
    tags: Seq<String>,
    r: Result<Session, EngramError>,
)
    requires
        session_start_run(before, after, agent, goal, tags, r),
    ensures
        made(before, after) == 2 ==> new_call(before, after, 1).sql == sql_index_session() && new_call(
            before,
            after,
            1,
        ).params == seq![new_call(before, after, 0).params[0], Some(agent + " "@ + goal)],
        r matches Ok(s) ==> made(before, after) == 2 && new_call(before, after, 1).params == seq![
            Some(s.id@),
            Some(agent + " "@ + goal),
        ],
{
    lemma_join_two(agent, goal, " "@);
}

/// Storing the summary of a path that already has one keeps that summary's
/// id: the id that the lookup by path found is the one the upsert binds, the
/// one whose old index entry is dropped, the one indexed anew with the path
/// and summary, and the one given back.
pub proof fn law_upsert_keeps_found_id(
    before: Seq<DbCall>,
    after: Seq<DbCall>,
    path: Seq<char>,
    summary: Seq<char>,
    key_types: Seq<String>,
    dependencies: Seq<String>,
    tags: Seq<String>,
    content_hash: Seq<char>,
    r: Result<FileSummary, EngramError>,
    existing: String,
)
    requires
        file_upsert_run(before, after, path, summary, key_types, dependencies, tags, content_hash, r),
        rows_of(new_call(before, after, 0)) matches Some(rows) && rows.len() > 0 && rows[0].len() > 0
            && rows[0][0] == Some(existing),
    ensures
        asked(new_call(before, after, 0), sql_file_id_by_path(), seq![Some(path)]),
        new_call(before, after, 1).params[0] == Some(existing@),
        made(before, after) == 4 ==> new_call(before, after, 2).params == seq![Some(existing@)]
            && new_call(before, after, 3).params == seq![Some(existing@), Some(path + " "@ + summary)],
        r matches Ok(f) ==> f.id@ == existing@,
{
    lemma_join_two(path, summary, " "@);
}

/// Storing the summary of a path that has none (or whose lookup failed)
/// takes a fresh id.
pub proof fn law_upsert_new_path_fresh_id(
    before: Seq<DbCall>,
    after: Seq<DbCall>,
    path: Seq<char>,
    summary: Seq<char>,
    key_types: Seq<String>,
    dependencies: Seq<String>,
    tags: Seq<String>,
    content_hash: Seq<char>,
    r: Result<FileSummary, EngramError>,
)
    requires
        file_upsert_run(before, after, path, summary, key_types, dependencies, tags, content_hash, r),
        rows_of(new_call(before, after, 0)) matches Some(rows) ==> rows.len() == 0,
    ensures
        new_call(before, after, 1).params[0] matches Some(id) && is_uuid_v4_text(id),
        r matches Ok(f) ==> is_uuid_v4_text(f.id@),
{
}

/// SQLite-backed storage for all memory types, with one full-text index over
/// all of them.
pub struct Store {
    conn: rusqlite::Connection,
    /// Every request sent to the database so far, with its reply.
    log: Ghost<Seq<DbCall>>,
    /// The path the database was opened at (none for one in memory) and the
    /// batches of SQL run on it when it was opened.
    setup: Ghost<(Option<Seq<char>>, Seq<Seq<char>>)>,
}

/// Reads at most `max_rows` rows of a query that is running, the text of
/// `ncols` columns each.
fn fetch_rows(rows: &mut rusqlite::Rows<'_>, ncols: usize, max_rows: usize) -> (r: Result<
    Vec<Vec<Option<String>>>,
    EngramError,
>)
    ensures
        r matches Ok(rows) ==> rows@.len() <= max_rows && forall|i: int|
            0 <= i < rows@.len() ==> #[trigger] rows@[i]@.len() == ncols,
        r matches Err(e) ==> e is Sql,
{
    let mut out: Vec<Vec<Option<String>>> = Vec::new();
    while out.len() < max_rows
        invariant
            out@.len() <= max_rows,
            forall|i: int| 0 <= i < out@.len() ==> #[trigger] out@[i]@.len() == ncols,
        decreases max_rows - out@.len(),
    {
        let next = db(sql_next_row(rows))?;
        match next {
            None => break,
            Some(row) => {
                let mut cells: Vec<Option<String>> = Vec::new();
                let mut i: usize = 0;
                while i < ncols
                    invariant
                        0 <= i <= ncols,
                        cells@.len() == i,
                    decreases ncols - i,
                {
                    let c = db(sql_text_column(row, i))?;
                    cells.push(c);
                    i += 1;
                }
                out.push(cells);
            },
        }
    }
    Ok(out)
}

/// Prepares a query, runs it with its parameters and reads at most
/// `max_rows` rows, the text of `ncols` columns each; beside the outcome, a
/// ghost record of the SQL handed to `prepare` and of the parameters handed
/// to `query` (the given ones when `prepare` failed and nothing was run).
fn read_rows(conn: &rusqlite::Connection, sql: &str, params: &Vec<Option<String>>, ncols: usize, max_rows: usize) -> (r:
    (Result<Vec<Vec<Option<String>>>, EngramError>, Ghost<(Seq<char>, Seq<Option<String>>)>))
    ensures
        r.1@ == (sql@, params@),
        r.0 matches Ok(rows) ==> rows@.len() <= max_rows && forall|i: int|
            0 <= i < rows@.len() ==> #[trigger] rows@[i]@.len() == ncols,
        r.0 matches Err(e) ==> e is Sql,
{
    let (prepared, sent_sql) = sql_prepare(conn, sql);
    let mut stmt = match db(prepared) {
        Ok(st) => st,
        Err(e) => {
            return (Err(e), Ghost((sent_sql@, params@)));
        },
    };
    let (queried, sent_params) = sql_query(&mut stmt, params);
    let ghost record = (sent_sql@, sent_params@);
    let mut rows = match db(queried) {
        Ok(rows) => rows,
        Err(e) => {
            return (Err(e), Ghost(record));
        },
    };
    let out = fetch_rows(&mut rows, ncols, max_rows);
    (out, Ghost(record))
}

impl Store {
    /// The requests sent to the database through this store, in order, with
    /// their replies.
    pub closed spec fn calls(&self) -> Seq<DbCall> {
        self.log@
    }

    /// The path this store's database was opened at (none for one in
    /// memory) and the batches of SQL run on it when it was opened.
    pub closed spec fn opened(&self) -> (Option<Seq<char>>, Seq<Seq<char>>) {
        self.setup@
    }

    /// Opens (or creates) a database at the given path, sets its pragmas and
    /// creates the tables that are missing. Whether that succeeds depends on
    /// the file system and the database; a failure is `Sql`.
    pub fn open(path: &str) -> (r: Result<Store, EngramError>)
        ensures
            r matches Ok(st) ==> st.calls() == Seq::<DbCall>::empty() && st.opened() == (
                Some(path@),
                seq![PRAGMAS@, CREATE_TABLES@],
            ),
            r matches Err(e) ==> e is Sql,
    {
        let (opened, at) = sql_open(path);
        let conn = db(opened)?;
        let (set, pragmas) = sql_execute_batch(&conn, PRAGMAS);
        db(set)?;
        let (created, schema) = sql_execute_batch(&conn, CREATE_TABLES);
        db(created)?;
        Ok(Store { conn, log: Ghost(Seq::empty()), setup: Ghost((Some(at@), seq![pragmas@, schema@])) })
    }

    /// Opens a fresh in-memory database and creates all tables. Whether that
    /// succeeds depends on the database; a failure is `Sql`.
    pub fn open_memory() -> (r: Result<Store, EngramError>)
        ensures
            r matches Ok(st) ==> st.calls() == Seq::<DbCall>::empty() && st.opened() == (
                None::<Seq<char>>,
                seq![CREATE_TABLES@],
            ),
            r matches Err(e) ==> e is Sql,
    {
        let conn = db(sql_open_in_memory())?;
        let (created, schema) = sql_execute_batch(&conn, CREATE_TABLES);
        db(created)?;
        Ok(Store { conn, log: Ghost(Seq::empty()), setup: Ghost((None, seq![schema@])) })
    }

    /// Runs a statement; on success the number of changed rows.
    fn execute(&mut self, sql: &str, params: &Vec<Option<String>>) -> (r: Result<usize, EngramError>)
        ensures
            extends(old(self).calls(), final(self).calls(), 1),
            grows(old(self).calls(), final(self).calls()),
            asked(final(self).calls().last(), sql@, texts(params@)),
            match r {
                Ok(n) => final(self).calls().last().reply == Reply::Changed(n as nat),
                Err(e) => e is Sql && final(self).calls().last().reply is Failed,
            },
    {
        let (res, sent) = sql_execute(&self.conn, sql, params);
        let r = db(res);
        let ghost reply = match &r {
            Ok(n) => Reply::Changed(*n as nat),
            Err(_) => Reply::Failed,
        };
        let ghost before = self.log@;
        proof {
            self.log@ = self.log@.push(DbCall { sql: sent@.0, params: texts(sent@.1), reply });
            assert(self.log@.take(before.len() as int) =~= before);
        }
        r
    }

    /// Runs a query and reads the text of the first `ncols` columns of at most
    /// `max_rows` rows, in the order the query yields them.
    fn query(&mut self, sql: &str, params: &Vec<Option<String>>, ncols: usize, max_rows: usize) -> (r:
        Result<Vec<Vec<Option<String>>>, EngramError>)
        ensures
            extends(old(self).calls(), final(self).calls(), 1),
            grows(old(self).calls(), final(self).calls()),
            asked(final(self).calls().last(), sql@, texts(params@)),
            match r {
                Ok(rows) => {
                    &&& rows@.len() <= max_rows
                    &&& forall|i: int| 0 <= i < rows@.len() ==> #[trigger] rows@[i]@.len() == ncols
                    &&& final(self).calls().last().reply == Reply::Rows(rows_view(rows@))
                },
                Err(e) => e is Sql && final(self).calls().last().reply is Failed,
            },
    {
        let (r, sent) = read_rows(&self.conn, sql, params, ncols, max_rows);
        let ghost reply = match &r {
            Ok(rows) => Reply::Rows(rows_view(rows@)),
            Err(_) => Reply::Failed,
        };
        let ghost before = self.log@;
        proof {
            self.log@ = self.log@.push(DbCall { sql: sent@.0, params: texts(sent@.1), reply });
            assert(self.log@.take(before.len() as int) =~= before);
        }
        r
    }

    // ── Project meta ──

    /// The project metadata, if it has been set: the first row of
    /// `project_meta`, decoded.
    pub fn get_project_meta(&mut self) -> (r: Result<Option<ProjectMeta>, EngramError>)
        ensures
            extends(old(self).calls(), final(self).calls(), 1),
            asked(final(self).calls().last(), sql_get_meta(), Seq::empty()),
            match rows_of(final(self).calls().last()) {
                Some(rows) => rows.len() <= 1 && meta_lookup(rows, r),
                None => r matches Err(EngramError::Sql(_)),
            },
    {
        let params: Vec<Option<String>> = Vec::new();
        proof {
            assert(texts(params@) =~= Seq::<Option<Seq<char>>>::empty());
        }
        let rows = self.query("SELECT name, description, stack, conventions, created_at, updated_at FROM project_meta LIMIT 1", &params, 6, 1)?;
        proof {
            lemma_rows_view(rows@);
        }
        if rows.len() == 0 {
            Ok(None)
        } else {
            let meta = decode_meta(&rows[0])?;
            Ok(Some(meta))
        }
    }

    /// The decisions, newest first, all of them or those with a status; at
    /// most 500: the rows of the query, decoded.
    pub fn list_decisions(&mut self, status: Option<&DecisionStatus>) -> (r: Result<Vec<Decision>, EngramError>)
        ensures
            extends(old(self).calls(), final(self).calls(), 1),
            asked(
                final(self).calls().last(),
                sql_list_decisions(status is Some),
                match status {
                    Some(s) => seq![Some(s.label())],
                    None => Seq::empty(),
                },
            ),
            match rows_of(final(self).calls().last()) {
                Some(rows) => rows.len() <= 500 && decisions_reply(rows, r),
                None => r matches Err(EngramError::Sql(_)),
            },
    {
        let rows = match status {
            Some(s) => {
                let params: Vec<Option<String>> = vec![Some(s.as_str().to_owned())];
                proof {
                    assert(texts(params@) =~= seq![Some(s.label())]);
                }
                self.query("SELECT id, title, context, decision, alternatives, tags, status, created_at, updated_at FROM decisions WHERE status = ?1 ORDER BY created_at DESC LIMIT 500", &params, 9, 500)?
            },
            None => {
                let params: Vec<Option<String>> = Vec::new();
                proof {
                    assert(texts(params@) =~= Seq::<Option<Seq<char>>>::empty());
                }
                self.query("SELECT id, title, context, decision, alternatives, tags, status, created_at, updated_at FROM decisions ORDER BY created_at DESC LIMIT 500", &params, 9, 500)?
            },
        };
        proof {
            lemma_rows_view(rows@);
        }
        decode_decisions(&rows)
    }

    /// The decision with an id, if there is one.
    pub fn get_decision(&mut self, id: &str) -> (r: Result<Option<Decision>, EngramError>)
        ensures
            extends(old(self).calls(), final(self).calls(), 1),
            asked(final(self).calls().last(), sql_get_decision(), seq![Some(id@)]),
            match rows_of(final(self).calls().last()) {
                Some(rows) => rows.len() <= 1 && decision_lookup(rows, r),
                None => r matches Err(EngramError::Sql(_)),
            },
    {
        let params: Vec<Option<String>> = vec![Some(id.to_owned())];
        proof {
            assert(texts(params@) =~= seq![Some(id@)]);
        }
        let rows = self.query("SELECT id, title, context, decision, alternatives, tags, status, created_at, updated_at FROM decisions WHERE id = ?1", &params, 9, 1)?;
        proof {
            lemma_rows_view(rows@);
        }
        let mut decoded = decode_decisions(&rows)?;
        Ok(decoded.pop())
    }

    /// The tasks, newest first, all of them or those with a status; at most
    /// 1000: the rows of the query, decoded.
    pub fn list_tasks(&mut self, status: Option<&TaskStatus>) -> (r: Result<Vec<Task>, EngramError>)
        ensures
            extends(old(self).calls(), final(self).calls(), 1),
            asked(
                final(self).calls().last(),
                sql_list_tasks(status is Some),
                match status {
                    Some(s) => seq![Some(s.label())],
                    None => Seq::empty(),
                },
            ),
            match rows_of(final(self).calls().last()) {
                Some(rows) => rows.len() <= 1000 && tasks_reply(rows, r),
                None => r matches Err(EngramError::Sql(_)),
            },
    {
        let rows = match status {
            Some(s) => {
                let params: Vec<Option<String>> = vec![Some(s.as_str().to_owned())];
                proof {
                    assert(texts(params@) =~= seq![Some(s.label())]);
                }
                self.query("SELECT id, title, description, status, priority, phase, tags, created_at, updated_at FROM tasks WHERE status = ?1 ORDER BY created_at DESC LIMIT 1000", &params, 9, 1000)?
            },
            None => {
                let params: Vec<Option<String>> = Vec::new();
                proof {
                    assert(texts(params@) =~= Seq::<Option<Seq<char>>>::empty());
                }
                self.query("SELECT id, title, description, status, priority, phase, tags, created_at, updated_at FROM tasks ORDER BY created_at DESC LIMIT 1000", &params, 9, 1000)?
            },
        };
        proof {
            lemma_rows_view(rows@);
        }
        decode_tasks(&rows)
    }

    /// The task with an id, if there is one.
    pub fn get_task(&mut self, id: &str) -> (r: Result<Option<Task>, EngramError>)
        ensures
            extends(old(self).calls(), final(self).calls(), 1),
            asked(final(self).calls().last(), sql_get_task(), seq![Some(id@)]),
            match rows_of(final(self).calls().last()) {
                Some(rows) => rows.len() <= 1 && task_lookup(rows, r),
                None => r matches Err(EngramError::Sql(_)),
            },
    {
        let params: Vec<Option<String>> = vec![Some(id.to_owned())];
        proof {
            assert(texts(params@) =~= seq![Some(id@)]);
        }
        let rows = self.query("SELECT id, title, description, status, priority, phase, tags, created_at, updated_at FROM tasks WHERE id = ?1", &params, 9, 1)?;
        proof {
            lemma_rows_view(rows@);
        }
        let mut decoded = decode_tasks(&rows)?;
        Ok(decoded.pop())
    }

    /// The file summaries, by path; at most 1000: the rows of the query, decoded.
    pub fn list_file_summaries(&mut self) -> (r: Result<Vec<FileSummary>, EngramError>)
        ensures
            extends(old(self).calls(), final(self).calls(), 1),
            asked(final(self).calls().last(), sql_list_files(), Seq::empty()),
            match rows_of(final(self).calls().last()) {
                Some(rows) => rows.len() <= 1000 && files_reply(rows, r),
                None => r matches Err(EngramError::Sql(_)),
            },
    {
        let params: Vec<Option<String>> = Vec::new();
        proof {
            assert(texts(params@) =~= Seq::<Option<Seq<char>>>::empty());
        }
        let rows = self.query("SELECT id, path, summary, key_types, dependencies, tags, content_hash, created_at, updated_at FROM file_summaries ORDER BY path LIMIT 1000", &params, 9, 1000)?;
        proof {
            lemma_rows_view(rows@);
        }
        decode_file_summaries(&rows)
    }

    /// The summary of a path, if there is one.
    pub fn get_file_summary_by_path(&mut self, path: &str) -> (r: Result<Option<FileSummary>, EngramError>)
        ensures
            extends(old(self).calls(), final(self).calls(), 1),
            asked(final(self).calls().last(), sql_file_by_path(), seq![Some(path@)]),
            match rows_of(final(self).calls().last()) {
                Some(rows) => rows.len() <= 1 && file_lookup(rows, r),
                None => r matches Err(EngramError::Sql(_)),
            },
    {
        let params: Vec<Option<String>> = vec![Some(path.to_owned())];
        proof {
            assert(texts(params@) =~= seq![Some(path@)]);
        }
        let rows = self.query("SELECT id, path, summary, key_types, dependencies, tags, content_hash, created_at, updated_at FROM file_summaries WHERE path = ?1", &params, 9, 1)?;
        proof {
            lemma_rows_view(rows@);
        }
        let mut decoded = decode_file_summaries(&rows)?;
        Ok(decoded.pop())
    }

    /// The file summary with an id, if there is one.
    pub fn get_file_summary(&mut self, id: &str) -> (r: Result<Option<FileSummary>, EngramError>)
        ensures
            extends(old(self).calls(), final(self).calls(), 1),
            asked(final(self).calls().last(), sql_file_by_id(), seq![Some(id@)]),
            match rows_of(final(self).calls().last()) {
                Some(rows) => rows.len() <= 1 && file_lookup(rows, r),
                None => r matches Err(EngramError::Sql(_)),
            },
    {
        let params: Vec<Option<String>> = vec![Some(id.to_owned())];
        proof {
            assert(texts(params@) =~= seq![Some(id@)]);
        }
        let rows = self.query("SELECT id, path, summary, key_types, dependencies, tags, content_hash, created_at, updated_at FROM file_summaries WHERE id = ?1", &params, 9, 1)?;
        proof {
            lemma_rows_view(rows@);
        }
        let mut decoded = decode_file_summaries(&rows)?;
        Ok(decoded.pop())
    }

    /// The most recently started session that has not ended, if any.
    pub fn get_active_session(&mut self) -> (r: Result<Option<Session>, EngramError>)
        ensures
            extends(old(self).calls(), final(self).calls(), 1),
            asked(final(self).calls().last(), sql_active_session(), Seq::empty()),
            match rows_of(final(self).calls().last()) {
                Some(rows) => rows.len() <= 1 && session_lookup(rows, r),
                None => r matches Err(EngramError::Sql(_)),
            },
    {
        let params: Vec<Option<String>> = Vec::new();
        proof {
            assert(texts(params@) =~= Seq::empty());
        }
        let rows = self.query("SELECT id, agent, goal, handoff, tags, started_at, ended_at FROM sessions WHERE ended_at IS NULL ORDER BY started_at DESC LIMIT 1", &params, 7, 1)?;
        proof {
            lemma_rows_view(rows@);
        }
        let mut decoded = decode_sessions(&rows)?;
        Ok(decoded.pop())
    }

    /// The session with an id, if there is one.
    pub fn get_session(&mut self, id: &str) -> (r: Result<Option<Session>, EngramError>)
        ensures
            extends(old(self).calls(), final(self).calls(), 1),
            asked(final(self).calls().last(), sql_get_session(), seq![Some(id@)]),
            match rows_of(final(self).calls().last()) {
                Some(rows) => rows.len() <= 1 && session_lookup(rows, r),
                None => r matches Err(EngramError::Sql(_)),
            },
    {
        let params: Vec<Option<String>> = vec![Some(id.to_owned())];
        proof {
            assert(texts(params@) =~= seq![Some(id@)]);
        }
        let rows = self.query("SELECT id, agent, goal, handoff, tags, started_at, ended_at FROM sessions WHERE id = ?1", &params, 7, 1)?;
        proof {
            lemma_rows_view(rows@);
        }
        let mut decoded = decode_sessions(&rows)?;
        Ok(decoded.pop())
    }

    /// The most recently started sessions, newest first; at most `limit`:
    /// the rows of the query, decoded.
    pub fn list_sessions(&mut self, limit: usize) -> (r: Result<Vec<Session>, EngramError>)
        ensures
            extends(old(self).calls(), final(self).calls(), 1),
            asked(final(self).calls().last(), sql_list_sessions(), seq![Some(limit_cell(limit))]),
            match rows_of(final(self).calls().last()) {
                Some(rows) => rows.len() <= limit && sessions_reply(rows, r),
                None => r matches Err(EngramError::Sql(_)),
            },
    {
        let params: Vec<Option<String>> = vec![Some(limit_text(limit))];
        proof {
            assert(texts(params@) =~= seq![Some(limit_cell(limit))]);
        }
        let rows = self.query("SELECT id, agent, goal, handoff, tags, started_at, ended_at FROM sessions ORDER BY started_at DESC LIMIT ?1", &params, 7, limit)?;
        proof {
            lemma_rows_view(rows@);
        }
        decode_sessions(&rows)
    }

    // ── Search ──

    /// The ids and types of the entities whose indexed text matches a full-text
    /// query, best first, optionally of one type only; at most 200: the rows
    /// of the query, decoded.
    pub fn search(&mut self, query: &str, entity_type: Option<&str>) -> (r: Result<Vec<(String, String)>, EngramError>)
        ensures
            extends(old(self).calls(), final(self).calls(), 1),
            asked(
                final(self).calls().last(),
                sql_search(entity_type is Some),
                match entity_type {
                    Some(t) => seq![Some(query@), Some(t@)],
                    None => seq![Some(query@)],
                },
            ),
            match rows_of(final(self).calls().last()) {
                Some(rows) => rows.len() <= 200 && hits_reply(rows, r),
                None => r matches Err(EngramError::Sql(_)),
            },
    {
        let rows = match entity_type {
            Some(et) => {
                let params: Vec<Option<String>> = vec![Some(query.to_owned()), Some(et.to_owned())];
                proof {
                    assert(texts(params@) =~= seq![Some(query@), Some(et@)]);
                }
                self.query("SELECT entity_id, entity_type FROM search_index WHERE search_index MATCH ?1 AND entity_type = ?2 ORDER BY rank LIMIT 200", &params, 2, 200)?
            },
            None => {
                let params: Vec<Option<String>> = vec![Some(query.to_owned())];
                proof {
                    assert(texts(params@) =~= seq![Some(query@)]);
                }
                self.query("SELECT entity_id, entity_type FROM search_index WHERE search_index MATCH ?1 ORDER BY rank LIMIT 200", &params, 2, 200)?
            },
        };
        proof {
            lemma_rows_view(rows@);
        }
        decode_hits(&rows)
    }

    /// Replaces the project metadata with a name and a description, and an
    /// empty stack and empty conventions: deletes the row, then inserts one
    /// (the third parameter is the current time).
    pub fn set_project_meta(&mut self, name: &str, description: &str) -> (r: Result<(), EngramError>)
        ensures
            meta_set_run(old(self).calls(), final(self).calls(), name@, description@, r),
    {
        let now = now_timestamp();
        let ghost before = self.calls();
        let none: Vec<Option<String>> = Vec::new();
        proof {
            assert(texts(none@) =~= Seq::<Option<Seq<char>>>::empty());
        }
        self.execute("DELETE FROM project_meta", &none)?;
        let ghost mid = self.calls();
        self.execute(
            "INSERT INTO project_meta (name, description, stack, conventions, created_at, updated_at) VALUES (?1, ?2, '[]', '[]', ?3, ?3)",
            &vec![Some(name.to_owned()), Some(description.to_owned()), Some(now)],
        )?;
        proof {
            assert(self.calls().take(before.len() as int) =~= before);
            assert(mid.take(before.len() as int) =~= before);
            assert(self.calls()[before.len() as int] == mid[before.len() as int]);
        }
        Ok(())
    }

    /// Sets the tech stack of the project (as JSON, with the current time).
    pub fn update_project_meta_stack(&mut self, stack: &[String]) -> (r: Result<(), EngramError>)
        ensures
            r is Ok ==> {
                let c0 = final(self).calls().last();
                &&& extends(old(self).calls(), final(self).calls(), 1)
                &&& c0.sql == sql_update_stack() && c0.params.len() == 2
                &&& c0.params[0] == json_cell(stack@) && c0.params[1] is Some
                &&& changed_of(c0) is Some
            },
            request_run(old(self).calls(), final(self).calls(), 1, r is Ok),
            new_call(old(self).calls(), final(self).calls(), 0).sql == sql_update_stack() && new_call(old(self).calls(), final(self).calls(), 0).params.len() == 2 && new_call(old(self).calls(), final(self).calls(), 0).params[0] == json_cell(stack@),
            r matches Err(e) ==> e is Sql,
    {
        let now = now_timestamp();
        let stack_json = json_list(stack)?;
        self.execute(
            "UPDATE project_meta SET stack = ?1, updated_at = ?2",
            &vec![Some(stack_json), Some(now)],
        )?;
        Ok(())
    }

    /// Sets the conventions of the project (as JSON, with the current time).
    pub fn update_project_meta_conventions(&mut self, conventions: &[String]) -> (r: Result<(), EngramError>)
        ensures
            r is Ok ==> {
                let c0 = final(self).calls().last();
                &&& extends(old(self).calls(), final(self).calls(), 1)
                &&& c0.sql == sql_update_conventions() && c0.params.len() == 2
                &&& c0.params[0] == json_cell(conventions@) && c0.params[1] is Some
                &&& changed_of(c0) is Some
            },
            request_run(old(self).calls(), final(self).calls(), 1, r is Ok),
            new_call(old(self).calls(), final(self).calls(), 0).sql == sql_update_conventions() && new_call(old(self).calls(), final(self).calls(), 0).params.len() == 2 && new_call(old(self).calls(), final(self).calls(), 0).params[0] == json_cell(conventions@),
            r matches Err(e) ==> e is Sql,
    {
        let now = now_timestamp();
        let conv_json = json_list(conventions)?;
        self.execute(
            "UPDATE project_meta SET conventions = ?1, updated_at = ?2",
            &vec![Some(conv_json), Some(now)],
        )?;
        Ok(())
    }

    // ── Decisions ──

    /// Records a new active decision under a fresh id: inserts its row, then
    /// indexes its title, context and decision for search.
    pub fn add_decision(
        &mut self,
        title: &str,
        context: &str,
        decision: &str,
        alternatives: &[String],
        tags: &[String],
    ) -> (r: Result<Decision, EngramError>)
        ensures
            decision_add_run(old(self).calls(), final(self).calls(), title@, context@, decision@, alternatives@, tags@, r),
    {
        let id = new_id();
        let now = now_timestamp();
        let alts_json = json_list(alternatives)?;
        let tags_json = json_list(tags)?;
        let ghost before = self.calls();
        let row = vec![
            Some(id.clone()),
            Some(title.to_owned()),
            Some(context.to_owned()),
            Some(decision.to_owned()),
            Some(alts_json),
            Some(tags_json),
            Some(now.clone()),
        ];
        proof {
            assert(texts(row@) =~= seq![Some(id@), Some(title@), Some(context@), Some(decision@),
                json_cell(alternatives@), json_cell(tags@), Some(now@)]);
        }
        self.execute(
            "INSERT INTO decisions (id, title, context, decision, alternatives, tags, status, created_at, updated_at) VALUES (?1, ?2, ?3, ?4, ?5, ?6, 'active', ?7, ?7)",
            &row,
        )?;
        let ghost mid = self.calls();
        let parts = vec![title, context, decision];
        let body = spaced(&parts);
        proof {
            assert(parts@.map_values(|p: &str| p@) =~= seq![title@, context@, decision@]);
        }
        let index = vec![Some(id.clone()), Some(body)];
        proof {
            assert(texts(index@) =~= seq![Some(id@), Some(index_body(seq![title@, context@, decision@]))]);
        }
        self.execute(
            "INSERT INTO search_index (entity_id, entity_type, body) VALUES (?1, 'decision', ?2)",
            &index,
        )?;
        proof {
            assert(self.calls().take(before.len() as int) =~= before);
            assert(self.calls()[before.len() as int] == mid[before.len() as int]);
        }
        Ok(Decision {
            id,
            title: title.to_owned(),
            context: context.to_owned(),
            decision: decision.to_owned(),
            alternatives: copy_strings(alternatives),
            tags: copy_strings(tags),
            status: DecisionStatus::Active,
            created_at: now.clone(),
            updated_at: now,
        })
    }

    // ── Tasks ──

    /// Records a new task, to do, under a fresh id: inserts its row, then
    /// indexes its title and description for search.
    pub fn add_task(
        &mut self,
        title: &str,
        description: &str,
        priority: &TaskPriority,
        phase: Option<&str>,
        tags: &[String],
    ) -> (r: Result<Task, EngramError>)
        ensures
            task_add_run(
                old(self).calls(),
                final(self).calls(),
                title@,
                description@,
                *priority,
                match phase {
                    Some(p) => Some(p@),
                    None => None,
                },
                tags@,
                r,
            ),
    {
        let id = new_id();
        let now = now_timestamp();
        let tags_json = json_list(tags)?;
        let phase_text: Option<String> = match phase {
            Some(p) => Some(p.to_owned()),
            None => None,
        };
        let ghost before = self.calls();
        let row = vec![
            Some(id.clone()),
            Some(title.to_owned()),
            Some(description.to_owned()),
            Some(priority.as_str().to_owned()),
            phase_text.clone(),
            Some(tags_json),
            Some(now.clone()),
        ];
        proof {
            assert(texts(row@) =~= seq![Some(id@), Some(title@), Some(description@),
                Some(priority.label()), match phase {
                    Some(p) => Some(p@),
                    None => None,
                }, json_cell(tags@), Some(now@)]);
        }
        self.execute(
            "INSERT INTO tasks (id, title, description, status, priority, phase, tags, created_at, updated_at) VALUES (?1, ?2, ?3, 'todo', ?4, ?5, ?6, ?7, ?7)",
            &row,
        )?;
        let ghost mid = self.calls();
        let parts = vec![title, description];
        let body = spaced(&parts);
        proof {
            assert(parts@.map_values(|p: &str| p@) =~= seq![title@, description@]);
        }
        let index = vec![Some(id.clone()), Some(body)];
        proof {
            assert(texts(index@) =~= seq![Some(id@), Some(index_body(seq![title@, description@]))]);
        }
        self.execute(
            "INSERT INTO search_index (entity_id, entity_type, body) VALUES (?1, 'task', ?2)",
            &index,
        )?;
        proof {
            assert(self.calls().take(before.len() as int) =~= before);
            assert(self.calls()[before.len() as int] == mid[before.len() as int]);
        }
        Ok(Task {
            id,
            title: title.to_owned(),
            description: description.to_owned(),
            status: TaskStatus::Todo,
            priority: *priority,
            phase: phase_text,
            tags: copy_strings(tags),
            created_at: now.clone(),
            updated_at: now,
        })
    }

    /// Sets the status of the task with an id (and its update time); fails
    /// with `TaskNotFound` when the update changed no row.
    pub fn update_task_status(&mut self, id: &str, status: &TaskStatus) -> (r: Result<(), EngramError>)
        ensures
            extends(old(self).calls(), final(self).calls(), 1),
            task_status_set(final(self).calls().last(), id@, *status, r),
    {
        let now = now_timestamp();
        let affected = self.execute(
            "UPDATE tasks SET status = ?1, updated_at = ?2 WHERE id = ?3",
            &vec![Some(status.as_str().to_owned()), Some(now), Some(id.to_owned())],
        )?;
        task_update_outcome(affected, id)
    }

    // ── File summaries ──

    /// Adds the summary of a path or replaces the one it has: looks up the id
    /// the path has (a failed lookup counts as none), keeps that id or takes
    /// a fresh one, upserts the row, drops the path's old index entry (a
    /// failure there is no error) and indexes the path and summary.
    pub fn upsert_file_summary(
        &mut self,
        path: &str,
        summary: &str,
        key_types: &[String],
        dependencies: &[String],
        tags: &[String],
        content_hash: &str,
    ) -> (r: Result<FileSummary, EngramError>)
        ensures
            file_upsert_run(old(self).calls(), final(self).calls(), path@, summary@, key_types@, dependencies@, tags@, content_hash@, r),
    {
        let now = now_timestamp();
        let key_types_json = json_list(key_types)?;
        let deps_json = json_list(dependencies)?;
        let tags_json = json_list(tags)?;
        let ghost before = self.calls();
        let lookup = vec![Some(path.to_owned())];
        proof {
            assert(texts(lookup@) =~= seq![Some(path@)]);
        }
        let existing = self.query("SELECT id FROM file_summaries WHERE path = ?1", &lookup, 1, 1);
        let ghost s0 = self.calls();
        proof {
            if let Ok(rows) = &existing {
                lemma_rows_view(rows@);
            }
        }
        let id = match existing_id(existing) {
            Some(id) => id,
            None => new_id(),
        };
        let row = vec![
            Some(id.clone()),
            Some(path.to_owned()),
            Some(summary.to_owned()),
            Some(key_types_json),
            Some(deps_json),
            Some(tags_json),
            Some(content_hash.to_owned()),
            Some(now.clone()),
        ];
        proof {
            assert(texts(row@) =~= seq![Some(id@), Some(path@), Some(summary@),
                json_cell(key_types@), json_cell(dependencies@), json_cell(tags@),
                Some(content_hash@), Some(now@)]);
        }
        self.execute(
            "INSERT INTO file_summaries (id, path, summary, key_types, dependencies, tags, content_hash, created_at, updated_at) VALUES (?1, ?2, ?3, ?4, ?5, ?6, ?7, ?8, ?8) ON CONFLICT(path) DO UPDATE SET summary=?3, key_types=?4, dependencies=?5, tags=?6, content_hash=?7, updated_at=?8",
            &row,
        )?;
        let ghost s1 = self.calls();
        let unindex = vec![Some(id.clone())];
        proof {
            assert(texts(unindex@) =~= seq![Some(id@)]);
        }
        // A missing index entry is no error.
        let _ = self.execute(
            "DELETE FROM search_index WHERE entity_id = ?1 AND entity_type = 'file'",
            &unindex,
        );
        let ghost s2 = self.calls();
        let parts = vec![path, summary];
        let body = spaced(&parts);
        proof {
            assert(parts@.map_values(|p: &str| p@) =~= seq![path@, summary@]);
        }
        let index = vec![Some(id.clone()), Some(body)];
        proof {
            assert(texts(index@) =~= seq![Some(id@), Some(index_body(seq![path@, summary@]))]);
        }
        self.execute(
            "INSERT INTO search_index (entity_id, entity_type, body) VALUES (?1, 'file', ?2)",
            &index,
        )?;
        proof {
            let b = before.len() as int;
            assert(self.calls().take(b) =~= before);
            assert(self.calls()[b] == s0[b]);
            assert(self.calls()[b + 1] == s1[b + 1]);
            assert(self.calls()[b + 2] == s2[b + 2]);
        }
        Ok(FileSummary {
            id,
            path: path.to_owned(),
            summary: summary.to_owned(),
            key_types: copy_strings(key_types),
            dependencies: copy_strings(dependencies),
            tags: copy_strings(tags),
            content_hash: content_hash.to_owned(),
            created_at: now.clone(),
            updated_at: now,
        })
    }

    // ── Sessions ──

    /// Starts a session under a fresh id: inserts its row, then indexes its
    /// agent and goal for search.
    pub fn start_session(&mut self, agent: &str, goal: &str, tags: &[String]) -> (r: Result<Session, EngramError>)
        ensures
            session_start_run(old(self).calls(), final(self).calls(), agent@, goal@, tags@, r),
    {
        let id = new_id();
        let now = now_timestamp();
        let tags_json = json_list(tags)?;
        let ghost before = self.calls();
        let row = vec![
            Some(id.clone()),
            Some(agent.to_owned()),
            Some(goal.to_owned()),
            Some(tags_json),
            Some(now.clone()),
        ];
        proof {
            assert(texts(row@) =~= seq![Some(id@), Some(agent@), Some(goal@), json_cell(tags@), Some(now@)]);
        }
        self.execute(
            "INSERT INTO sessions (id, agent, goal, tags, started_at) VALUES (?1, ?2, ?3, ?4, ?5)",
            &row,
        )?;
        let ghost mid = self.calls();
        let parts = vec![agent, goal];
        let body = spaced(&parts);
        proof {
            assert(parts@.map_values(|p: &str| p@) =~= seq![agent@, goal@]);
        }
        let index = vec![Some(id.clone()), Some(body)];
        proof {
            assert(texts(index@) =~= seq![Some(id@), Some(index_body(seq![agent@, goal@]))]);
        }
        self.execute(
            "INSERT INTO search_index (entity_id, entity_type, body) VALUES (?1, 'session', ?2)",
            &index,
        )?;
        proof {
            assert(self.calls().take(before.len() as int) =~= before);
            assert(self.calls()[before.len() as int] == mid[before.len() as int]);
        }
        Ok(Session {
            id,
            agent: agent.to_owned(),
            goal: goal.to_owned(),
            handoff: None,
            tags: copy_strings(tags),
            started_at: now,
            ended_at: None,
        })
    }

    /// Ends the session with an id: records its handoff notes and end time,
    /// fails with `SessionNotFound` when that changed no row, drops the
    /// session's old index entry (a failure there is no error), reads the
    /// session back (`SessionVanished` when it is gone) and indexes its agent,
    /// goal and handoff notes.
    pub fn end_session(&mut self, id: &str, handoff: &str) -> (r: Result<(), EngramError>)
        ensures
            session_end_run(old(self).calls(), final(self).calls(), id@, handoff@, r),
    {
        let now = now_timestamp();
        let ghost before = self.calls();
        let row = vec![Some(handoff.to_owned()), Some(now), Some(id.to_owned())];
        let affected = self.execute("UPDATE sessions SET handoff = ?1, ended_at = ?2 WHERE id = ?3", &row)?;
        session_update_outcome(affected, id)?;
        let ghost s0 = self.calls();
        let unindex = vec![Some(id.to_owned())];
        proof {
            assert(texts(unindex@) =~= seq![Some(id@)]);
        }
        // A missing index entry is no error.
        let _ = self.execute(
            "DELETE FROM search_index WHERE entity_id = ?1 AND entity_type = 'session'",
            &unindex,
        );
        let ghost s1 = self.calls();
        let found = self.get_session(id);
        let ghost s2 = self.calls();
        proof {
            let b = before.len() as int;
            assert(s2.take(b) =~= before);
            assert(s2[b] == s0[b]);
            assert(s2[b + 1] == s1[b + 1]);
            assert(s1.len() == b + 2);
            assert(s2.last() == s2[b + 2]);
            if rows_of(s2[b + 2]) is None {
                assert(found matches Err(EngramError::Sql(_)));
            }
        }
        let session = match found {
            Ok(Some(s)) => s,
            Ok(None) => return Err(EngramError::SessionVanished(id.to_owned())),
            Err(e) => return Err(e),
        };
        let parts = vec![session.agent.as_str(), session.goal.as_str(), handoff];
        let body = spaced(&parts);
        proof {
            assert(parts@.map_values(|p: &str| p@) =~= seq![session.agent@, session.goal@, handoff@]);
        }
        let index = vec![Some(id.to_owned()), Some(body)];
        proof {
            assert(texts(index@) =~= seq![Some(id@), Some(index_body(seq![session.agent@, session.goal@, handoff@]))]);
        }
        self.execute(
            "INSERT INTO search_index (entity_id, entity_type, body) VALUES (?1, 'session', ?2)",
            &index,
        )?;
        proof {
            let b = before.len() as int;
            assert(self.calls().take(b) =~= before);
            assert(self.calls()[b] == s2[b]);
            assert(self.calls()[b + 1] == s2[b + 1]);
            assert(self.calls()[b + 2] == s2[b + 2]);
            let rows = rows_of(self.calls()[b + 2])->0;
            assert(session_from_row(session, rows[0]));
        }
        Ok(())
    }

    // ── Import ──

    /// Stores a decision as it is (replacing one with its id): writes its
    /// cells, then indexes its title, context and decision for search.
    pub fn import_decision(&mut self, d: &Decision) -> (r: Result<(), EngramError>)
        ensures
            r is Ok ==> {
                let c0 = new_call(old(self).calls(), final(self).calls(), 0);
                let c1 = new_call(old(self).calls(), final(self).calls(), 1);
                &&& extends(old(self).calls(), final(self).calls(), 2)
                &&& asked(c0, sql_import_decision(), decision_cells(*d)) && changed_of(c0) is Some
                &&& asked(c1, sql_index_decision(), seq![Some(d.id@), Some(index_body(
                    seq![d.title@, d.context@, d.decision@],
                ))]) && changed_of(c1) is Some
            },
            request_run(old(self).calls(), final(self).calls(), 2, r is Ok),
            asked(new_call(old(self).calls(), final(self).calls(), 0), sql_import_decision(), decision_cells(*d)),
            made(old(self).calls(), final(self).calls()) == 2 ==> asked(new_call(old(self).calls(), final(self).calls(), 1), sql_index_decision(), seq![Some(d.id@), Some(index_body(seq![d.title@, d.context@, d.decision@]))]),
            r matches Err(e) ==> e is Sql,
    {
        let params = decision_params(d)?;
        let ghost before = self.calls();
        self.execute(
            "INSERT OR REPLACE INTO decisions (id, title, context, decision, alternatives, tags, status, created_at, updated_at) VALUES (?1, ?2, ?3, ?4, ?5, ?6, ?7, ?8, ?9)",
            &params,
        )?;
        let ghost mid = self.calls();
        let parts = vec![d.title.as_str(), d.context.as_str(), d.decision.as_str()];
        let body = spaced(&parts);
        proof {
            assert(parts@.map_values(|p: &str| p@) =~= seq![d.title@, d.context@, d.decision@]);
        }
        let index = vec![Some(d.id.clone()), Some(body)];
        proof {
            assert(texts(index@) =~= seq![Some(d.id@), Some(index_body(seq![d.title@, d.context@, d.decision@]))]);
        }
        self.execute(
            "INSERT INTO search_index (entity_id, entity_type, body) VALUES (?1, 'decision', ?2)",
            &index,
        )?;
        proof {
            assert(self.calls().take(before.len() as int) =~= before);
            assert(self.calls()[before.len() as int] == mid[before.len() as int]);
        }
        Ok(())
    }

    /// Stores a task as it is (replacing one with its id): writes its cells,
    /// then indexes its title and description for search.
    pub fn import_task(&mut self, t: &Task) -> (r: Result<(), EngramError>)
        ensures
            r is Ok ==> {
                let c0 = new_call(old(self).calls(), final(self).calls(), 0);
                let c1 = new_call(old(self).calls(), final(self).calls(), 1);
                &&& extends(old(self).calls(), final(self).calls(), 2)
                &&& asked(c0, sql_import_task(), task_cells(*t)) && changed_of(c0) is Some
                &&& asked(c1, sql_index_task(), seq![Some(t.id@), Some(index_body(
                    seq![t.title@, t.description@],
                ))]) && changed_of(c1) is Some
            },
            request_run(old(self).calls(), final(self).calls(), 2, r is Ok),
            asked(new_call(old(self).calls(), final(self).calls(), 0), sql_import_task(), task_cells(*t)),
            made(old(self).calls(), final(self).calls()) == 2 ==> asked(new_call(old(self).calls(), final(self).calls(), 1), sql_index_task(), seq![Some(t.id@), Some(index_body(seq![t.title@, t.description@]))]),
            r matches Err(e) ==> e is Sql,
    {
        let params = task_params(t)?;
        let ghost before = self.calls();
        self.execute(
            "INSERT OR REPLACE INTO tasks (id, title, description, status, priority, phase, tags, created_at, updated_at) VALUES (?1, ?2, ?3, ?4, ?5, ?6, ?7, ?8, ?9)",
            &params,
        )?;
        let ghost mid = self.calls();
        let parts = vec![t.title.as_str(), t.description.as_str()];
        let body = spaced(&parts);
        proof {
            assert(parts@.map_values(|p: &str| p@) =~= seq![t.title@, t.description@]);
        }
        let index = vec![Some(t.id.clone()), Some(body)];
        proof {
            assert(texts(index@) =~= seq![Some(t.id@), Some(index_body(seq![t.title@, t.description@]))]);
        }
        self.execute(
            "INSERT INTO search_index (entity_id, entity_type, body) VALUES (?1, 'task', ?2)",
            &index,
        )?;
        proof {
            assert(self.calls().take(before.len() as int) =~= before);
            assert(self.calls()[before.len() as int] == mid[before.len() as int]);
        }
        Ok(())
    }

    /// Stores a file summary as it is (replacing one with its id): writes its
    /// cells, then indexes its path and summary for search.
    pub fn import_file_summary(&mut self, f: &FileSummary) -> (r: Result<(), EngramError>)
        ensures
            r is Ok ==> {
                let c0 = new_call(old(self).calls(), final(self).calls(), 0);
                let c1 = new_call(old(self).calls(), final(self).calls(), 1);
                &&& extends(old(self).calls(), final(self).calls(), 2)
                &&& asked(c0, sql_import_file(), file_cells(*f)) && changed_of(c0) is Some
                &&& asked(c1, sql_index_file(), seq![Some(f.id@), Some(index_body(
                    seq![f.path@, f.summary@],
                ))]) && changed_of(c1) is Some
            },
            request_run(old(self).calls(), final(self).calls(), 2, r is Ok),
            asked(new_call(old(self).calls(), final(self).calls(), 0), sql_import_file(), file_cells(*f)),
            made(old(self).calls(), final(self).calls()) == 2 ==> asked(new_call(old(self).calls(), final(self).calls(), 1), sql_index_file(), seq![Some(f.id@), Some(index_body(seq![f.path@, f.summary@]))]),
            r matches Err(e) ==> e is Sql,
    {
        let params = file_params(f)?;
        let ghost before = self.calls();
        self.execute(
            "INSERT OR REPLACE INTO file_summaries (id, path, summary, key_types, dependencies, tags, content_hash, created_at, updated_at) VALUES (?1, ?2, ?3, ?4, ?5, ?6, ?7, ?8, ?9)",
            &params,
        )?;
        let ghost mid = self.calls();
        let parts = vec![f.path.as_str(), f.summary.as_str()];
        let body = spaced(&parts);
        proof {
            assert(parts@.map_values(|p: &str| p@) =~= seq![f.path@, f.summary@]);
        }
        let index = vec![Some(f.id.clone()), Some(body)];
        proof {
            assert(texts(index@) =~= seq![Some(f.id@), Some(index_body(seq![f.path@, f.summary@]))]);
        }
        self.execute(
            "INSERT INTO search_index (entity_id, entity_type, body) VALUES (?1, 'file', ?2)",
            &index,
        )?;
        proof {
            assert(self.calls().take(before.len() as int) =~= before);
            assert(self.calls()[before.len() as int] == mid[before.len() as int]);
        }
        Ok(())
    }

    /// Stores a session as it is (replacing one with its id): writes its
    /// cells, then indexes its agent, goal and handoff notes for search.
    pub fn import_session(&mut self, s: &Session) -> (r: Result<(), EngramError>)
        ensures
            r is Ok ==> {
                let c0 = new_call(old(self).calls(), final(self).calls(), 0);
                let c1 = new_call(old(self).calls(), final(self).calls(), 1);
                &&& extends(old(self).calls(), final(self).calls(), 2)
                &&& asked(c0, sql_import_session(), session_cells(*s)) && changed_of(c0) is Some
                &&& asked(c1, sql_index_session(), seq![Some(s.id@), Some(index_body(
                    seq![s.agent@, s.goal@, handoff_text(s.handoff)],
                ))]) && changed_of(c1) is Some
            },
            request_run(old(self).calls(), final(self).calls(), 2, r is Ok),
            asked(new_call(old(self).calls(), final(self).calls(), 0), sql_import_session(), session_cells(*s)),
            made(old(self).calls(), final(self).calls()) == 2 ==> asked(new_call(old(self).calls(), final(self).calls(), 1), sql_index_session(), seq![Some(s.id@), Some(index_body(seq![s.agent@, s.goal@, handoff_text(s.handoff)]))]),
            r matches Err(e) ==> e is Sql,
    {
        let params = session_params(s)?;
        let ghost before = self.calls();
        self.execute(
            "INSERT OR REPLACE INTO sessions (id, agent, goal, handoff, tags, started_at, ended_at) VALUES (?1, ?2, ?3, ?4, ?5, ?6, ?7)",
            &params,
        )?;
        let ghost mid = self.calls();
        let handoff: &str = match &s.handoff {
            Some(h) => h.as_str(),
            None => "",
        };
        let parts = vec![s.agent.as_str(), s.goal.as_str(), handoff];
        let body = spaced(&parts);
        proof {
            assert(parts@.map_values(|p: &str| p@) =~= seq![s.agent@, s.goal@, handoff_text(s.handoff)]);
        }
        let index = vec![Some(s.id.clone()), Some(body)];
        proof {
            assert(texts(index@) =~= seq![Some(s.id@), Some(index_body(seq![s.agent@, s.goal@, handoff_text(s.handoff)]))]);
        }
        self.execute(
            "INSERT INTO search_index (entity_id, entity_type, body) VALUES (?1, 'session', ?2)",
            &index,
        )?;
        proof {
            assert(self.calls().take(before.len() as int) =~= before);
            assert(self.calls()[before.len() as int] == mid[before.len() as int]);
        }
        Ok(())
    }

    /// Replaces the project metadata with the given one, as it is: deletes
    /// the row, then writes its cells.
    pub fn import_project_meta(&mut self, meta: &ProjectMeta) -> (r: Result<(), EngramError>)
        ensures
            r is Ok ==> {
                let c0 = new_call(old(self).calls(), final(self).calls(), 0);
                let c1 = new_call(old(self).calls(), final(self).calls(), 1);
                &&& extends(old(self).calls(), final(self).calls(), 2)
                &&& asked(c0, sql_delete_meta(), Seq::empty()) && changed_of(c0) is Some
                &&& asked(c1, sql_import_meta(), meta_cells(*meta)) && changed_of(c1) is Some
            },
            request_run(old(self).calls(), final(self).calls(), 2, r is Ok),
            asked(new_call(old(self).calls(), final(self).calls(), 0), sql_delete_meta(), Seq::empty()),
            made(old(self).calls(), final(self).calls()) == 2 ==> asked(new_call(old(self).calls(), final(self).calls(), 1), sql_import_meta(), meta_cells(*meta)),
            r matches Err(e) ==> e is Sql,
    {
        let ghost before = self.calls();
        let none: Vec<Option<String>> = Vec::new();
        proof {
            assert(texts(none@) =~= Seq::<Option<Seq<char>>>::empty());
        }
        self.execute("DELETE FROM project_meta", &none)?;
        let ghost mid = self.calls();
        let params = match meta_params(meta) {
            Ok(p) => p,
            Err(e) => return Err(e),
        };
        self.execute(
            "INSERT INTO project_meta (name, description, stack, conventions, created_at, updated_at) VALUES (?1, ?2, ?3, ?4, ?5, ?6)",
            &params,
        )?;
        proof {
            assert(self.calls().take(before.len() as int) =~= before);
            assert(self.calls()[before.len() as int] == mid[before.len() as int]);
        }
        Ok(())
    }
}

/// What an update of a task's status comes to, given the number of rows it
/// changed: `TaskNotFound` when it changed none.
pub fn task_update_outcome(affected: usize, id: &str) -> (r: Result<(), EngramError>)
    ensures
        affected > 0 <==> r is Ok,
        affected == 0 ==> (r matches Err(EngramError::TaskNotFound(t)) && t@ == id@),
{
    if affected == 0 {
        return Err(EngramError::TaskNotFound(id.to_owned()));
    }
    Ok(())
}

/// What ending a session comes to, given the number of rows the update
/// changed: `SessionNotFound` when it changed none.
pub fn session_update_outcome(affected: usize, id: &str) -> (r: Result<(), EngramError>)
    ensures
        affected > 0 <==> r is Ok,
        affected == 0 ==> (r matches Err(EngramError::SessionNotFound(t)) && t@ == id@),
{
    if affected == 0 {
        return Err(EngramError::SessionNotFound(id.to_owned()));
    }
    Ok(())
}

/// The text bound as a row limit: the number in decimal, or -1 (no limit) for
/// a number beyond the range of SQLite's integers.
pub fn limit_text(limit: usize) -> (r: String)
    ensures
        r@ == limit_cell(limit),
{
    if limit as u128 <= i64::MAX as u128 {
        decimal_text(limit)
    } else {
        "-1".to_owned()
    }
}

/// The id that a lookup of a path found: the first column of its first row,
/// when the lookup succeeded and found a row with an id.
pub fn existing_id(found: Result<Vec<Vec<Option<String>>>, EngramError>) -> (r: Option<String>)
    requires
        found matches Ok(rows) ==> forall|i: int| 0 <= i < rows@.len() ==> #[trigger] rows@[i]@.len() == 1,
    ensures
        match found {
            Ok(rows) => if rows@.len() > 0 && rows@[0]@[0] is Some {
                r matches Some(id) && id@ == rows@[0]@[0]->0@
            } else {
                r is None
            },
            Err(_) => r is None,
        },
{
    match found {
        Ok(rows) => {
            if rows.len() > 0 {
                match &rows[0][0] {
                    Some(id) => Some(id.clone()),
                    None => None,
                }
            } else {
                None
            }
        },
        Err(_) => None,
    }
}

} // verus!
