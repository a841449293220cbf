//! Decoding of stored rows into the memory types.

use vstd::prelude::*;

use crate::error::EngramError;
use crate::external::{decode_strings, normalize_timestamp, strings_of_json, utc_rfc3339};
use crate::models::{Decision, DecisionStatus, FileSummary, ProjectMeta, Session, Task, TaskPriority, TaskStatus};
use crate::text::views;
use super::calls::{grows, made, new_call, rows_of, DbCall};
use super::cells::{decision_cells, file_cells, json_of_strings_reads_back, meta_cells, opt_text, session_cells, task_cells, texts};

verus! {

/// The text of a column, `None` for NULL.
pub open spec fn cell(row: Seq<Option<String>>, i: int) -> Option<Seq<char>> {
    match row[i] {
        Some(s) => Some(s@),
        None => None,
    }
}

/// The strings that a list column holds as JSON; none when the JSON does not read.
pub open spec fn list_cell(text: Seq<char>) -> Seq<Seq<char>> {
    match strings_of_json(text) {
        Some(l) => l,
        None => Seq::empty(),
    }
}

/// Whether the columns `lo..hi` are all present and not NULL.
pub open spec fn cells_present(row: Seq<Option<String>>, lo: int, hi: int) -> bool {
    forall|i: int| lo <= i < hi ==> #[trigger] row[i] is Some
}

/// The error that reports an undecodable row of a table.
pub fn corrupt_row(table: &str) -> (e: EngramError)
    ensures
        e matches EngramError::CorruptRow(t) && t@ == table@,
{
    EngramError::CorruptRow(table.to_owned())
}

/// The text of a column, copied.
pub fn text_cell(row: &Vec<Option<String>>, i: usize) -> (r: Option<String>)
    requires
        i < row@.len(),
    ensures
        match r {
            Some(t) => cell(row@, i as int) == Some(t@),
            None => cell(row@, i as int) is None,
        },
{
    match &row[i] {
        Some(t) => Some(t.clone()),
        None => None,
    }
}

/// The strings that a JSON list holds; none when it does not read.
pub fn list_from_json(text: &str) -> (r: Vec<String>)
    ensures
        views(r@) == list_cell(text@),
{
    match decode_strings(text) {
        Some(v) => v,
        None => Vec::new(),
    }
}

// ── project_meta: name, description, stack, conventions, created_at, updated_at ──

/// Whether a `project_meta` row decodes.
pub open spec fn meta_row_decodes(row: Seq<Option<String>>) -> bool {
    &&& row.len() == 6
    &&& cells_present(row, 0, 6)
    &&& utc_rfc3339(cell(row, 4)->0) is Some
    &&& utc_rfc3339(cell(row, 5)->0) is Some
}

/// Whether project metadata is what a `project_meta` row holds.
pub open spec fn meta_from_row(m: ProjectMeta, row: Seq<Option<String>>) -> bool {
    &&& Some(m.name@) == cell(row, 0)
    &&& Some(m.description@) == cell(row, 1)
    &&& views(m.stack@) == list_cell(cell(row, 2)->0)
    &&& views(m.conventions@) == list_cell(cell(row, 3)->0)
    &&& utc_rfc3339(cell(row, 4)->0) == Some(m.created_at@)
    &&& utc_rfc3339(cell(row, 5)->0) == Some(m.updated_at@)
}

/// Decodes a `project_meta` row.
pub fn decode_meta(row: &Vec<Option<String>>) -> (r: Result<ProjectMeta, EngramError>)
    requires
        row@.len() == 6,
    ensures
        r is Ok <==> meta_row_decodes(row@),
        r matches Ok(m) ==> meta_from_row(m, row@),
        r matches Err(e) ==> e matches EngramError::CorruptRow(t) && t@ == "project_meta"@,
{
    let name = match text_cell(row, 0) { Some(t) => t, None => return Err(corrupt_row("project_meta")) };
    let description = match text_cell(row, 1) { Some(t) => t, None => return Err(corrupt_row("project_meta")) };
    let stack = match text_cell(row, 2) { Some(t) => t, None => return Err(corrupt_row("project_meta")) };
    let conventions = match text_cell(row, 3) { Some(t) => t, None => return Err(corrupt_row("project_meta")) };
    let created = match text_cell(row, 4) { Some(t) => t, None => return Err(corrupt_row("project_meta")) };
    let updated = match text_cell(row, 5) { Some(t) => t, None => return Err(corrupt_row("project_meta")) };
    let created_at = match normalize_timestamp(created.as_str()) { Some(t) => t, None => return Err(corrupt_row("project_meta")) };
    let updated_at = match normalize_timestamp(updated.as_str()) { Some(t) => t, None => return Err(corrupt_row("project_meta")) };
    Ok(ProjectMeta {
        name,
        description,
        stack: list_from_json(stack.as_str()),
        conventions: list_from_json(conventions.as_str()),
        created_at,
        updated_at,
    })
}

// ── decisions: id, title, context, decision, alternatives, tags, status, created_at, updated_at ──

/// Whether a `decisions` row decodes.
pub open spec fn decision_row_decodes(row: Seq<Option<String>>) -> bool {
    &&& row.len() == 9
    &&& cells_present(row, 0, 9)
    &&& DecisionStatus::from_label(cell(row, 6)->0) is Some
    &&& utc_rfc3339(cell(row, 7)->0) is Some
    &&& utc_rfc3339(cell(row, 8)->0) is Some
}

/// Whether a decision is what a `decisions` row holds.
pub open spec fn decision_from_row(d: Decision, row: Seq<Option<String>>) -> bool {
    &&& Some(d.id@) == cell(row, 0)
    &&& Some(d.title@) == cell(row, 1)
    &&& Some(d.context@) == cell(row, 2)
    &&& Some(d.decision@) == cell(row, 3)
    &&& views(d.alternatives@) == list_cell(cell(row, 4)->0)
    &&& views(d.tags@) == list_cell(cell(row, 5)->0)
    &&& DecisionStatus::from_label(cell(row, 6)->0) == Some(d.status)
    &&& utc_rfc3339(cell(row, 7)->0) == Some(d.created_at@)
    &&& utc_rfc3339(cell(row, 8)->0) == Some(d.updated_at@)
}

/// Decodes a `decisions` row.
pub fn decode_decision(row: &Vec<Option<String>>) -> (r: Result<Decision, EngramError>)
    requires
        row@.len() == 9,
    ensures
        r is Ok <==> decision_row_decodes(row@),
        r matches Ok(d) ==> decision_from_row(d, row@),
        r matches Err(e) ==> e matches EngramError::CorruptRow(t) && t@ == "decisions"@,
{
    let id = match text_cell(row, 0) { Some(t) => t, None => return Err(corrupt_row("decisions")) };
    let title = match text_cell(row, 1) { Some(t) => t, None => return Err(corrupt_row("decisions")) };
    let context = match text_cell(row, 2) { Some(t) => t, None => return Err(corrupt_row("decisions")) };
    let decision = match text_cell(row, 3) { Some(t) => t, None => return Err(corrupt_row("decisions")) };
    let alternatives = match text_cell(row, 4) { Some(t) => t, None => return Err(corrupt_row("decisions")) };
    let tags = match text_cell(row, 5) { Some(t) => t, None => return Err(corrupt_row("decisions")) };
    let status = match text_cell(row, 6) { Some(t) => t, None => return Err(corrupt_row("decisions")) };
    let created = match text_cell(row, 7) { Some(t) => t, None => return Err(corrupt_row("decisions")) };
    let updated = match text_cell(row, 8) { Some(t) => t, None => return Err(corrupt_row("decisions")) };
    let status = match DecisionStatus::from_str(status.as_str()) { Ok(s) => s, Err(_) => return Err(corrupt_row("decisions")) };
    let created_at = match normalize_timestamp(created.as_str()) { Some(t) => t, None => return Err(corrupt_row("decisions")) };
    let updated_at = match normalize_timestamp(updated.as_str()) { Some(t) => t, None => return Err(corrupt_row("decisions")) };
    Ok(Decision {
        id,
        title,
        context,
        decision,
        alternatives: list_from_json(alternatives.as_str()),
        tags: list_from_json(tags.as_str()),
        status,
        created_at,
        updated_at,
    })
}

// ── tasks: id, title, description, status, priority, phase, tags, created_at, updated_at ──

/// Whether a `tasks` row decodes (the phase may be NULL).
pub open spec fn task_row_decodes(row: Seq<Option<String>>) -> bool {
    &&& row.len() == 9
    &&& cells_present(row, 0, 5)
    &&& cells_present(row, 6, 9)
    &&& TaskStatus::from_label(cell(row, 3)->0) is Some
    &&& TaskPriority::from_label(cell(row, 4)->0) is Some
    &&& utc_rfc3339(cell(row, 7)->0) is Some
    &&& utc_rfc3339(cell(row, 8)->0) is Some
}

/// Whether a task is what a `tasks` row holds.
pub open spec fn task_from_row(t: Task, row: Seq<Option<String>>) -> bool {
    &&& Some(t.id@) == cell(row, 0)
    &&& Some(t.title@) == cell(row, 1)
    &&& Some(t.description@) == cell(row, 2)
    &&& TaskStatus::from_label(cell(row, 3)->0) == Some(t.status)
    &&& TaskPriority::from_label(cell(row, 4)->0) == Some(t.priority)
    &&& match t.phase {
        Some(p) => cell(row, 5) == Some(p@),
        None => cell(row, 5) is None,
    }
    &&& views(t.tags@) == list_cell(cell(row, 6)->0)
    &&& utc_rfc3339(cell(row, 7)->0) == Some(t.created_at@)
    &&& utc_rfc3339(cell(row, 8)->0) == Some(t.updated_at@)
}

/// Decodes a `tasks` row.
pub fn decode_task(row: &Vec<Option<String>>) -> (r: Result<Task, EngramError>)
    requires
        row@.len() == 9,
    ensures
        r is Ok <==> task_row_decodes(row@),
        r matches Ok(t) ==> task_from_row(t, row@),
        r matches Err(e) ==> e matches EngramError::CorruptRow(t) && t@ == "tasks"@,
{
    let id = match text_cell(row, 0) { Some(t) => t, None => return Err(corrupt_row("tasks")) };
    let title = match text_cell(row, 1) { Some(t) => t, None => return Err(corrupt_row("tasks")) };
    let description = match text_cell(row, 2) { Some(t) => t, None => return Err(corrupt_row("tasks")) };
    let status = match text_cell(row, 3) { Some(t) => t, None => return Err(corrupt_row("tasks")) };
    let priority = match text_cell(row, 4) { Some(t) => t, None => return Err(corrupt_row("tasks")) };
    let phase = text_cell(row, 5);
    let tags = match text_cell(row, 6) { Some(t) => t, None => return Err(corrupt_row("tasks")) };
    let created = match text_cell(row, 7) { Some(t) => t, None => return Err(corrupt_row("tasks")) };
    let updated = match text_cell(row, 8) { Some(t) => t, None => return Err(corrupt_row("tasks")) };
    let status = match TaskStatus::from_str(status.as_str()) { Ok(s) => s, Err(_) => return Err(corrupt_row("tasks")) };
    let priority = match TaskPriority::from_str(priority.as_str()) { Ok(p) => p, Err(_) => return Err(corrupt_row("tasks")) };
    let created_at = match normalize_timestamp(created.as_str()) { Some(t) => t, None => return Err(corrupt_row("tasks")) };
    let updated_at = match normalize_timestamp(updated.as_str()) { Some(t) => t, None => return Err(corrupt_row("tasks")) };
    Ok(Task {
        id,
        title,
        description,
        status,
        priority,
        phase,
        tags: list_from_json(tags.as_str()),
        created_at,
        updated_at,
    })
}

// ── file_summaries: id, path, summary, key_types, dependencies, tags, content_hash, created_at, updated_at ──

/// Whether a `file_summaries` row decodes.
pub open spec fn file_row_decodes(row: Seq<Option<String>>) -> bool {
    &&& row.len() == 9
    &&& cells_present(row, 0, 9)
    &&& utc_rfc3339(cell(row, 7)->0) is Some
    &&& utc_rfc3339(cell(row, 8)->0) is Some
}

/// Whether a file summary is what a `file_summaries` row holds.
pub open spec fn file_from_row(f: FileSummary, row: Seq<Option<String>>) -> bool {
    &&& Some(f.id@) == cell(row, 0)
    &&& Some(f.path@) == cell(row, 1)
    &&& Some(f.summary@) == cell(row, 2)
    &&& views(f.key_types@) == list_cell(cell(row, 3)->0)
    &&& views(f.dependencies@) == list_cell(cell(row, 4)->0)
    &&& views(f.tags@) == list_cell(cell(row, 5)->0)
    &&& Some(f.content_hash@) == cell(row, 6)
    &&& utc_rfc3339(cell(row, 7)->0) == Some(f.created_at@)
    &&& utc_rfc3339(cell(row, 8)->0) == Some(f.updated_at@)
}

/// Decodes a `file_summaries` row.
pub fn decode_file_summary(row: &Vec<Option<String>>) -> (r: Result<FileSummary, EngramError>)
    requires
        row@.len() == 9,
    ensures
        r is Ok <==> file_row_decodes(row@),
        r matches Ok(f) ==> file_from_row(f, row@),
        r matches Err(e) ==> e matches EngramError::CorruptRow(t) && t@ == "file_summaries"@,
{
    let id = match text_cell(row, 0) { Some(t) => t, None => return Err(corrupt_row("file_summaries")) };
    let path = match text_cell(row, 1) { Some(t) => t, None => return Err(corrupt_row("file_summaries")) };
    let summary = match text_cell(row, 2) { Some(t) => t, None => return Err(corrupt_row("file_summaries")) };
    let key_types = match text_cell(row, 3) { Some(t) => t, None => return Err(corrupt_row("file_summaries")) };
    let dependencies = match text_cell(row, 4) { Some(t) => t, None => return Err(corrupt_row("file_summaries")) };
    let tags = match text_cell(row, 5) { Some(t) => t, None => return Err(corrupt_row("file_summaries")) };
    let content_hash = match text_cell(row, 6) { Some(t) => t, None => return Err(corrupt_row("file_summaries")) };
    let created = match text_cell(row, 7) { Some(t) => t, None => return Err(corrupt_row("file_summaries")) };
    let updated = match text_cell(row, 8) { Some(t) => t, None => return Err(corrupt_row("file_summaries")) };
    let created_at = match normalize_timestamp(created.as_str()) { Some(t) => t, None => return Err(corrupt_row("file_summaries")) };
    let updated_at = match normalize_timestamp(updated.as_str()) { Some(t) => t, None => return Err(corrupt_row("file_summaries")) };
    Ok(FileSummary {
        id,
        path,
        summary,
        key_types: list_from_json(key_types.as_str()),
        dependencies: list_from_json(dependencies.as_str()),
        tags: list_from_json(tags.as_str()),
        content_hash,
        created_at,
        updated_at,
    })
}

// ── sessions: id, agent, goal, handoff, tags, started_at, ended_at ──

/// Whether a `sessions` row decodes (handoff and end may be NULL; an end
/// that does not read as a time counts as none).
pub open spec fn session_row_decodes(row: Seq<Option<String>>) -> bool {
    &&& row.len() == 7
    &&& cells_present(row, 0, 3)
    &&& cells_present(row, 4, 6)
    &&& utc_rfc3339(cell(row, 5)->0) is Some
}

/// The end time that a `sessions` row holds.
pub open spec fn ended_cell(row: Seq<Option<String>>) -> Option<Seq<char>> {
    match cell(row, 6) {
        Some(text) => utc_rfc3339(text),
        None => None,
    }
}

/// Whether a session is what a `sessions` row holds.
pub open spec fn session_from_row(s: Session, row: Seq<Option<String>>) -> bool {
    &&& Some(s.id@) == cell(row, 0)
    &&& Some(s.agent@) == cell(row, 1)
    &&& Some(s.goal@) == cell(row, 2)
    &&& match s.handoff {
        Some(h) => cell(row, 3) == Some(h@),
        None => cell(row, 3) is None,
    }
    &&& views(s.tags@) == list_cell(cell(row, 4)->0)
    &&& utc_rfc3339(cell(row, 5)->0) == Some(s.started_at@)
    &&& match s.ended_at {
        Some(e) => ended_cell(row) == Some(e@),
        None => ended_cell(row) is None,
    }
}

/// Decodes a `sessions` row.
pub fn decode_session(row: &Vec<Option<String>>) -> (r: Result<Session, EngramError>)
    requires
        row@.len() == 7,
    ensures
        r is Ok <==> session_row_decodes(row@),
        r matches Ok(s) ==> session_from_row(s, row@),
        r matches Err(e) ==> e matches EngramError::CorruptRow(t) && t@ == "sessions"@,
{
    let id = match text_cell(row, 0) { Some(t) => t, None => return Err(corrupt_row("sessions")) };
    let agent = match text_cell(row, 1) { Some(t) => t, None => return Err(corrupt_row("sessions")) };
    let goal = match text_cell(row, 2) { Some(t) => t, None => return Err(corrupt_row("sessions")) };
    let handoff = text_cell(row, 3);
    let tags = match text_cell(row, 4) { Some(t) => t, None => return Err(corrupt_row("sessions")) };
    let started = match text_cell(row, 5) { Some(t) => t, None => return Err(corrupt_row("sessions")) };
    let started_at = match normalize_timestamp(started.as_str()) { Some(t) => t, None => return Err(corrupt_row("sessions")) };
    let ended_at = match text_cell(row, 6) {
        Some(text) => normalize_timestamp(text.as_str()),
        None => None,
    };
    Ok(Session { id, agent, goal, handoff, tags: list_from_json(tags.as_str()), started_at, ended_at })
}

// ── search_index: entity_id, entity_type ──

/// Decodes a search hit: the id and the type of the entity.
pub fn decode_hit(row: &Vec<Option<String>>) -> (r: Result<(String, String), EngramError>)
    requires
        row@.len() == 2,
    ensures
        r is Ok <==> cells_present(row@, 0, 2),
        r matches Ok(hit) ==> cell(row@, 0) == Some(hit.0@) && cell(row@, 1) == Some(hit.1@),
        r matches Err(e) ==> e matches EngramError::CorruptRow(t) && t@ == "search_index"@,
{
    let id = match text_cell(row, 0) { Some(t) => t, None => return Err(corrupt_row("search_index")) };
    let kind = match text_cell(row, 1) { Some(t) => t, None => return Err(corrupt_row("search_index")) };
    Ok((id, kind))
}

/// Decodes `decisions` rows in order; the first row that does not decode fails the whole.
pub fn decode_decisions(rows: &Vec<Vec<Option<String>>>) -> (r: Result<Vec<Decision>, EngramError>)
    requires
        forall|i: int| 0 <= i < rows@.len() ==> #[trigger] rows@[i]@.len() == 9,
    ensures
        r is Ok <==> forall|i: int| 0 <= i < rows@.len() ==> decision_row_decodes(#[trigger] rows@[i]@),
        r matches Ok(v) ==> v@.len() == rows@.len() && forall|i: int|
            0 <= i < rows@.len() ==> decision_from_row(#[trigger] v@[i], rows@[i]@),
        decisions_reply(rows_view(rows@), r),
        r matches Err(e) ==> e matches EngramError::CorruptRow(t) && t@ == "decisions"@,
{
    let mut out: Vec<Decision> = Vec::new();
    let n = rows.len();
    let mut i: usize = 0;
    while i < n
        invariant
            0 <= i <= n,
            n == rows@.len(),
            forall|j: int| 0 <= j < rows@.len() ==> #[trigger] rows@[j]@.len() == 9,
            out@.len() == i,
            forall|j: int| 0 <= j < i ==> decision_row_decodes(#[trigger] rows@[j]@),
            forall|j: int| 0 <= j < i ==> decision_from_row(#[trigger] out@[j], rows@[j]@),
        decreases n - i,
    {
        let item = match decode_decision(&rows[i]) {
            Ok(x) => x,
            Err(e) => {
                proof {
                    lemma_rows_view(rows@);
                    assert(!decision_row_decodes(rows_view(rows@)[i as int]));
                }
                return Err(e);
            },
        };
        out.push(item);
        i += 1;
    }
    proof {
        lemma_rows_view(rows@);
        assert forall|j: int| 0 <= j < rows@.len() implies decision_from_row(#[trigger] out@[j], rows_view(rows@)[j]) by {
            assert(decision_from_row(out@[j], rows@[j]@));
        }
    }
    Ok(out)
}

/// Decodes `tasks` rows in order; the first row that does not decode fails the whole.
pub fn decode_tasks(rows: &Vec<Vec<Option<String>>>) -> (r: Result<Vec<Task>, EngramError>)
    requires
        forall|i: int| 0 <= i < rows@.len() ==> #[trigger] rows@[i]@.len() == 9,
    ensures
        r is Ok <==> forall|i: int| 0 <= i < rows@.len() ==> task_row_decodes(#[trigger] rows@[i]@),
        r matches Ok(v) ==> v@.len() == rows@.len() && forall|i: int|
            0 <= i < rows@.len() ==> task_from_row(#[trigger] v@[i], rows@[i]@),
        tasks_reply(rows_view(rows@), r),
        r matches Err(e) ==> e matches EngramError::CorruptRow(t) && t@ == "tasks"@,
{
    let mut out: Vec<Task> = Vec::new();
    let n = rows.len();
    let mut i: usize = 0;
    while i < n
        invariant
            0 <= i <= n,
            n == rows@.len(),
            forall|j: int| 0 <= j < rows@.len() ==> #[trigger] rows@[j]@.len() == 9,
            out@.len() == i,
            forall|j: int| 0 <= j < i ==> task_row_decodes(#[trigger] rows@[j]@),
            forall|j: int| 0 <= j < i ==> task_from_row(#[trigger] out@[j], rows@[j]@),
        decreases n - i,
    {
        let item = match decode_task(&rows[i]) {
            Ok(x) => x,
            Err(e) => {
                proof {
                    lemma_rows_view(rows@);
                    assert(!task_row_decodes(rows_view(rows@)[i as int]));
                }
                return Err(e);
            },
        };
        out.push(item);
        i += 1;
    }
    proof {
        lemma_rows_view(rows@);
        assert forall|j: int| 0 <= j < rows@.len() implies task_from_row(#[trigger] out@[j], rows_view(rows@)[j]) by {
            assert(task_from_row(out@[j], rows@[j]@));
        }
    }
    Ok(out)
}

/// Decodes `file_summaries` rows in order; the first row that does not decode fails the whole.
pub fn decode_file_summaries(rows: &Vec<Vec<Option<String>>>) -> (r: Result<Vec<FileSummary>, EngramError>)
    requires
        forall|i: int| 0 <= i < rows@.len() ==> #[trigger] rows@[i]@.len() == 9,
    ensures
        r is Ok <==> forall|i: int| 0 <= i < rows@.len() ==> file_row_decodes(#[trigger] rows@[i]@),
        r matches Ok(v) ==> v@.len() == rows@.len() && forall|i: int|
            0 <= i < rows@.len() ==> file_from_row(#[trigger] v@[i], rows@[i]@),
        files_reply(rows_view(rows@), r),
        r matches Err(e) ==> e matches EngramError::CorruptRow(t) && t@ == "file_summaries"@,
{
    let mut out: Vec<FileSummary> = Vec::new();
    let n = rows.len();
    let mut i: usize = 0;
    while i < n
        invariant
            0 <= i <= n,
            n == rows@.len(),
            forall|j: int| 0 <= j < rows@.len() ==> #[trigger] rows@[j]@.len() == 9,
            out@.len() == i,
            forall|j: int| 0 <= j < i ==> file_row_decodes(#[trigger] rows@[j]@),
            forall|j: int| 0 <= j < i ==> file_from_row(#[trigger] out@[j], rows@[j]@),
        decreases n - i,
    {
        let item = match decode_file_summary(&rows[i]) {
            Ok(x) => x,
            Err(e) => {
                proof {
                    lemma_rows_view(rows@);
                    assert(!file_row_decodes(rows_view(rows@)[i as int]));
                }
                return Err(e);
            },
        };
        out.push(item);
        i += 1;
    }
    proof {
        lemma_rows_view(rows@);
        assert forall|j: int| 0 <= j < rows@.len() implies file_from_row(#[trigger] out@[j], rows_view(rows@)[j]) by {
            assert(file_from_row(out@[j], rows@[j]@));
        }
    }
    Ok(out)
}

/// Decodes `sessions` rows in order; the first row that does not decode fails the whole.
pub fn decode_sessions(rows: &Vec<Vec<Option<String>>>) -> (r: Result<Vec<Session>, EngramError>)
    requires
        forall|i: int| 0 <= i < rows@.len() ==> #[trigger] rows@[i]@.len() == 7,
    ensures
        r is Ok <==> forall|i: int| 0 <= i < rows@.len() ==> session_row_decodes(#[trigger] rows@[i]@),
        r matches Ok(v) ==> v@.len() == rows@.len() && forall|i: int|
            0 <= i < rows@.len() ==> session_from_row(#[trigger] v@[i], rows@[i]@),
        sessions_reply(rows_view(rows@), r),
        r matches Err(e) ==> e matches EngramError::CorruptRow(t) && t@ == "sessions"@,
{
    let mut out: Vec<Session> = Vec::new();
    let n = rows.len();
    let mut i: usize = 0;
    while i < n
        invariant
            0 <= i <= n,
            n == rows@.len(),
            forall|j: int| 0 <= j < rows@.len() ==> #[trigger] rows@[j]@.len() == 7,
            out@.len() == i,
            forall|j: int| 0 <= j < i ==> session_row_decodes(#[trigger] rows@[j]@),
            forall|j: int| 0 <= j < i ==> session_from_row(#[trigger] out@[j], rows@[j]@),
        decreases n - i,
    {
        let item = match decode_session(&rows[i]) {
            Ok(x) => x,
            Err(e) => {
                proof {
                    lemma_rows_view(rows@);
                    assert(!session_row_decodes(rows_view(rows@)[i as int]));
                }
                return Err(e);
            },
        };
        out.push(item);
        i += 1;
    }
    proof {
        lemma_rows_view(rows@);
        assert forall|j: int| 0 <= j < rows@.len() implies session_from_row(#[trigger] out@[j], rows_view(rows@)[j]) by {
            assert(session_from_row(out@[j], rows@[j]@));
        }
    }
    Ok(out)
}

/// Decodes search hits in order; the first row that does not decode fails the whole.
pub fn decode_hits(rows: &Vec<Vec<Option<String>>>) -> (r: Result<Vec<(String, String)>, EngramError>)
    requires
        forall|i: int| 0 <= i < rows@.len() ==> #[trigger] rows@[i]@.len() == 2,
    ensures
        r is Ok <==> forall|i: int| 0 <= i < rows@.len() ==> cells_present(#[trigger] rows@[i]@, 0, 2),
        r matches Ok(v) ==> v@.len() == rows@.len() && forall|i: int|
            0 <= i < rows@.len() ==> cell(rows@[i]@, 0) == Some((#[trigger] v@[i]).0@) && cell(rows@[i]@, 1) == Some(v@[i].1@),
        hits_reply(rows_view(rows@), r),
        r matches Err(e) ==> e matches EngramError::CorruptRow(t) && t@ == "search_index"@,
{
    let mut out: Vec<(String, String)> = Vec::new();
    let n = rows.len();
    let mut i: usize = 0;
    while i < n
        invariant
            0 <= i <= n,
            n == rows@.len(),
            forall|j: int| 0 <= j < rows@.len() ==> #[trigger] rows@[j]@.len() == 2,
            out@.len() == i,
            forall|j: int| 0 <= j < i ==> cells_present(#[trigger] rows@[j]@, 0, 2),
            forall|j: int| 0 <= j < i ==> cell(rows@[j]@, 0) == Some((#[trigger] out@[j]).0@) && cell(rows@[j]@, 1) == Some(out@[j].1@),
        decreases n - i,
    {
        let item = match decode_hit(&rows[i]) {
            Ok(x) => x,
            Err(e) => {
                proof {
                    lemma_rows_view(rows@);
                    assert(!cells_present(rows_view(rows@)[i as int], 0, 2));
                }
                return Err(e);
            },
        };
        out.push(item);
        i += 1;
    }
    proof {
        lemma_rows_view(rows@);
    }
    Ok(out)
}

// ── Replies of the database ──

/// The rows of a query as sequences of cells.
pub open spec fn rows_view(rows: Seq<Vec<Option<String>>>) -> Seq<Seq<Option<String>>> {
    rows.map_values(|v: Vec<Option<String>>| v@)
}

pub proof fn lemma_rows_view(rows: Seq<Vec<Option<String>>>)
    ensures
        rows_view(rows).len() == rows.len(),
        forall|i: int| 0 <= i < rows.len() ==> #[trigger] rows_view(rows)[i] == rows[i]@,
{
}

/// What a list of decisions read from `rows` is: every row decoded, in order,
/// or `CorruptRow("decisions")` when one does not decode.
pub open spec fn decisions_reply(rows: Seq<Seq<Option<String>>>, r: Result<Vec<Decision>, EngramError>) -> bool {
    &&& (r is Ok <==> forall|i: int| 0 <= i < rows.len() ==> decision_row_decodes(#[trigger] rows[i]))
    &&& (r matches Ok(v) ==> v@.len() == rows.len() && forall|i: int|
        0 <= i < rows.len() ==> decision_from_row(#[trigger] v@[i], rows[i]))
    &&& (r matches Err(e) ==> e matches EngramError::CorruptRow(t) && t@ == "decisions"@)
}

/// What a list of tasks read from `rows` is.
pub open spec fn tasks_reply(rows: Seq<Seq<Option<String>>>, r: Result<Vec<Task>, EngramError>) -> bool {
    &&& (r is Ok <==> forall|i: int| 0 <= i < rows.len() ==> task_row_decodes(#[trigger] rows[i]))
    &&& (r matches Ok(v) ==> v@.len() == rows.len() && forall|i: int|
        0 <= i < rows.len() ==> task_from_row(#[trigger] v@[i], rows[i]))
    &&& (r matches Err(e) ==> e matches EngramError::CorruptRow(t) && t@ == "tasks"@)
}

/// What a list of file summaries read from `rows` is.
pub open spec fn files_reply(rows: Seq<Seq<Option<String>>>, r: Result<Vec<FileSummary>, EngramError>) -> bool {
    &&& (r is Ok <==> forall|i: int| 0 <= i < rows.len() ==> file_row_decodes(#[trigger] rows[i]))
    &&& (r matches Ok(v) ==> v@.len() == rows.len() && forall|i: int|
        0 <= i < rows.len() ==> file_from_row(#[trigger] v@[i], rows[i]))
    &&& (r matches Err(e) ==> e matches EngramError::CorruptRow(t) && t@ == "file_summaries"@)
}

/// What a list of sessions read from `rows` is.
pub open spec fn sessions_reply(rows: Seq<Seq<Option<String>>>, r: Result<Vec<Session>, EngramError>) -> bool {
    &&& (r is Ok <==> forall|i: int| 0 <= i < rows.len() ==> session_row_decodes(#[trigger] rows[i]))
    &&& (r matches Ok(v) ==> v@.len() == rows.len() && forall|i: int|
        0 <= i < rows.len() ==> session_from_row(#[trigger] v@[i], rows[i]))
    &&& (r matches Err(e) ==> e matches EngramError::CorruptRow(t) && t@ == "sessions"@)
}

/// What a list of search hits read from `rows` is: the id and type of each row.
pub open spec fn hits_reply(rows: Seq<Seq<Option<String>>>, r: Result<Vec<(String, String)>, EngramError>) -> bool {
    &&& (r is Ok <==> forall|i: int| 0 <= i < rows.len() ==> cells_present(#[trigger] rows[i], 0, 2))
    &&& (r matches Ok(v) ==> v@.len() == rows.len() && forall|i: int|
        0 <= i < rows.len() ==> cell(rows[i], 0) == Some((#[trigger] v@[i]).0@) && cell(rows[i], 1)
            == Some(v@[i].1@))
    &&& (r matches Err(e) ==> e matches EngramError::CorruptRow(t) && t@ == "search_index"@)
}

/// What the lookup of one decision read from `rows` (at most one) is: none
/// for no row, else the row decoded.
pub open spec fn decision_lookup(rows: Seq<Seq<Option<String>>>, r: Result<Option<Decision>, EngramError>) -> bool {
    if rows.len() == 0 {
        r matches Ok(None)
    } else {
        &&& (r is Ok <==> decision_row_decodes(rows[0]))
        &&& (r matches Ok(o) ==> o matches Some(d) && decision_from_row(d, rows[0]))
        &&& (r matches Err(e) ==> e matches EngramError::CorruptRow(t) && t@ == "decisions"@)
    }
}

/// What the lookup of one task read from `rows` is.
pub open spec fn task_lookup(rows: Seq<Seq<Option<String>>>, r: Result<Option<Task>, EngramError>) -> bool {
    if rows.len() == 0 {
        r matches Ok(None)
    } else {
        &&& (r is Ok <==> task_row_decodes(rows[0]))
        &&& (r matches Ok(o) ==> o matches Some(t) && task_from_row(t, rows[0]))
        &&& (r matches Err(e) ==> e matches EngramError::CorruptRow(t) && t@ == "tasks"@)
    }
}

/// What the lookup of one file summary read from `rows` is.
pub open spec fn file_lookup(rows: Seq<Seq<Option<String>>>, r: Result<Option<FileSummary>, EngramError>) -> bool {
    if rows.len() == 0 {
        r matches Ok(None)
    } else {
        &&& (r is Ok <==> file_row_decodes(rows[0]))
        &&& (r matches Ok(o) ==> o matches Some(f) && file_from_row(f, rows[0]))
        &&& (r matches Err(e) ==> e matches EngramError::CorruptRow(t) && t@ == "file_summaries"@)
    }
}

/// What the lookup of one session read from `rows` is.
pub open spec fn session_lookup(rows: Seq<Seq<Option<String>>>, r: Result<Option<Session>, EngramError>) -> bool {
    if rows.len() == 0 {
        r matches Ok(None)
    } else {
        &&& (r is Ok <==> session_row_decodes(rows[0]))
        &&& (r matches Ok(o) ==> o matches Some(s) && session_from_row(s, rows[0]))
        &&& (r matches Err(e) ==> e matches EngramError::CorruptRow(t) && t@ == "sessions"@)
    }
}

/// What the project metadata read from `rows` is.
pub open spec fn meta_lookup(rows: Seq<Seq<Option<String>>>, r: Result<Option<ProjectMeta>, EngramError>) -> bool {
    if rows.len() == 0 {
        r matches Ok(None)
    } else {
        &&& (r is Ok <==> meta_row_decodes(rows[0]))
        &&& (r matches Ok(o) ==> o matches Some(m) && meta_from_row(m, rows[0]))
        &&& (r matches Err(e) ==> e matches EngramError::CorruptRow(t) && t@ == "project_meta"@)
    }
}

// ── Whether a read went through ──

/// What a query reads: a list, or the one row that a lookup finds.
pub enum ReadKind {
    Meta,
    Decisions,
    Tasks,
    Files,
    Sessions,
    OneDecision,
    OneTask,
    OneFile,
    OneSession,
    Hits,
}

/// The table whose rows a read decodes.
pub open spec fn table_of(kind: ReadKind) -> Seq<char> {
    match kind {
        ReadKind::Meta => "project_meta"@,
        ReadKind::Decisions | ReadKind::OneDecision => "decisions"@,
        ReadKind::Tasks | ReadKind::OneTask => "tasks"@,
        ReadKind::Files | ReadKind::OneFile => "file_summaries"@,
        ReadKind::Sessions | ReadKind::OneSession => "sessions"@,
        ReadKind::Hits => "search_index"@,
    }
}

/// Whether the rows read decode as the read needs: every row of a list, the
/// first row (if any) of a lookup.
pub open spec fn rows_decode(kind: ReadKind, rows: Seq<Seq<Option<String>>>) -> bool {
    match kind {
        ReadKind::Meta => rows.len() == 0 || meta_row_decodes(rows[0]),
        ReadKind::Decisions => forall|i: int| 0 <= i < rows.len() ==> decision_row_decodes(#[trigger] rows[i]),
        ReadKind::Tasks => forall|i: int| 0 <= i < rows.len() ==> task_row_decodes(#[trigger] rows[i]),
        ReadKind::Files => forall|i: int| 0 <= i < rows.len() ==> file_row_decodes(#[trigger] rows[i]),
        ReadKind::Sessions => forall|i: int| 0 <= i < rows.len() ==> session_row_decodes(#[trigger] rows[i]),
        ReadKind::OneDecision => rows.len() == 0 || decision_row_decodes(rows[0]),
        ReadKind::OneTask => rows.len() == 0 || task_row_decodes(rows[0]),
        ReadKind::OneFile => rows.len() == 0 || file_row_decodes(rows[0]),
        ReadKind::OneSession => rows.len() == 0 || session_row_decodes(rows[0]),
        ReadKind::Hits => forall|i: int| 0 <= i < rows.len() ==> cells_present(#[trigger] rows[i], 0, 2),
    }
}

/// Whether a query went through: it was answered and its rows decode.
pub open spec fn read_ok(kind: ReadKind, c: DbCall) -> bool {
    match rows_of(c) {
        Some(rows) => rows_decode(kind, rows),
        None => false,
    }
}

/// Whether `e` is the error of a query that did not go through: `Sql` when
/// the database failed, `CorruptRow` of the table when a row did not decode.
pub open spec fn read_error(kind: ReadKind, c: DbCall, e: EngramError) -> bool {
    match rows_of(c) {
        Some(rows) => !rows_decode(kind, rows) && (e matches EngramError::CorruptRow(t) && t@ == table_of(kind)),
        None => e is Sql,
    }
}

/// Whether the calls made after `before` are a run of reads of these kinds
/// that stops at the first read that does not go through; the outcome is
/// fine exactly when all were made and went through.
pub open spec fn reads_run(before: Seq<DbCall>, after: Seq<DbCall>, kinds: Seq<ReadKind>, ok: bool) -> bool {
    &&& grows(before, after)
    &&& 1 <= made(before, after) <= kinds.len()
    &&& forall|j: int|
        0 <= j < made(before, after) - 1 ==> read_ok(kinds[j], #[trigger] new_call(before, after, j))
    &&& (ok <==> (made(before, after) == kinds.len() && read_ok(kinds[made(before, after) - 1], after.last())))
}

/// Whether `e` is the error of the last read of such a run.
pub open spec fn reads_failed(before: Seq<DbCall>, after: Seq<DbCall>, kinds: Seq<ReadKind>, e: EngramError) -> bool {
    read_error(kinds[made(before, after) - 1], after.last(), e)
}

// ── What a stored row reads back as ──

/// The cells of a row are the texts of its entries.
proof fn lemma_cells_are_texts(row: Seq<Option<String>>)
    ensures
        texts(row).len() == row.len(),
        forall|i: int| 0 <= i < row.len() ==> #[trigger] cell(row, i) == texts(row)[i],
{
}

/// A stored text reads back as itself: a list through JSON, a time through
/// RFC 3339.
pub open spec fn time_reads_back(t: Seq<char>) -> bool {
    utc_rfc3339(t) == Some(t)
}

/// A stored row reads back as the decision it was written from, whenever its
/// lists and times read back as written.
pub proof fn law_decision_row_roundtrip(d: Decision, row: Seq<Option<String>>)
    requires
        texts(row) == decision_cells(d),
        json_of_strings_reads_back(views(d.alternatives@)),
        json_of_strings_reads_back(views(d.tags@)),
        time_reads_back(d.created_at@),
        time_reads_back(d.updated_at@),
    ensures
        decision_row_decodes(row),
        forall|back: Decision| #[trigger] decision_from_row(back, row) ==> {
            &&& back.id@ == d.id@
            &&& back.title@ == d.title@
            &&& back.context@ == d.context@
            &&& back.decision@ == d.decision@
            &&& views(back.alternatives@) == views(d.alternatives@)
            &&& views(back.tags@) == views(d.tags@)
            &&& back.status == d.status
            &&& back.created_at@ == d.created_at@
            &&& back.updated_at@ == d.updated_at@
        },
{
    lemma_cells_are_texts(row);
    assert forall|i: int| 0 <= i < 9 implies cell(row, i) == decision_cells(d)[i] by {
        assert(texts(row)[i] == decision_cells(d)[i]);
    }
    crate::models::lemma_decision_status_label_roundtrip(d.status);
}

/// A stored row reads back as the task it was written from, whenever its
/// tags and times read back as written.
pub proof fn law_task_row_roundtrip(t: Task, row: Seq<Option<String>>)
    requires
        texts(row) == task_cells(t),
        json_of_strings_reads_back(views(t.tags@)),
        time_reads_back(t.created_at@),
        time_reads_back(t.updated_at@),
    ensures
        task_row_decodes(row),
        forall|back: Task| #[trigger] task_from_row(back, row) ==> {
            &&& back.id@ == t.id@
            &&& back.title@ == t.title@
            &&& back.description@ == t.description@
            &&& back.status == t.status
            &&& back.priority == t.priority
            &&& opt_text(back.phase) == opt_text(t.phase)
            &&& views(back.tags@) == views(t.tags@)
            &&& back.created_at@ == t.created_at@
            &&& back.updated_at@ == t.updated_at@
        },
{
    lemma_cells_are_texts(row);
    assert forall|i: int| 0 <= i < 9 implies cell(row, i) == task_cells(t)[i] by {
        assert(texts(row)[i] == task_cells(t)[i]);
    }
    crate::models::lemma_task_status_label_roundtrip(t.status);
    crate::models::lemma_task_priority_label_roundtrip(t.priority);
}

/// A stored row reads back as the file summary it was written from, whenever
/// its lists and times read back as written.
pub proof fn law_file_row_roundtrip(f: FileSummary, row: Seq<Option<String>>)
    requires
        texts(row) == file_cells(f),
        json_of_strings_reads_back(views(f.key_types@)),
        json_of_strings_reads_back(views(f.dependencies@)),
        json_of_strings_reads_back(views(f.tags@)),
        time_reads_back(f.created_at@),
        time_reads_back(f.updated_at@),
    ensures
        file_row_decodes(row),
        forall|back: FileSummary| #[trigger] file_from_row(back, row) ==> {
            &&& back.id@ == f.id@
            &&& back.path@ == f.path@
            &&& back.summary@ == f.summary@
            &&& views(back.key_types@) == views(f.key_types@)
            &&& views(back.dependencies@) == views(f.dependencies@)
            &&& views(back.tags@) == views(f.tags@)
            &&& back.content_hash@ == f.content_hash@
            &&& back.created_at@ == f.created_at@
            &&& back.updated_at@ == f.updated_at@
        },
{
    lemma_cells_are_texts(row);
    assert forall|i: int| 0 <= i < 9 implies cell(row, i) == file_cells(f)[i] by {
        assert(texts(row)[i] == file_cells(f)[i]);
    }
}

/// A stored row reads back as the session it was written from, whenever its
/// tags and times read back as written.
pub proof fn law_session_row_roundtrip(s: Session, row: Seq<Option<String>>)
    requires
        texts(row) == session_cells(s),
        json_of_strings_reads_back(views(s.tags@)),
        time_reads_back(s.started_at@),
        s.ended_at matches Some(e) ==> time_reads_back(e@),
    ensures
        session_row_decodes(row),
        forall|back: Session| #[trigger] session_from_row(back, row) ==> {
            &&& back.id@ == s.id@
            &&& back.agent@ == s.agent@
            &&& back.goal@ == s.goal@
            &&& opt_text(back.handoff) == opt_text(s.handoff)
            &&& views(back.tags@) == views(s.tags@)
            &&& back.started_at@ == s.started_at@
            &&& opt_text(back.ended_at) == opt_text(s.ended_at)
        },
{
    lemma_cells_are_texts(row);
    assert forall|i: int| 0 <= i < 7 implies cell(row, i) == session_cells(s)[i] by {
        assert(texts(row)[i] == session_cells(s)[i]);
    }
}

/// A stored row reads back as the project metadata it was written from,
/// whenever its lists and times read back as written.
pub proof fn law_meta_row_roundtrip(m: ProjectMeta, row: Seq<Option<String>>)
    requires
        texts(row) == meta_cells(m),
        json_of_strings_reads_back(views(m.stack@)),
        json_of_strings_reads_back(views(m.conventions@)),
        time_reads_back(m.created_at@),
        time_reads_back(m.updated_at@),
    ensures
        meta_row_decodes(row),
        forall|back: ProjectMeta| #[trigger] meta_from_row(back, row) ==> {
            &&& back.name@ == m.name@
            &&& back.description@ == m.description@
            &&& views(back.stack@) == views(m.stack@)
            &&& views(back.conventions@) == views(m.conventions@)
            &&& back.created_at@ == m.created_at@
            &&& back.updated_at@ == m.updated_at@
        },
{
    lemma_cells_are_texts(row);
    assert forall|i: int| 0 <= i < 6 implies cell(row, i) == meta_cells(m)[i] by {
        assert(texts(row)[i] == meta_cells(m)[i]);
    }
}

} // verus!
