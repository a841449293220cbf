//! The command-line commands: what each one computes and the text it prints.

pub mod export;

use vstd::prelude::*;

use crate::error::EngramError;
use crate::engine::renderer::{minute_of, minute_text};
use crate::models::{ContextOutput, Decision, DecisionStatus, FileSummary, ProjectMeta, Session, Task, TaskStatus};
use crate::storage::Store;
use crate::storage::calls::{asked, extends, grows, made, new_call, rows_of, DbCall};
use crate::storage::rows::{
    decision_lookup, decisions_reply, file_lookup, hits_reply, read_error, read_ok, session_lookup,
    session_row_decodes, task_lookup, tasks_reply, ReadKind,
};
use crate::storage::{
    sql_active_session, sql_file_by_path, sql_get_decision, sql_insert_session, sql_get_session, sql_get_task, sql_list_decisions, sql_list_tasks,
    sql_search, session_end_run, session_start_run, task_status_set, unit_of,
    search_read_kind, lemma_search_queries_differ, meta_set_run,
};
use crate::text::{
    csv_items, csv_of, cut_at_boundary, decimal, decimal_text, has_prefix, join, join_strings,
    preview, push_trimmed, short_id, split_commas, starts_with, views,
};

verus! {

broadcast use crate::storage::calls::group_transcript;

// ── The commands ──

/// A parsed command line.
#[derive(Debug)]
pub struct Cli {
    pub command: Commands,
}

/// The commands of the command line.
#[derive(Debug)]
pub enum Commands {
    /// Initialize engram in the current project.
    Init { name: Option<String>, description: Option<String> },
    /// Manage architectural decisions.
    Decision { action: DecisionAction },
    /// Manage project tasks.
    Task { action: TaskAction },
    /// Manage file summaries.
    File { action: FileAction },
    /// Manage work sessions.
    Session { action: SessionAction },
    /// Search across all memory.
    Search { query: String, entity_type: Option<String> },
    /// Get token-efficient project context.
    Context { role: String, level: String },
    /// Compact project status overview.
    Status,
    /// Export all engram data to JSON.
    Export { path: Option<String> },
    /// Import engram data from JSON.
    Import { path: String },
    /// Generate shell completions.
    Completions { shell: String },
    /// Start the MCP server (stdio transport).
    Serve,
}

/// The decision commands.
#[derive(Debug)]
pub enum DecisionAction {
    /// Record a new decision; alternatives and tags are comma-separated.
    Add {
        title: String,
        context: String,
        decision: String,
        alternatives: Option<String>,
        tags: Option<String>,
    },
    /// List decisions, optionally of one status.
    List { status: Option<String> },
    /// Show the decision that an id prefix picks.
    Show { id: String },
}

/// The task commands.
#[derive(Debug)]
pub enum TaskAction {
    /// Add a new task; tags are comma-separated.
    Add {
        title: String,
        description: String,
        priority: String,
        phase: Option<String>,
        tags: Option<String>,
    },
    /// Update the status of the task that an id prefix picks.
    Update { id: String, status: String },
    /// List tasks, optionally of one status.
    List { status: Option<String> },
}

/// The file summary commands.
#[derive(Debug)]
pub enum FileAction {
    /// Add or update a file summary; lists are comma-separated.
    Summarize {
        path: String,
        summary: String,
        key_types: Option<String>,
        deps: Option<String>,
        tags: Option<String>,
    },
    /// List file summaries.
    List,
    /// Check whether a file summary is stale.
    Check { path: String },
}

/// The session commands.
#[derive(Debug)]
pub enum SessionAction {
    /// Start a new work session; tags are comma-separated.
    Start { agent: String, goal: String, tags: Option<String> },
    /// End the active session with handoff notes.
    End { handoff: String },
    /// List recent sessions.
    List { limit: usize },
}

/// Splits a comma-separated list into its trimmed, non-empty items; nothing
/// for no list.
pub fn parse_csv(s: &Option<String>) -> (r: Vec<String>)
    ensures
        views(r@) == match s {
            Some(t) => csv_items(t@),
            None => Seq::empty(),
        },
{
    match s {
        None => Vec::new(),
        Some(text) => {
            let text = text.as_str();
            let n = text.unicode_len();
            let mut items: Vec<String> = Vec::new();
            let ghost mut done: Seq<Seq<char>> = Seq::empty();
            let mut start: usize = 0;
            let mut i: usize = 0;
            proof {
                assert(text@.take(0) =~= Seq::<char>::empty());
                assert(text@.subrange(0, 0) =~= Seq::<char>::empty());
                reveal(Seq::filter);
                assert(csv_of(done) =~= Seq::<Seq<char>>::empty());
            }
            while i < n
                invariant
                    0 <= start <= i <= n,
                    n == text@.len(),
                    split_commas(text@.take(i as int)) == done.push(text@.subrange(start as int, i as int)),
                    views(items@) == csv_of(done),
                decreases n - i,
            {
                let c = text.get_char(i);
                proof {
                    assert(text@.take(i + 1).drop_last() =~= text@.take(i as int));
                    assert(text@.take(i + 1).last() == c);
                }
                if c == ',' {
                    let piece = text.substring_char(start, i);
                    push_trimmed(&mut items, piece);
                    proof {
                        crate::text::lemma_csv_of_push(done, piece@);
                        done = done.push(piece@);
                        assert(text@.subrange(i + 1, i + 1) =~= Seq::<char>::empty());
                    }
                    start = i + 1;
                } else {
                    proof {
                        assert(text@.subrange(start as int, i + 1) =~= text@.subrange(start as int, i as int).push(c));
                    }
                }
                i += 1;
            }
            let piece = text.substring_char(start, n);
            push_trimmed(&mut items, piece);
            proof {
                crate::text::lemma_csv_of_push(done, piece@);
                assert(text@.take(n as int) =~= text@);
            }
            items
        },
    }
}

// ── Finding by id prefix ──

/// The position of the first decision whose id starts with a prefix, if any.
pub fn find_decision_by_prefix(ds: &[Decision], prefix: &str) -> (r: Option<usize>)
    ensures
        match r {
            Some(i) => i < ds@.len() && has_prefix(ds@[i as int].id@, prefix@) && forall|j: int|
                0 <= j < i ==> !has_prefix(#[trigger] ds@[j].id@, prefix@),
            None => forall|j: int| 0 <= j < ds@.len() ==> !has_prefix(#[trigger] ds@[j].id@, prefix@),
        },
{
    let n = ds.len();
    let mut i: usize = 0;
    while i < n
        invariant
            0 <= i <= n,
            n == ds@.len(),
            forall|j: int| 0 <= j < i ==> !has_prefix(#[trigger] ds@[j].id@, prefix@),
        decreases n - i,
    {
        if starts_with(ds[i].id.as_str(), prefix) {
            return Some(i);
        }
        i += 1;
    }
    None
}

/// The position of the first task whose id starts with a prefix, if any.
pub fn find_task_by_prefix(ts: &[Task], prefix: &str) -> (r: Option<usize>)
    ensures
        match r {
            Some(i) => i < ts@.len() && has_prefix(ts@[i as int].id@, prefix@) && forall|j: int|
                0 <= j < i ==> !has_prefix(#[trigger] ts@[j].id@, prefix@),
            None => forall|j: int| 0 <= j < ts@.len() ==> !has_prefix(#[trigger] ts@[j].id@, prefix@),
        },
{
    let n = ts.len();
    let mut i: usize = 0;
    while i < n
        invariant
            0 <= i <= n,
            n == ts@.len(),
            forall|j: int| 0 <= j < i ==> !has_prefix(#[trigger] ts@[j].id@, prefix@),
        decreases n - i,
    {
        if starts_with(ts[i].id.as_str(), prefix) {
            return Some(i);
        }
        i += 1;
    }
    None
}

/// Whether `ds` holds an entity at `i` whose id starts with `prefix`, and none
/// before it does.
pub open spec fn first_decision_with_prefix(ds: Seq<Decision>, prefix: Seq<char>, i: int) -> bool {
    0 <= i < ds.len() && has_prefix(ds[i].id@, prefix) && forall|j: int|
        0 <= j < i ==> !has_prefix(#[trigger] ds[j].id@, prefix)
}

/// Whether `ts` holds a task at `i` whose id starts with `prefix`, and none
/// before it does.
pub open spec fn first_task_with_prefix(ts: Seq<Task>, prefix: Seq<char>, i: int) -> bool {
    0 <= i < ts.len() && has_prefix(ts[i].id@, prefix) && forall|j: int|
        0 <= j < i ==> !has_prefix(#[trigger] ts[j].id@, prefix)
}

/// The decision that a prefix picks: it lists all decisions (newest first)
/// and takes the first whose id starts with the prefix; fails with
/// `DecisionPrefixNotFound` when none does.
pub fn find_decision(store: &mut Store, prefix: &str) -> (r: Result<Decision, EngramError>)
    ensures
        extends(old(store).calls(), final(store).calls(), 1),
        ({
            let c0 = new_call(old(store).calls(), final(store).calls(), 0);
            &&& asked(c0, sql_list_decisions(false), Seq::empty())
            &&& !read_ok(ReadKind::Decisions, c0) ==> (r matches Err(e) && read_error(ReadKind::Decisions, c0, e))
            &&& read_ok(ReadKind::Decisions, c0) ==> exists|ds: Vec<Decision>|
                #[trigger] decisions_reply(rows_of(c0)->0, Ok(ds)) && match r {
                    Ok(d) => exists|i: int| #[trigger] first_decision_with_prefix(ds@, prefix@, i) && d == ds@[i],
                    Err(e) => (e matches EngramError::DecisionPrefixNotFound(p) && p@ == prefix@) && forall|j: int|
                        0 <= j < ds@.len() ==> !has_prefix(#[trigger] ds@[j].id@, prefix@),
                }
        }),
        r matches Ok(d) ==> has_prefix(d.id@, prefix@),
{
    let mut decisions = store.list_decisions(None)?;
    let ghost ds = decisions;
    match find_decision_by_prefix(decisions.as_slice(), prefix) {
        Some(i) => {
            proof {
                assert(first_decision_with_prefix(ds@, prefix@, i as int));
            }
            Ok(decisions.remove(i))
        },
        None => Err(EngramError::DecisionPrefixNotFound(prefix.to_owned())),
    }
}

/// Whether the calls made after `before` set the status of the task that a
/// prefix picks, and `r` is what the replies give: all tasks are listed,
/// newest first (the error of that read is given back when it does not go
/// through); when no id starts with the prefix the error is
/// `TaskPrefixNotFound`; else the status of the first such task is set, and
/// that task, as it was listed, is given back when the update went through.
pub open spec fn prefix_update_run(
    before: Seq<DbCall>,
    after: Seq<DbCall>,
    prefix: Seq<char>,
    status: TaskStatus,
    r: Result<Task, EngramError>,
) -> bool {
    let c0 = new_call(before, after, 0);
    let c1 = new_call(before, after, 1);
    &&& grows(before, after)
    &&& made(before, after) >= 1
    &&& asked(c0, sql_list_tasks(false), Seq::empty())
    &&& !read_ok(ReadKind::Tasks, c0) ==> made(before, after) == 1 && (r matches Err(e) && read_error(
        ReadKind::Tasks,
        c0,
        e,
    ))
    &&& read_ok(ReadKind::Tasks, c0) ==> exists|ts: Vec<Task>|
        #[trigger] tasks_reply(rows_of(c0)->0, Ok(ts)) && {
            ||| (forall|j: int| 0 <= j < ts@.len() ==> !has_prefix(#[trigger] ts@[j].id@, prefix)) && made(
                before,
                after,
            ) == 1 && (r matches Err(EngramError::TaskPrefixNotFound(p)) && p@ == prefix)
            ||| exists|i: int|
                #[trigger] first_task_with_prefix(ts@, prefix, i) && made(before, after) == 2 && task_status_set(
                    c1,
                    ts@[i].id@,
                    status,
                    unit_of(r),
                ) && (r matches Ok(t) ==> t == ts@[i])
        }
}

/// Sets the status of the task that a prefix picks: it lists all tasks
/// (newest first), takes the first whose id starts with the prefix, and
/// updates that task's status; the task is given back as it was found. Fails
/// with `TaskPrefixNotFound` when no id starts with the prefix.
pub fn update_task_by_prefix(store: &mut Store, prefix: &str, status: &TaskStatus) -> (r: Result<
    Task,
    EngramError,
>)
    ensures
        prefix_update_run(old(store).calls(), final(store).calls(), prefix@, *status, r),
        r matches Ok(t) ==> has_prefix(t.id@, prefix@),
{
    let ghost b = store.calls().len() as int;
    let mut tasks = store.list_tasks(None)?;
    let ghost ts = tasks;
    let ghost s0 = store.calls();
    match find_task_by_prefix(tasks.as_slice(), prefix) {
        Some(i) => {
            let task = tasks.remove(i);
            proof {
                assert(first_task_with_prefix(ts@, prefix@, i as int));
            }
            let done = store.update_task_status(task.id.as_str(), status);
            proof {
                assert(store.calls()[b] == s0[b]);
                assert(new_call(old(store).calls(), store.calls(), 1) == store.calls().last());
                assert(tasks_reply(rows_of(s0[b])->0, Ok(ts)));
            }
            match done {
                Ok(()) => Ok(task),
                Err(e) => Err(e),
            }
        },
        None => {
            proof {
                assert(tasks_reply(rows_of(s0[b])->0, Ok(ts)));
            }
            Err(EngramError::TaskPrefixNotFound(prefix.to_owned()))
        },
    }
}

// ── Sessions ──

/// Whether a session may start: only when none is active; otherwise the
/// error names the active one by its short id and its goal.
pub fn check_no_active_session(active: &Option<Session>) -> (r: Result<(), EngramError>)
    ensures
        match active {
            None => r is Ok,
            Some(s) => r matches Err(EngramError::SessionAlreadyActive { id, goal }) && id@ == short_id(
                s.id@,
            ) && goal@ == s.goal@,
        },
{
    match active {
        None => Ok(()),
        Some(s) => Err(
            EngramError::SessionAlreadyActive {
                id: crate::text::short_id_text(s.id.as_str()),
                goal: s.goal.clone(),
            },
        ),
    }
}

/// Whether the calls made after `before` started a session unless one was
/// active, and `r` is what the replies give: the active session is read
/// (the error of that read is given back when it does not go through); an
/// active session refuses the start, named by its short id and goal; when
/// none is active the session is started.
pub open spec fn checked_start_run(
    before: Seq<DbCall>,
    after: Seq<DbCall>,
    agent: Seq<char>,
    goal: Seq<char>,
    tags: Seq<String>,
    r: Result<Session, EngramError>,
) -> bool {
    let c0 = new_call(before, after, 0);
    &&& grows(before, after)
    &&& made(before, after) >= 1
    &&& asked(c0, sql_active_session(), Seq::empty())
    &&& !read_ok(ReadKind::OneSession, c0) ==> made(before, after) == 1 && (r matches Err(e) && read_error(
        ReadKind::OneSession,
        c0,
        e,
    ))
    &&& (read_ok(ReadKind::OneSession, c0) && rows_of(c0)->0.len() > 0) ==> made(before, after) == 1 && exists|
        a: Session,
    |
        #[trigger] session_lookup(rows_of(c0)->0, Ok(Some(a))) && (r matches Err(
            EngramError::SessionAlreadyActive { id, goal: g },
        ) && id@ == short_id(a.id@) && g@ == a.goal@)
    &&& (read_ok(ReadKind::OneSession, c0) && rows_of(c0)->0.len() == 0) ==> session_start_run(
        after.take(before.len() + 1 as int),
        after,
        agent,
        goal,
        tags,
        r,
    )
}

/// Starts a session unless one is active.
pub fn start_session_checked(store: &mut Store, agent: &str, goal: &str, tags: &[String]) -> (r: Result<
    Session,
    EngramError,
>)
    ensures
        checked_start_run(old(store).calls(), final(store).calls(), agent@, goal@, tags@, r),
{
    let ghost b = store.calls().len() as int;
    let active = store.get_active_session()?;
    let ghost s0 = store.calls();
    match check_no_active_session(&active) {
        Err(e) => {
            proof {
                assert(session_lookup(rows_of(s0[b])->0, Ok(active)));
            }
            return Err(e);
        },
        Ok(()) => {},
    }
    let r = store.start_session(agent, goal, tags);
    proof {
        assert(store.calls()[b] == s0[b]);
        assert(store.calls().take(b + 1) =~= s0);
    }
    r
}

/// A session is never started while one is active: when the read of the
/// active session finds one (its row decodes), the start is refused with that
/// session's short id and goal, and nothing more is sent.
pub proof fn law_no_second_active_session(
    before: Seq<DbCall>,
    after: Seq<DbCall>,
    agent: Seq<char>,
    goal: Seq<char>,
    tags: Seq<String>,
    r: Result<Session, EngramError>,
)
    requires
        checked_start_run(before, after, agent, goal, tags, r),
        rows_of(new_call(before, after, 0)) matches Some(rows) && rows.len() > 0 && session_row_decodes(rows[0]),
    ensures
        made(before, after) == 1,
        r matches Err(EngramError::SessionAlreadyActive { .. }),
{
}

/// When no session is active, the start goes ahead: the request after the
/// read inserts a session with the agent and goal asked for.
pub proof fn law_start_when_none_active(
    before: Seq<DbCall>,
    after: Seq<DbCall>,
    agent: Seq<char>,
    goal: Seq<char>,
    tags: Seq<String>,
    r: Result<Session, EngramError>,
)
    requires
        checked_start_run(before, after, agent, goal, tags, r),
        rows_of(new_call(before, after, 0)) == Some(Seq::<Seq<Option<String>>>::empty()),
    ensures
        made(before, after) >= 2,
        new_call(before, after, 1).sql == sql_insert_session(),
        new_call(before, after, 1).params[1] == Some(agent),
        new_call(before, after, 1).params[2] == Some(goal),
        r matches Ok(s) ==> s.agent@ == agent && s.goal@ == goal && s.ended_at is None,
{
    let first = after.take(before.len() + 1 as int);
    assert(first.len() == before.len() + 1);
    assert(new_call(first, after, 0) == new_call(before, after, 1));
}

/// Whether the calls made after `before` ended the active session with
/// handoff notes, and `r` is what the replies give: the active session is
/// read (the error of that read is given back when it does not go through);
/// `NoActiveSession` when there is none; else that session is ended, and
/// given back as it was read when that went through.
pub open spec fn active_end_run(
    before: Seq<DbCall>,
    after: Seq<DbCall>,
    handoff: Seq<char>,
    r: Result<Session, EngramError>,
) -> bool {
    let c0 = new_call(before, after, 0);
    &&& grows(before, after)
    &&& made(before, after) >= 1
    &&& asked(c0, sql_active_session(), Seq::empty())
    &&& !read_ok(ReadKind::OneSession, c0) ==> made(before, after) == 1 && (r matches Err(e) && read_error(
        ReadKind::OneSession,
        c0,
        e,
    ))
    &&& (read_ok(ReadKind::OneSession, c0) && rows_of(c0)->0.len() == 0) ==> made(before, after) == 1 && (
    r matches Err(EngramError::NoActiveSession))
    &&& (read_ok(ReadKind::OneSession, c0) && rows_of(c0)->0.len() > 0) ==> exists|a: Session|
        #[trigger] session_lookup(rows_of(c0)->0, Ok(Some(a))) && session_end_run(
            after.take(before.len() + 1 as int),
            after,
            a.id@,
            handoff,
            unit_of(r),
        ) && (r matches Ok(s) ==> s == a)
}

/// Ends the active session with handoff notes and gives it back as it was
/// read before; fails with `NoActiveSession` when none is active.
pub fn end_active_session(store: &mut Store, handoff: &str) -> (r: Result<Session, EngramError>)
    ensures
        active_end_run(old(store).calls(), final(store).calls(), handoff@, r),
{
    let ghost b = store.calls().len() as int;
    let found = store.get_active_session()?;
    let ghost s0 = store.calls();
    match found {
        Some(s) => {
            let done = store.end_session(s.id.as_str(), handoff);
            proof {
                assert(store.calls()[b] == s0[b]);
                assert(store.calls().take(b + 1) =~= s0);
                assert(session_lookup(rows_of(s0[b])->0, Ok(Some(s))));
            }
            match done {
                Ok(()) => Ok(s),
                Err(e) => Err(e),
            }
        },
        None => Err(EngramError::NoActiveSession),
    }
}

// ── Decisions ──

/// What `decision add` prints.
pub open spec fn decision_recorded_text(d: Decision) -> Seq<char> {
    "Decision recorded: "@ + d.id@ + "\n"@ + "  Title: "@ + d.title@ + "\n"@
}

/// What `decision add` prints.
pub fn decision_recorded_report(d: &Decision) -> (r: String)
    ensures
        r@ == decision_recorded_text(*d),
{
    let mut r = String::new();
    r.append("Decision recorded: ");
    r.append(d.id.as_str());
    r.append("\n");
    r.append("  Title: ");
    r.append(d.title.as_str());
    r.append("\n");
    r
}

/// The line of a decision in `decision list`.
pub open spec fn decision_list_line(d: Decision) -> Seq<char> {
    "["@ + short_id(d.id@) + "] ("@ + d.status.label() + ") "@ + d.title@ + " - "@ + d.decision@
        + "\n"@
}

/// The lines of decisions, one after the other.
pub open spec fn decision_list_lines(ds: Seq<Decision>) -> Seq<char>
    decreases ds.len(),
{
    if ds.len() == 0 {
        Seq::empty()
    } else {
        decision_list_lines(ds.drop_last()) + decision_list_line(ds.last())
    }
}

/// What `decision list` prints.
pub open spec fn decision_list_text(ds: Seq<Decision>) -> Seq<char> {
    if ds.len() == 0 {
        "No decisions found.\n"@
    } else {
        decision_list_lines(ds) + "\n"@ + decimal(ds.len()) + " decision(s)\n"@
    }
}

/// What `decision list` prints.
pub fn decision_list_report(ds: &[Decision]) -> (r: String)
    ensures
        r@ == decision_list_text(ds@),
{
    let mut r = String::new();
    if ds.len() == 0 {
        r.append("No decisions found.\n");
        return r;
    }
    let n = ds.len();
    let mut i: usize = 0;
    while i < n
        invariant
            0 <= i <= n,
            n == ds@.len(),
            r@ == decision_list_lines(ds@.take(i as int)),
        decreases n - i,
    {
        proof {
            assert(ds@.take(i + 1).drop_last() =~= ds@.take(i as int));
        }
        let d = &ds[i];
        let short = crate::text::short_id_text(d.id.as_str());
        r.append("[");
        r.append(short.as_str());
        r.append("] (");
        r.append(d.status.as_str());
        r.append(") ");
        r.append(d.title.as_str());
        r.append(" - ");
        r.append(d.decision.as_str());
        r.append("\n");
        i += 1;
    }
    proof {
        assert(ds@.take(n as int) =~= ds@);
    }
    let count = decimal_text(n);
    r.append("\n");
    r.append(count.as_str());
    r.append(" decision(s)\n");
    r
}

/// The lines of a list of strings, each after a dash.
pub open spec fn dash_lines(items: Seq<String>) -> Seq<char>
    decreases items.len(),
{
    if items.len() == 0 {
        Seq::empty()
    } else {
        dash_lines(items.drop_last()) + "- "@ + items.last()@ + "\n"@
    }
}

fn push_dash_lines(out: &mut String, items: &Vec<String>)
    ensures
        final(out)@ == old(out)@ + dash_lines(items@),
{
    let ghost start = out@;
    let n = items.len();
    let mut i: usize = 0;
    while i < n
        invariant
            0 <= i <= n,
            n == items@.len(),
            out@ == start + dash_lines(items@.take(i as int)),
        decreases n - i,
    {
        proof {
            assert(items@.take(i + 1).drop_last() =~= items@.take(i as int));
        }
        out.append("- ");
        out.append(items[i].as_str());
        out.append("\n");
        i += 1;
    }
    proof {
        assert(items@.take(n as int) =~= items@);
    }
}

/// What `decision show` prints.
pub open spec fn decision_show_text(d: Decision) -> Seq<char> {
    "# "@ + d.title@ + "\n"@ + "ID: "@ + d.id@ + "\n"@ + "Status: "@ + d.status.label() + "\n"@
        + "Created: "@ + minute_text(d.created_at@) + "\n"@ + "\n## Context\n"@ + d.context@
        + "\n"@ + "\n## Decision\n"@ + d.decision@ + "\n"@ + (if d.alternatives@.len() > 0 {
        "\n## Alternatives Considered\n"@ + dash_lines(d.alternatives@)
    } else {
        Seq::empty()
    }) + (if d.tags@.len() > 0 {
        "\nTags: "@ + join(views(d.tags@), ", "@) + "\n"@
    } else {
        Seq::empty()
    })
}

/// What `decision show` prints.
pub fn decision_show_report(d: &Decision) -> (r: String)
    ensures
        r@ == decision_show_text(*d),
{
    let created = minute_of(d.created_at.as_str());
    let mut r = String::new();
    r.append("# ");
    r.append(d.title.as_str());
    r.append("\n");
    r.append("ID: ");
    r.append(d.id.as_str());
    r.append("\n");
    r.append("Status: ");
    r.append(d.status.as_str());
    r.append("\n");
    r.append("Created: ");
    r.append(created.as_str());
    r.append("\n");
    r.append("\n## Context\n");
    r.append(d.context.as_str());
    r.append("\n");
    r.append("\n## Decision\n");
    r.append(d.decision.as_str());
    r.append("\n");
    if d.alternatives.len() > 0 {
        r.append("\n## Alternatives Considered\n");
        push_dash_lines(&mut r, &d.alternatives);
    }
    if d.tags.len() > 0 {
        let tags = join_strings(&d.tags, ", ");
        r.append("\nTags: ");
        r.append(tags.as_str());
        r.append("\n");
    }
    r
}

// ── Tasks ──

/// What `task add` prints.
pub open spec fn task_created_text(t: Task) -> Seq<char> {
    "Task created: "@ + t.id@ + "\n"@ + "  Title: "@ + t.title@ + "\n"@ + "  Priority: "@
        + t.priority.label() + "\n"@ + match t.phase {
        Some(p) => "  Phase: "@ + p@ + "\n"@,
        None => Seq::empty(),
    }
}

/// What `task add` prints.
pub fn task_created_report(t: &Task) -> (r: String)
    ensures
        r@ == task_created_text(*t),
{
    let mut r = String::new();
    r.append("Task created: ");
    r.append(t.id.as_str());
    r.append("\n");
    r.append("  Title: ");
    r.append(t.title.as_str());
    r.append("\n");
    r.append("  Priority: ");
    r.append(t.priority.as_str());
    r.append("\n");
    if let Some(p) = &t.phase {
        r.append("  Phase: ");
        r.append(p.as_str());
        r.append("\n");
    }
    r
}

/// What `task update` prints: the first eight bytes of the id and the new
/// status.
pub open spec fn task_updated_text(t: Task, status: TaskStatus) -> Seq<char> {
    "Task "@ + short_id(t.id@) + " updated to "@ + status.label() + "\n"@
}

/// What `task update` prints. The id must have eight bytes at least, the
/// eighth ending a character.
pub fn task_updated_report(t: &Task, status: &TaskStatus) -> (r: String)
    requires
        cut_at_boundary(t.id@, 8),
    ensures
        r@ == task_updated_text(*t, *status),
{
    let short = crate::text::short_id_text(t.id.as_str());
    let mut r = String::new();
    r.append("Task ");
    r.append(short.as_str());
    r.append(" updated to ");
    r.append(status.as_str());
    r.append("\n");
    r
}

/// The phase of a task as `task list` shows it: the phase, or "-" for none.
pub open spec fn phase_or_dash(phase: Option<String>) -> Seq<char> {
    match phase {
        Some(p) => p@,
        None => "-"@,
    }
}

/// The line of a task in `task list`.
pub open spec fn task_list_line(t: Task) -> Seq<char> {
    "["@ + short_id(t.id@) + "] ("@ + t.status.label() + "/"@ + t.priority.label() + ") "@ + t.title@
        + " ["@ + phase_or_dash(t.phase) + "]\n"@
}

/// The lines of tasks, one after the other.
pub open spec fn task_list_lines(ts: Seq<Task>) -> Seq<char>
    decreases ts.len(),
{
    if ts.len() == 0 {
        Seq::empty()
    } else {
        task_list_lines(ts.drop_last()) + task_list_line(ts.last())
    }
}

/// What `task list` prints.
pub open spec fn task_list_text(ts: Seq<Task>) -> Seq<char> {
    if ts.len() == 0 {
        "No tasks found.\n"@
    } else {
        task_list_lines(ts) + "\n"@ + decimal(ts.len()) + " task(s)\n"@
    }
}

fn push_task_list_line(out: &mut String, t: &Task)
    requires
        cut_at_boundary(t.id@, 8),
    ensures
        final(out)@ == old(out)@ + task_list_line(*t),
{
    let short = crate::text::short_id_text(t.id.as_str());
    out.append("[");
    out.append(short.as_str());
    out.append("] (");
    out.append(t.status.as_str());
    out.append("/");
    out.append(t.priority.as_str());
    out.append(") ");
    out.append(t.title.as_str());
    out.append(" [");
    match &t.phase {
        Some(p) => out.append(p.as_str()),
        None => out.append("-"),
    }
    out.append("]\n");
}

/// What `task list` prints. Every id must have eight bytes at least, the
/// eighth ending a character.
pub fn task_list_report(ts: &[Task]) -> (r: String)
    requires
        forall|i: int| 0 <= i < ts@.len() ==> cut_at_boundary((#[trigger] ts@[i]).id@, 8),
    ensures
        r@ == task_list_text(ts@),
{
    let mut r = String::new();
    if ts.len() == 0 {
        r.append("No tasks found.\n");
        return r;
    }
    let n = ts.len();
    let mut i: usize = 0;
    while i < n
        invariant
            0 <= i <= n,
            n == ts@.len(),
            forall|i: int| 0 <= i < ts@.len() ==> cut_at_boundary((#[trigger] ts@[i]).id@, 8),
            r@ == task_list_lines(ts@.take(i as int)),
        decreases n - i,
    {
        proof {
            assert(ts@.take(i + 1).drop_last() =~= ts@.take(i as int));
        }
        push_task_list_line(&mut r, &ts[i]);
        i += 1;
    }
    proof {
        assert(ts@.take(n as int) =~= ts@);
    }
    let count = decimal_text(n);
    r.append("\n");
    r.append(count.as_str());
    r.append(" task(s)\n");
    r
}

// ── Sessions ──

/// What `session start` prints.
pub open spec fn session_started_text(s: Session) -> Seq<char> {
    "Session started: "@ + short_id(s.id@) + "\n"@ + "  Agent: "@ + s.agent@ + "\n"@ + "  Goal: "@
        + s.goal@ + "\n"@
}

/// What `session start` prints.
pub fn session_started_report(s: &Session) -> (r: String)
    ensures
        r@ == session_started_text(*s),
{
    let short = crate::text::short_id_text(s.id.as_str());
    let mut r = String::new();
    r.append("Session started: ");
    r.append(short.as_str());
    r.append("\n");
    r.append("  Agent: ");
    r.append(s.agent.as_str());
    r.append("\n");
    r.append("  Goal: ");
    r.append(s.goal.as_str());
    r.append("\n");
    r
}

/// What `session end` prints.
pub open spec fn session_ended_text(s: Session, handoff: Seq<char>) -> Seq<char> {
    "Session ended: "@ + short_id(s.id@) + "\n"@ + "  Handoff: "@ + handoff + "\n"@
}

/// What `session end` prints.
pub fn session_ended_report(s: &Session, handoff: &str) -> (r: String)
    ensures
        r@ == session_ended_text(*s, handoff@),
{
    let short = crate::text::short_id_text(s.id.as_str());
    let mut r = String::new();
    r.append("Session ended: ");
    r.append(short.as_str());
    r.append("\n");
    r.append("  Handoff: ");
    r.append(handoff);
    r.append("\n");
    r
}

/// Whether a session has ended, in words.
pub open spec fn ended_word(s: Session) -> Seq<char> {
    if s.ended_at is Some {
        "ended"@
    } else {
        "active"@
    }
}

fn ended_word_str(s: &Session) -> (w: &'static str)
    ensures
        w@ == ended_word(*s),
{
    if s.ended_at.is_some() {
        "ended"
    } else {
        "active"
    }
}

/// The entry of a session in `session list`.
pub open spec fn session_list_entry(s: Session) -> Seq<char> {
    "["@ + short_id(s.id@) + "] ("@ + ended_word(s) + ") "@ + s.agent@ + " - "@ + s.goal@ + " ("@
        + minute_text(s.started_at@) + ")\n"@ + match s.handoff {
        Some(h) => "           Handoff: "@ + preview(h@, 80) + "\n"@,
        None => Seq::empty(),
    }
}

/// An entry of `session list` says "(active)" for a session with no end
/// time and "(ended)" for one that has it, after the short id.
pub proof fn law_session_list_entry_state(s: Session)
    ensures
        ({
            let state = if s.ended_at is Some {
                "ended"@
            } else {
                "active"@
            };
            let head = "["@ + short_id(s.id@) + "] ("@ + state + ") "@ + s.agent@ + " - "@ + s.goal@;
            session_list_entry(s).len() >= head.len() && session_list_entry(s).subrange(0, head.len() as int) == head
        }),
{
    let state = if s.ended_at is Some {
        "ended"@
    } else {
        "active"@
    };
    let head = "["@ + short_id(s.id@) + "] ("@ + state + ") "@ + s.agent@ + " - "@ + s.goal@;
    let rest = " ("@ + minute_text(s.started_at@) + ")\n"@ + match s.handoff {
        Some(h) => "           Handoff: "@ + preview(h@, 80) + "\n"@,
        None => Seq::empty(),
    };
    assert(session_list_entry(s) =~= head + rest);
    assert((head + rest).subrange(0, head.len() as int) =~= head);
}

/// The entries of sessions, one after the other.
pub open spec fn session_list_entries(ss: Seq<Session>) -> Seq<char>
    decreases ss.len(),
{
    if ss.len() == 0 {
        Seq::empty()
    } else {
        session_list_entries(ss.drop_last()) + session_list_entry(ss.last())
    }
}

/// What `session list` prints.
pub open spec fn session_list_text(ss: Seq<Session>) -> Seq<char> {
    if ss.len() == 0 {
        "No sessions found.\n"@
    } else {
        session_list_entries(ss) + "\n"@ + decimal(ss.len()) + " session(s)\n"@
    }
}

fn push_session_list_entry(out: &mut String, s: &Session)
    ensures
        final(out)@ == old(out)@ + session_list_entry(*s),
{
    let short = crate::text::short_id_text(s.id.as_str());
    let started = minute_of(s.started_at.as_str());
    out.append("[");
    out.append(short.as_str());
    out.append("] (");
    out.append(ended_word_str(s));
    out.append(") ");
    out.append(s.agent.as_str());
    out.append(" - ");
    out.append(s.goal.as_str());
    out.append(" (");
    out.append(started.as_str());
    out.append(")\n");
    if let Some(h) = &s.handoff {
        let cut = crate::text::preview_text(h.as_str(), 80);
        out.append("           Handoff: ");
        out.append(cut.as_str());
        out.append("\n");
    }
}

/// What `session list` prints.
pub fn session_list_report(ss: &[Session]) -> (r: String)
    ensures
        r@ == session_list_text(ss@),
{
    let mut r = String::new();
    if ss.len() == 0 {
        r.append("No sessions found.\n");
        return r;
    }
    let n = ss.len();
    let mut i: usize = 0;
    while i < n
        invariant
            0 <= i <= n,
            n == ss@.len(),
            r@ == session_list_entries(ss@.take(i as int)),
        decreases n - i,
    {
        proof {
            assert(ss@.take(i + 1).drop_last() =~= ss@.take(i as int));
        }
        push_session_list_entry(&mut r, &ss[i]);
        i += 1;
    }
    proof {
        assert(ss@.take(n as int) =~= ss@);
    }
    let count = decimal_text(n);
    r.append("\n");
    r.append(count.as_str());
    r.append(" session(s)\n");
    r
}

// ── File summaries ──

/// The content hash of a file: the lowercase hex of its SHA-256 digest, or
/// "unknown" when there is no file.
pub open spec fn content_hash_of(content: Option<Seq<u8>>) -> Seq<char> {
    match content {
        Some(bytes) => crate::text::hex_lower(crate::external::sha256(bytes)),
        None => "unknown"@,
    }
}

/// The content hash of a file: the lowercase hex of its SHA-256 digest, or
/// "unknown" when there is no file.
pub fn content_hash(content: Option<&[u8]>) -> (r: String)
    ensures
        r@ == content_hash_of(match content {
            Some(b) => Some(b@),
            None => None,
        }),
{
    match content {
        Some(bytes) => {
            let digest = crate::external::sha256_digest(bytes);
            crate::text::hex_lower_text(digest.as_slice())
        },
        None => "unknown".to_owned(),
    }
}

/// What `file summarize` prints.
pub open spec fn file_saved_text(f: FileSummary) -> Seq<char> {
    "File summary saved: "@ + f.path@ + "\n"@
}

/// What `file summarize` prints.
pub fn file_saved_report(f: &FileSummary) -> (r: String)
    ensures
        r@ == file_saved_text(*f),
{
    let mut r = String::new();
    r.append("File summary saved: ");
    r.append(f.path.as_str());
    r.append("\n");
    r
}

/// The lines of file summaries in `file list`, one after the other.
pub open spec fn file_list_lines(fs: Seq<FileSummary>) -> Seq<char>
    decreases fs.len(),
{
    if fs.len() == 0 {
        Seq::empty()
    } else {
        file_list_lines(fs.drop_last()) + "  "@ + fs.last().path@ + " - "@ + fs.last().summary@
            + "\n"@
    }
}

/// What `file list` prints.
pub open spec fn file_list_text(fs: Seq<FileSummary>) -> Seq<char> {
    if fs.len() == 0 {
        "No file summaries found.\n"@
    } else {
        file_list_lines(fs) + "\n"@ + decimal(fs.len()) + " file(s)\n"@
    }
}

/// What `file list` prints.
pub fn file_list_report(fs: &[FileSummary]) -> (r: String)
    ensures
        r@ == file_list_text(fs@),
{
    let mut r = String::new();
    if fs.len() == 0 {
        r.append("No file summaries found.\n");
        return r;
    }
    let n = fs.len();
    let mut i: usize = 0;
    while i < n
        invariant
            0 <= i <= n,
            n == fs@.len(),
            r@ == file_list_lines(fs@.take(i as int)),
        decreases n - i,
    {
        proof {
            assert(fs@.take(i + 1).drop_last() =~= fs@.take(i as int));
        }
        r.append("  ");
        r.append(fs[i].path.as_str());
        r.append(" - ");
        r.append(fs[i].summary.as_str());
        r.append("\n");
        i += 1;
    }
    proof {
        assert(fs@.take(n as int) =~= fs@);
    }
    let count = decimal_text(n);
    r.append("\n");
    r.append(count.as_str());
    r.append(" file(s)\n");
    r
}

/// What `file check` prints: whether the recorded summary still matches the
/// file's content (given by its current hash, or none when the file is gone).
pub open spec fn file_check_text(
    path: Seq<char>,
    recorded: Option<FileSummary>,
    current_hash: Option<Seq<char>>,
) -> Seq<char> {
    match recorded {
        Some(f) => match current_hash {
            Some(h) => if h == f.content_hash@ {
                path + ": up to date\n"@
            } else {
                path + ": STALE (file changed since last summary)\n"@
            },
            None => path + ": file not found on disk\n"@,
        },
        None => path + ": no summary recorded\n"@,
    }
}

/// What `file check` prints.
pub fn file_check_report(path: &str, recorded: &Option<FileSummary>, current_hash: &Option<String>) -> (r:
    String)
    ensures
        r@ == file_check_text(
            path@,
            *recorded,
            match current_hash {
                Some(h) => Some(h@),
                None => None,
            },
        ),
{
    let mut r = path.to_owned();
    match recorded {
        Some(f) => match current_hash {
            Some(h) => {
                if *h == f.content_hash {
                    r.append(": up to date\n");
                } else {
                    r.append(": STALE (file changed since last summary)\n");
                }
            },
            None => r.append(": file not found on disk\n"),
        },
        None => r.append(": no summary recorded\n"),
    }
    r
}

/// A file whose content is what it was when its summary was saved (the
/// summary's hash is that content's hash) checks as up to date.
pub proof fn law_unchanged_file_is_up_to_date(path: Seq<char>, f: FileSummary, content: Seq<u8>)
    requires
        f.content_hash@ == content_hash_of(Some(content)),
    ensures
        file_check_text(path, Some(f), Some(content_hash_of(Some(content)))) == path
            + ": up to date\n"@,
{
}

/// A file whose current hash differs from the one its summary recorded
/// checks as stale.
pub proof fn law_changed_hash_is_stale(path: Seq<char>, f: FileSummary, current: Seq<char>)
    requires
        current != f.content_hash@,
    ensures
        file_check_text(path, Some(f), Some(current)) == path
            + ": STALE (file changed since last summary)\n"@,
{
}

// ── Status ──

/// The number of tasks with a status.
pub open spec fn count_status(ts: Seq<Task>, status: TaskStatus) -> nat
    decreases ts.len(),
{
    if ts.len() == 0 {
        0
    } else {
        count_status(ts.drop_last(), status) + if ts.last().status == status {
            1nat
        } else {
            0nat
        }
    }
}

/// The number of active decisions.
pub open spec fn count_active(ds: Seq<Decision>) -> nat
    decreases ds.len(),
{
    if ds.len() == 0 {
        0
    } else {
        count_active(ds.drop_last()) + if ds.last().status == DecisionStatus::Active {
            1nat
        } else {
            0nat
        }
    }
}

/// Every task has one of the four statuses, so the four counts of `status`
/// add up to the number of tasks.
pub proof fn law_status_counts_sum(ts: Seq<Task>)
    ensures
        count_status(ts, TaskStatus::Todo) + count_status(ts, TaskStatus::InProgress) + count_status(
            ts,
            TaskStatus::Done,
        ) + count_status(ts, TaskStatus::Blocked) == ts.len(),
    decreases ts.len(),
{
    if ts.len() > 0 {
        law_status_counts_sum(ts.drop_last());
    }
}

/// The tasks of a list that have a status, in their order.
pub open spec fn with_status(ts: Seq<Task>, status: TaskStatus) -> Seq<Task> {
    ts.filter(|t: Task| t.status == status)
}

/// The count of a status is the number of tasks that have it.
proof fn lemma_count_is_filtered(ts: Seq<Task>, status: TaskStatus)
    ensures
        count_status(ts, status) == with_status(ts, status).len(),
    decreases ts.len(),
{
    reveal(Seq::filter);
    if ts.len() > 0 {
        lemma_count_is_filtered(ts.drop_last(), status);
    }
}

/// The task line of `status` gives, after the total, the number of tasks in
/// progress, to do, done and blocked, each counting exactly the tasks with
/// that status, so that the four add up to the total.
pub proof fn law_status_counts_each_status(
    meta: Option<ProjectMeta>,
    ts: Seq<Task>,
    ds: Seq<Decision>,
    fs: Seq<FileSummary>,
    ss: Seq<Session>,
    active: Option<Session>,
)
    ensures
        ({
            let k = (status_header(meta) + "\n"@ + status_session(active, ss) + "\n"@).len() as int;
            let line = "Tasks: "@ + decimal(ts.len()) + " total | "@ + decimal(
                with_status(ts, TaskStatus::InProgress).len(),
            ) + " in-progress | "@ + decimal(with_status(ts, TaskStatus::Todo).len()) + " todo | "@ + decimal(
                with_status(ts, TaskStatus::Done).len(),
            ) + " done | "@ + decimal(with_status(ts, TaskStatus::Blocked).len()) + " blocked\n"@;
            status_text(meta, ts, ds, fs, ss, active).subrange(k, (k + line.len()) as int) == line
        }),
        with_status(ts, TaskStatus::InProgress).len() + with_status(ts, TaskStatus::Todo).len() + with_status(
            ts,
            TaskStatus::Done,
        ).len() + with_status(ts, TaskStatus::Blocked).len() == ts.len(),
{
    lemma_count_is_filtered(ts, TaskStatus::InProgress);
    lemma_count_is_filtered(ts, TaskStatus::Todo);
    lemma_count_is_filtered(ts, TaskStatus::Done);
    lemma_count_is_filtered(ts, TaskStatus::Blocked);
    law_status_counts_sum(ts);
    let pre = status_header(meta) + "\n"@ + status_session(active, ss) + "\n"@;
    let line = status_counts(ts);
    let rest = in_progress_lines(ts) + "Decisions: "@ + decimal(count_active(ds)) + " active\n"@ + "Files: "@
        + decimal(fs.len()) + " summarized\n"@ + "Sessions: "@ + decimal(ss.len()) + " recorded\n"@;
    assert(status_text(meta, ts, ds, fs, ss, active) =~= pre + line + rest);
    assert((pre + line + rest).subrange(pre.len() as int, (pre.len() + line.len()) as int) =~= line);
}

/// The title block of `status`.
pub open spec fn status_header(meta: Option<ProjectMeta>) -> Seq<char> {
    match meta {
        Some(m) => "=== "@ + m.name@ + " ===\n"@ + (if m.description@.len() == 0 {
            Seq::empty()
        } else {
            m.description@ + "\n"@
        }) + (if m.stack@.len() == 0 {
            Seq::empty()
        } else {
            "Stack: "@ + join(views(m.stack@), ", "@) + "\n"@
        }),
        None => "=== (unnamed project) ===\n"@,
    }
}

/// The session line of `status`: the active session, or else the latest one
/// with a preview of its handoff notes.
pub open spec fn status_session(active: Option<Session>, ss: Seq<Session>) -> Seq<char> {
    match active {
        Some(s) => "Session: "@ + s.agent@ + " - "@ + s.goal@ + " (active)\n"@,
        None => if ss.len() > 0 {
            "Last session: "@ + ss[0].agent@ + " - "@ + ss[0].goal@ + match ss[0].handoff {
                Some(h) => " | Handoff: "@ + preview(h@, 60),
                None => Seq::empty(),
            } + "\n"@
        } else {
            Seq::empty()
        },
    }
}

/// The task counts line of `status`.
pub open spec fn status_counts(ts: Seq<Task>) -> Seq<char> {
    "Tasks: "@ + decimal(ts.len()) + " total | "@ + decimal(count_status(ts, TaskStatus::InProgress))
        + " in-progress | "@ + decimal(count_status(ts, TaskStatus::Todo)) + " todo | "@ + decimal(
        count_status(ts, TaskStatus::Done),
    ) + " done | "@ + decimal(count_status(ts, TaskStatus::Blocked)) + " blocked\n"@
}

/// The lines of the tasks in progress, one after the other.
pub open spec fn in_progress_lines(ts: Seq<Task>) -> Seq<char>
    decreases ts.len(),
{
    if ts.len() == 0 {
        Seq::empty()
    } else {
        in_progress_lines(ts.drop_last()) + if ts.last().status == TaskStatus::InProgress {
            "  > "@ + ts.last().title@ + match ts.last().phase {
                Some(p) => " ["@ + p@ + "]"@,
                None => Seq::empty(),
            } + "\n"@
        } else {
            Seq::empty()
        }
    }
}

/// What `status` prints.
pub open spec fn status_text(
    meta: Option<ProjectMeta>,
    ts: Seq<Task>,
    ds: Seq<Decision>,
    fs: Seq<FileSummary>,
    ss: Seq<Session>,
    active: Option<Session>,
) -> Seq<char> {
    status_header(meta) + "\n"@ + status_session(active, ss) + "\n"@ + status_counts(ts)
        + in_progress_lines(ts) + "Decisions: "@ + decimal(count_active(ds)) + " active\n"@
        + "Files: "@ + decimal(fs.len()) + " summarized\n"@ + "Sessions: "@ + decimal(ss.len())
        + " recorded\n"@
}

fn push_status_header(out: &mut String, meta: &Option<ProjectMeta>)
    ensures
        final(out)@ == old(out)@ + status_header(*meta),
{
    match meta {
        Some(m) => {
            out.append("=== ");
            out.append(m.name.as_str());
            out.append(" ===\n");
            if !m.description.as_str().is_empty() {
                out.append(m.description.as_str());
                out.append("\n");
            }
            if m.stack.len() > 0 {
                let stack = join_strings(&m.stack, ", ");
                out.append("Stack: ");
                out.append(stack.as_str());
                out.append("\n");
            }
        },
        None => out.append("=== (unnamed project) ===\n"),
    }
}

fn push_status_session(out: &mut String, active: &Option<Session>, ss: &[Session])
    ensures
        final(out)@ == old(out)@ + status_session(*active, ss@),
{
    match active {
        Some(s) => {
            out.append("Session: ");
            out.append(s.agent.as_str());
            out.append(" - ");
            out.append(s.goal.as_str());
            out.append(" (active)\n");
        },
        None => {
            if ss.len() > 0 {
                let last = &ss[0];
                out.append("Last session: ");
                out.append(last.agent.as_str());
                out.append(" - ");
                out.append(last.goal.as_str());
                if let Some(h) = &last.handoff {
                    let cut = crate::text::preview_text(h.as_str(), 60);
                    out.append(" | Handoff: ");
                    out.append(cut.as_str());
                }
                out.append("\n");
            }
        },
    }
}

fn push_status_counts(out: &mut String, ts: &[Task])
    ensures
        final(out)@ == old(out)@ + status_counts(ts@) + in_progress_lines(ts@),
{
    let mut todo: usize = 0;
    let mut in_progress: usize = 0;
    let mut done: usize = 0;
    let mut blocked: usize = 0;
    let mut lines = String::new();
    let n = ts.len();
    let mut i: usize = 0;
    while i < n
        invariant
            0 <= i <= n,
            n == ts@.len(),
            todo == count_status(ts@.take(i as int), TaskStatus::Todo),
            in_progress == count_status(ts@.take(i as int), TaskStatus::InProgress),
            done == count_status(ts@.take(i as int), TaskStatus::Done),
            blocked == count_status(ts@.take(i as int), TaskStatus::Blocked),
            todo <= i && in_progress <= i && done <= i && blocked <= i,
            lines@ == in_progress_lines(ts@.take(i as int)),
        decreases n - i,
    {
        proof {
            assert(ts@.take(i + 1).drop_last() =~= ts@.take(i as int));
        }
        let t = &ts[i];
        match t.status {
            TaskStatus::Todo => todo += 1,
            TaskStatus::InProgress => {
                in_progress += 1;
                lines.append("  > ");
                lines.append(t.title.as_str());
                if let Some(p) = &t.phase {
                    lines.append(" [");
                    lines.append(p.as_str());
                    lines.append("]");
                }
                lines.append("\n");
            },
            TaskStatus::Done => done += 1,
            TaskStatus::Blocked => blocked += 1,
        }
        i += 1;
    }
    proof {
        assert(ts@.take(n as int) =~= ts@);
    }
    let total_text = decimal_text(n);
    let in_progress_text = decimal_text(in_progress);
    let todo_text = decimal_text(todo);
    let done_text = decimal_text(done);
    let blocked_text = decimal_text(blocked);
    out.append("Tasks: ");
    out.append(total_text.as_str());
    out.append(" total | ");
    out.append(in_progress_text.as_str());
    out.append(" in-progress | ");
    out.append(todo_text.as_str());
    out.append(" todo | ");
    out.append(done_text.as_str());
    out.append(" done | ");
    out.append(blocked_text.as_str());
    out.append(" blocked\n");
    out.append(lines.as_str());
}

fn active_decision_count(ds: &[Decision]) -> (c: usize)
    ensures
        c == count_active(ds@),
{
    let mut c: usize = 0;
    let n = ds.len();
    let mut i: usize = 0;
    while i < n
        invariant
            0 <= i <= n,
            n == ds@.len(),
            c == count_active(ds@.take(i as int)),
            c <= i,
        decreases n - i,
    {
        proof {
            assert(ds@.take(i + 1).drop_last() =~= ds@.take(i as int));
        }
        if ds[i].status == DecisionStatus::Active {
            c += 1;
        }
        i += 1;
    }
    proof {
        assert(ds@.take(n as int) =~= ds@);
    }
    c
}

/// What `status` prints: the project, the current or last session, task
/// counts and the tasks in progress, and the numbers of active decisions,
/// file summaries and sessions.
pub fn status_report(
    meta: &Option<ProjectMeta>,
    tasks: &[Task],
    decisions: &[Decision],
    files: &[FileSummary],
    sessions: &[Session],
    active: &Option<Session>,
) -> (r: String)
    ensures
        r@ == status_text(*meta, tasks@, decisions@, files@, sessions@, *active),
{
    let mut r = String::new();
    push_status_header(&mut r, meta);
    r.append("\n");
    push_status_session(&mut r, active, sessions);
    r.append("\n");
    push_status_counts(&mut r, tasks);
    let active_count = decimal_text(active_decision_count(decisions));
    let files_count = decimal_text(files.len());
    let sessions_count = decimal_text(sessions.len());
    r.append("Decisions: ");
    r.append(active_count.as_str());
    r.append(" active\n");
    r.append("Files: ");
    r.append(files_count.as_str());
    r.append(" summarized\n");
    r.append("Sessions: ");
    r.append(sessions_count.as_str());
    r.append(" recorded\n");
    r
}

// ── Search ──

/// The line of a decision hit, when the decision was found.
pub open spec fn decision_hit_text(id: Seq<char>, found: Option<Decision>) -> Seq<char> {
    match found {
        Some(d) => "[decision:"@ + short_id(id) + "] "@ + d.title@ + " - "@ + d.decision@ + "\n"@,
        None => Seq::empty(),
    }
}

/// The line of a task hit, when the task was found.
pub open spec fn task_hit_text(id: Seq<char>, found: Option<Task>) -> Seq<char> {
    match found {
        Some(t) => "[task:"@ + short_id(id) + "] ("@ + t.status.label() + ") "@ + t.title@ + " \n"@,
        None => Seq::empty(),
    }
}

/// The line of a file hit: the path and summary of the file summary found,
/// or a note that there are no details.
pub open spec fn file_hit_text(id: Seq<char>, found: Option<FileSummary>) -> Seq<char> {
    match found {
        Some(f) => "[file] "@ + f.path@ + " - "@ + f.summary@ + "\n"@,
        None => "[file:"@ + short_id(id) + "] (details unavailable)\n"@,
    }
}

/// The line of a session hit, when the session was found.
pub open spec fn session_hit_text(id: Seq<char>, found: Option<Session>) -> Seq<char> {
    match found {
        Some(s) => "[session:"@ + short_id(id) + "] ("@ + ended_word(s) + ") "@ + s.agent@ + " - "@
            + s.goal@ + "\n"@,
        None => Seq::empty(),
    }
}

/// A printed line of a session hit says "(active)" when the session has no
/// end time and "(ended)" when it has one.
pub proof fn law_session_hit_text_state(id: Seq<char>, s: Session)
    ensures
        s.ended_at is None ==> session_hit_text(id, Some(s)) == "[session:"@ + short_id(id) + "] (active) "@
            + s.agent@ + " - "@ + s.goal@ + "\n"@,
        s.ended_at is Some ==> session_hit_text(id, Some(s)) == "[session:"@ + short_id(id) + "] (ended) "@
            + s.agent@ + " - "@ + s.goal@ + "\n"@,
{
    reveal_strlit("] (");
    reveal_strlit("active");
    reveal_strlit("ended");
    reveal_strlit(") ");
    reveal_strlit("] (active) ");
    reveal_strlit("] (ended) ");
    if s.ended_at is None {
        assert("] ("@ + "active"@ + ") "@ =~= "] (active) "@);
        assert(session_hit_text(id, Some(s)) =~= "[session:"@ + short_id(id) + "] (active) "@ + s.agent@ + " - "@
            + s.goal@ + "\n"@);
    } else {
        assert("] ("@ + "ended"@ + ") "@ =~= "] (ended) "@);
        assert(session_hit_text(id, Some(s)) =~= "[session:"@ + short_id(id) + "] (ended) "@ + s.agent@ + " - "@
            + s.goal@ + "\n"@);
    }
}

/// The line of a hit of another type.
pub open spec fn other_hit_text(id: Seq<char>, kind: Seq<char>) -> Seq<char> {
    "["@ + kind + ":"@ + short_id(id) + "]\n"@
}

/// The line of a decision hit, when the decision was found.
pub fn decision_hit_line(id: &str, found: &Option<Decision>) -> (r: String)
    ensures
        r@ == decision_hit_text(id@, *found),
{
    let mut r = String::new();
    if let Some(d) = found {
        let short = crate::text::short_id_text(id);
        r.append("[decision:");
        r.append(short.as_str());
        r.append("] ");
        r.append(d.title.as_str());
        r.append(" - ");
        r.append(d.decision.as_str());
        r.append("\n");
    }
    r
}

/// The line of a task hit, when the task was found.
pub fn task_hit_line(id: &str, found: &Option<Task>) -> (r: String)
    ensures
        r@ == task_hit_text(id@, *found),
{
    let mut r = String::new();
    if let Some(t) = found {
        let short = crate::text::short_id_text(id);
        r.append("[task:");
        r.append(short.as_str());
        r.append("] (");
        r.append(t.status.as_str());
        r.append(") ");
        r.append(t.title.as_str());
        r.append(" \n");
    }
    r
}

/// The line of a file hit.
pub fn file_hit_line(id: &str, found: &Option<FileSummary>) -> (r: String)
    ensures
        r@ == file_hit_text(id@, *found),
{
    let mut r = String::new();
    match found {
        Some(f) => {
            r.append("[file] ");
            r.append(f.path.as_str());
            r.append(" - ");
            r.append(f.summary.as_str());
            r.append("\n");
        },
        None => {
            let short = crate::text::short_id_text(id);
            r.append("[file:");
            r.append(short.as_str());
            r.append("] (details unavailable)\n");
        },
    }
    r
}

/// The line of a session hit, when the session was found.
pub fn session_hit_line(id: &str, found: &Option<Session>) -> (r: String)
    ensures
        r@ == session_hit_text(id@, *found),
{
    let mut r = String::new();
    if let Some(s) = found {
        let short = crate::text::short_id_text(id);
        r.append("[session:");
        r.append(short.as_str());
        r.append("] (");
        r.append(ended_word_str(s));
        r.append(") ");
        r.append(s.agent.as_str());
        r.append(" - ");
        r.append(s.goal.as_str());
        r.append("\n");
    }
    r
}

/// The line of a hit of another type.
pub fn other_hit_line(id: &str, kind: &str) -> (r: String)
    ensures
        r@ == other_hit_text(id@, kind@),
{
    let short = crate::text::short_id_text(id);
    let mut r = String::new();
    r.append("[");
    r.append(kind);
    r.append(":");
    r.append(short.as_str());
    r.append("]\n");
    r
}

/// What `search` prints when nothing matches.
pub open spec fn no_results_text(query: Seq<char>) -> Seq<char> {
    "No results for: "@ + query + "\n"@
}

/// The closing line of `search`: the number of hits.
pub open spec fn results_footer(n: nat) -> Seq<char> {
    "\n"@ + decimal(n) + " result(s)\n"@
}

/// What `search` prints for its hit lines: a note when there are none, else
/// the lines and their number.
pub open spec fn search_listing(query: Seq<char>, lines: Seq<Seq<char>>) -> Seq<char> {
    if lines.len() == 0 {
        no_results_text(query)
    } else {
        join(lines, Seq::empty()) + results_footer(lines.len())
    }
}

/// What `search` prints for its hit lines.
pub fn search_listing_text(query: &str, lines: &Vec<String>) -> (r: String)
    ensures
        r@ == search_listing(query@, views(lines@)),
{
    let mut out = String::new();
    if lines.len() == 0 {
        out.append("No results for: ");
        out.append(query);
        out.append("\n");
        return out;
    }
    let joined = join_strings(lines, "");
    proof {
        reveal_strlit("");
        assert(""@ =~= Seq::<char>::empty());
    }
    let count = decimal_text(lines.len());
    out.append(joined.as_str());
    out.append("\n");
    out.append(count.as_str());
    out.append(" result(s)\n");
    out
}

/// Whether `line` is the printed line of a search hit, given the calls made
/// for it: a decision, task or session hit is looked up by its id, a file hit
/// by its id taken as a path (one query each); a file whose lookup fails or
/// finds nothing is shown without details; a hit of another type makes no
/// call.
pub open spec fn report_hit_step(before: Seq<DbCall>, after: Seq<DbCall>, hit: (String, String), line: Seq<char>) -> bool {
    let id = hit.0@;
    let kind = hit.1@;
    if kind == "decision"@ {
        &&& extends(before, after, 1) && asked(after.last(), sql_get_decision(), seq![Some(id)])
        &&& rows_of(after.last()) is Some
        &&& exists|found: Option<Decision>|
            #[trigger] decision_lookup(rows_of(after.last())->0, Ok(found)) && line == decision_hit_text(id, found)
    } else if kind == "task"@ {
        &&& extends(before, after, 1) && asked(after.last(), sql_get_task(), seq![Some(id)])
        &&& rows_of(after.last()) is Some
        &&& exists|found: Option<Task>|
            #[trigger] task_lookup(rows_of(after.last())->0, Ok(found)) && line == task_hit_text(id, found)
    } else if kind == "file"@ {
        &&& extends(before, after, 1) && asked(after.last(), sql_file_by_path(), seq![Some(id)])
        &&& exists|found: Option<FileSummary>|
            #![trigger file_hit_text(id, found)]
            line == file_hit_text(id, found) && (found is Some ==> (rows_of(after.last()) matches Some(rows)
                && file_lookup(rows, Ok(found))))
    } else if kind == "session"@ {
        &&& extends(before, after, 1) && asked(after.last(), sql_get_session(), seq![Some(id)])
        &&& rows_of(after.last()) is Some
        &&& exists|found: Option<Session>|
            #[trigger] session_lookup(rows_of(after.last())->0, Ok(found)) && line == session_hit_text(id, found)
    } else {
        after == before && line == other_hit_text(id, kind)
    }
}

/// Whether hits of a type are looked up (one query each).
pub open spec fn report_looks_up(kind: Seq<char>) -> bool {
    kind == "decision"@ || kind == "task"@ || kind == "file"@ || kind == "session"@
}

/// Whether `lines` are the printed lines of `hits`, one per hit in order,
/// given the calls made to look the hits up.
pub open spec fn report_hit_lines(calls: Seq<DbCall>, hits: Seq<(String, String)>, lines: Seq<Seq<char>>) -> bool
    decreases hits.len(),
{
    if hits.len() == 0 {
        calls.len() == 0 && lines.len() == 0
    } else {
        let k = calls.len() - if report_looks_up(hits.last().1@) {
            1int
        } else {
            0int
        };
        &&& lines.len() == hits.len()
        &&& 0 <= k
        &&& report_hit_lines(calls.take(k), hits.drop_last(), lines.drop_last())
        &&& report_hit_step(calls.take(k), calls, hits.last(), lines.last())
    }
}

/// Whether a call of `search` went through as the listing needs: the lookup
/// of a file summary always does (a failure shows the file without
/// details); any other read when it was answered and its rows decode.
pub open spec fn report_call_ok(c: DbCall) -> bool {
    c.sql == sql_file_by_path() || read_ok(search_read_kind(c), c)
}

/// What `search` prints: one search query, then a line for each hit whose
/// entity could be read back (a file whose lookup fails is shown without
/// details), and the number of hits.
pub fn search_report(store: &mut Store, query: &str, entity_type: Option<&str>) -> (r: Result<
    String,
    EngramError,
>)
    ensures
        grows(old(store).calls(), final(store).calls()),
        final(store).calls().len() > old(store).calls().len(),
        asked(
            new_call(old(store).calls(), final(store).calls(), 0),
            sql_search(entity_type is Some),
            match entity_type {
                Some(t) => seq![Some(query@), Some(t@)],
                None => seq![Some(query@)],
            },
        ),
        r matches Ok(text) ==> exists|hits: Vec<(String, String)>, lines: Seq<Seq<char>>|
            #![trigger hits_reply(rows_of(new_call(old(store).calls(), final(store).calls(), 0))->0, Ok(hits)), search_listing(query@, lines)]
            rows_of(new_call(old(store).calls(), final(store).calls(), 0)) is Some && hits_reply(
                rows_of(new_call(old(store).calls(), final(store).calls(), 0))->0,
                Ok(hits),
            ) && report_hit_lines(
                final(store).calls().subrange(old(store).calls().len() as int + 1, final(store).calls().len() as int),
                hits@,
                lines,
            ) && lines.len() <= 200 && text@ == search_listing(query@, lines),
        forall|j: int|
            0 <= j < made(old(store).calls(), final(store).calls()) - 1 ==> report_call_ok(
                #[trigger] new_call(old(store).calls(), final(store).calls(), j),
            ),
        r is Ok <==> report_call_ok(final(store).calls().last()),
        r matches Err(e) ==> read_error(search_read_kind(final(store).calls().last()), final(store).calls().last(), e),
{
    proof {
        lemma_search_queries_differ();
    }
    let ghost b = old(store).calls().len() as int;
    let hits = store.search(query, entity_type)?;
    let ghost c0 = store.calls()[b];
    let mut lines: Vec<String> = Vec::new();
    let n = hits.len();
    let mut i: usize = 0;
    proof {
        assert(read_ok(search_read_kind(c0), c0));
        assert(store.calls().subrange(b + 1, store.calls().len() as int) =~= Seq::<DbCall>::empty());
        assert(hits@.take(0) =~= Seq::<(String, String)>::empty());
        assert(views(lines@) =~= Seq::<Seq<char>>::empty());
    }
    while i < n
        invariant
            0 <= i <= n,
            n == hits@.len(),
            n <= 200,
            lines@.len() == i,
            b == old(store).calls().len(),
            store.calls().len() > b,
            grows(old(store).calls(), store.calls()),
            store.calls()[b] == c0,
            asked(
                c0,
                sql_search(entity_type is Some),
                match entity_type {
                    Some(t) => seq![Some(query@), Some(t@)],
                    None => seq![Some(query@)],
                },
            ),
            rows_of(c0) is Some && hits_reply(rows_of(c0)->0, Ok(hits)),
            forall|j: int| b <= j < store.calls().len() ==> report_call_ok(#[trigger] store.calls()[j]),
            report_hit_lines(store.calls().subrange(b + 1, store.calls().len() as int), hits@.take(i as int), views(lines@)),
        decreases n - i,
    {
        proof {
            lemma_search_queries_differ();
        }
        let ghost before = store.calls();
        let ghost prev = before.subrange(b + 1, before.len() as int);
        let id = hits[i].0.as_str();
        let kind = hits[i].1.as_str();
        let line = if crate::text::same_text(kind, "decision") {
            let found = store.get_decision(id);
            proof {
                assert(store.calls()[b] == c0);
            }
            let found = found?;
            proof {
                assert(decision_lookup(rows_of(store.calls().last())->0, Ok(found)));
            }
            decision_hit_line(id, &found)
        } else if crate::text::same_text(kind, "task") {
            let found = store.get_task(id);
            proof {
                assert(store.calls()[b] == c0);
            }
            let found = found?;
            proof {
                assert(task_lookup(rows_of(store.calls().last())->0, Ok(found)));
            }
            task_hit_line(id, &found)
        } else if crate::text::same_text(kind, "file") {
            // The hit's id is looked up as a path, so a file hit is listed
            // without details unless some summary's path equals that id.
            let looked = store.get_file_summary_by_path(id);
            let found = match looked {
                Ok(f) => f,
                Err(_) => None,
            };
            proof {
                if found is Some {
                    assert(file_lookup(rows_of(store.calls().last())->0, Ok(found)));
                }
            }
            file_hit_line(id, &found)
        } else if crate::text::same_text(kind, "session") {
            let found = store.get_session(id);
            proof {
                assert(store.calls()[b] == c0);
            }
            let found = found?;
            proof {
                assert(session_lookup(rows_of(store.calls().last())->0, Ok(found)));
            }
            session_hit_line(id, &found)
        } else {
            other_hit_line(id, kind)
        };
        let ghost old_lines = views(lines@);
        lines.push(line);
        proof {
            let after = store.calls();
            let cur = after.subrange(b + 1, after.len() as int);
            assert(cur.take(prev.len() as int) =~= prev);
            if after.len() > before.len() {
                assert(cur.last() == after.last());
                assert(extends(prev, cur, 1));
            } else {
                assert(cur =~= prev);
            }
            assert(after[b] == before[b]);
            assert(report_hit_step(prev, cur, hits@[i as int], line@));
            assert(hits@.take(i + 1).drop_last() =~= hits@.take(i as int));
            assert(hits@.take(i + 1).last() == hits@[i as int]);
            assert(views(lines@).drop_last() =~= old_lines);
            assert(views(lines@).last() == line@);
            assert(report_hit_lines(cur, hits@.take(i + 1), views(lines@)));
        }
        i += 1;
    }
    let text = search_listing_text(query, &lines);
    proof {
        assert(hits@.take(n as int) =~= hits@);
        assert(text@ == search_listing(query@, views(lines@)));
    }
    Ok(text)
}

// ── Init and context ──

/// The name of a new project: the given one, else the name of the working
/// directory, else "unnamed".
pub fn project_name(given: Option<String>, dir_name: Option<String>) -> (r: String)
    ensures
        r@ == match given {
            Some(n) => n@,
            None => match dir_name {
                Some(d) => d@,
                None => "unnamed"@,
            },
        },
{
    match given {
        Some(n) => n,
        None => match dir_name {
            Some(d) => d,
            None => "unnamed".to_owned(),
        },
    }
}

/// What `init` prints once it has created the project.
pub open spec fn initialized_text(name: Seq<char>, description: Seq<char>) -> Seq<char> {
    "Initialized engram in .engram/\n"@ + "  Project: "@ + name + "\n"@ + (if description.len() > 0 {
        "  Description: "@ + description + "\n"@
    } else {
        Seq::empty()
    }) + "  Database: .engram/memory.db\n"@
}

/// Records the name and description of a new project and says what was done.
pub fn init_project(store: &mut Store, name: &str, description: &str) -> (r: Result<String, EngramError>)
    ensures
        meta_set_run(old(store).calls(), final(store).calls(), name@, description@, unit_of(r)),
        r matches Ok(text) ==> text@ == initialized_text(name@, description@),
{
    store.set_project_meta(name, description)?;
    let mut r = String::new();
    r.append("Initialized engram in .engram/\n");
    r.append("  Project: ");
    r.append(name);
    r.append("\n");
    if !description.is_empty() {
        r.append("  Description: ");
        r.append(description);
        r.append("\n");
    }
    r.append("  Database: .engram/memory.db\n");
    Ok(r)
}

/// The closing line of `context`: the token estimate, role and level.
pub open spec fn context_footer_text(out: ContextOutput) -> Seq<char> {
    "--- ~"@ + decimal(out.estimated_tokens as nat) + " tokens ("@ + out.role.label() + "/"@
        + out.level.label() + ")\n"@
}

/// The closing line of `context`.
pub fn context_footer(out: &ContextOutput) -> (r: String)
    ensures
        r@ == context_footer_text(*out),
{
    let tokens = decimal_text(out.estimated_tokens);
    let mut r = String::new();
    r.append("--- ~");
    r.append(tokens.as_str());
    r.append(" tokens (");
    r.append(out.role.as_str());
    r.append("/");
    r.append(out.level.as_str());
    r.append(")\n");
    r
}

} // verus!
