//! Context generation: role- and level-filtered markdown with a token estimate.

pub mod renderer;

use vstd::prelude::*;

use crate::error::EngramError;
use crate::models::{
    ContextLevel, ContextOutput, ContextRole, Decision, DecisionStatus, FileSummary, ProjectMeta,
    Session, Task,
};
use crate::storage::Store;
use crate::storage::calls::{asked, extends, limit_cell, made, new_call, rows_of, DbCall};
use crate::storage::rows::{
    reads_failed, reads_run, ReadKind,
    decisions_reply, files_reply, meta_lookup, session_lookup, sessions_reply, tasks_reply,
};
use crate::storage::{
    sql_active_session, sql_get_meta, sql_list_decisions, sql_list_files, sql_list_sessions,
    sql_list_tasks,
};
use renderer::{context_text, render, RenderContext};
use vstd::utf8::encode_utf8;

verus! {

broadcast use crate::storage::calls::group_transcript;

/// The token estimate of a text: a quarter of its length in UTF-8 bytes (a
/// length that a `usize` holds, as that of every string in memory does).
pub open spec fn token_estimate(text: Seq<char>) -> usize {
    (encode_utf8(text).len() as usize) / 4
}

/// Renders the given memory for a role and level, with its token estimate.
pub fn context_output(
    role: &ContextRole,
    level: &ContextLevel,
    meta: &Option<ProjectMeta>,
    decisions: &[Decision],
    tasks: &[Task],
    files: &[FileSummary],
    sessions: &[Session],
    active_session: &Option<Session>,
) -> (out: ContextOutput)
    ensures
        out.role == *role,
        out.level == *level,
        out.markdown@ == context_text(
            *role,
            *level,
            *meta,
            decisions@,
            tasks@,
            files@,
            sessions@,
            *active_session,
        ),
        out.estimated_tokens == token_estimate(out.markdown@),
{
    let ctx = RenderContext {
        role,
        level,
        meta,
        decisions,
        tasks,
        files,
        sessions,
        active_session,
    };
    let markdown = render(&ctx);
    let estimated_tokens = markdown.as_str().len() / 4;
    ContextOutput { role: *role, level: *level, markdown, estimated_tokens }
}

/// Whether `text` is the context, for a role and level, of what six calls
/// read: the project metadata, the active decisions, all tasks, all file
/// summaries, the five latest sessions and the active session, each decoded
/// from the rows its query read.
pub open spec fn context_of_calls(calls: Seq<DbCall>, role: ContextRole, level: ContextLevel, text: Seq<char>) -> bool {
    &&& calls.len() == 6
    &&& asked(calls[0], sql_get_meta(), Seq::empty())
    &&& asked(calls[1], sql_list_decisions(true), seq![Some(DecisionStatus::Active.label())])
    &&& asked(calls[2], sql_list_tasks(false), Seq::empty())
    &&& asked(calls[3], sql_list_files(), Seq::empty())
    &&& asked(calls[4], sql_list_sessions(), seq![Some(limit_cell(5))])
    &&& asked(calls[5], sql_active_session(), Seq::empty())
    &&& exists|
        meta: Option<ProjectMeta>,
        ds: Vec<Decision>,
        ts: Vec<Task>,
        fs: Vec<FileSummary>,
        ss: Vec<Session>,
        active: Option<Session>,
    |
        #![trigger context_text(role, level, meta, ds@, ts@, fs@, ss@, active)]
        {
            &&& rows_of(calls[0]) matches Some(rows) && meta_lookup(rows, Ok(meta))
            &&& rows_of(calls[1]) matches Some(rows) && decisions_reply(rows, Ok(ds))
            &&& rows_of(calls[2]) matches Some(rows) && tasks_reply(rows, Ok(ts))
            &&& rows_of(calls[3]) matches Some(rows) && files_reply(rows, Ok(fs))
            &&& rows_of(calls[4]) matches Some(rows) && sessions_reply(rows, Ok(ss))
            &&& rows_of(calls[5]) matches Some(rows) && session_lookup(rows, Ok(active))
            &&& ss@.len() <= 5
            &&& text == context_text(role, level, meta, ds@, ts@, fs@, ss@, active)
        }
}

/// The reads that a context needs, in order.
pub open spec fn context_kinds() -> Seq<ReadKind> {
    seq![ReadKind::Meta, ReadKind::Decisions, ReadKind::Tasks, ReadKind::Files, ReadKind::Sessions, ReadKind::OneSession]
}

/// Whether each call made after `before` (at most six) asked for what the
/// context reads at that place.
pub open spec fn context_asked(before: Seq<DbCall>, after: Seq<DbCall>) -> bool {
    let m = made(before, after);
    &&& (m > 0 ==> asked(new_call(before, after, 0), sql_get_meta(), Seq::empty()))
    &&& (m > 1 ==> asked(new_call(before, after, 1), sql_list_decisions(true), seq![Some(DecisionStatus::Active.label())]))
    &&& (m > 2 ==> asked(new_call(before, after, 2), sql_list_tasks(false), Seq::empty()))
    &&& (m > 3 ==> asked(new_call(before, after, 3), sql_list_files(), Seq::empty()))
    &&& (m > 4 ==> asked(new_call(before, after, 4), sql_list_sessions(), seq![Some(limit_cell(5))]))
    &&& (m > 5 ==> asked(new_call(before, after, 5), sql_active_session(), Seq::empty()))
}

/// The text of a context, or the error that came instead.
pub open spec fn markdown_of(r: Result<ContextOutput, EngramError>) -> Result<Seq<char>, EngramError> {
    match r {
        Ok(out) => Ok(out.markdown@),
        Err(e) => Err(e),
    }
}

/// Whether the calls made after `before` read the context for a role and
/// level, and `r` is what the replies give: the six reads are made in order
/// until one does not go through, whose error is given back; when all went
/// through, the text is the context of what they read.
pub open spec fn context_run(
    before: Seq<DbCall>,
    after: Seq<DbCall>,
    role: ContextRole,
    level: ContextLevel,
    r: Result<Seq<char>, EngramError>,
) -> bool {
    &&& reads_run(before, after, context_kinds(), r is Ok)
    &&& context_asked(before, after)
    &&& r matches Err(e) ==> reads_failed(before, after, context_kinds(), e)
    &&& r matches Ok(text) ==> extends(before, after, 6) && context_of_calls(
        after.subrange(before.len() as int, after.len() as int),
        role,
        level,
        text,
    )
}

/// Reads the project memory from the store (the active decisions, all tasks,
/// all file summaries, the five latest sessions and the active one) and
/// renders it for a role and level.
pub fn generate_context(store: &mut Store, role: &ContextRole, level: &ContextLevel) -> (r: Result<
    ContextOutput,
    EngramError,
>)
    ensures
        context_run(old(store).calls(), final(store).calls(), *role, *level, markdown_of(r)),
        r matches Ok(out) ==> {
            &&& out.role == *role
            &&& out.level == *level
            &&& out.estimated_tokens == token_estimate(out.markdown@)
        },
{
    let ghost b = store.calls().len() as int;
    let meta = store.get_project_meta()?;
    let ghost s0 = store.calls();
    let decisions = store.list_decisions(Some(&DecisionStatus::Active))?;
    let ghost s1 = store.calls();
    let tasks = store.list_tasks(None)?;
    let ghost s2 = store.calls();
    let files = store.list_file_summaries()?;
    let ghost s3 = store.calls();
    let sessions = store.list_sessions(5)?;
    let ghost s4 = store.calls();
    let active_session = store.get_active_session()?;
    let out = context_output(
        role,
        level,
        &meta,
        decisions.as_slice(),
        tasks.as_slice(),
        files.as_slice(),
        sessions.as_slice(),
        &active_session,
    );
    proof {
        let c = store.calls();
        assert(c[b] == s0[b]);
        assert(c[b + 1] == s1[b + 1]);
        assert(c[b + 2] == s2[b + 2]);
        assert(c[b + 3] == s3[b + 3]);
        assert(c[b + 4] == s4[b + 4]);
        let sub = c.subrange(b, c.len() as int);
        assert(sub[0] == c[b]);
        assert(sub[5] == c[b + 5]);
        assert(context_text(*role, *level, meta, decisions@, tasks@, files@, sessions@, active_session) == out.markdown@);
    }
    Ok(out)
}

} // verus!
