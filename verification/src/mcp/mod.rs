//! The tools of the MCP server: what each one does and the text it answers.

pub mod tools;

use vstd::prelude::*;

use crate::cli::{
    active_end_run, checked_start_run, content_hash, content_hash_of, ended_word, prefix_update_run,
    update_task_by_prefix,
};
use crate::engine::{context_run, generate_context, markdown_of};
use crate::storage::calls::{asked, extends, grows, made, new_call, rows_of, DbCall};
use crate::storage::rows::{
    decision_lookup, file_lookup, hits_reply, read_error, read_ok, session_lookup, task_lookup, ReadKind,
};
use crate::storage::{
    decision_add_run, file_upsert_run, lemma_search_queries_differ, search_read_kind, session_start_run,
    sql_active_session, sql_insert_session, sql_file_by_id, sql_get_decision, sql_get_session, sql_get_task, sql_search,
};
use crate::error::EngramError;
use crate::engine::renderer::context_text;
use crate::models::{
    ContextLevel, ContextRole, Decision, FileSummary, ProjectMeta, Session, Task, TaskStatus,
};
use crate::storage::Store;
use tools::{
    AddDecisionParams, EndSessionParams, GetContextParams, SearchParams, StartSessionParams,
    SummarizeFileParams, UpdateTaskParams,
};
use crate::text::{decimal, decimal_text, has_prefix, same_text, short_id, short_id_text, views};

verus! {

broadcast use crate::storage::calls::group_transcript;

/// The agent named for a session when the caller names none.
pub open spec fn default_agent() -> Seq<char> {
    "unknown"@
}

/// The agent that a `start_session` call names, else "unknown".
pub open spec fn named_agent(params: StartSessionParams) -> Seq<char> {
    match params.agent {
        Some(a) => a@,
        None => default_agent(),
    }
}

/// The role and level that a `get_context` call names, if both names are known.
pub open spec fn requested_context(params: GetContextParams) -> Option<(ContextRole, ContextLevel)> {
    match (ContextRole::from_label(requested_role(params)), ContextLevel::from_label(requested_level(params))) {
        (Some(role), Some(level)) => Some((role, level)),
        _ => None,
    }
}

/// A list that a call may leave out: its strings, none when left out.
pub open spec fn listed(o: Option<Vec<String>>) -> Seq<String> {
    match o {
        Some(v) => v@,
        None => Seq::empty(),
    }
}

/// The goal of the session that `get_context` starts when none is active.
pub open spec fn auto_session_goal() -> Seq<char> {
    "auto-started by get_context"@
}

/// The role and level of a `get_context` call: build and standard unless
/// named; an unknown name is refused.
pub fn context_request(role: Option<&str>, level: Option<&str>) -> (r: Result<
    (ContextRole, ContextLevel),
    EngramError,
>)
    ensures
        ({
            let role_name = match role {
                Some(s) => s@,
                None => "build"@,
            };
            let level_name = match level {
                Some(s) => s@,
                None => "standard"@,
            };
            match r {
                Ok((ro, le)) => ContextRole::from_label(role_name) == Some(ro)
                    && ContextLevel::from_label(level_name) == Some(le),
                Err(e) => (ContextRole::from_label(role_name) is None && e is InvalidRole) || (
                ContextRole::from_label(role_name) is Some && ContextLevel::from_label(level_name) is None
                    && e is InvalidLevel),
            }
        }),
{
    let role_name: &str = match role {
        Some(s) => s,
        None => "build",
    };
    let level_name: &str = match level {
        Some(s) => s,
        None => "standard",
    };
    let role = ContextRole::from_str(role_name)?;
    let level = ContextLevel::from_str(level_name)?;
    Ok((role, level))
}

/// The role name of a `get_context` call: the given one, else "build".
pub open spec fn requested_role(params: GetContextParams) -> Seq<char> {
    match params.role {
        Some(s) => s@,
        None => "build"@,
    }
}

/// The level name of a `get_context` call: the given one, else "standard".
pub open spec fn requested_level(params: GetContextParams) -> Seq<char> {
    match params.level {
        Some(s) => s@,
        None => "standard"@,
    }
}

/// The text of an answer, or the error that came instead.
pub open spec fn text_of(r: Result<String, EngramError>) -> Result<Seq<char>, EngramError> {
    match r {
        Ok(t) => Ok(t@),
        Err(e) => Err(e),
    }
}

/// Whether the calls made after `before` answered a `get_context` call for a
/// role and level, and `r` is what the replies give: the active session is
/// read (the error of that read is given back when it does not go through);
/// when none is active a session is started first (agent "unknown"), and the
/// error of that start is given back when it fails; then the context is read.
pub open spec fn context_tool_run(
    before: Seq<DbCall>,
    after: Seq<DbCall>,
    role: ContextRole,
    level: ContextLevel,
    r: Result<Seq<char>, EngramError>,
) -> bool {
    let c0 = new_call(before, after, 0);
    let first = after.take(before.len() + 1 as int);
    &&& grows(before, after)
    &&& made(before, after) >= 1
    &&& asked(c0, sql_active_session(), Seq::empty())
    &&& !read_ok(ReadKind::OneSession, c0) ==> made(before, after) == 1 && (r matches Err(e) && read_error(
        ReadKind::OneSession,
        c0,
        e,
    ))
    &&& (read_ok(ReadKind::OneSession, c0) && rows_of(c0)->0.len() > 0) ==> context_run(first, after, role, level, r)
    &&& (read_ok(ReadKind::OneSession, c0) && rows_of(c0)->0.len() == 0) ==> exists|
        mid: Seq<DbCall>,
        started: Result<Session, EngramError>,
    |
        #[trigger] session_start_run(first, mid, default_agent(), auto_session_goal(), Seq::empty(), started)
            && grows(mid, after) && (started matches Err(e) ==> mid == after && r == Err::<Seq<char>, EngramError>(e))
            && (started is Ok ==> context_run(mid, after, role, level, r))
}

/// A `get_context` call that finds no active session starts one before it
/// reads the context: the request after that read inserts a session of agent
/// "unknown" with the auto-start goal.
pub proof fn law_context_auto_starts_session(
    before: Seq<DbCall>,
    after: Seq<DbCall>,
    role: ContextRole,
    level: ContextLevel,
    r: Result<Seq<char>, EngramError>,
)
    requires
        context_tool_run(before, after, role, level, r),
        rows_of(new_call(before, after, 0)) == Some(Seq::<Seq<Option<String>>>::empty()),
    ensures
        made(before, after) >= 2,
        new_call(before, after, 1).sql == sql_insert_session(),
        new_call(before, after, 1).params[1] == Some(default_agent()),
        new_call(before, after, 1).params[2] == Some(auto_session_goal()),
{
    let first = after.take(before.len() + 1 as int);
    assert(read_ok(ReadKind::OneSession, new_call(before, after, 0)));
    let (mid, started) = choose|mid: Seq<DbCall>, started: Result<Session, EngramError>|
        #[trigger] session_start_run(first, mid, default_agent(), auto_session_goal(), Seq::empty(), started)
            && grows(mid, after) && (started matches Err(e) ==> mid == after && r == Err::<Seq<char>, EngramError>(e))
            && (started is Ok ==> context_run(mid, after, role, level, r));
    assert(first.len() == before.len() + 1);
    assert(mid[before.len() + 1 as int] == after[before.len() + 1 as int]);
}

/// The `get_context` tool: the rendered context for a role and level. When no
/// session is active, one is started first (agent "unknown"), so that a new
/// agent's first call begins tracking its session.
pub fn get_context_tool(store: &mut Store, params: &GetContextParams) -> (r: Result<String, EngramError>)
    ensures
        ContextRole::from_label(requested_role(*params)) is None ==> r matches Err(
            EngramError::InvalidRole(_),
        ),
        ContextRole::from_label(requested_role(*params)) is Some && ContextLevel::from_label(
            requested_level(*params),
        ) is None ==> r matches Err(EngramError::InvalidLevel(_)),
        requested_context(*params) is None ==> final(store).calls() == old(store).calls(),
        requested_context(*params) matches Some((ro, le)) ==> context_tool_run(
            old(store).calls(),
            final(store).calls(),
            ro,
            le,
            text_of(r),
        ),
{
    let role: Option<&str> = match &params.role {
        Some(r) => Some(r.as_str()),
        None => None,
    };
    let level: Option<&str> = match &params.level {
        Some(l) => Some(l.as_str()),
        None => None,
    };
    let (role, level) = context_request(role, level)?;
    proof {
        assert(requested_context(*params) == Some((role, level)));
    }
    let ghost b = store.calls().len() as int;
    let active = store.get_active_session()?;
    let ghost s0 = store.calls();
    let ghost mut started: Result<Session, EngramError> = Err(EngramError::NoActiveSession);
    if active.is_none() {
        let no_tags: Vec<String> = Vec::new();
        let st = store.start_session("unknown", "auto-started by get_context", no_tags.as_slice());
        proof {
            started = st;
            assert(no_tags@ =~= Seq::<String>::empty());
            assert(store.calls().take(b + 1) =~= s0);
        }
        match st {
            Err(e) => {
                proof {
                    let c = store.calls();
                    assert(c[b] == s0[b]);
                    assert(c.take(b + 1) == s0);
                    assert(session_start_run(c.take(b + 1), c, default_agent(), auto_session_goal(), Seq::empty(), started));
                    assert(c.take(c.len() as int) =~= c);
                }
                return Err(e);
            },
            Ok(_) => {},
        }
    }
    let ghost s1 = store.calls();
    let output = generate_context(store, &role, &level);
    let r = match output {
        Ok(out) => Ok(out.markdown),
        Err(e) => Err(e),
    };
    proof {
        let c = store.calls();
        assert(text_of(r) == markdown_of(output));
        assert(c[b] == s0[b]);
        assert(c.take(b + 1) =~= s0);
        if active.is_none() {
            assert(session_start_run(s0, s1, default_agent(), auto_session_goal(), Seq::empty(), started));
        } else {
            assert(s1 == s0);
        }
    }
    r
}

/// The answer of `add_decision`.
pub open spec fn decision_recorded_answer(d: Decision) -> Seq<char> {
    "Decision recorded: "@ + d.title@ + " ("@ + short_id(d.id@) + ")"@
}

/// The `add_decision` tool: records a decision (no alternatives and no tags
/// when none are given).
pub fn add_decision_tool(store: &mut Store, params: AddDecisionParams) -> (r: Result<String, EngramError>)
    ensures
        exists|rd: Result<Decision, EngramError>|
            #[trigger] decision_add_run(
                old(store).calls(),
                final(store).calls(),
                params.title@,
                params.context@,
                params.decision@,
                listed(params.alternatives),
                listed(params.tags),
                rd,
            ) && match rd {
                Ok(d) => r matches Ok(text) && text@ == decision_recorded_answer(d),
                Err(e) => r == Err::<String, EngramError>(e),
            },
{
    let ghost given = params;
    let alternatives = match params.alternatives {
        Some(v) => v,
        None => Vec::new(),
    };
    let tags = match params.tags {
        Some(v) => v,
        None => Vec::new(),
    };
    proof {
        assert(alternatives@ =~= listed(given.alternatives));
        assert(tags@ =~= listed(given.tags));
    }
    let added = store.add_decision(
        params.title.as_str(),
        params.context.as_str(),
        params.decision.as_str(),
        alternatives.as_slice(),
        tags.as_slice(),
    );
    let ghost rd = added;
    let d = match added {
        Ok(d) => d,
        Err(e) => {
            proof {
                assert(decision_add_run(old(store).calls(), store.calls(), given.title@, given.context@, given.decision@, listed(given.alternatives), listed(given.tags), rd));
            }
            return Err(e);
        },
    };
    let short = short_id_text(d.id.as_str());
    let mut text = String::new();
    text.append("Decision recorded: ");
    text.append(d.title.as_str());
    text.append(" (");
    text.append(short.as_str());
    text.append(")");
    proof {
        assert(text@ == decision_recorded_answer(d));
        assert(decision_add_run(old(store).calls(), store.calls(), given.title@, given.context@, given.decision@, listed(given.alternatives), listed(given.tags), rd));
    }
    Ok(text)
}

/// The answer of `update_task`.
pub open spec fn task_updated_answer(t: Task, status: TaskStatus) -> Seq<char> {
    "Task '"@ + t.title@ + "' ("@ + short_id(t.id@) + ") updated to "@ + status.label()
}

/// The `update_task` tool: sets the status of the task that an id prefix
/// picks; the status name must be known.
pub fn update_task_tool(store: &mut Store, params: &UpdateTaskParams) -> (r: Result<String, EngramError>)
    ensures
        TaskStatus::from_label(params.status@) is None ==> (r matches Err(EngramError::InvalidTaskStatus(t))
            && t@ == params.status@) && final(store).calls() == old(store).calls(),
        TaskStatus::from_label(params.status@) matches Some(s) ==> exists|rt: Result<Task, EngramError>|
            #[trigger] prefix_update_run(old(store).calls(), final(store).calls(), params.id@, s, rt) && match rt {
                Ok(t) => r matches Ok(text) && text@ == task_updated_answer(t, s),
                Err(e) => r == Err::<String, EngramError>(e),
            },
{
    let status = TaskStatus::from_str(params.status.as_str())?;
    let found = update_task_by_prefix(store, params.id.as_str(), &status);
    let ghost rt = found;
    let task = match found {
        Ok(t) => t,
        Err(e) => {
            proof {
                assert(prefix_update_run(old(store).calls(), store.calls(), params.id@, status, rt));
            }
            return Err(e);
        },
    };
    let short = short_id_text(task.id.as_str());
    let mut text = String::new();
    text.append("Task '");
    text.append(task.title.as_str());
    text.append("' (");
    text.append(short.as_str());
    text.append(") updated to ");
    text.append(status.as_str());
    proof {
        assert(text@ == task_updated_answer(task, status));
        assert(prefix_update_run(old(store).calls(), store.calls(), params.id@, status, rt));
    }
    Ok(text)
}

/// The bytes of a file's content, if there is one.
pub open spec fn bytes_of(content: Option<Vec<u8>>) -> Option<Seq<u8>> {
    match content {
        Some(b) => Some(b@),
        None => None,
    }
}

/// The answer of `summarize_file`.
pub open spec fn file_saved_answer(path: Seq<char>) -> Seq<char> {
    "File summary saved: "@ + path
}

/// The `summarize_file` tool: stores the summary of a path, with the hash of
/// the file's content (or "unknown" when there is no file).
pub fn summarize_file_tool(store: &mut Store, params: SummarizeFileParams, content: Option<Vec<u8>>) -> (r:
    Result<String, EngramError>)
    ensures
        exists|rf: Result<FileSummary, EngramError>|
            #[trigger] file_upsert_run(
                old(store).calls(),
                final(store).calls(),
                params.path@,
                params.summary@,
                listed(params.key_types),
                listed(params.dependencies),
                listed(params.tags),
                content_hash_of(bytes_of(content)),
                rf,
            ) && match rf {
                Ok(_) => r matches Ok(text) && text@ == file_saved_answer(params.path@),
                Err(e) => r == Err::<String, EngramError>(e),
            },
{
    let ghost given = params;
    let key_types = match params.key_types {
        Some(v) => v,
        None => Vec::new(),
    };
    let dependencies = match params.dependencies {
        Some(v) => v,
        None => Vec::new(),
    };
    let tags = match params.tags {
        Some(v) => v,
        None => Vec::new(),
    };
    let hash = match &content {
        Some(bytes) => content_hash(Some(bytes.as_slice())),
        None => content_hash(None),
    };
    proof {
        assert(key_types@ =~= listed(given.key_types));
        assert(dependencies@ =~= listed(given.dependencies));
        assert(tags@ =~= listed(given.tags));
    }
    let stored = store.upsert_file_summary(
        params.path.as_str(),
        params.summary.as_str(),
        key_types.as_slice(),
        dependencies.as_slice(),
        tags.as_slice(),
        hash.as_str(),
    );
    let ghost rf = stored;
    let f = match stored {
        Ok(f) => f,
        Err(e) => {
            proof {
                assert(file_upsert_run(old(store).calls(), store.calls(), given.path@, given.summary@, listed(given.key_types), listed(given.dependencies), listed(given.tags), hash@, rf));
            }
            return Err(e);
        },
    };
    let mut text = String::new();
    text.append("File summary saved: ");
    text.append(f.path.as_str());
    proof {
        assert(file_upsert_run(old(store).calls(), store.calls(), given.path@, given.summary@, listed(given.key_types), listed(given.dependencies), listed(given.tags), hash@, rf));
    }
    Ok(text)
}

/// The answer of `start_session`.
pub open spec fn session_started_answer(s: Session) -> Seq<char> {
    "Session started: "@ + short_id(s.id@) + " (agent: "@ + s.agent@ + ", goal: "@ + s.goal@ + ")"@
}

/// The `start_session` tool: starts a session (agent "unknown" unless named)
/// unless one is active.
pub fn start_session_tool(store: &mut Store, params: StartSessionParams) -> (r: Result<String, EngramError>)
    ensures
        exists|rs: Result<Session, EngramError>|
            #[trigger] checked_start_run(
                old(store).calls(),
                final(store).calls(),
                named_agent(params),
                params.goal@,
                listed(params.tags),
                rs,
            ) && match rs {
                Ok(s) => r matches Ok(text) && text@ == session_started_answer(s),
                Err(e) => r == Err::<String, EngramError>(e),
            },
{
    let agent: &str = match &params.agent {
        Some(a) => a.as_str(),
        None => "unknown",
    };
    let tags = match &params.tags {
        Some(v) => v.as_slice(),
        None => &[],
    };
    proof {
        assert(tags@ =~= listed(params.tags));
    }
    let started = crate::cli::start_session_checked(store, agent, params.goal.as_str(), tags);
    let ghost rs = started;
    let s = match started {
        Ok(s) => s,
        Err(e) => {
            proof {
                assert(checked_start_run(old(store).calls(), store.calls(), named_agent(params), params.goal@, listed(params.tags), rs));
            }
            return Err(e);
        },
    };
    let short = short_id_text(s.id.as_str());
    let mut text = String::new();
    text.append("Session started: ");
    text.append(short.as_str());
    text.append(" (agent: ");
    text.append(s.agent.as_str());
    text.append(", goal: ");
    text.append(s.goal.as_str());
    text.append(")");
    proof {
        assert(text@ == session_started_answer(s));
        assert(checked_start_run(old(store).calls(), store.calls(), named_agent(params), params.goal@, listed(params.tags), rs));
    }
    Ok(text)
}

/// The answer of `end_session`.
pub open spec fn session_ended_answer(s: Session) -> Seq<char> {
    "Session ended: "@ + short_id(s.id@) + " - handoff recorded"@
}

/// The `end_session` tool: ends the active session with handoff notes.
pub fn end_session_tool(store: &mut Store, params: &EndSessionParams) -> (r: Result<String, EngramError>)
    ensures
        exists|rs: Result<Session, EngramError>|
            #[trigger] active_end_run(old(store).calls(), final(store).calls(), params.handoff@, rs) && match rs {
                Ok(s) => r matches Ok(text) && text@ == session_ended_answer(s),
                Err(e) => r == Err::<String, EngramError>(e),
            },
{
    let ended = crate::cli::end_active_session(store, params.handoff.as_str());
    let ghost rs = ended;
    let s = match ended {
        Ok(s) => s,
        Err(e) => {
            proof {
                assert(active_end_run(old(store).calls(), store.calls(), params.handoff@, rs));
            }
            return Err(e);
        },
    };
    let short = short_id_text(s.id.as_str());
    let mut text = String::new();
    text.append("Session ended: ");
    text.append(short.as_str());
    text.append(" - handoff recorded");
    proof {
        assert(text@ == session_ended_answer(s));
        assert(active_end_run(old(store).calls(), store.calls(), params.handoff@, rs));
    }
    Ok(text)
}

/// The line of a decision hit: the short id, and the title and decision when
/// the decision was found.
pub open spec fn decision_hit_answer(id: Seq<char>, found: Option<Decision>) -> Seq<char> {
    "[decision:"@ + short_id(id) + "]"@ + match found {
        Some(d) => " "@ + d.title@ + " - "@ + d.decision@,
        None => Seq::empty(),
    }
}

/// The line of a task hit: the short id, and the status and title when the
/// task was found.
pub open spec fn task_hit_answer(id: Seq<char>, found: Option<Task>) -> Seq<char> {
    "[task:"@ + short_id(id) + "]"@ + match found {
        Some(t) => " ("@ + t.status.label() + ") "@ + t.title@,
        None => Seq::empty(),
    }
}

/// The line of a file hit: the short id, and the path and summary when the
/// file summary was found.
pub open spec fn file_hit_answer(id: Seq<char>, found: Option<FileSummary>) -> Seq<char> {
    "[file:"@ + short_id(id) + "]"@ + match found {
        Some(f) => " "@ + f.path@ + " - "@ + f.summary@,
        None => Seq::empty(),
    }
}

/// The line of a session hit: the short id, and the state, agent and goal when
/// the session was found.
pub open spec fn session_hit_answer(id: Seq<char>, found: Option<Session>) -> Seq<char> {
    "[session:"@ + short_id(id) + "]"@ + match found {
        Some(s) => " ("@ + ended_word(s) + ") "@ + s.agent@ + " - "@ + s.goal@,
        None => Seq::empty(),
    }
}

/// A search answer line for a session hit says "(active)" when the session
/// has no end time and "(ended)" when it has one.
pub proof fn law_session_hit_answer_state(id: Seq<char>, s: Session)
    ensures
        s.ended_at is None ==> session_hit_answer(id, Some(s)) == "[session:"@ + short_id(id) + "] (active) "@
            + s.agent@ + " - "@ + s.goal@,
        s.ended_at is Some ==> session_hit_answer(id, Some(s)) == "[session:"@ + short_id(id) + "] (ended) "@
            + s.agent@ + " - "@ + s.goal@,
{
    reveal_strlit("]");
    reveal_strlit(" (");
    reveal_strlit("active");
    reveal_strlit("ended");
    reveal_strlit(") ");
    reveal_strlit("] (active) ");
    reveal_strlit("] (ended) ");
    reveal_strlit("] (");
    assert(session_hit_answer(id, Some(s)) =~= "[session:"@ + short_id(id) + "] ("@ + ended_word(s) + ") "@
        + s.agent@ + " - "@ + s.goal@);
    if s.ended_at is None {
        assert("] ("@ + "active"@ + ") "@ =~= "] (active) "@);
        assert(session_hit_answer(id, Some(s)) =~= "[session:"@ + short_id(id) + "] (active) "@ + s.agent@ + " - "@
            + s.goal@);
    } else {
        assert("] ("@ + "ended"@ + ") "@ =~= "] (ended) "@);
        assert(session_hit_answer(id, Some(s)) =~= "[session:"@ + short_id(id) + "] (ended) "@ + s.agent@ + " - "@
            + s.goal@);
    }
}

/// The line of a decision hit.
pub fn decision_hit_answer_line(id: &str, found: &Option<Decision>) -> (r: String)
    ensures
        r@ == decision_hit_answer(id@, *found),
{
    let short = short_id_text(id);
    let mut r = String::new();
    r.append("[decision:");
    r.append(short.as_str());
    r.append("]");
    if let Some(d) = found {
        r.append(" ");
        r.append(d.title.as_str());
        r.append(" - ");
        r.append(d.decision.as_str());
    }
    r
}

/// The line of a task hit.
pub fn task_hit_answer_line(id: &str, found: &Option<Task>) -> (r: String)
    ensures
        r@ == task_hit_answer(id@, *found),
{
    let short = short_id_text(id);
    let mut r = String::new();
    r.append("[task:");
    r.append(short.as_str());
    r.append("]");
    if let Some(t) = found {
        r.append(" (");
        r.append(t.status.as_str());
        r.append(") ");
        r.append(t.title.as_str());
    }
    r
}

/// The line of a file hit.
pub fn file_hit_answer_line(id: &str, found: &Option<FileSummary>) -> (r: String)
    ensures
        r@ == file_hit_answer(id@, *found),
{
    let short = short_id_text(id);
    let mut r = String::new();
    r.append("[file:");
    r.append(short.as_str());
    r.append("]");
    if let Some(f) = found {
        r.append(" ");
        r.append(f.path.as_str());
        r.append(" - ");
        r.append(f.summary.as_str());
    }
    r
}

/// The line of a session hit.
pub fn session_hit_answer_line(id: &str, found: &Option<Session>) -> (r: String)
    ensures
        r@ == session_hit_answer(id@, *found),
{
    let short = short_id_text(id);
    let mut r = String::new();
    r.append("[session:");
    r.append(short.as_str());
    r.append("]");
    if let Some(s) = found {
        r.append(" (");
        if s.ended_at.is_some() {
            r.append("ended");
        } else {
            r.append("active");
        }
        r.append(") ");
        r.append(s.agent.as_str());
        r.append(" - ");
        r.append(s.goal.as_str());
    }
    r
}

/// The line of a hit of another type.
pub fn other_hit_answer_line(id: &str, kind: &str) -> (r: String)
    ensures
        r@ == "["@ + kind@ + ":"@ + short_id(id@) + "]"@,
{
    let short = short_id_text(id);
    let mut r = String::new();
    r.append("[");
    r.append(kind);
    r.append(":");
    r.append(short.as_str());
    r.append("]");
    r
}

/// The answer of `search` for its lines: a note when there are none, else
/// the lines one per row and their number.
pub open spec fn search_answer(query: Seq<char>, lines: Seq<Seq<char>>) -> Seq<char> {
    if lines.len() == 0 {
        "No results for: "@ + query
    } else {
        crate::text::join(lines, "\n"@) + "\n\n"@ + decimal(lines.len()) + " result(s)"@
    }
}

/// The answer of `search` for its lines.
pub fn search_answer_text(query: &str, lines: &Vec<String>) -> (r: String)
    ensures
        r@ == search_answer(query@, views(lines@)),
{
    let mut r = String::new();
    if lines.len() == 0 {
        r.append("No results for: ");
        r.append(query);
        return r;
    }
    let joined = crate::text::join_strings(lines, "\n");
    let count = decimal_text(lines.len());
    r.append(joined.as_str());
    r.append("\n\n");
    r.append(count.as_str());
    r.append(" result(s)");
    r
}

/// Whether `line` is the answer line of a search hit, given the calls made
/// for it: a decision, task, file summary or session hit is looked up by its
/// id (one query) and shown with the details found; a hit of another type
/// makes no call.
pub open spec fn tool_hit_step(before: Seq<DbCall>, after: Seq<DbCall>, hit: (String, String), line: Seq<char>) -> bool {
    let id = hit.0@;
    let kind = hit.1@;
    if kind == "decision"@ {
        &&& extends(before, after, 1) && asked(after.last(), sql_get_decision(), seq![Some(id)])
        &&& rows_of(after.last()) is Some
        &&& exists|found: Option<Decision>|
            #[trigger] decision_lookup(rows_of(after.last())->0, Ok(found)) && line == decision_hit_answer(id, found)
    } else if kind == "task"@ {
        &&& extends(before, after, 1) && asked(after.last(), sql_get_task(), seq![Some(id)])
        &&& rows_of(after.last()) is Some
        &&& exists|found: Option<Task>|
            #[trigger] task_lookup(rows_of(after.last())->0, Ok(found)) && line == task_hit_answer(id, found)
    } else if kind == "file"@ {
        &&& extends(before, after, 1) && asked(after.last(), sql_file_by_id(), seq![Some(id)])
        &&& rows_of(after.last()) is Some
        &&& exists|found: Option<FileSummary>|
            #[trigger] file_lookup(rows_of(after.last())->0, Ok(found)) && line == file_hit_answer(id, found)
    } else if kind == "session"@ {
        &&& extends(before, after, 1) && asked(after.last(), sql_get_session(), seq![Some(id)])
        &&& rows_of(after.last()) is Some
        &&& exists|found: Option<Session>|
            #[trigger] session_lookup(rows_of(after.last())->0, Ok(found)) && line == session_hit_answer(id, found)
    } else {
        after == before && line == "["@ + kind + ":"@ + short_id(id) + "]"@
    }
}

/// Whether hits of a type are looked up (one query each).
pub open spec fn looked_up(kind: Seq<char>) -> bool {
    kind == "decision"@ || kind == "task"@ || kind == "file"@ || kind == "session"@
}

/// Whether `lines` are the answer lines of `hits`, one per hit in order, given
/// the calls made to look the hits up.
pub open spec fn tool_hit_lines(calls: Seq<DbCall>, hits: Seq<(String, String)>, lines: Seq<Seq<char>>) -> bool
    decreases hits.len(),
{
    if hits.len() == 0 {
        calls.len() == 0 && lines.len() == 0
    } else {
        let k = calls.len() - if looked_up(hits.last().1@) {
            1int
        } else {
            0int
        };
        &&& lines.len() == hits.len()
        &&& 0 <= k
        &&& tool_hit_lines(calls.take(k), hits.drop_last(), lines.drop_last())
        &&& tool_hit_step(calls.take(k), calls, hits.last(), lines.last())
    }
}

/// The `search` tool: one search query, then a line for each hit, with the
/// entity's details when it can be read back.
pub fn search_tool(store: &mut Store, params: &SearchParams) -> (r: Result<String, EngramError>)
    ensures
        grows(old(store).calls(), final(store).calls()),
        final(store).calls().len() > old(store).calls().len(),
        asked(
            new_call(old(store).calls(), final(store).calls(), 0),
            sql_search(params.entity_type is Some),
            match params.entity_type {
                Some(t) => seq![Some(params.query@), Some(t@)],
                None => seq![Some(params.query@)],
            },
        ),
        r matches Ok(text) ==> exists|hits: Vec<(String, String)>, lines: Seq<Seq<char>>|
            #![trigger hits_reply(rows_of(new_call(old(store).calls(), final(store).calls(), 0))->0, Ok(hits)), search_answer(params.query@, lines)]
            rows_of(new_call(old(store).calls(), final(store).calls(), 0)) is Some && hits_reply(
                rows_of(new_call(old(store).calls(), final(store).calls(), 0))->0,
                Ok(hits),
            ) && tool_hit_lines(
                final(store).calls().subrange(old(store).calls().len() as int + 1, final(store).calls().len() as int),
                hits@,
                lines,
            ) && lines.len() <= 200 && text@ == search_answer(params.query@, lines),
        forall|j: int|
            0 <= j < made(old(store).calls(), final(store).calls()) - 1 ==> read_ok(
                search_read_kind(#[trigger] new_call(old(store).calls(), final(store).calls(), j)),
                new_call(old(store).calls(), final(store).calls(), j),
            ),
        r is Ok <==> read_ok(search_read_kind(final(store).calls().last()), final(store).calls().last()),
        r matches Err(e) ==> read_error(search_read_kind(final(store).calls().last()), final(store).calls().last(), e),
{
    proof {
        lemma_search_queries_differ();
    }
    let query = params.query.as_str();
    let entity_type: Option<&str> = match &params.entity_type {
        Some(t) => Some(t.as_str()),
        None => None,
    };
    let ghost b = old(store).calls().len() as int;
    let searched = store.search(query, entity_type);
    proof {
        let c = store.calls()[b];
        match &params.entity_type {
            Some(t) => {
                assert(c.params == seq![Some(params.query@), Some(t@)]);
                assert(c.sql == sql_search(true));
            },
            None => {
                assert(c.params == seq![Some(params.query@)]);
                assert(c.sql == sql_search(false));
            },
        }
    }
    let hits = searched?;
    let ghost c0 = store.calls()[b];
    let mut lines: Vec<String> = Vec::new();
    let n = hits.len();
    let mut i: usize = 0;
    proof {
        assert(read_ok(search_read_kind(c0), c0));
        assert(store.calls().subrange(b + 1, store.calls().len() as int) =~= Seq::<DbCall>::empty());
        assert(hits@.take(0) =~= Seq::<(String, String)>::empty());
        assert(views(lines@) =~= Seq::<Seq<char>>::empty());
    }
    while i < n
        invariant
            0 <= i <= n,
            n == hits@.len(),
            n <= 200,
            lines@.len() == i,
            b == old(store).calls().len(),
            store.calls().len() > b,
            grows(old(store).calls(), store.calls()),
            store.calls()[b] == c0,
            asked(
                c0,
                sql_search(params.entity_type is Some),
                match params.entity_type {
                    Some(t) => seq![Some(params.query@), Some(t@)],
                    None => seq![Some(params.query@)],
                },
            ),
            rows_of(c0) is Some && hits_reply(rows_of(c0)->0, Ok(hits)),
            forall|j: int|
                b <= j < store.calls().len() ==> read_ok(search_read_kind(#[trigger] store.calls()[j]), store.calls()[j]),
            tool_hit_lines(store.calls().subrange(b + 1, store.calls().len() as int), hits@.take(i as int), views(lines@)),
        decreases n - i,
    {
        proof {
            lemma_search_queries_differ();
        }
        let ghost before = store.calls();
        let ghost prev = before.subrange(b + 1, before.len() as int);
        let id = hits[i].0.as_str();
        let kind = hits[i].1.as_str();
        let line = if same_text(kind, "decision") {
            let found = store.get_decision(id);
            proof {
                assert(store.calls()[b] == c0);
            }
            let found = found?;
            proof {
                assert(decision_lookup(rows_of(store.calls().last())->0, Ok(found)));
            }
            decision_hit_answer_line(id, &found)
        } else if same_text(kind, "task") {
            let found = store.get_task(id);
            proof {
                assert(store.calls()[b] == c0);
            }
            let found = found?;
            proof {
                assert(task_lookup(rows_of(store.calls().last())->0, Ok(found)));
            }
            task_hit_answer_line(id, &found)
        } else if same_text(kind, "file") {
            let found = store.get_file_summary(id);
            proof {
                assert(store.calls()[b] == c0);
            }
            let found = found?;
            proof {
                assert(file_lookup(rows_of(store.calls().last())->0, Ok(found)));
            }
            file_hit_answer_line(id, &found)
        } else if same_text(kind, "session") {
            let found = store.get_session(id);
            proof {
                assert(store.calls()[b] == c0);
            }
            let found = found?;
            proof {
                assert(session_lookup(rows_of(store.calls().last())->0, Ok(found)));
            }
            session_hit_answer_line(id, &found)
        } else {
            other_hit_answer_line(id, kind)
        };
        let ghost old_lines = views(lines@);
        lines.push(line);
        proof {
            let after = store.calls();
            let cur = after.subrange(b + 1, after.len() as int);
            assert(cur.take(prev.len() as int) =~= prev);
            if after.len() > before.len() {
                assert(cur.last() == after.last());
                assert(extends(prev, cur, 1));
            } else {
                assert(cur =~= prev);
            }
            assert(after[b] == before[b]);
            assert(tool_hit_step(prev, cur, hits@[i as int], line@));
            assert(hits@.take(i + 1).drop_last() =~= hits@.take(i as int));
            assert(hits@.take(i + 1).last() == hits@[i as int]);
            assert(views(lines@).drop_last() =~= old_lines);
            assert(views(lines@).last() == line@);
            assert(tool_hit_lines(cur.take(prev.len() as int), hits@.take(i + 1).drop_last(), views(lines@).drop_last()));
            assert(tool_hit_step(cur.take(prev.len() as int), cur, hits@.take(i + 1).last(), views(lines@).last()));
            assert(hits@.take(i + 1).len() == i + 1);
            assert(views(lines@).len() == i + 1);
            assert(tool_hit_lines(cur, hits@.take(i + 1), views(lines@)));
        }
        i += 1;
    }
    let text = search_answer_text(query, &lines);
    proof {
        assert(hits@.take(n as int) =~= hits@);
        assert(text@ == search_answer(query@, views(lines@)));
    }
    Ok(text)
}

} // verus!
