//! Markdown rendering of project memory, filtered by role and detail level.

use vstd::prelude::*;

use crate::external::{format_minute, minute_stamp};
use crate::models::{
    ContextLevel, ContextRole, Decision, FileSummary, ProjectMeta, Session, Task, TaskStatus,
};
use crate::text::{join, join_strings, views};

verus! {

/// The minute of a time as it is shown: chrono's `"%Y-%m-%d %H:%M"` of it, or
/// nothing when the text is not a time.
pub open spec fn minute_text(t: Seq<char>) -> Seq<char> {
    match minute_stamp(t) {
        Some(m) => m,
        None => Seq::empty(),
    }
}

/// The minute of a time as it is shown.
pub fn minute_of(t: &str) -> (r: String)
    ensures
        r@ == minute_text(t@),
{
    match format_minute(t) {
        Some(m) => m,
        None => String::new(),
    }
}

/// All data needed to render a context output.
pub struct RenderContext<'a> {
    pub role: &'a ContextRole,
    pub level: &'a ContextLevel,
    pub meta: &'a Option<ProjectMeta>,
    pub decisions: &'a [Decision],
    pub tasks: &'a [Task],
    pub files: &'a [FileSummary],
    pub sessions: &'a [Session],
    pub active_session: &'a Option<Session>,
}

// ── The document ──

/// The title block: name, description and stack of the project.
pub open spec fn header_text(meta: Option<ProjectMeta>) -> Seq<char> {
    match meta {
        Some(m) => "# "@ + m.name@ + "\n"@ + (if m.description@.len() == 0 {
            Seq::empty()
        } else {
            m.description@ + "\n"@
        }) + (if m.stack@.len() == 0 {
            Seq::empty()
        } else {
            "**Stack**: "@ + join(views(m.stack@), ", "@) + "\n"@
        }),
        None => "# (unnamed project)\n"@,
    }
}

/// The line that names the active session, if there is one.
pub open spec fn active_session_text(active: Option<Session>) -> Seq<char> {
    match active {
        Some(s) => "**Active session**: "@ + s.agent@ + " — "@ + s.goal@ + "\n\n"@,
        None => Seq::empty(),
    }
}

/// Whether a task still waits for work (in progress or to do).
pub open spec fn is_pending(t: Task) -> bool {
    t.status == TaskStatus::InProgress || t.status == TaskStatus::Todo
}

/// The pending tasks, in their order.
pub open spec fn pending_tasks(ts: Seq<Task>) -> Seq<Task> {
    ts.filter(|t: Task| is_pending(t))
}

/// The tasks that are not done, in their order.
pub open spec fn open_tasks(ts: Seq<Task>) -> Seq<Task> {
    ts.filter(|t: Task| t.status != TaskStatus::Done)
}

/// The tasks that are done, in their order.
pub open spec fn done_tasks(ts: Seq<Task>) -> Seq<Task> {
    ts.filter(|t: Task| t.status == TaskStatus::Done)
}

/// The sessions that carry handoff notes, in their order.
pub open spec fn handed_off(ss: Seq<Session>) -> Seq<Session> {
    ss.filter(|s: Session| s.handoff is Some)
}

/// The "next" line of a minimal context: the first pending task.
pub open spec fn next_task_text(ts: Seq<Task>) -> Seq<char> {
    let p = pending_tasks(ts);
    if p.len() == 0 {
        Seq::empty()
    } else {
        "**Next**: "@ + p[0].title@ + " ("@ + p[0].status.label() + ")\n"@
    }
}

/// The handoff line of a minimal context: the first session with handoff notes.
pub open spec fn last_handoff_text(ss: Seq<Session>) -> Seq<char> {
    let h = handed_off(ss);
    if h.len() == 0 {
        Seq::empty()
    } else {
        "\n**Last handoff** ("@ + h[0].agent@ + "): "@ + h[0].handoff.unwrap()@ + "\n"@
    }
}

/// The body of a minimal context.
pub open spec fn minimal_text(role: ContextRole, ts: Seq<Task>, ss: Seq<Session>) -> Seq<char> {
    next_task_text(ts) + (if role == ContextRole::Resume {
        last_handoff_text(ss)
    } else {
        Seq::empty()
    })
}

/// The marker that shows a task's status.
pub open spec fn task_marker(status: TaskStatus) -> Seq<char> {
    match status {
        TaskStatus::InProgress => "🔧"@,
        TaskStatus::Blocked => "⛔"@,
        TaskStatus::Todo => "☐"@,
        TaskStatus::Done => "✓"@,
    }
}

/// The phase of a task in brackets, or nothing when it has none or an empty one.
pub open spec fn phase_suffix(phase: Option<String>) -> Seq<char> {
    match phase {
        Some(p) => if p@.len() == 0 {
            Seq::empty()
        } else {
            " ["@ + p@ + "]"@
        },
        None => Seq::empty(),
    }
}

/// The list line of a task.
pub open spec fn task_line(t: Task) -> Seq<char> {
    "- "@ + task_marker(t.status) + " "@ + t.title@ + " ("@ + t.priority.label() + ")"@
        + phase_suffix(t.phase) + "\n"@
}

/// The list lines of tasks, one after the other.
pub open spec fn task_lines(ts: Seq<Task>) -> Seq<char>
    decreases ts.len(),
{
    if ts.len() == 0 {
        Seq::empty()
    } else {
        task_lines(ts.drop_last()) + task_line(ts.last())
    }
}

/// The short line of a decision.
pub open spec fn brief_decision_line(d: Decision) -> Seq<char> {
    "- **"@ + d.title@ + "**: "@ + d.decision@ + "\n"@
}

/// The short lines of decisions, one after the other.
pub open spec fn brief_decision_lines(ds: Seq<Decision>) -> Seq<char>
    decreases ds.len(),
{
    if ds.len() == 0 {
        Seq::empty()
    } else {
        brief_decision_lines(ds.drop_last()) + brief_decision_line(ds.last())
    }
}

/// The line of a completed task.
pub open spec fn done_line(t: Task) -> Seq<char> {
    "- ✓ "@ + t.title@ + "\n"@
}

/// The lines of completed tasks, one after the other.
pub open spec fn done_lines(ts: Seq<Task>) -> Seq<char>
    decreases ts.len(),
{
    if ts.len() == 0 {
        Seq::empty()
    } else {
        done_lines(ts.drop_last()) + done_line(ts.last())
    }
}

/// Whether a session has ended, in words.
pub open spec fn session_state(s: Session) -> Seq<char> {
    if s.ended_at is Some {
        "ended"@
    } else {
        "active"@
    }
}

/// The handoff notes of a session after a prefix, on a line of their own.
pub open spec fn handoff_line(prefix: Seq<char>, handoff: Option<String>) -> Seq<char> {
    match handoff {
        Some(h) => prefix + h@ + "\n"@,
        None => Seq::empty(),
    }
}

/// Decisions are shown at the standard level to these roles only.
pub open spec fn role_sees_decisions(role: ContextRole) -> bool {
    role == ContextRole::Build || role == ContextRole::Review
}

/// File summaries are shown at the full level to these roles only.
pub open spec fn role_sees_files(role: ContextRole) -> bool {
    role == ContextRole::Build || role == ContextRole::Review || role == ContextRole::Debug
}

/// At most five decisions, for the roles that see them.
pub open spec fn standard_decisions_text(role: ContextRole, ds: Seq<Decision>) -> Seq<char> {
    if role_sees_decisions(role) && ds.len() > 0 {
        "## Decisions\n"@ + brief_decision_lines(ds.take(if ds.len() < 5 { ds.len() as int } else { 5 }))
            + "\n"@
    } else {
        Seq::empty()
    }
}

/// The first `n` elements of `s`, or all of them when there are fewer.
pub open spec fn first_n<A>(s: Seq<A>, n: int) -> Seq<A> {
    if s.len() < n {
        s
    } else {
        s.take(n)
    }
}

/// At most ten tasks that are not done.
pub open spec fn standard_tasks_text(ts: Seq<Task>) -> Seq<char> {
    let shown = first_n(open_tasks(ts), 10);
    if shown.len() > 0 {
        "## Tasks\n"@ + task_lines(shown) + "\n"@
    } else {
        Seq::empty()
    }
}

/// The most recent session, with its handoff notes.
pub open spec fn last_session_text(ss: Seq<Session>) -> Seq<char> {
    if ss.len() > 0 {
        "## Last Session\n"@ + "**"@ + ss[0].agent@ + "** ("@ + session_state(ss[0]) + "): "@
            + ss[0].goal@ + "\n"@ + handoff_line("Handoff: "@, ss[0].handoff) + "\n"@
    } else {
        Seq::empty()
    }
}

/// At most five completed tasks, for the debug role.
pub open spec fn recent_done_text(role: ContextRole, ts: Seq<Task>) -> Seq<char> {
    let shown = first_n(done_tasks(ts), 5);
    if role == ContextRole::Debug && shown.len() > 0 {
        "## Recently Completed\n"@ + done_lines(shown) + "\n"@
    } else {
        Seq::empty()
    }
}

/// The body of a standard context.
pub open spec fn standard_text(
    role: ContextRole,
    ds: Seq<Decision>,
    ts: Seq<Task>,
    ss: Seq<Session>,
) -> Seq<char> {
    standard_decisions_text(role, ds) + standard_tasks_text(ts) + last_session_text(ss)
        + recent_done_text(role, ts)
}

/// The lines of conventions, one after the other.
pub open spec fn convention_lines(cs: Seq<String>) -> Seq<char>
    decreases cs.len(),
{
    if cs.len() == 0 {
        Seq::empty()
    } else {
        convention_lines(cs.drop_last()) + "- "@ + cs.last()@ + "\n"@
    }
}

/// The conventions of the project, if it has any.
pub open spec fn conventions_text(meta: Option<ProjectMeta>) -> Seq<char> {
    match meta {
        Some(m) => if m.conventions@.len() > 0 {
            "## Conventions\n"@ + convention_lines(m.conventions@) + "\n"@
        } else {
            Seq::empty()
        },
        None => Seq::empty(),
    }
}

/// A decision with its context, rationale and alternatives.
pub open spec fn full_decision_block(d: Decision) -> Seq<char> {
    "### "@ + d.title@ + "\n"@ + "**Context**: "@ + d.context@ + "\n"@ + "**Decision**: "@
        + d.decision@ + "\n"@ + (if d.alternatives@.len() == 0 {
        Seq::empty()
    } else {
        "**Alternatives**: "@ + join(views(d.alternatives@), ", "@) + "\n"@
    }) + "\n"@
}

/// The full blocks of decisions, one after the other.
pub open spec fn full_decision_blocks(ds: Seq<Decision>) -> Seq<char>
    decreases ds.len(),
{
    if ds.len() == 0 {
        Seq::empty()
    } else {
        full_decision_blocks(ds.drop_last()) + full_decision_block(ds.last())
    }
}

/// All decisions in full, if there are any.
pub open spec fn full_decisions_text(ds: Seq<Decision>) -> Seq<char> {
    if ds.len() > 0 {
        "## Decisions\n"@ + full_decision_blocks(ds)
    } else {
        Seq::empty()
    }
}

/// A task line followed by its description, if it has one.
pub open spec fn full_task_entry(t: Task) -> Seq<char> {
    task_line(t) + (if t.description@.len() == 0 {
        Seq::empty()
    } else {
        "  "@ + t.description@ + "\n"@
    })
}

/// The full entries of tasks, one after the other.
pub open spec fn full_task_entries(ts: Seq<Task>) -> Seq<char>
    decreases ts.len(),
{
    if ts.len() == 0 {
        Seq::empty()
    } else {
        full_task_entries(ts.drop_last()) + full_task_entry(ts.last())
    }
}

/// All tasks in full, if there are any.
pub open spec fn full_tasks_text(ts: Seq<Task>) -> Seq<char> {
    if ts.len() > 0 {
        "## Tasks\n"@ + full_task_entries(ts) + "\n"@
    } else {
        Seq::empty()
    }
}

/// A file summary with its key types.
pub open spec fn file_entry(f: FileSummary) -> Seq<char> {
    "- **"@ + f.path@ + "**: "@ + f.summary@ + "\n"@ + (if f.key_types@.len() == 0 {
        Seq::empty()
    } else {
        "  Types: "@ + join(views(f.key_types@), ", "@) + "\n"@
    })
}

/// The entries of file summaries, one after the other.
pub open spec fn file_entries(fs: Seq<FileSummary>) -> Seq<char>
    decreases fs.len(),
{
    if fs.len() == 0 {
        Seq::empty()
    } else {
        file_entries(fs.drop_last()) + file_entry(fs.last())
    }
}

/// All file summaries, for the roles that see them.
pub open spec fn files_text(role: ContextRole, fs: Seq<FileSummary>) -> Seq<char> {
    if role_sees_files(role) && fs.len() > 0 {
        "## Files\n"@ + file_entries(fs) + "\n"@
    } else {
        Seq::empty()
    }
}

/// A session with its state, start and handoff notes.
pub open spec fn history_entry(s: Session) -> Seq<char> {
    "- **"@ + s.agent@ + "** ("@ + session_state(s) + ", "@ + minute_text(s.started_at@)
        + "): "@ + s.goal@ + "\n"@ + handoff_line("  Handoff: "@, s.handoff)
}

/// The entries of sessions, one after the other.
pub open spec fn history_entries(ss: Seq<Session>) -> Seq<char>
    decreases ss.len(),
{
    if ss.len() == 0 {
        Seq::empty()
    } else {
        history_entries(ss.drop_last()) + history_entry(ss.last())
    }
}

/// All given sessions, if there are any.
pub open spec fn history_text(ss: Seq<Session>) -> Seq<char> {
    if ss.len() > 0 {
        "## Session History\n"@ + history_entries(ss) + "\n"@
    } else {
        Seq::empty()
    }
}

/// The body of a full context.
pub open spec fn full_text(
    role: ContextRole,
    meta: Option<ProjectMeta>,
    ds: Seq<Decision>,
    ts: Seq<Task>,
    fs: Seq<FileSummary>,
    ss: Seq<Session>,
) -> Seq<char> {
    conventions_text(meta) + full_decisions_text(ds) + full_tasks_text(ts) + files_text(role, fs)
        + history_text(ss)
}

/// The whole rendered context.
pub open spec fn context_text(
    role: ContextRole,
    level: ContextLevel,
    meta: Option<ProjectMeta>,
    ds: Seq<Decision>,
    ts: Seq<Task>,
    fs: Seq<FileSummary>,
    ss: Seq<Session>,
    active: Option<Session>,
) -> Seq<char> {
    header_text(meta) + "\n"@ + active_session_text(active) + match level {
        ContextLevel::Minimal => minimal_text(role, ts, ss),
        ContextLevel::Standard => standard_text(role, ds, ts, ss),
        ContextLevel::Full => full_text(role, meta, ds, ts, fs, ss),
    }
}

// ── Writing the document ──

fn push_header(out: &mut String, meta: &Option<ProjectMeta>)
    ensures
        final(out)@ == old(out)@ + header_text(*meta),
{
    match meta {
        Some(m) => {
            out.append("# ");
            out.append(m.name.as_str());
            out.append("\n");
            if !m.description.as_str().is_empty() {
                out.append(m.description.as_str());
                out.append("\n");
            }
            if m.stack.len() > 0 {
                let stack = join_strings(&m.stack, ", ");
                out.append("**Stack**: ");
                out.append(stack.as_str());
                out.append("\n");
            }
        },
        None => {
            out.append("# (unnamed project)\n");
        },
    }
}

fn push_active_session(out: &mut String, active: &Option<Session>)
    ensures
        final(out)@ == old(out)@ + active_session_text(*active),
{
    if let Some(s) = active {
        out.append("**Active session**: ");
        out.append(s.agent.as_str());
        out.append(" — ");
        out.append(s.goal.as_str());
        out.append("\n\n");
    }
}

/// The position of the first pending task, if any.
fn find_pending(ts: &[Task]) -> (r: Option<usize>)
    ensures
        match r {
            Some(i) => i < ts@.len() && pending_tasks(ts@).len() > 0 && pending_tasks(ts@)[0]
                == ts@[i as int],
            None => pending_tasks(ts@).len() == 0,
        },
{
    let n = ts.len();
    let mut i: usize = 0;
    while i < n
        invariant
            0 <= i <= n,
            n == ts@.len(),
            pending_tasks(ts@.take(i as int)).len() == 0,
        decreases n - i,
    {
        proof {
            assert(ts@.take(i + 1) =~= ts@.take(i as int).push(ts@[i as int]));
            reveal(Seq::filter);
            assert(ts@.take(i + 1).drop_last() =~= ts@.take(i as int));
        }
        if ts[i].status == TaskStatus::InProgress || ts[i].status == TaskStatus::Todo {
            proof {
                assert(pending_tasks(ts@.take(i + 1)) =~= seq![ts@[i as int]]);
                assert(ts@ =~= ts@.take(i + 1) + ts@.skip(i + 1));
                Seq::filter_distributes_over_add(
                    ts@.take(i + 1),
                    ts@.skip(i + 1),
                    |t: Task| is_pending(t),
                );
            }
            return Some(i);
        }
        i += 1;
    }
    proof {
        assert(ts@.take(n as int) =~= ts@);
    }
    None
}

/// The position of the first session with handoff notes, if any.
fn find_handed_off(ss: &[Session]) -> (r: Option<usize>)
    ensures
        match r {
            Some(i) => i < ss@.len() && handed_off(ss@).len() > 0 && handed_off(ss@)[0]
                == ss@[i as int],
            None => handed_off(ss@).len() == 0,
        },
{
    let n = ss.len();
    let mut i: usize = 0;
    while i < n
        invariant
            0 <= i <= n,
            n == ss@.len(),
            handed_off(ss@.take(i as int)).len() == 0,
        decreases n - i,
    {
        proof {
            reveal(Seq::filter);
            assert(ss@.take(i + 1).drop_last() =~= ss@.take(i as int));
        }
        if ss[i].handoff.is_some() {
            proof {
                assert(handed_off(ss@.take(i + 1)) =~= seq![ss@[i as int]]);
                assert(ss@ =~= ss@.take(i + 1) + ss@.skip(i + 1));
                Seq::filter_distributes_over_add(
                    ss@.take(i + 1),
                    ss@.skip(i + 1),
                    |s: Session| s.handoff is Some,
                );
            }
            return Some(i);
        }
        i += 1;
    }
    proof {
        assert(ss@.take(n as int) =~= ss@);
    }
    None
}

fn push_minimal(out: &mut String, role: &ContextRole, ts: &[Task], ss: &[Session])
    ensures
        final(out)@ == old(out)@ + minimal_text(*role, ts@, ss@),
{
    if let Some(i) = find_pending(ts) {
        let t = &ts[i];
        out.append("**Next**: ");
        out.append(t.title.as_str());
        out.append(" (");
        out.append(t.status.as_str());
        out.append(")\n");
    }
    if *role == ContextRole::Resume {
        if let Some(j) = find_handed_off(ss) {
            let s = &ss[j];
            out.append("\n**Last handoff** (");
            out.append(s.agent.as_str());
            out.append("): ");
            match &s.handoff {
                Some(h) => out.append(h.as_str()),
                None => {},
            }
            out.append("\n");
        }
    }
}

fn task_marker_str(status: TaskStatus) -> (m: &'static str)
    ensures
        m@ == task_marker(status),
{
    match status {
        TaskStatus::InProgress => "🔧",
        TaskStatus::Blocked => "⛔",
        TaskStatus::Todo => "☐",
        TaskStatus::Done => "✓",
    }
}

fn push_task_line(out: &mut String, t: &Task)
    ensures
        final(out)@ == old(out)@ + task_line(*t),
{
    out.append("- ");
    out.append(task_marker_str(t.status));
    out.append(" ");
    out.append(t.title.as_str());
    out.append(" (");
    out.append(t.priority.as_str());
    out.append(")");
    match &t.phase {
        Some(p) => {
            if !p.as_str().is_empty() {
                out.append(" [");
                out.append(p.as_str());
                out.append("]");
            }
        },
        None => {},
    }
    out.append("\n");
}

fn push_standard_decisions(out: &mut String, role: &ContextRole, ds: &[Decision])
    ensures
        final(out)@ == old(out)@ + standard_decisions_text(*role, ds@),
{
    if (*role == ContextRole::Build || *role == ContextRole::Review) && ds.len() > 0 {
        out.append("## Decisions\n");
        let ghost start = out@;
        let n = if ds.len() < 5 {
            ds.len()
        } else {
            5
        };
        let mut i: usize = 0;
        while i < n
            invariant
                0 <= i <= n,
                n <= ds@.len(),
                out@ == start + brief_decision_lines(ds@.take(i as int)),
            decreases n - i,
        {
            proof {
                assert(ds@.take(i + 1).drop_last() =~= ds@.take(i as int));
            }
            let d = &ds[i];
            out.append("- **");
            out.append(d.title.as_str());
            out.append("**: ");
            out.append(d.decision.as_str());
            out.append("\n");
            i += 1;
        }
        out.append("\n");
    }
}

fn push_standard_tasks(out: &mut String, ts: &[Task])
    ensures
        final(out)@ == old(out)@ + standard_tasks_text(ts@),
{
    let mut section = String::new();
    let mut count: usize = 0;
    let n = ts.len();
    let mut i: usize = 0;
    while i < n
        invariant
            0 <= i <= n,
            n == ts@.len(),
            count <= 10,
            count == first_n(open_tasks(ts@.take(i as int)), 10).len(),
            section@ == task_lines(first_n(open_tasks(ts@.take(i as int)), 10)),
        decreases n - i,
    {
        let ghost prev = open_tasks(ts@.take(i as int));
        proof {
            reveal(Seq::filter);
            assert(ts@.take(i + 1).drop_last() =~= ts@.take(i as int));
        }
        if ts[i].status != TaskStatus::Done {
            proof {
                assert(open_tasks(ts@.take(i + 1)) == prev.push(ts@[i as int]));
            }
            if count < 10 {
                push_task_line(&mut section, &ts[i]);
                count += 1;
                proof {
                    assert(prev.push(ts@[i as int]).drop_last() =~= prev);
                    assert(first_n(prev.push(ts@[i as int]), 10) =~= prev.push(ts@[i as int]));
                    assert(task_lines(prev.push(ts@[i as int])) == task_lines(prev) + task_line(
                        ts@[i as int],
                    ));
                }
            } else {
                proof {
                    assert(prev.push(ts@[i as int]).take(10) =~= prev.take(10));
                }
            }
        }
        i += 1;
    }
    proof {
        assert(ts@.take(n as int) =~= ts@);
    }
    if count > 0 {
        out.append("## Tasks\n");
        out.append(section.as_str());
        out.append("\n");
    }
}

fn push_last_session(out: &mut String, ss: &[Session])
    ensures
        final(out)@ == old(out)@ + last_session_text(ss@),
{
    if ss.len() > 0 {
        let s = &ss[0];
        out.append("## Last Session\n");
        out.append("**");
        out.append(s.agent.as_str());
        out.append("** (");
        if s.ended_at.is_some() {
            out.append("ended");
        } else {
            out.append("active");
        }
        out.append("): ");
        out.append(s.goal.as_str());
        out.append("\n");
        if let Some(h) = &s.handoff {
            out.append("Handoff: ");
            out.append(h.as_str());
            out.append("\n");
        }
        out.append("\n");
    }
}

fn push_recent_done(out: &mut String, role: &ContextRole, ts: &[Task])
    ensures
        final(out)@ == old(out)@ + recent_done_text(*role, ts@),
{
    if *role == ContextRole::Debug {
        let mut section = String::new();
        let mut count: usize = 0;
        let n = ts.len();
        let mut i: usize = 0;
        while i < n
            invariant
                0 <= i <= n,
                n == ts@.len(),
                count <= 5,
                count == first_n(done_tasks(ts@.take(i as int)), 5).len(),
                section@ == done_lines(first_n(done_tasks(ts@.take(i as int)), 5)),
            decreases n - i,
        {
            let ghost prev = done_tasks(ts@.take(i as int));
            proof {
                reveal(Seq::filter);
                assert(ts@.take(i + 1).drop_last() =~= ts@.take(i as int));
            }
            if ts[i].status == TaskStatus::Done {
                proof {
                    assert(done_tasks(ts@.take(i + 1)) == prev.push(ts@[i as int]));
                }
                if count < 5 {
                    section.append("- ✓ ");
                    section.append(ts[i].title.as_str());
                    section.append("\n");
                    count += 1;
                    proof {
                        assert(prev.push(ts@[i as int]).drop_last() =~= prev);
                        assert(first_n(prev.push(ts@[i as int]), 5) =~= prev.push(ts@[i as int]));
                        assert(done_lines(prev.push(ts@[i as int])) == done_lines(prev) + done_line(
                            ts@[i as int],
                        ));
                    }
                } else {
                    proof {
                        assert(prev.push(ts@[i as int]).take(5) =~= prev.take(5));
                    }
                }
            }
            i += 1;
        }
        proof {
            assert(ts@.take(n as int) =~= ts@);
        }
        if count > 0 {
            out.append("## Recently Completed\n");
            out.append(section.as_str());
            out.append("\n");
        }
    }
}

fn push_standard(
    out: &mut String,
    role: &ContextRole,
    ds: &[Decision],
    ts: &[Task],
    ss: &[Session],
)
    ensures
        final(out)@ == old(out)@ + standard_text(*role, ds@, ts@, ss@),
{
    push_standard_decisions(out, role, ds);
    push_standard_tasks(out, ts);
    push_last_session(out, ss);
    push_recent_done(out, role, ts);
}

fn push_conventions(out: &mut String, meta: &Option<ProjectMeta>)
    ensures
        final(out)@ == old(out)@ + conventions_text(*meta),
{
    if let Some(m) = meta {
        if m.conventions.len() > 0 {
            out.append("## Conventions\n");
            let ghost start = out@;
            let cs = &m.conventions;
            let n = cs.len();
            let mut i: usize = 0;
            while i < n
                invariant
                    0 <= i <= n,
                    n == cs@.len(),
                    out@ == start + convention_lines(cs@.take(i as int)),
                decreases n - i,
            {
                proof {
                    assert(cs@.take(i + 1).drop_last() =~= cs@.take(i as int));
                }
                out.append("- ");
                out.append(cs[i].as_str());
                out.append("\n");
                i += 1;
            }
            proof {
                assert(cs@.take(n as int) =~= cs@);
            }
            out.append("\n");
        }
    }
}

fn push_full_decision(out: &mut String, d: &Decision)
    ensures
        final(out)@ == old(out)@ + full_decision_block(*d),
{
    out.append("### ");
    out.append(d.title.as_str());
    out.append("\n");
    out.append("**Context**: ");
    out.append(d.context.as_str());
    out.append("\n");
    out.append("**Decision**: ");
    out.append(d.decision.as_str());
    out.append("\n");
    if d.alternatives.len() > 0 {
        let alternatives = join_strings(&d.alternatives, ", ");
        out.append("**Alternatives**: ");
        out.append(alternatives.as_str());
        out.append("\n");
    }
    out.append("\n");
}

fn push_full_decisions(out: &mut String, ds: &[Decision])
    ensures
        final(out)@ == old(out)@ + full_decisions_text(ds@),
{
    if ds.len() > 0 {
        out.append("## Decisions\n");
        let ghost start = out@;
        let n = ds.len();
        let mut i: usize = 0;
        while i < n
            invariant
                0 <= i <= n,
                n == ds@.len(),
                out@ == start + full_decision_blocks(ds@.take(i as int)),
            decreases n - i,
        {
            proof {
                assert(ds@.take(i + 1).drop_last() =~= ds@.take(i as int));
            }
            push_full_decision(out, &ds[i]);
            i += 1;
        }
        proof {
            assert(ds@.take(n as int) =~= ds@);
        }
    }
}

fn push_full_tasks(out: &mut String, ts: &[Task])
    ensures
        final(out)@ == old(out)@ + full_tasks_text(ts@),
{
    if ts.len() > 0 {
        out.append("## Tasks\n");
        let ghost start = out@;
        let n = ts.len();
        let mut i: usize = 0;
        while i < n
            invariant
                0 <= i <= n,
                n == ts@.len(),
                out@ == start + full_task_entries(ts@.take(i as int)),
            decreases n - i,
        {
            proof {
                assert(ts@.take(i + 1).drop_last() =~= ts@.take(i as int));
            }
            let t = &ts[i];
            push_task_line(out, t);
            if !t.description.as_str().is_empty() {
                out.append("  ");
                out.append(t.description.as_str());
                out.append("\n");
            }
            i += 1;
        }
        proof {
            assert(ts@.take(n as int) =~= ts@);
        }
        out.append("\n");
    }
}

fn push_file_entry(out: &mut String, f: &FileSummary)
    ensures
        final(out)@ == old(out)@ + file_entry(*f),
{
    out.append("- **");
    out.append(f.path.as_str());
    out.append("**: ");
    out.append(f.summary.as_str());
    out.append("\n");
    if f.key_types.len() > 0 {
        let types = join_strings(&f.key_types, ", ");
        out.append("  Types: ");
        out.append(types.as_str());
        out.append("\n");
    }
}

fn push_files(out: &mut String, role: &ContextRole, fs: &[FileSummary])
    ensures
        final(out)@ == old(out)@ + files_text(*role, fs@),
{
    if (*role == ContextRole::Build || *role == ContextRole::Review || *role == ContextRole::Debug)
        && fs.len() > 0 {
        out.append("## Files\n");
        let ghost start = out@;
        let n = fs.len();
        let mut i: usize = 0;
        while i < n
            invariant
                0 <= i <= n,
                n == fs@.len(),
                out@ == start + file_entries(fs@.take(i as int)),
            decreases n - i,
        {
            proof {
                assert(fs@.take(i + 1).drop_last() =~= fs@.take(i as int));
            }
            push_file_entry(out, &fs[i]);
            i += 1;
        }
        proof {
            assert(fs@.take(n as int) =~= fs@);
        }
        out.append("\n");
    }
}

fn push_history_entry(out: &mut String, s: &Session)
    ensures
        final(out)@ == old(out)@ + history_entry(*s),
{
    let started = minute_of(s.started_at.as_str());
    out.append("- **");
    out.append(s.agent.as_str());
    out.append("** (");
    if s.ended_at.is_some() {
        out.append("ended");
    } else {
        out.append("active");
    }
    out.append(", ");
    out.append(started.as_str());
    out.append("): ");
    out.append(s.goal.as_str());
    out.append("\n");
    if let Some(h) = &s.handoff {
        out.append("  Handoff: ");
        out.append(h.as_str());
        out.append("\n");
    }
}

fn push_history(out: &mut String, ss: &[Session])
    ensures
        final(out)@ == old(out)@ + history_text(ss@),
{
    if ss.len() > 0 {
        out.append("## Session History\n");
        let ghost start = out@;
        let n = ss.len();
        let mut i: usize = 0;
        while i < n
            invariant
                0 <= i <= n,
                n == ss@.len(),
                out@ == start + history_entries(ss@.take(i as int)),
            decreases n - i,
        {
            proof {
                assert(ss@.take(i + 1).drop_last() =~= ss@.take(i as int));
            }
            push_history_entry(out, &ss[i]);
            i += 1;
        }
        proof {
            assert(ss@.take(n as int) =~= ss@);
        }
        out.append("\n");
    }
}

fn push_full(
    out: &mut String,
    role: &ContextRole,
    meta: &Option<ProjectMeta>,
    ds: &[Decision],
    ts: &[Task],
    fs: &[FileSummary],
    ss: &[Session],
)
    ensures
        final(out)@ == old(out)@ + full_text(*role, *meta, ds@, ts@, fs@, ss@),
{
    push_conventions(out, meta);
    push_full_decisions(out, ds);
    push_full_tasks(out, ts);
    push_files(out, role, fs);
    push_history(out, ss);
}

/// Renders project memory into markdown for the given role and detail level.
pub fn render(ctx: &RenderContext<'_>) -> (out: String)
    ensures
        out@ == context_text(
            *ctx.role,
            *ctx.level,
            *ctx.meta,
            ctx.decisions@,
            ctx.tasks@,
            ctx.files@,
            ctx.sessions@,
            *ctx.active_session,
        ),
{
    let mut out = String::new();
    push_header(&mut out, ctx.meta);
    out.append("\n");
    push_active_session(&mut out, ctx.active_session);
    match ctx.level {
        ContextLevel::Minimal => push_minimal(&mut out, ctx.role, ctx.tasks, ctx.sessions),
        ContextLevel::Standard => push_standard(
            &mut out,
            ctx.role,
            ctx.decisions,
            ctx.tasks,
            ctx.sessions,
        ),
        ContextLevel::Full => push_full(
            &mut out,
            ctx.role,
            ctx.meta,
            ctx.decisions,
            ctx.tasks,
            ctx.files,
            ctx.sessions,
        ),
    }
    out
}

// ── Properties of the document ──

/// A minimal context shows neither decisions nor file summaries: it is the
/// same whatever decisions and file summaries the project has.
pub proof fn law_minimal_ignores_decisions_and_files(
    role: ContextRole,
    meta: Option<ProjectMeta>,
    ds1: Seq<Decision>,
    ds2: Seq<Decision>,
    ts: Seq<Task>,
    fs1: Seq<FileSummary>,
    fs2: Seq<FileSummary>,
    ss: Seq<Session>,
    active: Option<Session>,
)
    ensures
        context_text(role, ContextLevel::Minimal, meta, ds1, ts, fs1, ss, active) == context_text(
            role,
            ContextLevel::Minimal,
            meta,
            ds2,
            ts,
            fs2,
            ss,
            active,
        ),
{
}

/// Only the resume role gets a handoff at the minimal level: for every other
/// role a minimal context is the same whatever the session history holds.
pub proof fn law_minimal_handoff_only_for_resume(
    role: ContextRole,
    meta: Option<ProjectMeta>,
    ds: Seq<Decision>,
    ts: Seq<Task>,
    fs: Seq<FileSummary>,
    ss1: Seq<Session>,
    ss2: Seq<Session>,
    active: Option<Session>,
)
    requires
        role != ContextRole::Resume,
    ensures
        context_text(role, ContextLevel::Minimal, meta, ds, ts, fs, ss1, active) == context_text(
            role,
            ContextLevel::Minimal,
            meta,
            ds,
            ts,
            fs,
            ss2,
            active,
        ),
{
}

/// A standard context shows no file summaries: it is the same whatever file
/// summaries the project has.
pub proof fn law_standard_ignores_files(
    role: ContextRole,
    meta: Option<ProjectMeta>,
    ds: Seq<Decision>,
    ts: Seq<Task>,
    fs1: Seq<FileSummary>,
    fs2: Seq<FileSummary>,
    ss: Seq<Session>,
    active: Option<Session>,
)
    ensures
        context_text(role, ContextLevel::Standard, meta, ds, ts, fs1, ss, active) == context_text(
            role,
            ContextLevel::Standard,
            meta,
            ds,
            ts,
            fs2,
            ss,
            active,
        ),
{
}

/// At the standard level only the build and review roles get decisions: for
/// the debug and resume roles a standard context is the same whatever
/// decisions the project has.
pub proof fn law_standard_decisions_only_for_build_and_review(
    role: ContextRole,
    meta: Option<ProjectMeta>,
    ds1: Seq<Decision>,
    ds2: Seq<Decision>,
    ts: Seq<Task>,
    fs: Seq<FileSummary>,
    ss: Seq<Session>,
    active: Option<Session>,
)
    requires
        role == ContextRole::Debug || role == ContextRole::Resume,
    ensures
        context_text(role, ContextLevel::Standard, meta, ds1, ts, fs, ss, active) == context_text(
            role,
            ContextLevel::Standard,
            meta,
            ds2,
            ts,
            fs,
            ss,
            active,
        ),
{
}

/// A standard context shows at most five decisions: only the first five
/// decisions it is given matter.
pub proof fn law_standard_at_most_five_decisions(
    role: ContextRole,
    meta: Option<ProjectMeta>,
    ds: Seq<Decision>,
    ts: Seq<Task>,
    fs: Seq<FileSummary>,
    ss: Seq<Session>,
    active: Option<Session>,
)
    ensures
        context_text(role, ContextLevel::Standard, meta, ds, ts, fs, ss, active) == context_text(
            role,
            ContextLevel::Standard,
            meta,
            first_n(ds, 5),
            ts,
            fs,
            ss,
            active,
        ),
{
    assert(first_n(ds, 5).take(if first_n(ds, 5).len() < 5 {
        first_n(ds, 5).len() as int
    } else {
        5
    }) =~= ds.take(if ds.len() < 5 {
        ds.len() as int
    } else {
        5
    }));
}

/// Filtering twice by the same predicate keeps what filtering once keeps.
proof fn lemma_filter_twice<A>(s: Seq<A>, p: spec_fn(A) -> bool)
    ensures
        s.filter(p).filter(p) == s.filter(p),
    decreases s.len(),
{
    reveal(Seq::filter);
    if s.len() > 0 {
        lemma_filter_twice(s.drop_last(), p);
        let sub = s.drop_last().filter(p);
        if p(s.last()) {
            assert(sub.push(s.last()).drop_last() =~= sub);
        }
    }
}

/// Done tasks appear at the standard level only in the debug role's list of
/// recently completed tasks: for every other role a standard context is the
/// same as for the tasks that are not done.
pub proof fn law_standard_hides_done_tasks(
    role: ContextRole,
    meta: Option<ProjectMeta>,
    ds: Seq<Decision>,
    ts: Seq<Task>,
    fs: Seq<FileSummary>,
    ss: Seq<Session>,
    active: Option<Session>,
)
    requires
        role != ContextRole::Debug,
    ensures
        context_text(role, ContextLevel::Standard, meta, ds, ts, fs, ss, active) == context_text(
            role,
            ContextLevel::Standard,
            meta,
            ds,
            open_tasks(ts),
            fs,
            ss,
            active,
        ),
{
    lemma_filter_twice(ts, |t: Task| t.status != TaskStatus::Done);
}

/// At the standard level the task lists show at most ten tasks that are not
/// done and at most five that are: two task lists that agree on those give
/// the same context.
pub proof fn law_standard_task_limits(
    role: ContextRole,
    meta: Option<ProjectMeta>,
    ds: Seq<Decision>,
    ts1: Seq<Task>,
    ts2: Seq<Task>,
    fs: Seq<FileSummary>,
    ss: Seq<Session>,
    active: Option<Session>,
)
    requires
        first_n(open_tasks(ts1), 10) == first_n(open_tasks(ts2), 10),
        first_n(done_tasks(ts1), 5) == first_n(done_tasks(ts2), 5),
    ensures
        context_text(role, ContextLevel::Standard, meta, ds, ts1, fs, ss, active) == context_text(
            role,
            ContextLevel::Standard,
            meta,
            ds,
            ts2,
            fs,
            ss,
            active,
        ),
{
}

/// The resume role gets no file summaries at the full level: its full
/// context is the same whatever file summaries the project has.
pub proof fn law_full_files_not_for_resume(
    meta: Option<ProjectMeta>,
    ds: Seq<Decision>,
    ts: Seq<Task>,
    fs1: Seq<FileSummary>,
    fs2: Seq<FileSummary>,
    ss: Seq<Session>,
    active: Option<Session>,
)
    ensures
        context_text(ContextRole::Resume, ContextLevel::Full, meta, ds, ts, fs1, ss, active)
            == context_text(ContextRole::Resume, ContextLevel::Full, meta, ds, ts, fs2, ss, active),
{
}

/// A prefix of the first part of a concatenation is a prefix of the whole.
proof fn lemma_prefix_of_concat(h: Seq<char>, x: Seq<char>, y: Seq<char>, z: Seq<char>, k: int)
    requires
        0 <= k <= h.len(),
    ensures
        (h + x + y + z).take(k) == h.take(k),
{
    assert((h + x + y + z).take(k) =~= h.take(k));
}

/// Every context starts with the project's title line, "# " and the name (or
/// "(unnamed project)").
pub proof fn law_context_starts_with_title(
    role: ContextRole,
    level: ContextLevel,
    meta: Option<ProjectMeta>,
    ds: Seq<Decision>,
    ts: Seq<Task>,
    fs: Seq<FileSummary>,
    ss: Seq<Session>,
    active: Option<Session>,
)
    ensures
        context_text(role, level, meta, ds, ts, fs, ss, active).take(2) == "# "@,
        meta matches Some(m) ==> context_text(role, level, meta, ds, ts, fs, ss, active).take(
            2 + m.name@.len() as int,
        ) == "# "@ + m.name@,
{
    reveal_strlit("# ");
    reveal_strlit("# (unnamed project)\n");
    let h = header_text(meta);
    let body = match level {
        ContextLevel::Minimal => minimal_text(role, ts, ss),
        ContextLevel::Standard => standard_text(role, ds, ts, ss),
        ContextLevel::Full => full_text(role, meta, ds, ts, fs, ss),
    };
    assert(context_text(role, level, meta, ds, ts, fs, ss, active) == h + "\n"@
        + active_session_text(active) + body);
    match meta {
        Some(m) => {
            let k = 2 + m.name@.len() as int;
            let first = "# "@ + m.name@;
            assert(h.take(k) =~= first);
            lemma_prefix_of_concat(h, "\n"@, active_session_text(active), body, k);
            lemma_prefix_of_concat(h, "\n"@, active_session_text(active), body, 2);
            assert(h.take(2) =~= first.take(2));
        },
        None => {
            lemma_prefix_of_concat(h, "\n"@, active_session_text(active), body, 2);
            assert(h.take(2) =~= "# "@);
        },
    }
}

/// Filtering keeps nothing of a sequence none of whose elements passes.
proof fn lemma_filter_none<A>(s: Seq<A>, p: spec_fn(A) -> bool)
    requires
        forall|j: int| 0 <= j < s.len() ==> !p(#[trigger] s[j]),
    ensures
        s.filter(p).len() == 0,
    decreases s.len(),
{
    reveal(Seq::filter);
    if s.len() > 0 {
        assert forall|j: int| 0 <= j < s.drop_last().len() implies !p(#[trigger] s.drop_last()[j]) by {
            assert(s.drop_last()[j] == s[j]);
        }
        lemma_filter_none(s.drop_last(), p);
    }
}

/// The first element that filtering keeps is the first element that passes.
proof fn lemma_filter_first<A>(s: Seq<A>, p: spec_fn(A) -> bool, i: int)
    requires
        0 <= i < s.len(),
        p(s[i]),
        forall|j: int| 0 <= j < i ==> !p(#[trigger] s[j]),
    ensures
        s.filter(p).len() > 0,
        s.filter(p)[0] == s[i],
    decreases s.len(),
{
    reveal(Seq::filter);
    let d = s.drop_last();
    if i == s.len() - 1 {
        assert forall|j: int| 0 <= j < d.len() implies !p(#[trigger] d[j]) by {
            assert(d[j] == s[j]);
        }
        lemma_filter_none(d, p);
        assert(s.filter(p) == d.filter(p).push(s.last()));
    } else {
        assert(d[i] == s[i]);
        assert forall|j: int| 0 <= j < i implies !p(#[trigger] d[j]) by {
            assert(d[j] == s[j]);
        }
        lemma_filter_first(d, p, i);
        if p(s.last()) {
            assert(s.filter(p) == d.filter(p).push(s.last()));
        } else {
            assert(s.filter(p) == d.filter(p));
        }
    }
}

/// A minimal context names as the next task the first task, in the order of
/// the list, whose status is in progress or to do; blocked and done tasks
/// before it are passed over. Its "Next" line follows the title block and the
/// active session.
pub proof fn law_minimal_next_is_first_open_task(
    role: ContextRole,
    meta: Option<ProjectMeta>,
    ds: Seq<Decision>,
    ts: Seq<Task>,
    fs: Seq<FileSummary>,
    ss: Seq<Session>,
    active: Option<Session>,
    i: int,
)
    requires
        0 <= i < ts.len(),
        ts[i].status == TaskStatus::InProgress || ts[i].status == TaskStatus::Todo,
        forall|j: int|
            0 <= j < i ==> (#[trigger] ts[j]).status == TaskStatus::Blocked || ts[j].status == TaskStatus::Done,
    ensures
        ({
            let k = (header_text(meta) + "\n"@ + active_session_text(active)).len() as int;
            let line = "**Next**: "@ + ts[i].title@ + " ("@ + ts[i].status.label() + ")\n"@;
            context_text(role, ContextLevel::Minimal, meta, ds, ts, fs, ss, active).subrange(k, (k + line.len()) as int)
                == line
        }),
{
    let p = |t: Task| is_pending(t);
    assert forall|j: int| 0 <= j < i implies !p(#[trigger] ts[j]) by {
        assert(ts[j].status == TaskStatus::Blocked || ts[j].status == TaskStatus::Done);
    }
    lemma_filter_first(ts, p, i);
    let pre = header_text(meta) + "\n"@ + active_session_text(active);
    let line = "**Next**: "@ + ts[i].title@ + " ("@ + ts[i].status.label() + ")\n"@;
    assert(pending_tasks(ts) == ts.filter(p));
    assert(next_task_text(ts) == line);
    let rest = if role == ContextRole::Resume {
        last_handoff_text(ss)
    } else {
        Seq::empty()
    };
    let c = context_text(role, ContextLevel::Minimal, meta, ds, ts, fs, ss, active);
    assert(c == pre + line + rest);
    assert(c.subrange(pre.len() as int, (pre.len() + line.len()) as int) =~= line);
}

/// When every task is blocked or done, a minimal context names no next task:
/// for a role other than resume it is the title block and the active session
/// alone.
pub proof fn law_minimal_without_open_tasks(
    role: ContextRole,
    meta: Option<ProjectMeta>,
    ds: Seq<Decision>,
    ts: Seq<Task>,
    fs: Seq<FileSummary>,
    ss: Seq<Session>,
    active: Option<Session>,
)
    requires
        role != ContextRole::Resume,
        forall|j: int|
            0 <= j < ts.len() ==> (#[trigger] ts[j]).status == TaskStatus::Blocked || ts[j].status == TaskStatus::Done,
    ensures
        context_text(role, ContextLevel::Minimal, meta, ds, ts, fs, ss, active) == header_text(meta) + "\n"@
            + active_session_text(active),
{
    let p = |t: Task| is_pending(t);
    assert forall|j: int| 0 <= j < ts.len() implies !p(#[trigger] ts[j]) by {
        assert(ts[j].status == TaskStatus::Blocked || ts[j].status == TaskStatus::Done);
    }
    lemma_filter_none(ts, p);
    assert(pending_tasks(ts) == ts.filter(p));
    assert(next_task_text(ts) =~= Seq::<char>::empty());
    assert(context_text(role, ContextLevel::Minimal, meta, ds, ts, fs, ss, active) =~= header_text(meta) + "\n"@
        + active_session_text(active));
}

/// For the resume role a minimal context ends with the handoff notes of the
/// first session, in the order of the list, that has some, named by its
/// agent.
pub proof fn law_resume_handoff_is_first_with_notes(
    meta: Option<ProjectMeta>,
    ds: Seq<Decision>,
    ts: Seq<Task>,
    fs: Seq<FileSummary>,
    ss: Seq<Session>,
    active: Option<Session>,
    i: int,
)
    requires
        0 <= i < ss.len(),
        ss[i].handoff is Some,
        forall|j: int| 0 <= j < i ==> (#[trigger] ss[j]).handoff is None,
    ensures
        ({
            let c = context_text(ContextRole::Resume, ContextLevel::Minimal, meta, ds, ts, fs, ss, active);
            let tail = "\n**Last handoff** ("@ + ss[i].agent@ + "): "@ + ss[i].handoff->0@ + "\n"@;
            c.len() >= tail.len() && c.subrange(c.len() - tail.len(), c.len() as int) == tail
        }),
{
    let p = |s: Session| s.handoff is Some;
    assert forall|j: int| 0 <= j < i implies !p(#[trigger] ss[j]) by {}
    lemma_filter_first(ss, p, i);
    assert(handed_off(ss) == ss.filter(p));
    let tail = "\n**Last handoff** ("@ + ss[i].agent@ + "): "@ + ss[i].handoff->0@ + "\n"@;
    assert(last_handoff_text(ss) == tail);
    let pre = header_text(meta) + "\n"@ + active_session_text(active) + next_task_text(ts);
    let c = context_text(ContextRole::Resume, ContextLevel::Minimal, meta, ds, ts, fs, ss, active);
    assert(c =~= pre + tail);
    assert(c.subrange(c.len() - tail.len(), c.len() as int) =~= tail);
}

/// The last-session block of a standard context names the most recent
/// session's agent, says "active" when it has no end time and "ended" when
/// it has one, and gives its goal.
pub proof fn law_standard_last_session_state(ss: Seq<Session>)
    requires
        ss.len() > 0,
    ensures
        ({
            let state = if ss[0].ended_at is Some {
                "ended"@
            } else {
                "active"@
            };
            let head = "## Last Session\n**"@ + ss[0].agent@ + "** ("@ + state + "): "@ + ss[0].goal@ + "\n"@;
            last_session_text(ss).len() >= head.len() && last_session_text(ss).subrange(0, head.len() as int)
                == head
        }),
{
    let state = if ss[0].ended_at is Some {
        "ended"@
    } else {
        "active"@
    };
    let head = "## Last Session\n**"@ + ss[0].agent@ + "** ("@ + state + "): "@ + ss[0].goal@ + "\n"@;
    let rest = handoff_line("Handoff: "@, ss[0].handoff) + "\n"@;
    reveal_strlit("## Last Session\n");
    reveal_strlit("**");
    reveal_strlit("## Last Session\n**");
    assert("## Last Session\n"@ + "**"@ =~= "## Last Session\n**"@);
    assert(last_session_text(ss) =~= head + rest);
    assert((head + rest).subrange(0, head.len() as int) =~= head);
}

/// A session of the history in a full context says "active" when it has no
/// end time and "ended" when it has one, after its agent.
pub proof fn law_history_entry_state(s: Session)
    ensures
        ({
            let state = if s.ended_at is Some {
                "ended"@
            } else {
                "active"@
            };
            let head = "- **"@ + s.agent@ + "** ("@ + state + ", "@;
            history_entry(s).len() >= head.len() && history_entry(s).subrange(0, head.len() as int) == head
        }),
{
    let state = if s.ended_at is Some {
        "ended"@
    } else {
        "active"@
    };
    let head = "- **"@ + s.agent@ + "** ("@ + state + ", "@;
    let rest = minute_text(s.started_at@) + "): "@ + s.goal@ + "\n"@ + handoff_line("  Handoff: "@, s.handoff);
    assert(history_entry(s) =~= head + rest);
    assert((head + rest).subrange(0, head.len() as int) =~= head);
}

} // verus!
