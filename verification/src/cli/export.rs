//! Export of all memory into one value, and import of such a value.

use vstd::prelude::*;

use crate::error::EngramError;
use crate::models::{Decision, FileSummary, ProjectMeta, Session, Task};
use crate::storage::Store;
use crate::storage::calls::{
    asked, extends, grows, handoff_text, index_body, limit_cell, made, new_call, request_run, rows_of, succeeded,
    DbCall,
};
use crate::storage::cells::{decision_cells, file_cells, meta_cells, session_cells, task_cells};
use crate::storage::rows::{
    decisions_reply, files_reply, meta_lookup, reads_failed, reads_run, sessions_reply, tasks_reply, ReadKind,
};
use crate::storage::{
    sql_delete_meta, sql_get_meta, sql_import_decision, sql_import_file, sql_import_meta,
    sql_import_session, sql_import_task, sql_index_decision, sql_index_file, sql_index_session,
    sql_index_task, sql_list_decisions, sql_list_files, sql_list_sessions, sql_list_tasks,
};
use crate::text::{decimal, decimal_text};

verus! {

broadcast use crate::storage::calls::group_transcript;

/// All memory of a project, as it is exported and imported.
#[derive(Debug)]
pub struct ExportData {
    pub version: u32,
    pub project_meta: Option<ProjectMeta>,
    pub decisions: Vec<Decision>,
    pub tasks: Vec<Task>,
    pub file_summaries: Vec<FileSummary>,
    pub sessions: Vec<Session>,
}

/// The only export version this library writes and reads.
pub const EXPORT_VERSION: u32 = 1;

/// The reads that an export needs, in order.
pub open spec fn export_kinds() -> Seq<ReadKind> {
    seq![ReadKind::Meta, ReadKind::Decisions, ReadKind::Tasks, ReadKind::Files, ReadKind::Sessions]
}

/// Whether each call made after `before` (at most five) asked for what the
/// export reads at that place.
pub open spec fn export_asked(before: Seq<DbCall>, after: Seq<DbCall>) -> bool {
    let m = made(before, after);
    &&& (m > 0 ==> asked(new_call(before, after, 0), sql_get_meta(), Seq::empty()))
    &&& (m > 1 ==> asked(new_call(before, after, 1), sql_list_decisions(false), Seq::empty()))
    &&& (m > 2 ==> asked(new_call(before, after, 2), sql_list_tasks(false), Seq::empty()))
    &&& (m > 3 ==> asked(new_call(before, after, 3), sql_list_files(), Seq::empty()))
    &&& (m > 4 ==> asked(new_call(before, after, 4), sql_list_sessions(), seq![Some(limit_cell(1000))]))
}

/// Reads all memory of a store: its metadata, all decisions and tasks, all
/// file summaries, and the latest thousand sessions, each decoded from the
/// rows its query read.
pub fn export_all(store: &mut Store) -> (r: Result<ExportData, EngramError>)
    ensures
        grows(old(store).calls(), final(store).calls()),
        reads_run(old(store).calls(), final(store).calls(), export_kinds(), r is Ok),
        export_asked(old(store).calls(), final(store).calls()),
        r matches Err(e) ==> reads_failed(old(store).calls(), final(store).calls(), export_kinds(), e),
        r matches Ok(data) ==> {
            let b = old(store).calls().len() as int;
            let c = final(store).calls();
            &&& data.version == EXPORT_VERSION && data.sessions@.len() <= 1000
            &&& extends(old(store).calls(), c, 5)
            &&& asked(c[b], sql_get_meta(), Seq::empty())
            &&& asked(c[b + 1], sql_list_decisions(false), Seq::empty())
            &&& asked(c[b + 2], sql_list_tasks(false), Seq::empty())
            &&& asked(c[b + 3], sql_list_files(), Seq::empty())
            &&& asked(c[b + 4], sql_list_sessions(), seq![Some(limit_cell(1000))])
            &&& rows_of(c[b]) matches Some(rows) && meta_lookup(rows, Ok(data.project_meta))
            &&& rows_of(c[b + 1]) matches Some(rows) && decisions_reply(rows, Ok(data.decisions))
            &&& rows_of(c[b + 2]) matches Some(rows) && tasks_reply(rows, Ok(data.tasks))
            &&& rows_of(c[b + 3]) matches Some(rows) && files_reply(rows, Ok(data.file_summaries))
            &&& rows_of(c[b + 4]) matches Some(rows) && sessions_reply(rows, Ok(data.sessions))
        },
        r matches Err(e) ==> e is Sql || e is CorruptRow,
{
    let ghost b = store.calls().len() as int;
    let project_meta = store.get_project_meta()?;
    let ghost s0 = store.calls();
    let decisions = store.list_decisions(None)?;
    let ghost s1 = store.calls();
    let tasks = store.list_tasks(None)?;
    let ghost s2 = store.calls();
    let file_summaries = store.list_file_summaries()?;
    let ghost s3 = store.calls();
    let sessions = store.list_sessions(1000)?;
    proof {
        let c = store.calls();
        assert(c[b] == s0[b]);
        assert(c[b + 1] == s1[b + 1]);
        assert(c[b + 2] == s2[b + 2]);
        assert(c[b + 3] == s3[b + 3]);
    }
    Ok(ExportData { version: EXPORT_VERSION, project_meta, decisions, tasks, file_summaries, sessions })
}

/// The SQL and parameters of a call.
pub open spec fn request_of(c: DbCall) -> (Seq<char>, Seq<Option<Seq<char>>>) {
    (c.sql, c.params)
}

/// The requests of the calls made from position `from` on.
pub open spec fn requests_from(calls: Seq<DbCall>, from: int) -> Seq<(Seq<char>, Seq<Option<Seq<char>>>)> {
    calls.subrange(from, calls.len() as int).map_values(|c: DbCall| request_of(c))
}

/// What importing project metadata sends.
pub open spec fn meta_requests(m: Option<ProjectMeta>) -> Seq<(Seq<char>, Seq<Option<Seq<char>>>)> {
    match m {
        Some(m) => seq![(sql_delete_meta(), Seq::empty()), (sql_import_meta(), meta_cells(m))],
        None => Seq::empty(),
    }
}

/// What importing a decision sends: its row, then its index entry.
pub open spec fn decision_pair(d: Decision) -> Seq<(Seq<char>, Seq<Option<Seq<char>>>)> {
    seq![
        (sql_import_decision(), decision_cells(d)),
        (sql_index_decision(), seq![Some(d.id@), Some(index_body(seq![d.title@, d.context@, d.decision@]))]),
    ]
}

/// What importing decisions sends, one after the other.
pub open spec fn decision_requests(ds: Seq<Decision>) -> Seq<(Seq<char>, Seq<Option<Seq<char>>>)>
    decreases ds.len(),
{
    if ds.len() == 0 {
        Seq::empty()
    } else {
        decision_requests(ds.drop_last()) + decision_pair(ds.last())
    }
}

/// What importing the first `i` decisions sends begins what importing all of them sends.
proof fn lemma_decision_requests_prefix(ds: Seq<Decision>, i: int)
    requires
        0 <= i <= ds.len(),
    ensures
        decision_requests(ds.take(i)).is_prefix_of(decision_requests(ds)),
    decreases ds.len(),
{
    if i == ds.len() {
        assert(ds.take(i) =~= ds);
    } else {
        lemma_decision_requests_prefix(ds.drop_last(), i);
        assert(ds.drop_last().take(i) =~= ds.take(i));
        lemma_prefix_trans(decision_requests(ds.take(i)), decision_requests(ds.drop_last()), decision_requests(ds));
    }
}

/// Importing one more of the decisions sends that one's two requests.
proof fn lemma_decision_requests_step(ds: Seq<Decision>, i: int)
    requires
        0 <= i < ds.len(),
    ensures
        decision_requests(ds.take(i + 1)) == decision_requests(ds.take(i)) + decision_pair(ds[i]),
{
    assert(ds.take(i + 1).drop_last() =~= ds.take(i));
}


/// What importing a task sends: its row, then its index entry.
pub open spec fn task_pair(t: Task) -> Seq<(Seq<char>, Seq<Option<Seq<char>>>)> {
    seq![
        (sql_import_task(), task_cells(t)),
        (sql_index_task(), seq![Some(t.id@), Some(index_body(seq![t.title@, t.description@]))]),
    ]
}

/// What importing tasks sends, one after the other.
pub open spec fn task_requests(ts: Seq<Task>) -> Seq<(Seq<char>, Seq<Option<Seq<char>>>)>
    decreases ts.len(),
{
    if ts.len() == 0 {
        Seq::empty()
    } else {
        task_requests(ts.drop_last()) + task_pair(ts.last())
    }
}

/// What importing the first `i` tasks sends begins what importing all of them sends.
proof fn lemma_task_requests_prefix(ts: Seq<Task>, i: int)
    requires
        0 <= i <= ts.len(),
    ensures
        task_requests(ts.take(i)).is_prefix_of(task_requests(ts)),
    decreases ts.len(),
{
    if i == ts.len() {
        assert(ts.take(i) =~= ts);
    } else {
        lemma_task_requests_prefix(ts.drop_last(), i);
        assert(ts.drop_last().take(i) =~= ts.take(i));
        lemma_prefix_trans(task_requests(ts.take(i)), task_requests(ts.drop_last()), task_requests(ts));
    }
}

/// Importing one more of the tasks sends that one's two requests.
proof fn lemma_task_requests_step(ts: Seq<Task>, i: int)
    requires
        0 <= i < ts.len(),
    ensures
        task_requests(ts.take(i + 1)) == task_requests(ts.take(i)) + task_pair(ts[i]),
{
    assert(ts.take(i + 1).drop_last() =~= ts.take(i));
}


/// What importing a file summary sends: its row, then its index entry.
pub open spec fn file_pair(f: FileSummary) -> Seq<(Seq<char>, Seq<Option<Seq<char>>>)> {
    seq![
        (sql_import_file(), file_cells(f)),
        (sql_index_file(), seq![Some(f.id@), Some(index_body(seq![f.path@, f.summary@]))]),
    ]
}

/// What importing file summaries sends, one after the other.
pub open spec fn file_requests(fs: Seq<FileSummary>) -> Seq<(Seq<char>, Seq<Option<Seq<char>>>)>
    decreases fs.len(),
{
    if fs.len() == 0 {
        Seq::empty()
    } else {
        file_requests(fs.drop_last()) + file_pair(fs.last())
    }
}

/// What importing the first `i` file summaries sends begins what importing all of them sends.
proof fn lemma_file_requests_prefix(fs: Seq<FileSummary>, i: int)
    requires
        0 <= i <= fs.len(),
    ensures
        file_requests(fs.take(i)).is_prefix_of(file_requests(fs)),
    decreases fs.len(),
{
    if i == fs.len() {
        assert(fs.take(i) =~= fs);
    } else {
        lemma_file_requests_prefix(fs.drop_last(), i);
        assert(fs.drop_last().take(i) =~= fs.take(i));
        lemma_prefix_trans(file_requests(fs.take(i)), file_requests(fs.drop_last()), file_requests(fs));
    }
}

/// Importing one more of the file summaries sends that one's two requests.
proof fn lemma_file_requests_step(fs: Seq<FileSummary>, i: int)
    requires
        0 <= i < fs.len(),
    ensures
        file_requests(fs.take(i + 1)) == file_requests(fs.take(i)) + file_pair(fs[i]),
{
    assert(fs.take(i + 1).drop_last() =~= fs.take(i));
}


/// What importing a session sends: its row, then its index entry.
pub open spec fn session_pair(s: Session) -> Seq<(Seq<char>, Seq<Option<Seq<char>>>)> {
    seq![
        (sql_import_session(), session_cells(s)),
        (sql_index_session(), seq![Some(s.id@), Some(index_body(seq![s.agent@, s.goal@, handoff_text(s.handoff)]))]),
    ]
}

/// What importing sessions sends, one after the other.
pub open spec fn session_requests(ss: Seq<Session>) -> Seq<(Seq<char>, Seq<Option<Seq<char>>>)>
    decreases ss.len(),
{
    if ss.len() == 0 {
        Seq::empty()
    } else {
        session_requests(ss.drop_last()) + session_pair(ss.last())
    }
}

/// What importing the first `i` sessions sends begins what importing all of them sends.
proof fn lemma_session_requests_prefix(ss: Seq<Session>, i: int)
    requires
        0 <= i <= ss.len(),
    ensures
        session_requests(ss.take(i)).is_prefix_of(session_requests(ss)),
    decreases ss.len(),
{
    if i == ss.len() {
        assert(ss.take(i) =~= ss);
    } else {
        lemma_session_requests_prefix(ss.drop_last(), i);
        assert(ss.drop_last().take(i) =~= ss.take(i));
        lemma_prefix_trans(session_requests(ss.take(i)), session_requests(ss.drop_last()), session_requests(ss));
    }
}

/// Importing one more of the sessions sends that one's two requests.
proof fn lemma_session_requests_step(ss: Seq<Session>, i: int)
    requires
        0 <= i < ss.len(),
    ensures
        session_requests(ss.take(i + 1)) == session_requests(ss.take(i)) + session_pair(ss[i]),
{
    assert(ss.take(i + 1).drop_last() =~= ss.take(i));
}


/// A beginning of a beginning of a sequence begins it.
proof fn lemma_prefix_trans<A>(a: Seq<A>, b: Seq<A>, c: Seq<A>)
    requires
        a.is_prefix_of(b),
        b.is_prefix_of(c),
    ensures
        a.is_prefix_of(c),
{
    assert(a =~= c.subrange(0, a.len() as int));
}

/// A sequence that begins with `x` and then a beginning of `q` begins `x`,
/// then `q`, then anything.
proof fn lemma_prefix_within<A>(x: Seq<A>, p: Seq<A>, q: Seq<A>, y: Seq<A>)
    requires
        p.is_prefix_of(q),
    ensures
        (x + p).is_prefix_of(x + q + y),
{
    assert(x + p =~= (x + q + y).subrange(0, (x + p).len() as int));
}

/// A sequence that begins with `x` and a beginning of `pair`, where `x` and
/// all of `pair` begin `whole`, begins `whole` too.
proof fn lemma_partial_pair<A>(x: Seq<A>, pair: Seq<A>, m: int, whole: Seq<A>)
    requires
        0 <= m <= pair.len(),
        (x + pair).is_prefix_of(whole),
    ensures
        (x + pair.take(m)).is_prefix_of(whole),
{
    assert forall|k: int| 0 <= k < x.len() + m implies (x + pair.take(m))[k] == whole[k] by {
        assert((x + pair)[k] == whole.subrange(0, (x + pair).len() as int)[k]);
    }
    assert(x + pair.take(m) =~= whole.subrange(0, (x + pair.take(m)).len() as int));
}

/// The requests of the calls from position `b` on, once `after` grew from
/// `before` by a run of one record's two requests: those before, then the
/// beginning of the pair that was sent; the calls before the run all
/// succeeded, and so did every call of the run but its last, which failed
/// exactly when the run did.
proof fn lemma_import_step(
    before: Seq<DbCall>,
    after: Seq<DbCall>,
    b: int,
    pair: Seq<(Seq<char>, Seq<Option<Seq<char>>>)>,
    ok: bool,
)
    requires
        0 <= b <= before.len(),
        request_run(before, after, 2, ok),
        pair.len() == 2,
        request_of(new_call(before, after, 0)) == pair[0],
        made(before, after) == 2 ==> request_of(new_call(before, after, 1)) == pair[1],
        forall|j: int| b <= j < before.len() ==> succeeded(#[trigger] before[j]),
    ensures
        requests_from(after, b) == requests_from(before, b) + pair.take(made(before, after)),
        ok ==> requests_from(after, b) == requests_from(before, b) + pair,
        ok ==> forall|j: int| b <= j < after.len() ==> succeeded(#[trigger] after[j]),
        !ok ==> forall|j: int| b <= j < after.len() - 1 ==> succeeded(#[trigger] after[j]),
        !ok ==> !succeeded(after.last()),
{
    let m = made(before, after);
    let n = before.len() as int;
    assert(after.subrange(b, after.len() as int) =~= before.subrange(b, n) + after.subrange(n, after.len() as int));
    assert(after.subrange(n, after.len() as int).map_values(|c: DbCall| request_of(c)) =~= pair.take(m));
    assert(requests_from(after, b) =~= requests_from(before, b) + pair.take(m));
    if ok {
        assert(pair.take(2) =~= pair);
    }
    assert forall|j: int| b <= j < after.len() - 1 implies succeeded(#[trigger] after[j]) by {
        if j >= n {
            assert(after[j] == new_call(before, after, j - n));
        } else {
            assert(after[j] == before[j]);
        }
    }
    if ok {
        assert forall|j: int| b <= j < after.len() implies succeeded(#[trigger] after[j]) by {
            if j >= n {
                assert(after[j] == new_call(before, after, j - n));
            } else {
                assert(after[j] == before[j]);
            }
        }
    }
}

/// What importing an export sends: the metadata, then every decision, task,
/// file summary and session, in order.
pub open spec fn import_requests(data: ExportData) -> Seq<(Seq<char>, Seq<Option<Seq<char>>>)> {
    meta_requests(data.project_meta) + decision_requests(data.decisions@) + task_requests(data.tasks@)
        + file_requests(data.file_summaries@) + session_requests(data.sessions@)
}

/// Stores all memory of an export: the metadata when there is some, then the
/// decisions, tasks, file summaries and sessions, each in order. The first
/// failure stops the import.
pub fn import_all(store: &mut Store, data: &ExportData) -> (r: Result<(), EngramError>)
    ensures
        grows(old(store).calls(), final(store).calls()),
        r is Ok ==> requests_from(final(store).calls(), old(store).calls().len() as int) == import_requests(*data),
        r is Ok ==> forall|j: int|
            old(store).calls().len() <= j < final(store).calls().len() ==> succeeded(#[trigger] final(store).calls()[j]),
        r matches Err(e) ==> {
            &&& e is Sql
            &&& made(old(store).calls(), final(store).calls()) > 0
            &&& !succeeded(final(store).calls().last())
            &&& forall|j: int|
                old(store).calls().len() <= j < final(store).calls().len() - 1 ==> succeeded(
                    #[trigger] final(store).calls()[j],
                )
            &&& requests_from(final(store).calls(), old(store).calls().len() as int).is_prefix_of(
                import_requests(*data),
            )
        },
{
    let ghost b = store.calls().len() as int;
    let ghost whole = import_requests(*data);
    proof {
        assert(requests_from(store.calls(), b) =~= Seq::<(Seq<char>, Seq<Option<Seq<char>>>)>::empty());
        assert(store.calls().take(b) =~= store.calls());
    }
    if let Some(meta) = &data.project_meta {
        let ghost before = store.calls();
        let res = store.import_project_meta(meta);
        proof {
            let pair = meta_requests(data.project_meta);
            lemma_import_step(before, store.calls(), b, pair, res is Ok);
            if res is Err {
                let rest = decision_requests(data.decisions@) + task_requests(data.tasks@) + file_requests(
                    data.file_summaries@,
                ) + session_requests(data.sessions@);
                assert(pair.is_prefix_of(pair));
                lemma_prefix_within(requests_from(before, b), pair, pair, rest);
                assert(requests_from(before, b) + pair + rest =~= whole);
                lemma_partial_pair(requests_from(before, b), pair, made(before, store.calls()), whole);
            }
        }
        match res {
            Ok(()) => {},
            Err(e) => {
                return Err(e);
            },
        }
    }
    proof {
        assert(requests_from(store.calls(), b) =~= meta_requests(data.project_meta));
    }
    let ghost base = meta_requests(data.project_meta);
    proof {
        assert(data.decisions@.take(0) =~= Seq::empty());
        assert(base + decision_requests(data.decisions@.take(0)) =~= base);
        assert(base + decision_requests(data.decisions@) + (task_requests(data.tasks@) + file_requests(data.file_summaries@) + session_requests(data.sessions@)) =~= whole);
    }
    let mut i: usize = 0;
    while i < data.decisions.len()
        invariant
            0 <= i <= data.decisions@.len(),
            grows(old(store).calls(), store.calls()),
            b == old(store).calls().len(),
            whole == import_requests(*data),
            base + decision_requests(data.decisions@) + (task_requests(data.tasks@) + file_requests(data.file_summaries@) + session_requests(data.sessions@)) == whole,
            requests_from(store.calls(), b) == base + decision_requests(data.decisions@.take(i as int)),
            forall|j: int| b <= j < store.calls().len() ==> succeeded(#[trigger] store.calls()[j]),
        decreases data.decisions@.len() - i,
    {
        let ghost before = store.calls();
        let res = store.import_decision(&data.decisions[i]);
        proof {
            let pair = decision_pair(data.decisions@[i as int]);
            lemma_import_step(before, store.calls(), b, pair, res is Ok);
            lemma_decision_requests_step(data.decisions@, i as int);
            assert(requests_from(before, b) + pair =~= base + decision_requests(data.decisions@.take(i + 1)));
            if res is Err {
                lemma_decision_requests_prefix(data.decisions@, i + 1);
                lemma_prefix_within(base, decision_requests(data.decisions@.take(i + 1)), decision_requests(data.decisions@), task_requests(data.tasks@) + file_requests(data.file_summaries@) + session_requests(data.sessions@));
                lemma_partial_pair(requests_from(before, b), pair, made(before, store.calls()), whole);
            }
        }
        match res {
            Ok(()) => {},
            Err(e) => {
                return Err(e);
            },
        }
        i += 1;
    }
    proof {
        assert(data.decisions@.take(data.decisions@.len() as int) =~= data.decisions@);
    }
    let ghost base = base + decision_requests(data.decisions@);
    proof {
        assert(data.tasks@.take(0) =~= Seq::empty());
        assert(base + task_requests(data.tasks@.take(0)) =~= base);
        assert(base + task_requests(data.tasks@) + (file_requests(data.file_summaries@) + session_requests(data.sessions@)) =~= whole);
    }
    let mut i: usize = 0;
    while i < data.tasks.len()
        invariant
            0 <= i <= data.tasks@.len(),
            grows(old(store).calls(), store.calls()),
            b == old(store).calls().len(),
            whole == import_requests(*data),
            base + task_requests(data.tasks@) + (file_requests(data.file_summaries@) + session_requests(data.sessions@)) == whole,
            requests_from(store.calls(), b) == base + task_requests(data.tasks@.take(i as int)),
            forall|j: int| b <= j < store.calls().len() ==> succeeded(#[trigger] store.calls()[j]),
        decreases data.tasks@.len() - i,
    {
        let ghost before = store.calls();
        let res = store.import_task(&data.tasks[i]);
        proof {
            let pair = task_pair(data.tasks@[i as int]);
            lemma_import_step(before, store.calls(), b, pair, res is Ok);
            lemma_task_requests_step(data.tasks@, i as int);
            assert(requests_from(before, b) + pair =~= base + task_requests(data.tasks@.take(i + 1)));
            if res is Err {
                lemma_task_requests_prefix(data.tasks@, i + 1);
                lemma_prefix_within(base, task_requests(data.tasks@.take(i + 1)), task_requests(data.tasks@), file_requests(data.file_summaries@) + session_requests(data.sessions@));
                lemma_partial_pair(requests_from(before, b), pair, made(before, store.calls()), whole);
            }
        }
        match res {
            Ok(()) => {},
            Err(e) => {
                return Err(e);
            },
        }
        i += 1;
    }
    proof {
        assert(data.tasks@.take(data.tasks@.len() as int) =~= data.tasks@);
    }
    let ghost base = base + task_requests(data.tasks@);
    proof {
        assert(data.file_summaries@.take(0) =~= Seq::empty());
        assert(base + file_requests(data.file_summaries@.take(0)) =~= base);
        assert(base + file_requests(data.file_summaries@) + (session_requests(data.sessions@)) =~= whole);
    }
    let mut i: usize = 0;
    while i < data.file_summaries.len()
        invariant
            0 <= i <= data.file_summaries@.len(),
            grows(old(store).calls(), store.calls()),
            b == old(store).calls().len(),
            whole == import_requests(*data),
            base + file_requests(data.file_summaries@) + (session_requests(data.sessions@)) == whole,
            requests_from(store.calls(), b) == base + file_requests(data.file_summaries@.take(i as int)),
            forall|j: int| b <= j < store.calls().len() ==> succeeded(#[trigger] store.calls()[j]),
        decreases data.file_summaries@.len() - i,
    {
        let ghost before = store.calls();
        let res = store.import_file_summary(&data.file_summaries[i]);
        proof {
            let pair = file_pair(data.file_summaries@[i as int]);
            lemma_import_step(before, store.calls(), b, pair, res is Ok);
            lemma_file_requests_step(data.file_summaries@, i as int);
            assert(requests_from(before, b) + pair =~= base + file_requests(data.file_summaries@.take(i + 1)));
            if res is Err {
                lemma_file_requests_prefix(data.file_summaries@, i + 1);
                lemma_prefix_within(base, file_requests(data.file_summaries@.take(i + 1)), file_requests(data.file_summaries@), session_requests(data.sessions@));
                lemma_partial_pair(requests_from(before, b), pair, made(before, store.calls()), whole);
            }
        }
        match res {
            Ok(()) => {},
            Err(e) => {
                return Err(e);
            },
        }
        i += 1;
    }
    proof {
        assert(data.file_summaries@.take(data.file_summaries@.len() as int) =~= data.file_summaries@);
    }
    let ghost base = base + file_requests(data.file_summaries@);
    proof {
        assert(data.sessions@.take(0) =~= Seq::empty());
        assert(base + session_requests(data.sessions@.take(0)) =~= base);
        assert(base + session_requests(data.sessions@) + (Seq::<(Seq<char>, Seq<Option<Seq<char>>>)>::empty()) =~= whole);
    }
    let mut i: usize = 0;
    while i < data.sessions.len()
        invariant
            0 <= i <= data.sessions@.len(),
            grows(old(store).calls(), store.calls()),
            b == old(store).calls().len(),
            whole == import_requests(*data),
            base + session_requests(data.sessions@) + (Seq::<(Seq<char>, Seq<Option<Seq<char>>>)>::empty()) == whole,
            requests_from(store.calls(), b) == base + session_requests(data.sessions@.take(i as int)),
            forall|j: int| b <= j < store.calls().len() ==> succeeded(#[trigger] store.calls()[j]),
        decreases data.sessions@.len() - i,
    {
        let ghost before = store.calls();
        let res = store.import_session(&data.sessions[i]);
        proof {
            let pair = session_pair(data.sessions@[i as int]);
            lemma_import_step(before, store.calls(), b, pair, res is Ok);
            lemma_session_requests_step(data.sessions@, i as int);
            assert(requests_from(before, b) + pair =~= base + session_requests(data.sessions@.take(i + 1)));
            if res is Err {
                lemma_session_requests_prefix(data.sessions@, i + 1);
                lemma_prefix_within(base, session_requests(data.sessions@.take(i + 1)), session_requests(data.sessions@), Seq::<(Seq<char>, Seq<Option<Seq<char>>>)>::empty());
                lemma_partial_pair(requests_from(before, b), pair, made(before, store.calls()), whole);
            }
        }
        match res {
            Ok(()) => {},
            Err(e) => {
                return Err(e);
            },
        }
        i += 1;
    }
    proof {
        assert(data.sessions@.take(data.sessions@.len() as int) =~= data.sessions@);
    }
    proof {
        assert(base + session_requests(data.sessions@) =~= whole);
    }
    Ok(())
}

/// Imports an export, refusing one of another version with
/// `UnsupportedExportVersion` before anything is stored.
pub fn import_checked(store: &mut Store, data: &ExportData) -> (r: Result<(), EngramError>)
    ensures
        data.version != EXPORT_VERSION <==> (r matches Err(EngramError::UnsupportedExportVersion(v))
            && v == data.version),
        data.version != EXPORT_VERSION ==> final(store).calls() == old(store).calls(),
        grows(old(store).calls(), final(store).calls()),
        r is Ok ==> requests_from(final(store).calls(), old(store).calls().len() as int) == import_requests(*data),
        r is Ok ==> forall|j: int|
            old(store).calls().len() <= j < final(store).calls().len() ==> succeeded(#[trigger] final(store).calls()[j]),
        r matches Err(e) ==> e is UnsupportedExportVersion || {
            &&& e is Sql
            &&& made(old(store).calls(), final(store).calls()) > 0
            &&& !succeeded(final(store).calls().last())
            &&& forall|j: int|
                old(store).calls().len() <= j < final(store).calls().len() - 1 ==> succeeded(
                    #[trigger] final(store).calls()[j],
                )
            &&& requests_from(final(store).calls(), old(store).calls().len() as int).is_prefix_of(
                import_requests(*data),
            )
        },
{
    if data.version != EXPORT_VERSION {
        proof {
            assert(store.calls().take(store.calls().len() as int) =~= store.calls());
        }
        return Err(EngramError::UnsupportedExportVersion(data.version));
    }
    import_all(store, data)
}

/// The counts of an export, as the commands report them.
pub open spec fn export_stats_text(data: ExportData) -> Seq<char> {
    decimal(data.decisions@.len()) + " decisions, "@ + decimal(data.tasks@.len()) + " tasks, "@
        + decimal(data.file_summaries@.len()) + " files, "@ + decimal(data.sessions@.len())
        + " sessions"@
}

/// The counts of an export, as the commands report them.
pub fn export_stats(data: &ExportData) -> (r: String)
    ensures
        r@ == export_stats_text(*data),
{
    let d = decimal_text(data.decisions.len());
    let t = decimal_text(data.tasks.len());
    let f = decimal_text(data.file_summaries.len());
    let s = decimal_text(data.sessions.len());
    let mut r = String::new();
    r.append(d.as_str());
    r.append(" decisions, ");
    r.append(t.as_str());
    r.append(" tasks, ");
    r.append(f.as_str());
    r.append(" files, ");
    r.append(s.as_str());
    r.append(" sessions");
    r
}

} // verus!
