//! The transcript of a store: the requests it sent to the database and the
//! replies it got.

use vstd::prelude::*;

use crate::external::json_of_strings;
use crate::text::{join, views};

verus! {

/// What the database answered to one request.
pub enum Reply {
    /// The request failed.
    Failed,
    /// A statement ran and changed this many rows.
    Changed(nat),
    /// A query ran and these rows were read (each cell `None` for NULL).
    Rows(Seq<Seq<Option<String>>>),
}

/// One request to the database: its SQL, the texts of its bound parameters,
/// and the reply.
pub struct DbCall {
    pub sql: Seq<char>,
    pub params: Seq<Option<Seq<char>>>,
    pub reply: Reply,
}

/// Whether a call was the request of this SQL with these parameters.
pub open spec fn asked(c: DbCall, sql: Seq<char>, params: Seq<Option<Seq<char>>>) -> bool {
    c.sql == sql && c.params == params
}

/// The rows a call read, when it was a query that succeeded.
pub open spec fn rows_of(c: DbCall) -> Option<Seq<Seq<Option<String>>>> {
    match c.reply {
        Reply::Rows(rows) => Some(rows),
        _ => None,
    }
}

/// The number of rows a call changed, when it was a statement that succeeded.
pub open spec fn changed_of(c: DbCall) -> Option<nat> {
    match c.reply {
        Reply::Changed(n) => Some(n),
        _ => None,
    }
}

/// Whether `after` is `before` followed by exactly `n` more calls.
pub open spec fn extends(before: Seq<DbCall>, after: Seq<DbCall>, n: int) -> bool {
    after.len() == before.len() + n && after.take(before.len() as int) == before
}

/// Whether `after` is `before` followed by some more calls.
pub open spec fn grows(before: Seq<DbCall>, after: Seq<DbCall>) -> bool {
    before.len() <= after.len() && after.take(before.len() as int) == before
}

/// A transcript that grew from one that grew keeps the first one.
pub broadcast proof fn lemma_grows_trans(a: Seq<DbCall>, b: Seq<DbCall>, c: Seq<DbCall>)
    requires
        #[trigger] grows(a, b),
        #[trigger] grows(b, c),
    ensures
        grows(a, c),
{
    assert(c.take(a.len() as int) =~= c.take(b.len() as int).take(a.len() as int));
}

/// A transcript extended by some calls has grown.
pub broadcast proof fn lemma_extends_grows(a: Seq<DbCall>, b: Seq<DbCall>, n: int)
    requires
        #[trigger] extends(a, b, n),
        n >= 0,
    ensures
        grows(a, b),
{
}

/// A transcript that grew keeps every earlier call in its place.
pub broadcast proof fn lemma_grows_index(a: Seq<DbCall>, c: Seq<DbCall>, i: int)
    requires
        #[trigger] grows(a, c),
        0 <= i < a.len(),
    ensures
        #[trigger] c[i] == a[i],
{
    assert(c.take(a.len() as int)[i] == c[i]);
}

/// The `k`-th call made after `before`.
pub open spec fn new_call(before: Seq<DbCall>, after: Seq<DbCall>, k: int) -> DbCall {
    after[before.len() + k]
}

/// Whether the database answered a call without failing.
pub open spec fn succeeded(c: DbCall) -> bool {
    !(c.reply is Failed)
}

/// The number of calls made after `before`.
pub open spec fn made(before: Seq<DbCall>, after: Seq<DbCall>) -> int {
    after.len() - before.len()
}

/// Whether the calls made after `before` are a run of at most `n` requests
/// that stops at the first failure: every call but the last succeeded, the
/// outcome is fine exactly when all `n` were made and the last succeeded,
/// and a failed outcome ends with a failed call.
pub open spec fn request_run(before: Seq<DbCall>, after: Seq<DbCall>, n: int, ok: bool) -> bool {
    &&& grows(before, after)
    &&& 1 <= made(before, after) <= n
    &&& forall|j: int| 0 <= j < made(before, after) - 1 ==> succeeded(#[trigger] new_call(before, after, j))
    &&& (ok <==> (made(before, after) == n && succeeded(after.last())))
    &&& (!ok ==> !succeeded(after.last()))
}

/// The text indexed for search: the parts joined by single spaces.
pub open spec fn index_body(parts: Seq<Seq<char>>) -> Seq<char> {
    join(parts, " "@)
}

/// The JSON of a list of strings, as it is stored.
pub open spec fn json_cell(items: Seq<String>) -> Option<Seq<char>> {
    Some(json_of_strings(views(items)))
}

/// The id that a lookup of a path found: the first cell of the first row it
/// read, when it succeeded and that cell is not NULL.
pub open spec fn found_id(c: DbCall) -> Option<Seq<char>> {
    match rows_of(c) {
        Some(rows) => if rows.len() > 0 && rows[0].len() > 0 && rows[0][0] is Some {
            Some(rows[0][0]->0@)
        } else {
            None
        },
        None => None,
    }
}

/// The handoff notes of a session as they are indexed: empty for none.
pub open spec fn handoff_text(h: Option<String>) -> Seq<char> {
    match h {
        Some(t) => t@,
        None => ""@,
    }
}

/// The text bound as a row limit: the number in decimal, or -1 (no limit)
/// for a number beyond the range of SQLite's integers.
pub open spec fn limit_cell(limit: usize) -> Seq<char> {
    if limit <= i64::MAX {
        crate::text::decimal(limit as nat)
    } else {
        "-1"@
    }
}

/// The facts about how transcripts grow.
pub broadcast group group_transcript {
    lemma_grows_trans,
    lemma_extends_grows,
    lemma_grows_index,
}

} // verus!
