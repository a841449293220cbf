//! The cells that each memory type is stored as.

use vstd::prelude::*;

use crate::error::EngramError;
use crate::external::{encode_strings, json_of_strings, strings_of_json};
use crate::models::{Decision, FileSummary, ProjectMeta, Session, Task};
use crate::text::views;

verus! {

/// A list of strings reads back from the JSON that encodes it.
pub open spec fn json_of_strings_reads_back(items: Seq<Seq<char>>) -> bool {
    strings_of_json(json_of_strings(items)) == Some(items)
}

/// The texts of bound parameters or stored cells, `None` for NULL.
pub open spec fn texts(p: Seq<Option<String>>) -> Seq<Option<Seq<char>>> {
    p.map_values(|c: Option<String>| match c {
        Some(s) => Some(s@),
        None => None,
    })
}

/// The text of an optional string.
pub open spec fn opt_text(o: Option<String>) -> Option<Seq<char>> {
    match o {
        Some(s) => Some(s@),
        None => None,
    }
}

/// Encodes a list of strings as JSON, mapping a failure into the library's error.
pub fn json_list(items: &[String]) -> (out: Result<String, EngramError>)
    ensures
        out is Ok,
        out matches Ok(t) ==> t@ == json_of_strings(views(items@)),
{
    match encode_strings(items) {
        Ok(t) => Ok(t),
        Err(e) => Err(EngramError::Json(e)),
    }
}

fn copy_opt(o: &Option<String>) -> (r: Option<String>)
    ensures
        opt_text(r) == opt_text(*o),
{
    match o {
        Some(s) => Some(s.clone()),
        None => None,
    }
}

/// The row that project metadata is stored as.
pub open spec fn meta_cells(m: ProjectMeta) -> Seq<Option<Seq<char>>> {
    seq![
        Some(m.name@),
        Some(m.description@),
        Some(json_of_strings(views(m.stack@))),
        Some(json_of_strings(views(m.conventions@))),
        Some(m.created_at@),
        Some(m.updated_at@),
    ]
}

/// The row that a decision is stored as.
pub open spec fn decision_cells(d: Decision) -> Seq<Option<Seq<char>>> {
    seq![
        Some(d.id@),
        Some(d.title@),
        Some(d.context@),
        Some(d.decision@),
        Some(json_of_strings(views(d.alternatives@))),
        Some(json_of_strings(views(d.tags@))),
        Some(d.status.label()),
        Some(d.created_at@),
        Some(d.updated_at@),
    ]
}

/// The row that a task is stored as.
pub open spec fn task_cells(t: Task) -> Seq<Option<Seq<char>>> {
    seq![
        Some(t.id@),
        Some(t.title@),
        Some(t.description@),
        Some(t.status.label()),
        Some(t.priority.label()),
        opt_text(t.phase),
        Some(json_of_strings(views(t.tags@))),
        Some(t.created_at@),
        Some(t.updated_at@),
    ]
}

/// The row that a file summary is stored as.
pub open spec fn file_cells(f: FileSummary) -> Seq<Option<Seq<char>>> {
    seq![
        Some(f.id@),
        Some(f.path@),
        Some(f.summary@),
        Some(json_of_strings(views(f.key_types@))),
        Some(json_of_strings(views(f.dependencies@))),
        Some(json_of_strings(views(f.tags@))),
        Some(f.content_hash@),
        Some(f.created_at@),
        Some(f.updated_at@),
    ]
}

/// The row that a session is stored as.
pub open spec fn session_cells(s: Session) -> Seq<Option<Seq<char>>> {
    seq![
        Some(s.id@),
        Some(s.agent@),
        Some(s.goal@),
        opt_text(s.handoff),
        Some(json_of_strings(views(s.tags@))),
        Some(s.started_at@),
        opt_text(s.ended_at),
    ]
}

/// The parameters that store project metadata.
pub fn meta_params(m: &ProjectMeta) -> (r: Result<Vec<Option<String>>, EngramError>)
    ensures
        r is Ok,
        r matches Ok(p) ==> texts(p@) == meta_cells(*m),
{
    let stack = json_list(m.stack.as_slice())?;
    let conventions = json_list(m.conventions.as_slice())?;
    let p = vec![
        Some(m.name.clone()),
        Some(m.description.clone()),
        Some(stack),
        Some(conventions),
        Some(m.created_at.clone()),
        Some(m.updated_at.clone()),
    ];
    proof {
        assert(texts(p@) =~= meta_cells(*m));
    }
    Ok(p)
}

/// The parameters that store a decision.
pub fn decision_params(d: &Decision) -> (r: Result<Vec<Option<String>>, EngramError>)
    ensures
        r is Ok,
        r matches Ok(p) ==> texts(p@) == decision_cells(*d),
{
    let alternatives = json_list(d.alternatives.as_slice())?;
    let tags = json_list(d.tags.as_slice())?;
    let p = vec![
        Some(d.id.clone()),
        Some(d.title.clone()),
        Some(d.context.clone()),
        Some(d.decision.clone()),
        Some(alternatives),
        Some(tags),
        Some(d.status.as_str().to_owned()),
        Some(d.created_at.clone()),
        Some(d.updated_at.clone()),
    ];
    proof {
        assert(texts(p@) =~= decision_cells(*d));
    }
    Ok(p)
}

/// The parameters that store a task.
pub fn task_params(t: &Task) -> (r: Result<Vec<Option<String>>, EngramError>)
    ensures
        r is Ok,
        r matches Ok(p) ==> texts(p@) == task_cells(*t),
{
    let tags = json_list(t.tags.as_slice())?;
    let p = vec![
        Some(t.id.clone()),
        Some(t.title.clone()),
        Some(t.description.clone()),
        Some(t.status.as_str().to_owned()),
        Some(t.priority.as_str().to_owned()),
        copy_opt(&t.phase),
        Some(tags),
        Some(t.created_at.clone()),
        Some(t.updated_at.clone()),
    ];
    proof {
        assert(texts(p@) =~= task_cells(*t));
    }
    Ok(p)
}

/// The parameters that store a file summary.
pub fn file_params(f: &FileSummary) -> (r: Result<Vec<Option<String>>, EngramError>)
    ensures
        r is Ok,
        r matches Ok(p) ==> texts(p@) == file_cells(*f),
{
    let key_types = json_list(f.key_types.as_slice())?;
    let dependencies = json_list(f.dependencies.as_slice())?;
    let tags = json_list(f.tags.as_slice())?;
    let p = vec![
        Some(f.id.clone()),
        Some(f.path.clone()),
        Some(f.summary.clone()),
        Some(key_types),
        Some(dependencies),
        Some(tags),
        Some(f.content_hash.clone()),
        Some(f.created_at.clone()),
        Some(f.updated_at.clone()),
    ];
    proof {
        assert(texts(p@) =~= file_cells(*f));
    }
    Ok(p)
}

/// The parameters that store a session.
pub fn session_params(s: &Session) -> (r: Result<Vec<Option<String>>, EngramError>)
    ensures
        r is Ok,
        r matches Ok(p) ==> texts(p@) == session_cells(*s),
{
    let tags = json_list(s.tags.as_slice())?;
    let p = vec![
        Some(s.id.clone()),
        Some(s.agent.clone()),
        Some(s.goal.clone()),
        copy_opt(&s.handoff),
        Some(tags),
        Some(s.started_at.clone()),
        copy_opt(&s.ended_at),
    ];
    proof {
        assert(texts(p@) =~= session_cells(*s));
    }
    Ok(p)
}

} // verus!
