use vstd::prelude::*;

use crate::error::EngramError;

verus! {

/// Where a task stands.
#[derive(Clone, Copy, Debug, PartialEq, Eq, Structural)]
pub enum TaskStatus {
    Todo,
    InProgress,
    Done,
    Blocked,
}

impl TaskStatus {
    /// The name under which the status is stored and typed.
    pub open spec fn label(self) -> Seq<char> {
        match self {
            TaskStatus::Todo => "todo"@,
            TaskStatus::InProgress => "in_progress"@,
            TaskStatus::Done => "done"@,
            TaskStatus::Blocked => "blocked"@,
        }
    }

    /// The status that a name denotes, if any.
    pub open spec fn from_label(s: Seq<char>) -> Option<TaskStatus> {
        if s == "todo"@ {
            Some(TaskStatus::Todo)
        } else if s == "in_progress"@ {
            Some(TaskStatus::InProgress)
        } else if s == "done"@ {
            Some(TaskStatus::Done)
        } else if s == "blocked"@ {
            Some(TaskStatus::Blocked)
        } else {
            None
        }
    }

    pub fn as_str(&self) -> (s: &'static str)
        ensures
            s@ == self.label(),
    {
        match self {
            TaskStatus::Todo => "todo",
            TaskStatus::InProgress => "in_progress",
            TaskStatus::Done => "done",
            TaskStatus::Blocked => "blocked",
        }
    }

    /// Parses a status name; any other text is refused with `InvalidTaskStatus`.
    pub fn from_str(s: &str) -> (r: Result<TaskStatus, EngramError>)
        ensures
            match r {
                Ok(status) => TaskStatus::from_label(s@) == Some(status),
                Err(e) => TaskStatus::from_label(s@) is None && (
                e matches EngramError::InvalidTaskStatus(t) && t@ == s@),
            },
    {
        let t = s.to_owned();
        if t == "todo".to_owned() {
            Ok(TaskStatus::Todo)
        } else if t == "in_progress".to_owned() {
            Ok(TaskStatus::InProgress)
        } else if t == "done".to_owned() {
            Ok(TaskStatus::Done)
        } else if t == "blocked".to_owned() {
            Ok(TaskStatus::Blocked)
        } else {
            Err(EngramError::InvalidTaskStatus(t))
        }
    }
}

/// How urgent a task is.
#[derive(Clone, Copy, Debug, PartialEq, Eq, Structural)]
pub enum TaskPriority {
    Low,
    Medium,
    High,
    Critical,
}

impl TaskPriority {
    /// The name under which the priority is stored and typed.
    pub open spec fn label(self) -> Seq<char> {
        match self {
            TaskPriority::Low => "low"@,
            TaskPriority::Medium => "medium"@,
            TaskPriority::High => "high"@,
            TaskPriority::Critical => "critical"@,
        }
    }

    /// The priority that a name denotes, if any.
    pub open spec fn from_label(s: Seq<char>) -> Option<TaskPriority> {
        if s == "low"@ {
            Some(TaskPriority::Low)
        } else if s == "medium"@ {
            Some(TaskPriority::Medium)
        } else if s == "high"@ {
            Some(TaskPriority::High)
        } else if s == "critical"@ {
            Some(TaskPriority::Critical)
        } else {
            None
        }
    }

    pub fn as_str(&self) -> (s: &'static str)
        ensures
            s@ == self.label(),
    {
        match self {
            TaskPriority::Low => "low",
            TaskPriority::Medium => "medium",
            TaskPriority::High => "high",
            TaskPriority::Critical => "critical",
        }
    }

    /// Parses a priority name; any other text is refused with `InvalidTaskPriority`.
    pub fn from_str(s: &str) -> (r: Result<TaskPriority, EngramError>)
        ensures
            match r {
                Ok(priority) => TaskPriority::from_label(s@) == Some(priority),
                Err(e) => TaskPriority::from_label(s@) is None && (
                e matches EngramError::InvalidTaskPriority(t) && t@ == s@),
            },
    {
        let t = s.to_owned();
        if t == "low".to_owned() {
            Ok(TaskPriority::Low)
        } else if t == "medium".to_owned() {
            Ok(TaskPriority::Medium)
        } else if t == "high".to_owned() {
            Ok(TaskPriority::High)
        } else if t == "critical".to_owned() {
            Ok(TaskPriority::Critical)
        } else {
            Err(EngramError::InvalidTaskPriority(t))
        }
    }
}

/// A unit of work.
#[derive(Debug)]
pub struct Task {
    pub id: String,
    pub title: String,
    pub description: String,
    pub status: TaskStatus,
    pub priority: TaskPriority,
    pub phase: Option<String>,
    pub tags: Vec<String>,
    /// RFC 3339 time in UTC.
    pub created_at: String,
    /// RFC 3339 time in UTC.
    pub updated_at: String,
}

/// Every task status's name parses back to that status.
pub proof fn lemma_task_status_label_roundtrip(status: TaskStatus)
    ensures
        TaskStatus::from_label(status.label()) == Some(status),
{
    reveal_strlit("todo");
    reveal_strlit("in_progress");
    reveal_strlit("done");
    reveal_strlit("blocked");
    assert("todo"@.len() != "in_progress"@.len());
    assert("todo"@[0] != "done"@[0]);
    assert("todo"@.len() != "blocked"@.len());
    assert("in_progress"@.len() != "done"@.len());
    assert("in_progress"@.len() != "blocked"@.len());
    assert("done"@.len() != "blocked"@.len());
}

/// A name that parses to a task status is exactly that status's name.
pub proof fn lemma_task_status_parse_exact(s: Seq<char>, status: TaskStatus)
    requires
        TaskStatus::from_label(s) == Some(status),
    ensures
        status.label() == s,
{
}

/// Every priority's name parses back to that priority.
pub proof fn lemma_task_priority_label_roundtrip(priority: TaskPriority)
    ensures
        TaskPriority::from_label(priority.label()) == Some(priority),
{
    reveal_strlit("low");
    reveal_strlit("medium");
    reveal_strlit("high");
    reveal_strlit("critical");
    assert("low"@.len() != "medium"@.len());
    assert("low"@.len() != "high"@.len());
    assert("low"@.len() != "critical"@.len());
    assert("medium"@.len() != "high"@.len());
    assert("medium"@.len() != "critical"@.len());
    assert("high"@.len() != "critical"@.len());
}

/// A name that parses to a priority is exactly that priority's name.
pub proof fn lemma_task_priority_parse_exact(s: Seq<char>, priority: TaskPriority)
    requires
        TaskPriority::from_label(s) == Some(priority),
    ensures
        priority.label() == s,
{
}

} // verus!
