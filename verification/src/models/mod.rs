//! Data models for all memory types.

mod context;
mod decision;
mod file_summary;
mod project;
mod session;
mod task;

pub use context::{
    lemma_level_label_roundtrip, lemma_level_parse_exact, lemma_role_label_roundtrip,
    lemma_role_parse_exact, ContextLevel, ContextOutput, ContextRole,
};
pub use decision::{
    lemma_decision_status_label_roundtrip, lemma_decision_status_parse_exact, Decision,
    DecisionStatus,
};
pub use file_summary::FileSummary;
pub use project::ProjectMeta;
pub use session::Session;
pub use task::{
    lemma_task_priority_label_roundtrip, lemma_task_priority_parse_exact,
    lemma_task_status_label_roundtrip, lemma_task_status_parse_exact, Task, TaskPriority,
    TaskStatus,
};
