use engram::cli::export::{export_all, export_stats, import_all, import_checked, ExportData};
use engram::error::EngramError;
use engram::models::{TaskPriority, TaskStatus};
use engram::storage::Store;

#[test]
fn test_export_import_roundtrip() {
    let mut store1 = Store::open_memory().unwrap();
    store1
        .set_project_meta("TestExport", "export test")
        .unwrap();
    store1
        .add_decision("Dec1", "ctx", "decided", &[], &["tag1".into()])
        .unwrap();
    let t = store1
        .add_task("Task1", "desc", &TaskPriority::High, Some("P1"), &[])
        .unwrap();
    store1
        .update_task_status(&t.id, &TaskStatus::InProgress)
        .unwrap();
    store1
        .upsert_file_summary("src/main.rs", "entry", &["main".into()], &[], &[], "hash1")
        .unwrap();
    let s = store1.start_session("alice", "build", &[]).unwrap();
    store1.end_session(&s.id, "done, next: tests").unwrap();

    let imported = export_all(&mut store1).unwrap();

    // Import into a fresh store
    let mut store2 = Store::open_memory().unwrap();
    import_all(&mut store2, &imported).unwrap();

    // Verify
    let meta = store2.get_project_meta().unwrap().unwrap();
    assert_eq!(meta.name, "TestExport");

    let decisions = store2.list_decisions(None).unwrap();
    assert_eq!(decisions.len(), 1);
    assert_eq!(decisions[0].title, "Dec1");
    assert_eq!(decisions[0].tags, vec!["tag1"]);

    let tasks = store2.list_tasks(None).unwrap();
    assert_eq!(tasks.len(), 1);
    assert_eq!(tasks[0].status, TaskStatus::InProgress);
    assert_eq!(tasks[0].phase, Some("P1".into()));

    let files = store2.list_file_summaries().unwrap();
    assert_eq!(files.len(), 1);
    assert_eq!(files[0].key_types, vec!["main"]);

    let sessions = store2.list_sessions(10).unwrap();
    assert_eq!(sessions.len(), 1);
    assert_eq!(sessions[0].handoff.as_deref(), Some("done, next: tests"));
}

#[test]
fn export_stats_counts_each_kind() {
    let mut store = Store::open_memory().unwrap();
    store.add_decision("D", "c", "d", &[], &[]).unwrap();
    store.add_task("T1", "", &TaskPriority::Low, None, &[]).unwrap();
    store.add_task("T2", "", &TaskPriority::Low, None, &[]).unwrap();
    let data = export_all(&mut store).unwrap();
    assert_eq!(data.version, 1);
    assert_eq!(export_stats(&data), "1 decisions, 2 tasks, 0 files, 0 sessions");
}

#[test]
fn import_refuses_other_versions() {
    let mut store = Store::open_memory().unwrap();
    let data = ExportData {
        version: 2,
        project_meta: None,
        decisions: vec![],
        tasks: vec![],
        file_summaries: vec![],
        sessions: vec![],
    };
    match import_checked(&mut store, &data) {
        Err(EngramError::UnsupportedExportVersion(v)) => assert_eq!(v, 2),
        other => panic!("unexpected: {:?}", other),
    }
}
