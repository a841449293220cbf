use engram::cli::{
    check_no_active_session, content_hash, context_footer, decision_hit_line, decision_list_report,
    decision_recorded_report, decision_show_report, end_active_session, file_check_report,
    file_hit_line, file_list_report, file_saved_report, find_decision, init_project,
    other_hit_line, parse_csv, project_name, search_listing_text, search_report,
    session_ended_report, session_hit_line, session_list_report, session_started_report,
    start_session_checked, status_report, task_created_report, task_hit_line, task_list_report,
    task_updated_report, update_task_by_prefix,
};
use engram::engine::context_output;
use engram::error::EngramError;
use engram::external::{
    decode_strings, encode_strings, format_minute, normalize_timestamp, sha256_digest,
};
use engram::mcp::tools::{
    AddDecisionParams, EndSessionParams, GetContextParams, SearchParams, StartSessionParams,
    SummarizeFileParams, UpdateTaskParams,
};
use engram::mcp::{
    add_decision_tool, context_request, end_session_tool, get_context_tool, search_answer_text,
    search_tool, start_session_tool, summarize_file_tool, update_task_tool,
};
use engram::models::{
    ContextLevel, ContextOutput, ContextRole, Decision, DecisionStatus, FileSummary, ProjectMeta,
    Session, Task, TaskPriority, TaskStatus,
};
use engram::storage::rows::{decode_decision, decode_session, decode_task, list_from_json};
use engram::storage::{
    existing_id, limit_text, session_update_outcome, task_update_outcome, Store,
};
use engram::text::{
    decimal_text, first_chars_text, hex_lower_text, join_strings, preview_text, same_text,
    short_id_text, starts_with, trim_text,
};
use engram::db_path_for;

const STAMP: &str = "2024-03-05T10:20:30+00:00";

fn strings(items: &[&str]) -> Vec<String> {
    items.iter().map(|s| s.to_string()).collect()
}

fn decision(id: &str, title: &str, status: DecisionStatus) -> Decision {
    Decision {
        id: id.to_string(),
        title: title.to_string(),
        context: "ctx".to_string(),
        decision: "dec".to_string(),
        alternatives: vec![],
        tags: vec![],
        status,
        created_at: STAMP.to_string(),
        updated_at: STAMP.to_string(),
    }
}

fn task(id: &str, title: &str, status: TaskStatus, phase: Option<&str>) -> Task {
    Task {
        id: id.to_string(),
        title: title.to_string(),
        description: String::new(),
        status,
        priority: TaskPriority::Medium,
        phase: phase.map(|p| p.to_string()),
        tags: vec![],
        created_at: STAMP.to_string(),
        updated_at: STAMP.to_string(),
    }
}

fn session(id: &str, ended: bool, handoff: Option<&str>) -> Session {
    Session {
        id: id.to_string(),
        agent: "alice".to_string(),
        goal: "g".to_string(),
        handoff: handoff.map(|h| h.to_string()),
        tags: vec![],
        started_at: STAMP.to_string(),
        ended_at: if ended { Some(STAMP.to_string()) } else { None },
    }
}

fn file(path: &str, hash: &str) -> FileSummary {
    FileSummary {
        id: "f1".to_string(),
        path: path.to_string(),
        summary: "does things".to_string(),
        key_types: vec![],
        dependencies: vec![],
        tags: vec![],
        content_hash: hash.to_string(),
        created_at: STAMP.to_string(),
        updated_at: STAMP.to_string(),
    }
}

// ── Text ──

#[test]
fn parse_csv_trims_and_drops_empty_items() {
    assert_eq!(parse_csv(&Some(" a, b ,,c ".to_string())), strings(&["a", "b", "c"]));
    assert_eq!(parse_csv(&Some(String::new())), Vec::<String>::new());
    assert_eq!(parse_csv(&Some(" , ,".to_string())), Vec::<String>::new());
    assert_eq!(parse_csv(&None), Vec::<String>::new());
}

#[test]
fn parse_csv_reads_back_a_joined_list() {
    let items = strings(&["rust", "sqlite", "two words"]);
    let joined = join_strings(&items, ",");
    assert_eq!(joined, "rust,sqlite,two words");
    assert_eq!(parse_csv(&Some(joined)), items);
}

#[test]
fn parsed_csv_items_are_clean() {
    for item in parse_csv(&Some("  x ,\ty\n, z z ,".to_string())) {
        assert!(!item.is_empty());
        assert_eq!(item.trim(), item);
        assert!(!item.contains(','));
    }
}

#[test]
fn trim_is_idempotent_on_an_example() {
    let once = trim_text("\t  hello world \n");
    assert_eq!(once, "hello world");
    assert_eq!(trim_text(&once), once);
    assert_eq!(trim_text("   "), "");
    assert_eq!(trim_text("\u{3000}x\u{a0}"), "x");
}

#[test]
fn decimal_text_writes_numbers() {
    assert_eq!(decimal_text(0), "0");
    assert_eq!(decimal_text(7), "7");
    assert_eq!(decimal_text(1234), "1234");
    assert_eq!(decimal_text(usize::MAX), usize::MAX.to_string());
}

#[test]
fn hex_lower_writes_two_digits_per_byte() {
    assert_eq!(hex_lower_text(&[]), "");
    assert_eq!(hex_lower_text(&[0x00, 0x0f, 0xab, 0xff]), "000fabff");
}

#[test]
fn short_forms_of_texts() {
    assert_eq!(short_id_text("0123456789abcdef"), "01234567");
    assert_eq!(short_id_text("abc"), "abc");
    // Eight bytes, not eight characters: each "é" takes two.
    assert_eq!(short_id_text("éééééé"), "éééé");
    assert_eq!(short_id_text("日本語テキスト"), "日本");
    assert_eq!(first_chars_text("héllo", 2), "hé");
    assert_eq!(preview_text("abcdef", 3), "abc...");
    assert_eq!(preview_text("abc", 3), "abc");
    assert!(starts_with("abcdef", "abc"));
    assert!(!starts_with("ab", "abc"));
    assert!(starts_with("abc", ""));
    assert!(same_text("task", "task"));
    assert!(!same_text("task", "tasks"));
}

// ── Enumerations ──

#[test]
fn enum_names_parse_back() {
    for r in [ContextRole::Build, ContextRole::Review, ContextRole::Debug, ContextRole::Resume] {
        assert_eq!(ContextRole::from_str(r.as_str()).unwrap(), r);
    }
    for l in [ContextLevel::Minimal, ContextLevel::Standard, ContextLevel::Full] {
        assert_eq!(ContextLevel::from_str(l.as_str()).unwrap(), l);
    }
    for s in [TaskStatus::Todo, TaskStatus::InProgress, TaskStatus::Done, TaskStatus::Blocked] {
        assert_eq!(TaskStatus::from_str(s.as_str()).unwrap(), s);
    }
    for p in [TaskPriority::Low, TaskPriority::Medium, TaskPriority::High, TaskPriority::Critical] {
        assert_eq!(TaskPriority::from_str(p.as_str()).unwrap(), p);
    }
    for d in [DecisionStatus::Active, DecisionStatus::Superseded, DecisionStatus::Reverted] {
        assert_eq!(DecisionStatus::from_str(d.as_str()).unwrap(), d);
    }
    assert_eq!(TaskStatus::InProgress.as_str(), "in_progress");
}

#[test]
fn unknown_names_are_refused() {
    assert!(matches!(ContextRole::from_str("boss"), Err(EngramError::InvalidRole(n)) if n == "boss"));
    assert!(matches!(ContextLevel::from_str("max"), Err(EngramError::InvalidLevel(n)) if n == "max"));
    assert!(matches!(TaskStatus::from_str("Done"), Err(EngramError::InvalidTaskStatus(n)) if n == "Done"));
    assert!(matches!(TaskPriority::from_str("urgent"), Err(EngramError::InvalidTaskPriority(n)) if n == "urgent"));
    assert!(matches!(DecisionStatus::from_str(""), Err(EngramError::InvalidDecisionStatus(n)) if n.is_empty()));
}

// ── Outside calls ──

#[test]
fn sha256_of_abc() {
    let digest = sha256_digest(b"abc");
    assert_eq!(digest.len(), 32);
    assert_eq!(
        content_hash(Some(b"abc")),
        "ba7816bf8f01cfea414140de5dae2223b00361a396177a9cb410ff61f20015ad"
    );
    assert_eq!(content_hash(None), "unknown");
}

#[test]
fn timestamps_are_normalized_and_formatted() {
    assert_eq!(
        normalize_timestamp("2024-03-05T10:20:30Z").as_deref(),
        Some("2024-03-05T10:20:30+00:00")
    );
    assert_eq!(
        normalize_timestamp("2024-03-05T12:20:30+02:00").as_deref(),
        Some("2024-03-05T10:20:30+00:00")
    );
    assert_eq!(normalize_timestamp("yesterday"), None);
    assert_eq!(format_minute(STAMP), Some("2024-03-05 10:20".to_string()));
    assert_eq!(format_minute("not a time"), None);
}

#[test]
fn json_lists_read_back() {
    let items = strings(&["a", "b \"quoted\"", ""]);
    let text = encode_strings(&items).unwrap();
    assert_eq!(text, r#"["a","b \"quoted\"",""]"#);
    let odd = vec!["back\\slash/\u{8}\t\n\u{c}\r\u{1}\u{1f}\u{7f}é".to_string()];
    assert_eq!(
        encode_strings(&odd).unwrap(),
        "[\"back\\\\slash/\\b\\t\\n\\f\\r\\u0001\\u001f\u{7f}é\"]"
    );
    assert_eq!(encode_strings(&[]).unwrap(), "[]");
    assert_eq!(decode_strings(&text), Some(items));
    assert_eq!(decode_strings("{}"), None);
    assert_eq!(list_from_json("not json"), Vec::<String>::new());
    assert_eq!(list_from_json(r#"["x"]"#), strings(&["x"]));
}

// ── Rows ──

fn decision_row(status: &str, created: &str) -> Vec<Option<String>> {
    vec![
        Some("d1".into()),
        Some("Title".into()),
        Some("ctx".into()),
        Some("dec".into()),
        Some(r#"["alt"]"#.into()),
        Some("[]".into()),
        Some(status.into()),
        Some(created.into()),
        Some(STAMP.into()),
    ]
}

#[test]
fn decision_rows_decode() {
    let d = decode_decision(&decision_row("superseded", "2024-03-05T10:20:30Z")).unwrap();
    assert_eq!(d.id, "d1");
    assert_eq!(d.status, DecisionStatus::Superseded);
    assert_eq!(d.alternatives, strings(&["alt"]));
    assert_eq!(d.created_at, STAMP);
}

#[test]
fn corrupt_rows_are_reported_by_table() {
    assert!(matches!(
        decode_decision(&decision_row("gone", STAMP)),
        Err(EngramError::CorruptRow(t)) if t == "decisions"
    ));
    assert!(matches!(
        decode_decision(&decision_row("active", "sometime")),
        Err(EngramError::CorruptRow(t)) if t == "decisions"
    ));
    let mut row = decision_row("active", STAMP);
    row[1] = None;
    assert!(matches!(decode_decision(&row), Err(EngramError::CorruptRow(_))));
    let task_row: Vec<Option<String>> = vec![
        Some("t1".into()),
        Some("T".into()),
        Some("".into()),
        Some("todo".into()),
        Some("urgent".into()),
        None,
        Some("[]".into()),
        Some(STAMP.into()),
        Some(STAMP.into()),
    ];
    assert!(matches!(decode_task(&task_row), Err(EngramError::CorruptRow(t)) if t == "tasks"));
    let session_row: Vec<Option<String>> = vec![
        Some("s1".into()),
        Some("alice".into()),
        Some("g".into()),
        None,
        Some("[]".into()),
        Some("bad".into()),
        None,
    ];
    assert!(matches!(decode_session(&session_row), Err(EngramError::CorruptRow(t)) if t == "sessions"));
}

#[test]
fn limit_text_and_existing_id() {
    assert_eq!(limit_text(5), "5");
    assert_eq!(limit_text(0), "0");
    if (usize::MAX as u128) > (i64::MAX as u128) {
        assert_eq!(limit_text(usize::MAX), "-1");
    }
    assert_eq!(existing_id(Ok(vec![vec![Some("id9".into())]])), Some("id9".to_string()));
    assert_eq!(existing_id(Ok(vec![vec![None]])), None);
    assert_eq!(existing_id(Ok(vec![])), None);
    assert_eq!(existing_id(Err(EngramError::NoActiveSession)), None);
}

// ── Reports ──

#[test]
fn decision_reports() {
    let d = decision("0123456789ab", "Use SQLite", DecisionStatus::Active);
    assert_eq!(
        decision_recorded_report(&d),
        "Decision recorded: 0123456789ab\n  Title: Use SQLite\n"
    );
    assert_eq!(decision_list_report(&[]), "No decisions found.\n");
    assert_eq!(
        decision_list_report(&[d, decision("ffff", "Old", DecisionStatus::Reverted)]),
        "[01234567] (active) Use SQLite - dec\n[ffff] (reverted) Old - dec\n\n2 decision(s)\n"
    );
}

#[test]
fn decision_show_lists_alternatives_and_tags() {
    let mut d = decision("id1", "T", DecisionStatus::Superseded);
    assert_eq!(
        decision_show_report(&d),
        "# T\nID: id1\nStatus: superseded\nCreated: 2024-03-05 10:20\n\n## Context\nctx\n\n## Decision\ndec\n"
    );
    d.alternatives = strings(&["a", "b"]);
    d.tags = strings(&["x", "y"]);
    assert_eq!(
        decision_show_report(&d),
        "# T\nID: id1\nStatus: superseded\nCreated: 2024-03-05 10:20\n\n## Context\nctx\n\n## Decision\ndec\n\n## Alternatives Considered\n- a\n- b\n\nTags: x, y\n"
    );
}

#[test]
fn task_reports() {
    let t = task("abcdefgh-1234", "Write docs", TaskStatus::Todo, Some("P2"));
    assert_eq!(
        task_created_report(&t),
        "Task created: abcdefgh-1234\n  Title: Write docs\n  Priority: medium\n  Phase: P2\n"
    );
    assert_eq!(
        task_updated_report(&t, &TaskStatus::Blocked),
        "Task abcdefgh updated to blocked\n"
    );
    let u = task("12345678-zz", "Ship", TaskStatus::InProgress, None);
    assert_eq!(task_list_report(&[]), "No tasks found.\n");
    assert_eq!(
        task_list_report(&[t, u]),
        "[abcdefgh] (todo/medium) Write docs [P2]\n[12345678] (in_progress/medium) Ship [-]\n\n2 task(s)\n"
    );
}

#[test]
fn session_reports() {
    let s = session("abcdefgh-99", false, None);
    assert_eq!(
        session_started_report(&s),
        "Session started: abcdefgh\n  Agent: alice\n  Goal: g\n"
    );
    assert_eq!(
        session_ended_report(&s, "next: tests"),
        "Session ended: abcdefgh\n  Handoff: next: tests\n"
    );
    assert_eq!(session_list_report(&[]), "No sessions found.\n");
    let long = "x".repeat(81);
    let ended = session("zyxwvuts-1", true, Some(&long));
    assert_eq!(
        session_list_report(&[s, ended]),
        format!(
            "[abcdefgh] (active) alice - g (2024-03-05 10:20)\n[zyxwvuts] (ended) alice - g (2024-03-05 10:20)\n           Handoff: {}...\n\n2 session(s)\n",
            "x".repeat(80)
        )
    );
}

#[test]
fn file_reports() {
    let f = file("src/lib.rs", "h1");
    assert_eq!(file_saved_report(&f), "File summary saved: src/lib.rs\n");
    assert_eq!(file_list_report(&[]), "No file summaries found.\n");
    assert_eq!(
        file_list_report(&[f]),
        "  src/lib.rs - does things\n\n1 file(s)\n"
    );
    let f = Some(file("src/lib.rs", "h1"));
    assert_eq!(
        file_check_report("src/lib.rs", &f, &Some("h1".into())),
        "src/lib.rs: up to date\n"
    );
    assert_eq!(
        file_check_report("src/lib.rs", &f, &Some("h2".into())),
        "src/lib.rs: STALE (file changed since last summary)\n"
    );
    assert_eq!(
        file_check_report("src/lib.rs", &f, &None),
        "src/lib.rs: file not found on disk\n"
    );
    assert_eq!(
        file_check_report("a.rs", &None, &Some("h1".into())),
        "a.rs: no summary recorded\n"
    );
}

#[test]
fn status_report_of_an_empty_project() {
    assert_eq!(
        status_report(&None, &[], &[], &[], &[], &None),
        "=== (unnamed project) ===\n\n\nTasks: 0 total | 0 in-progress | 0 todo | 0 done | 0 blocked\nDecisions: 0 active\nFiles: 0 summarized\nSessions: 0 recorded\n"
    );
}

#[test]
fn status_report_counts_and_lists() {
    let meta = Some(ProjectMeta {
        name: "P".into(),
        description: "desc".into(),
        stack: strings(&["Rust", "SQLite"]),
        conventions: vec![],
        created_at: STAMP.into(),
        updated_at: STAMP.into(),
    });
    let tasks = [
        task("t1", "A", TaskStatus::InProgress, Some("P1")),
        task("t2", "B", TaskStatus::Todo, None),
        task("t3", "C", TaskStatus::Done, None),
        task("t4", "D", TaskStatus::InProgress, None),
    ];
    let decisions = [
        decision("d1", "X", DecisionStatus::Active),
        decision("d2", "Y", DecisionStatus::Superseded),
    ];
    let sessions = [session("s1", true, Some("handoff notes"))];
    assert_eq!(
        status_report(&meta, &tasks, &decisions, &[file("a", "h")], &sessions, &None),
        "=== P ===\ndesc\nStack: Rust, SQLite\n\nLast session: alice - g | Handoff: handoff notes\n\nTasks: 4 total | 2 in-progress | 1 todo | 1 done | 0 blocked\n  > A [P1]\n  > D\nDecisions: 1 active\nFiles: 1 summarized\nSessions: 1 recorded\n"
    );
    let active = Some(session("s2", false, None));
    let text = status_report(&None, &[], &[], &[], &sessions, &active);
    assert!(text.contains("Session: alice - g (active)\n"));
    assert!(!text.contains("Last session"));
}

#[test]
fn search_lines() {
    let d = Some(decision("d1", "T", DecisionStatus::Active));
    assert_eq!(decision_hit_line("0123456789", &d), "[decision:01234567] T - dec\n");
    assert_eq!(decision_hit_line("0123456789", &None), "");
    let t = Some(task("t1", "Do", TaskStatus::Done, None));
    assert_eq!(task_hit_line("t1", &t), "[task:t1] (done) Do \n");
    assert_eq!(file_hit_line("src/x.rs", &Some(file("src/x.rs", "h"))), "[file] src/x.rs - does things\n");
    assert_eq!(file_hit_line("src/x.rs", &None), "[file:src/x.rs] (details unavailable)\n");
    let s = Some(session("s1", true, None));
    assert_eq!(session_hit_line("s1", &s), "[session:s1] (ended) alice - g\n");
    assert_eq!(other_hit_line("abc", "note"), "[note:abc]\n");
    assert_eq!(search_listing_text("q", &vec![]), "No results for: q\n");
    assert_eq!(
        search_listing_text("q", &strings(&["a\n", "", "b\n"])),
        "a\nb\n\n3 result(s)\n"
    );
}

#[test]
fn project_names_and_footer() {
    assert_eq!(project_name(Some("given".into()), Some("dir".into())), "given");
    assert_eq!(project_name(None, Some("dir".into())), "dir");
    assert_eq!(project_name(None, None), "unnamed");
    let out = ContextOutput {
        role: ContextRole::Debug,
        level: ContextLevel::Full,
        markdown: String::new(),
        estimated_tokens: 42,
    };
    assert_eq!(context_footer(&out), "--- ~42 tokens (debug/full)\n");
}

#[test]
fn database_path() {
    assert_eq!(db_path_for(true).unwrap(), ".engram/memory.db");
    assert!(matches!(db_path_for(false), Err(EngramError::NotInitialized)));
}

// ── Rendering ──

#[test]
fn empty_memory_renders_the_title_only() {
    let out = context_output(
        &ContextRole::Build,
        &ContextLevel::Standard,
        &None,
        &[],
        &[],
        &[],
        &[],
        &None,
    );
    assert_eq!(out.markdown, "# (unnamed project)\n\n");
    assert_eq!(out.estimated_tokens, 5);
    assert_eq!(out.role, ContextRole::Build);
    assert_eq!(out.level, ContextLevel::Standard);
}

#[test]
fn task_markers_in_standard_context() {
    let tasks = [
        task("t1", "A", TaskStatus::InProgress, Some("P1")),
        task("t2", "B", TaskStatus::Blocked, Some("")),
        task("t3", "C", TaskStatus::Todo, None),
        task("t4", "D", TaskStatus::Done, None),
    ];
    let out = context_output(
        &ContextRole::Debug,
        &ContextLevel::Standard,
        &None,
        &[decision("d1", "X", DecisionStatus::Active)],
        &tasks,
        &[],
        &[],
        &None,
    );
    assert_eq!(
        out.markdown,
        "# (unnamed project)\n\n## Tasks\n- 🔧 A (medium) [P1]\n- ⛔ B (medium)\n- ☐ C (medium)\n\n## Recently Completed\n- ✓ D\n\n"
    );
    assert_eq!(out.estimated_tokens, out.markdown.len() / 4);
}

#[test]
fn minimal_context_for_resume() {
    let sessions = [session("s1", true, None), session("s2", true, Some("pick up X"))];
    let tasks = [task("t1", "Done one", TaskStatus::Done, None), task("t2", "Next one", TaskStatus::Todo, None)];
    let active = Some(session("s3", false, None));
    let out = context_output(
        &ContextRole::Resume,
        &ContextLevel::Minimal,
        &None,
        &[],
        &tasks,
        &[],
        &sessions,
        &active,
    );
    assert_eq!(
        out.markdown,
        "# (unnamed project)\n\n**Active session**: alice — g\n\n**Next**: Next one (todo)\n\n**Last handoff** (alice): pick up X\n"
    );
    let out = context_output(
        &ContextRole::Build,
        &ContextLevel::Minimal,
        &None,
        &[],
        &tasks,
        &[],
        &sessions,
        &None,
    );
    assert_eq!(out.markdown, "# (unnamed project)\n\n**Next**: Next one (todo)\n");
}

// ── Store-backed commands ──

#[test]
fn sessions_start_once_and_end_once() {
    let mut store = Store::open_memory().unwrap();
    assert!(matches!(end_active_session(&mut store, "h"), Err(EngramError::NoActiveSession)));
    let s = start_session_checked(&mut store, "alice", "goal", &strings(&["t"])).unwrap();
    assert_eq!(s.tags, strings(&["t"]));
    match start_session_checked(&mut store, "bob", "other", &[]) {
        Err(EngramError::SessionAlreadyActive { id, goal }) => {
            assert_eq!(id, s.id.chars().take(8).collect::<String>());
            assert_eq!(goal, "goal");
        }
        other => panic!("expected SessionAlreadyActive, got {:?}", other),
    }
    let ended = end_active_session(&mut store, "handoff").unwrap();
    assert_eq!(ended.id, s.id);
    assert!(store.get_active_session().unwrap().is_none());
    assert!(check_no_active_session(&None).is_ok());
}

#[test]
fn prefixes_pick_entities() {
    let mut store = Store::open_memory().unwrap();
    let d = store.add_decision("D", "c", "d", &[], &[]).unwrap();
    let found = find_decision(&mut store, &d.id[..6]).unwrap();
    assert_eq!(found.id, d.id);
    assert!(matches!(find_decision(&mut store, "zzzz-not-an-id"), Err(EngramError::DecisionPrefixNotFound(p)) if p == "zzzz-not-an-id"));
    let t = store.add_task("T", "", &TaskPriority::Low, None, &[]).unwrap();
    let updated = update_task_by_prefix(&mut store, &t.id[..5], &TaskStatus::Done).unwrap();
    assert_eq!(updated.id, t.id);
    assert_eq!(store.get_task(&t.id).unwrap().unwrap().status, TaskStatus::Done);
    assert!(matches!(update_task_by_prefix(&mut store, "zzzz", &TaskStatus::Done), Err(EngramError::TaskPrefixNotFound(p)) if p == "zzzz"));
    assert!(matches!(store.update_task_status("missing", &TaskStatus::Done), Err(EngramError::TaskNotFound(p)) if p == "missing"));
}

#[test]
fn init_records_the_project() {
    let mut store = Store::open_memory().unwrap();
    assert_eq!(
        init_project(&mut store, "demo", "a demo").unwrap(),
        "Initialized engram in .engram/\n  Project: demo\n  Description: a demo\n  Database: .engram/memory.db\n"
    );
    let meta = store.get_project_meta().unwrap().unwrap();
    assert_eq!(meta.name, "demo");
    assert_eq!(meta.description, "a demo");
    assert!(meta.stack.is_empty());
    assert_eq!(
        init_project(&mut store, "other", "").unwrap(),
        "Initialized engram in .engram/\n  Project: other\n  Database: .engram/memory.db\n"
    );
    assert_eq!(store.get_project_meta().unwrap().unwrap().name, "other");
}

#[test]
fn search_report_reads_hits_back() {
    let mut store = Store::open_memory().unwrap();
    assert_eq!(search_report(&mut store, "nothing", None).unwrap(), "No results for: nothing\n");
    let d = store.add_decision("Use SQLite", "storage", "bundled sqlite", &[], &[]).unwrap();
    let text = search_report(&mut store, "sqlite", Some("decision")).unwrap();
    assert_eq!(
        text,
        format!("[decision:{}] Use SQLite - bundled sqlite\n\n1 result(s)\n", &d.id[..8])
    );
}

// ── MCP tools ──

#[test]
fn context_requests_default_and_refuse() {
    let (role, level) = context_request(None, None).unwrap();
    assert_eq!(role, ContextRole::Build);
    assert_eq!(level, ContextLevel::Standard);
    let (role, level) = context_request(Some("resume"), Some("full")).unwrap();
    assert_eq!(role, ContextRole::Resume);
    assert_eq!(level, ContextLevel::Full);
    assert!(matches!(context_request(Some("x"), Some("y")), Err(EngramError::InvalidRole(_))));
    assert!(matches!(context_request(None, Some("y")), Err(EngramError::InvalidLevel(_))));
}

#[test]
fn get_context_starts_a_session_when_none_is_active() {
    let mut store = Store::open_memory().unwrap();
    let text = get_context_tool(&mut store, &GetContextParams { role: None, level: None }).unwrap();
    assert!(text.starts_with("# (unnamed project)\n"));
    let active = store.get_active_session().unwrap().unwrap();
    assert_eq!(active.agent, "unknown");
    assert_eq!(active.goal, "auto-started by get_context");
    assert!(text.contains("**Active session**: unknown — auto-started by get_context"));
    // A second call keeps the same session.
    get_context_tool(&mut store, &GetContextParams { role: None, level: Some("minimal".into()) }).unwrap();
    assert_eq!(store.list_sessions(10).unwrap().len(), 1);
    // An unknown role starts nothing.
    let mut fresh = Store::open_memory().unwrap();
    assert!(matches!(
        get_context_tool(&mut fresh, &GetContextParams { role: Some("boss".into()), level: None }),
        Err(EngramError::InvalidRole(_))
    ));
    assert!(fresh.get_active_session().unwrap().is_none());
}

#[test]
fn mcp_tools_answer() {
    let mut store = Store::open_memory().unwrap();
    let answer = add_decision_tool(
        &mut store,
        AddDecisionParams {
            title: "Pick FTS5".into(),
            context: "search".into(),
            decision: "use fts5".into(),
            alternatives: None,
            tags: Some(strings(&["search"])),
        },
    )
    .unwrap();
    let decisions = store.list_decisions(None).unwrap();
    let d = &decisions[0];
    assert_eq!(answer, format!("Decision recorded: Pick FTS5 ({})", &d.id[..8]));
    assert_eq!(d.tags, strings(&["search"]));
    assert!(d.alternatives.is_empty());

    let t = store.add_task("Index", "", &TaskPriority::High, None, &[]).unwrap();
    let answer = update_task_tool(
        &mut store,
        &UpdateTaskParams { id: t.id[..8].to_string(), status: "in_progress".into() },
    )
    .unwrap();
    assert_eq!(answer, format!("Task 'Index' ({}) updated to in_progress", &t.id[..8]));
    assert!(matches!(
        update_task_tool(&mut store, &UpdateTaskParams { id: t.id.clone(), status: "finished".into() }),
        Err(EngramError::InvalidTaskStatus(_))
    ));

    let answer = summarize_file_tool(
        &mut store,
        SummarizeFileParams {
            path: "src/a.rs".into(),
            summary: "A".into(),
            key_types: None,
            dependencies: None,
            tags: None,
        },
        Some(b"abc".to_vec()),
    )
    .unwrap();
    assert_eq!(answer, "File summary saved: src/a.rs");
    let f = store.get_file_summary_by_path("src/a.rs").unwrap().unwrap();
    assert_eq!(f.content_hash, "ba7816bf8f01cfea414140de5dae2223b00361a396177a9cb410ff61f20015ad");

    let answer = start_session_tool(
        &mut store,
        StartSessionParams { agent: None, goal: "work".into(), tags: None },
    )
    .unwrap();
    let s = store.get_active_session().unwrap().unwrap();
    assert_eq!(answer, format!("Session started: {} (agent: unknown, goal: work)", &s.id[..8]));
    assert!(matches!(
        start_session_tool(&mut store, StartSessionParams { agent: Some("b".into()), goal: "x".into(), tags: None }),
        Err(EngramError::SessionAlreadyActive { .. })
    ));
    let answer = end_session_tool(&mut store, &EndSessionParams { handoff: "bye".into() }).unwrap();
    assert_eq!(answer, format!("Session ended: {} - handoff recorded", &s.id[..8]));
    assert!(matches!(
        end_session_tool(&mut store, &EndSessionParams { handoff: "again".into() }),
        Err(EngramError::NoActiveSession)
    ));
}

#[test]
fn search_tool_answers() {
    let mut store = Store::open_memory().unwrap();
    assert_eq!(
        search_tool(&mut store, &SearchParams { query: "nothing".into(), entity_type: None }).unwrap(),
        "No results for: nothing"
    );
    let t = store.add_task("Tokenizer", "split words", &TaskPriority::Low, None, &[]).unwrap();
    assert_eq!(
        search_tool(&mut store, &SearchParams { query: "tokenizer".into(), entity_type: None }).unwrap(),
        format!("[task:{}] (todo) Tokenizer\n\n1 result(s)", &t.id[..8])
    );
    assert_eq!(search_answer_text("q", &strings(&["a", "b"])), "a\nb\n\n2 result(s)");
}

#[test]
fn update_outcomes_follow_the_changed_row_count() {
    assert!(task_update_outcome(1, "t").is_ok());
    assert!(matches!(task_update_outcome(0, "t"), Err(EngramError::TaskNotFound(id)) if id == "t"));
    assert!(session_update_outcome(2, "s").is_ok());
    assert!(matches!(session_update_outcome(0, "s"), Err(EngramError::SessionNotFound(id)) if id == "s"));
}

#[test]
fn error_messages() {
    assert_eq!(
        EngramError::NotInitialized.message(),
        "not an engram project (run `engram init` first)"
    );
    assert_eq!(EngramError::InvalidRole("x".into()).message(), "invalid context role: x");
    assert_eq!(EngramError::InvalidLevel("y".into()).message(), "invalid context level: y");
    assert_eq!(
        EngramError::InvalidDecisionStatus("Active".into()).message(),
        "invalid decision status: Active"
    );
    assert_eq!(
        EngramError::UnsupportedExportVersion(2).message(),
        "unsupported export version: 2"
    );
    assert_eq!(
        EngramError::TaskPrefixNotFound("ab".into()).message(),
        "task not found with ID prefix: ab"
    );
    let active = EngramError::SessionAlreadyActive { id: "1234abcd".into(), goal: "g".into() };
    assert_eq!(
        active.message(),
        "session already active: 1234abcd (g). End it first with `engram session end`"
    );
    assert_eq!(active.tool_message(), "session already active: 1234abcd (g) - end it first");
    assert_eq!(EngramError::NoActiveSession.tool_message(), "no active session to end");
}

#[test]
fn fresh_ids_are_lowercase_uuids() {
    let mut store = Store::open_memory().unwrap();
    let d = store.add_decision("D", "c", "d", &[], &[]).unwrap();
    assert_eq!(d.id.len(), 36);
    for (i, c) in d.id.chars().enumerate() {
        if [8, 13, 18, 23].contains(&i) {
            assert_eq!(c, '-');
        } else {
            assert!(c.is_ascii_hexdigit() && !c.is_ascii_uppercase());
        }
    }
    assert_eq!(d.id.chars().nth(14), Some('4'));
}

#[test]
fn csv_reads_back_a_list_joined_with_comma_space() {
    let items = strings(&["MySQL", "SQLite", "two words"]);
    let joined = join_strings(&items, ", ");
    assert_eq!(parse_csv(&Some(joined)), items);
}

#[test]
fn search_report_lists_file_hits_without_details() {
    let mut store = Store::open_memory().unwrap();
    let f = store
        .upsert_file_summary("src/parser.rs", "tokenizer and parser", &[], &[], &[], "h")
        .unwrap();
    let expected = format!("[file:{}] (details unavailable)\n\n1 result(s)\n", &f.id[..8]);
    assert_eq!(search_report(&mut store, "tokenizer", None).unwrap(), expected);
}
