use auto_agent::agent_bridge::conversation::{
    extract_display_content, reconstruct_context, role_to_str, str_to_role, str_to_type,
    type_to_str, AgentMessage, MessageRole, MessageType, Sender, SqliteMessagePersister,
};
use auto_agent::agent_bridge::db::AgentDb;
use auto_agent::agent_bridge::images::{
    ext_for_media, externalize_images, image_refs, images_dir, images_to_store, inline_images,
    media_for_ext, parse_data_uri, ImageFile, SavedImage,
};
use auto_agent::agent_bridge::order::{is_less, order_newest};
use auto_agent::agent_bridge::rows::{
    AgentDbError, RunRow, SessionRecord, SessionRow, StoredMessage, Write,
};
use auto_agent::agent_bridge::startup::{schema_statements, statement_outcome};
use auto_agent::agent_bridge::tables::{Pref, Tables};
use auto_agent::auto::types::{
    AutoRun, AutoStatus, Plan, SeePrior, SeePriorKeyword, WorkerResult, WorkerSpec, WorkerStatus,
};
use auto_agent::clock::{local_day, now_iso, now_rfc3339};
use auto_agent::json::{parse_json, write_json, Json};

fn llm_json(role: &str, content: &str) -> String {
    write_json(&Json::Object(vec![
        ("role".to_string(), Json::Str(role.to_string())),
        ("content".to_string(), Json::Str(content.to_string())),
    ]))
}

fn insert_text(db: &mut AgentDb, session_id: &str, content: &str) -> String {
    db.insert_message(
        session_id,
        "/proj",
        "user",
        "text",
        &llm_json("user", content),
        "{}",
        None,
        "t",
    )
    .unwrap()
}

fn agent_msg(content: &str, role: MessageRole, mt: MessageType) -> AgentMessage {
    AgentMessage {
        content: content.into(),
        llm_message: parse_json(&llm_json(role_to_str(role), content)).unwrap(),
        metadata: Json::Object(vec![]),
        role,
        message_type: mt,
        sender: if matches!(role, MessageRole::User) { Sender::HumanUser } else { Sender::Agent },
        turn_count: None,
    }
}

#[test]
fn test_schema_v1() {
    let db = AgentDb::new();
    assert_eq!(db.schema_version().unwrap(), 1);
}

#[test]
fn test_session_crud() {
    let mut db = AgentDb::new();
    db.create_session("s1", "/proj", "coding", Some("Fix bug"), None, None, None, "t1").unwrap();
    let s = db.get_session("s1").unwrap().unwrap();
    assert_eq!(s.folder, "/proj");
    assert_eq!(s.mode, "coding");
    assert_eq!(s.status, "idle");
    assert!(db.active_session_for_folder("/proj").unwrap().is_none());

    db.set_session_status("s1", "active", "t2").unwrap();
    assert_eq!(db.active_session_for_folder("/proj").unwrap().as_deref(), Some("s1"));
    db.set_session_status("s1", "idle", "t3").unwrap();
    assert!(db.active_session_for_folder("/proj").unwrap().is_none());

    let all = db.list_sessions().unwrap();
    assert_eq!(all.len(), 1);
}

#[test]
fn test_session_isolation() {
    let mut db = AgentDb::new();
    insert_text(&mut db, "a", "msg-a");
    insert_text(&mut db, "b", "msg-b");
    let a = db.load_session_messages("a").unwrap();
    assert_eq!(a.len(), 1);
    assert!(a[0].llm_message.contains("msg-a"));
}

#[test]
fn test_persister_roundtrip() {
    let mut db = AgentDb::new();
    let p = SqliteMessagePersister::new("/proj".into());
    assert_eq!(p.project_path(), "/proj");
    let msg = agent_msg("hello", MessageRole::Assistant, MessageType::Text);
    p.persist_message(&mut db, &msg, "s1", &vec![], "t").unwrap();
    let loaded = p.load_context(&db, "s1", &vec![]).unwrap();
    assert_eq!(loaded.len(), 1);
    assert_eq!(loaded[0].content, "hello");
    assert_eq!(loaded[0].role, MessageRole::Assistant);
}

#[test]
fn test_compaction_reconstruction() {
    let mut db = AgentDb::new();
    for i in 1..=5 {
        insert_text(&mut db, "t1", &format!("msg-{i}"));
    }
    db.insert_compaction("t1", "/proj", "Summary of 1-3", 2, "t").unwrap();
    for i in 6..=7 {
        insert_text(&mut db, "t1", &format!("msg-{i}"));
    }
    let stored = db.load_session_messages("t1").unwrap();
    let rec = reconstruct_context(&stored, &vec![]);
    let contents: Vec<String> = rec.iter().map(|m| m.content.clone()).collect();
    for i in 1..=3 {
        assert!(!contents.contains(&format!("msg-{i}")), "msg-{i} should be compacted");
    }
    for i in 4..=7 {
        assert!(contents.contains(&format!("msg-{i}")), "msg-{i} should be present");
    }
    assert!(contents.iter().any(|c| c.contains("Summary of 1-3")));

    // The store's own choice of context is the same here.
    let context = db.load_session_for_context("t1", 500).unwrap();
    let ids: Vec<i64> = context.iter().map(|m| m.id).collect();
    assert_eq!(ids, vec![4, 5, 6, 7, 8]);
}

#[test]
fn test_context_usage_roundtrip() {
    let mut db = AgentDb::new();
    db.upsert_context_usage("s1", "/proj", 1200, 128000, 8, "t").unwrap();
    let usage = db.get_context_usage("s1").unwrap().unwrap();
    assert_eq!(usage, (1200, 128000, 8));
    db.delete_context_usage("s1").unwrap();
    assert!(db.get_context_usage("s1").unwrap().is_none());
}

#[test]
fn test_rewind() {
    let mut db = AgentDb::new();
    let _id1 = insert_text(&mut db, "t1", "keep");
    let id2: i64 = insert_text(&mut db, "t1", "drop").parse().unwrap();
    insert_text(&mut db, "t1", "also drop");
    let n = db.rewind_messages("t1", id2, "t").unwrap();
    assert_eq!(n, 2);
    let remaining = db.load_session_messages("t1").unwrap();
    assert_eq!(remaining.len(), 1);
    assert!(remaining[0].llm_message.contains("keep"));
}

fn empty_run(id: &str, session_id: &str, status: AutoStatus) -> AutoRun {
    AutoRun {
        id: id.into(),
        session_id: session_id.into(),
        status,
        plan_versions: Vec::new(),
        worker_results: Vec::new(),
        cost_cents: 0,
        replans_used: 0,
        current_worker: None,
        pending_failure: None,
    }
}

#[test]
fn test_auto_runs_crud_roundtrip() {
    let mut db = AgentDb::new();
    let initial = empty_run("auto-1", "sess-1", AutoStatus::Planning);
    db.insert_auto_run(&initial, "t1").unwrap();

    let loaded = db.get_auto_run("auto-1").unwrap().expect("row should exist");
    assert_eq!(loaded.id, "auto-1");
    assert_eq!(loaded.session_id, "sess-1");
    assert_eq!(loaded.status, AutoStatus::Planning);
    assert!(loaded.plan_versions.is_empty());
    assert!(loaded.worker_results.is_empty());

    let updated = AutoRun {
        id: "auto-1".into(),
        session_id: "sess-1".into(),
        status: AutoStatus::Done,
        plan_versions: vec![Plan {
            version: 1,
            reasoning: "decompose into one cheap worker".into(),
            workers: vec![WorkerSpec {
                id: "w1".into(),
                model: "haiku-4-5".into(),
                prompt: "read README".into(),
                see_prior: SeePrior::Keyword(SeePriorKeyword::Nothing),
            }],
        }],
        worker_results: vec![WorkerResult {
            id: "w1".into(),
            model: "haiku-4-5".into(),
            prompt: "read README".into(),
            summary: "README describes a Rust project".into(),
            tool_count: 1,
            cost_cents: 3,
            status: WorkerStatus::Completed,
        }],
        cost_cents: 42,
        replans_used: 1,
        current_worker: None,
        pending_failure: None,
    };
    db.update_auto_run(&updated, "t2").unwrap();

    let reloaded = db.get_auto_run("auto-1").unwrap().unwrap();
    assert_eq!(reloaded.status, AutoStatus::Done);
    assert_eq!(reloaded.cost_cents, 42);
    assert_eq!(reloaded.replans_used, 1);
    assert_eq!(reloaded.plan_versions.len(), 1);
    let plan = &reloaded.plan_versions[0];
    assert_eq!(plan.version, 1);
    assert_eq!(plan.workers.len(), 1);
    assert_eq!(plan.workers[0].id, "w1");
    assert!(matches!(plan.workers[0].see_prior, SeePrior::Keyword(SeePriorKeyword::Nothing)));
    assert_eq!(reloaded.worker_results.len(), 1);
    let result = &reloaded.worker_results[0];
    assert_eq!(result.summary, "README describes a Rust project");
    assert_eq!(result.status, WorkerStatus::Completed);
    assert_eq!(reloaded, updated);

    assert!(db.get_auto_run("does-not-exist").unwrap().is_none());

    let other = empty_run("auto-2", "sess-2", AutoStatus::Failed);
    db.insert_auto_run(&other, "t3").unwrap();
    let runs = db.list_auto_runs_for_session("sess-1").unwrap();
    assert_eq!(runs.len(), 1);
    assert_eq!(runs[0].id, "auto-1");
    let other_runs = db.list_auto_runs_for_session("sess-2").unwrap();
    assert_eq!(other_runs.len(), 1);
    assert_eq!(other_runs[0].status, AutoStatus::Failed);
}

#[test]
fn test_auto_runs_status_all_variants_roundtrip() {
    let mut db = AgentDb::new();
    for (i, status) in [
        AutoStatus::Planning,
        AutoStatus::AwaitingApproval,
        AutoStatus::Running,
        AutoStatus::AwaitingFailureDecision,
        AutoStatus::Done,
        AutoStatus::Failed,
        AutoStatus::Cancelled,
    ]
    .into_iter()
    .enumerate()
    {
        let id = format!("auto-{i}");
        let run = empty_run(&id, "sess", status);
        db.insert_auto_run(&run, "t").unwrap();
        let loaded = db.get_auto_run(&id).unwrap().unwrap();
        assert_eq!(loaded.status, status, "{status:?} did not round-trip");
    }
}

#[test]
fn ids_that_are_taken_are_refused() {
    let mut db = AgentDb::new();
    db.create_session("s", "/f", "ask", None, None, None, None, "t").unwrap();
    let err = db.create_session("s", "/g", "ask", None, None, None, None, "t").unwrap_err();
    assert_eq!(err.to_text(), "SQLite error: UNIQUE constraint failed: sessions.id");
    assert_eq!(db.get_session("s").unwrap().unwrap().folder, "/f");
    let run = empty_run("r", "s", AutoStatus::Done);
    db.insert_auto_run(&run, "t").unwrap();
    assert_eq!(
        db.insert_auto_run(&run, "t").unwrap_err(),
        AgentDbError::Sqlite("UNIQUE constraint failed: auto_runs.id".into())
    );
}

#[test]
fn sessions_are_listed_newest_first_and_deleted_ones_not_at_all() {
    let mut db = AgentDb::new();
    for (id, now) in [("a", "2026-01-01"), ("b", "2026-01-03"), ("c", "2026-01-02"), ("d", "2026-01-03")] {
        db.create_session(id, "/f", "coding", None, None, None, None, now).unwrap();
    }
    let ids = |db: &AgentDb| -> Vec<String> {
        db.list_sessions().unwrap().into_iter().map(|s| s.id).collect()
    };
    assert_eq!(ids(&db), vec!["b", "d", "c", "a"]);
    db.touch_session("a", "2026-01-04").unwrap();
    assert_eq!(ids(&db), vec!["a", "b", "d", "c"]);
    db.delete_session("b", "2026-01-05").unwrap();
    assert_eq!(ids(&db), vec!["a", "d", "c"]);
    assert!(db.get_session("b").unwrap().is_some(), "a deleted session stays");
    db.set_session_title("c", "T", "2026-01-06").unwrap();
    db.set_session_model("c", "p", "m", "2026-01-06").unwrap();
    db.set_session_mode("c", "plan", "2026-01-06").unwrap();
    let c = db.get_session("c").unwrap().unwrap();
    assert_eq!(c.title.as_deref(), Some("T"));
    assert_eq!(c.provider_id.as_deref(), Some("p"));
    assert_eq!(c.model.as_deref(), Some("m"));
    assert_eq!(c.mode, "plan");
    assert_eq!(c.created_at, "2026-01-02");
    db.set_session_status("a", "active", "2026-01-07").unwrap();
    db.set_session_status("c", "active", "2026-01-08").unwrap();
    assert_eq!(db.active_session_for_folder("/f").unwrap().as_deref(), Some("c"));
}

#[test]
fn order_is_by_character() {
    assert!(is_less("a", "b"));
    assert!(is_less("a", "aa"));
    assert!(!is_less("b", "aa"));
    assert!(!is_less("a", "a"));
    assert!(is_less("+", "Z"));
    let stamps: Vec<String> = ["2", "3", "1", "3"].iter().map(|s| s.to_string()).collect();
    assert_eq!(order_newest(&stamps), vec![1, 3, 0, 2]);
}

#[test]
fn prefs_keep_the_last_word() {
    let mut db = AgentDb::new();
    db.set_skill_enabled("x", false).unwrap();
    db.set_skill_enabled("y", false).unwrap();
    db.set_skill_enabled("x", true).unwrap();
    assert_eq!(db.load_disabled_skills().unwrap(), vec!["y"]);
    db.set_subagent_enabled("z", false).unwrap();
    assert_eq!(db.load_disabled_subagents().unwrap(), vec!["z"]);
}

#[test]
fn usage_is_kept_once_per_session() {
    let mut db = AgentDb::new();
    db.upsert_context_usage("s1", "/p", 1, 2, 3, "t").unwrap();
    db.upsert_context_usage("s2", "/p", 4, 5, 6, "t").unwrap();
    db.upsert_context_usage("s1", "/p", 7, 8, 9, "t").unwrap();
    assert_eq!(db.get_context_usage("s1").unwrap(), Some((7, 8, 9)));
    assert_eq!(db.get_context_usage("s2").unwrap(), Some((4, 5, 6)));
    assert_eq!(db.load_session_messages("s1").unwrap().len(), 1);
    let id: i64 = insert_text(&mut db, "s1", "x").parse().unwrap();
    assert_eq!(id, 4, "ids are not given out again");
}

#[test]
fn usage_of_another_shape_counts_as_zero() {
    let mut db = AgentDb::new();
    db.insert_message("s", "/p", "system", "context_usage", "{}", "nope", None, "t").unwrap();
    assert_eq!(db.get_context_usage("s").unwrap(), Some((0, 0, 0)));
    let mut db = AgentDb::new();
    let meta = r#"{"total_tokens":4294967301,"context_limit":-1,"message_count":"x"}"#;
    db.insert_message("s", "/p", "system", "context_usage", "{}", meta, None, "t").unwrap();
    assert_eq!(db.get_context_usage("s").unwrap(), Some((5, 0, 0)));
}

fn row(db: &mut AgentDb, role: &str, type_: &str, turn: Option<u32>) -> i64 {
    db.insert_message("s", "/p", role, type_, "{}", "{}", turn, "t").unwrap().parse().unwrap()
}

fn context_ids(db: &AgentDb, limit: u32) -> Vec<i64> {
    db.load_session_for_context("s", limit).unwrap().iter().map(|m| m.id).collect()
}

#[test]
fn context_falls_back_to_the_last_messages() {
    let mut db = AgentDb::new();
    for _ in 0..4 {
        row(&mut db, "user", "text", None);
    }
    db.upsert_context_usage("s", "/p", 1, 1, 1, "t").unwrap();
    assert_eq!(context_ids(&db, 2), vec![3, 4]);
    assert_eq!(context_ids(&db, 9), vec![1, 2, 3, 4]);
    assert_eq!(context_ids(&db, 0), Vec::<i64>::new());
}

#[test]
fn context_does_not_begin_with_a_tool_row() {
    let mut db = AgentDb::new();
    row(&mut db, "assistant", "tool_call", None);
    row(&mut db, "tool", "tool_result", None);
    row(&mut db, "assistant", "text", None);
    row(&mut db, "tool", "tool_result", None);
    assert_eq!(context_ids(&db, 500), vec![3, 4]);
}

#[test]
fn reset_is_a_floor() {
    let mut db = AgentDb::new();
    row(&mut db, "user", "text", None);
    db.insert_compaction("s", "/p", "sum", 1, "t").unwrap();
    db.insert_context_reset("s", "/p", "t").unwrap();
    assert_eq!(context_ids(&db, 500), Vec::<i64>::new());
    row(&mut db, "user", "text", None);
    assert_eq!(context_ids(&db, 500), vec![4]);
    db.insert_compaction("s", "/p", "sum", 9, "t").unwrap();
    assert_eq!(context_ids(&db, 500), vec![4, 5], "nothing before the reset is kept");
}

#[test]
fn summary_without_kept_messages_begins_the_context() {
    let mut db = AgentDb::new();
    row(&mut db, "user", "text", None);
    db.insert_compaction("s", "/p", "sum", 0, "t").unwrap();
    row(&mut db, "user", "text", None);
    assert_eq!(context_ids(&db, 500), vec![2, 3]);
}

#[test]
fn kept_count_is_what_sqlite_reads() {
    let cases = [
        (r#"{"kept_before_count":1}"#, vec![2, 3]),
        (r#"{kept_before_count:1}"#, vec![2, 3]),
        (r#"{"kept_before_count":true}"#, vec![2, 3]),
        (r#"{"kept_before_count":1,"kept_before_count":2}"#, vec![2, 3]),
        (r#"{"kept_before_count":"1"}"#, vec![3]),
        (r#"{"kept_before_count":1.0}"#, vec![3]),
        (r#"{"kept_before_count":null}"#, vec![3]),
        (r#"{"kept_before_count":-1}"#, vec![3]),
        (r#"{}"#, vec![3]),
        (r#"[1]"#, vec![3]),
        ("no JSON", vec![3]),
    ];
    for (metadata, want) in cases {
        let mut db = AgentDb::new();
        row(&mut db, "user", "text", None);
        row(&mut db, "user", "text", None);
        db.insert_message("s", "/p", "system", "compaction", "{}", metadata, None, "t").unwrap();
        assert_eq!(context_ids(&db, 50), want, "for {metadata}");
    }
}

#[test]
fn run_messages_are_found_as_sqlite_finds_them() {
    let found = |metadata: &str, id: &str| {
        let mut db = AgentDb::new();
        db.insert_message("s", "/p", "assistant", "text", "{}", metadata, None, "t").unwrap();
        db.find_auto_assistant_row_id(id)
    };
    assert_eq!(found(r#"{"auto_run_id":"r"}"#, "r").unwrap(), Some(1));
    assert_eq!(found(r#"{"auto_run_id":"q"}"#, "r").unwrap(), None);
    assert_eq!(found(r#"{auto_run_id:'r'}"#, "r").unwrap(), Some(1));
    assert_eq!(found(r#"{"auto_run_id":"r","auto_run_id":"q"}"#, "r").unwrap(), Some(1));
    assert_eq!(found(r#"{"auto_run_id":[1, 2]}"#, "[1,2]").unwrap(), Some(1));
    assert_eq!(found(r#"{"auto_run_id":7}"#, "7").unwrap(), None);
    assert_eq!(found(r#"{"auto_run_id":null}"#, "null").unwrap(), None);
    assert_eq!(found("[]", "r").unwrap(), None);
    assert_eq!(
        found("{", "r").unwrap_err(),
        AgentDbError::Sqlite("malformed JSON".to_string())
    );
}

#[test]
fn broken_metadata_stops_the_search_only_in_its_role() {
    let mut db = AgentDb::new();
    db.insert_message("s", "/p", "user", "text", "{}", "{", None, "t").unwrap();
    db.insert_message("s", "/p", "assistant", "text", "{}", r#"{"auto_run_id":"r"}"#, None, "t")
        .unwrap();
    db.insert_message("s", "/p", "assistant", "text", "{}", "{", None, "t").unwrap();
    assert_eq!(db.find_auto_assistant_row_id("r").unwrap(), Some(2));
    assert!(db.find_auto_assistant_row_id("other").is_err());
    assert!(db.find_auto_user_prompt("r").is_err());
    db.rewind_messages("s", 1, "t2").unwrap();
    assert!(db.find_auto_assistant_row_id("r").is_err(), "a message that was taken back is read too");
}

#[test]
fn rewinding_by_turn_hides_later_turns_only() {
    let mut db = AgentDb::new();
    row(&mut db, "user", "text", Some(1));
    row(&mut db, "user", "text", Some(2));
    row(&mut db, "user", "text", None);
    row(&mut db, "user", "text", Some(3));
    assert_eq!(db.rewind_from_turn("s", 2, "now").unwrap(), 2);
    assert_eq!(db.rewind_from_turn("s", 2, "now").unwrap(), 0);
    let ids: Vec<i64> = db.load_session_messages("s").unwrap().iter().map(|m| m.id).collect();
    assert_eq!(ids, vec![1, 3]);
    assert_eq!(db.get_message_by_id(4).unwrap().unwrap().rewound_at.as_deref(), Some("now"));
    assert!(db.get_message_by_id(9).unwrap().is_none());
}

#[test]
fn last_opening_of_a_session_is_found() {
    let mut db = AgentDb::new();
    assert!(db.get_session_init("s").unwrap().is_none());
    row(&mut db, "system", "session_init", None);
    row(&mut db, "system", "session_init", None);
    row(&mut db, "user", "text", None);
    assert_eq!(db.get_session_init("s").unwrap().unwrap().id, 2);
}

#[test]
fn message_text_can_be_replaced() {
    let mut db = AgentDb::new();
    let id = row(&mut db, "assistant", "text", None);
    db.update_message_llm_content(id, "new").unwrap();
    assert_eq!(db.get_message_by_id(id).unwrap().unwrap().llm_message, "new");
}

#[test]
fn zombies_are_given_up_and_waiting_runs_are_not() {
    let mut db = AgentDb::new();
    let all = [
        AutoStatus::Planning,
        AutoStatus::AwaitingApproval,
        AutoStatus::Running,
        AutoStatus::AwaitingFailureDecision,
        AutoStatus::Done,
        AutoStatus::Failed,
        AutoStatus::Cancelled,
    ];
    for (i, s) in all.into_iter().enumerate() {
        db.insert_auto_run(&empty_run(&format!("r{i}"), "s", s), "t").unwrap();
    }
    assert_eq!(db.mark_zombie_auto_runs_failed("later").unwrap(), 2);
    for (i, s) in all.into_iter().enumerate() {
        let want = match s {
            AutoStatus::Planning | AutoStatus::Running => AutoStatus::Failed,
            other => other,
        };
        assert_eq!(db.get_auto_run(&format!("r{i}")).unwrap().unwrap().status, want);
    }
}

#[test]
fn runs_are_listed_newest_first() {
    let mut db = AgentDb::new();
    for (id, now) in [("a", "1"), ("b", "3"), ("c", "2")] {
        db.insert_auto_run(&empty_run(id, "s", AutoStatus::Done), now).unwrap();
    }
    let ids = |db: &AgentDb| -> Vec<String> {
        db.list_auto_runs_for_session("s").unwrap().into_iter().map(|r| r.id).collect()
    };
    assert_eq!(ids(&db), vec!["b", "c", "a"]);
    db.update_auto_run(&empty_run("a", "s", AutoStatus::Done), "4").unwrap();
    assert_eq!(ids(&db), vec!["a", "b", "c"]);
}

fn run_row(id: &str) -> RunRow {
    RunRow {
        id: id.into(),
        session_id: "s".into(),
        status: "done".into(),
        plan_versions: "[]".into(),
        worker_results: "[]".into(),
        cost_cents: 0,
        replans_used: 0,
        current_worker: "null".into(),
        pending_failure: "null".into(),
        created_at: "t".into(),
        updated_at: "t".into(),
    }
}

fn tables_with(runs: Vec<RunRow>) -> Tables {
    Tables {
        sessions: vec![],
        messages: vec![],
        last_id: 0,
        skills: vec![],
        subagents: vec![],
        runs,
    }
}

#[test]
fn columns_that_cannot_be_read_are_errors() {
    let mut bad_text = run_row("a");
    bad_text.plan_versions = "[".into();
    let mut bad_shape = run_row("b");
    bad_shape.worker_results = "[{}]".into();
    let mut bad_status = run_row("c");
    bad_status.status = "paused".into();
    let db = AgentDb::load(tables_with(vec![bad_text, bad_shape, bad_status, run_row("d")])).unwrap();
    for id in ["a", "b", "c"] {
        assert!(matches!(db.get_auto_run(id).unwrap_err(), AgentDbError::Json(_)), "{id}");
    }
    assert!(db.get_auto_run("d").unwrap().is_some());
    assert!(db.list_auto_runs_for_session("s").is_err());
}

#[test]
fn status_column_is_read_as_the_inside_of_a_text() {
    let mut escaped = run_row("a");
    escaped.status = "plan\\u006eing".into();
    let mut broken = run_row("b");
    broken.status = "done\"".into();
    let mut upper = run_row("c");
    upper.status = "Done".into();
    let db = AgentDb::load(tables_with(vec![escaped, broken, upper])).unwrap();
    assert_eq!(db.get_auto_run("a").unwrap().unwrap().status, AutoStatus::Planning);
    assert!(matches!(db.get_auto_run("b").unwrap_err(), AgentDbError::Json(_)));
    assert!(matches!(db.get_auto_run("c").unwrap_err(), AgentDbError::Json(_)));
}

#[test]
fn tables_that_are_not_in_order_are_not_loaded() {
    assert!(AgentDb::load(tables_with(vec![run_row("a"), run_row("a")])).is_none());
    let message = |id: i64| StoredMessage {
        id,
        session_id: "s".into(),
        project_path: "/p".into(),
        role: "user".into(),
        type_: "text".into(),
        llm_message: "{}".into(),
        metadata: "{}".into(),
        created_at: "t".into(),
        rewound_at: None,
        turn_count: None,
    };
    let mut t = tables_with(vec![]);
    t.messages = vec![message(2), message(5)];
    t.last_id = 7;
    let mut db = AgentDb::load(t.clone()).unwrap();
    assert_eq!(insert_text(&mut db, "s", "x"), "8");
    t.last_id = 4;
    assert!(AgentDb::load(t.clone()).is_none());
    t.last_id = 7;
    t.messages = vec![message(5), message(2)];
    assert!(AgentDb::load(t).is_none());
    let mut t = tables_with(vec![]);
    t.skills = vec![
        Pref { name: "x".into(), enabled: true },
        Pref { name: "x".into(), enabled: false },
    ];
    assert!(AgentDb::load(t).is_none());
    let session = SessionRecord {
        row: SessionRow {
            id: "s".into(),
            folder: "/f".into(),
            mode: "ask".into(),
            title: None,
            parent_session_id: None,
            created_at: "t".into(),
            updated_at: "t".into(),
            status: "idle".into(),
            provider_id: None,
            model: None,
        },
        deleted_at: None,
    };
    let mut t = tables_with(vec![]);
    t.sessions = vec![session.clone(), session];
    assert!(AgentDb::load(t).is_none());
}

#[test]
fn a_full_store_takes_no_message() {
    let mut t = tables_with(vec![]);
    t.last_id = i64::MAX;
    let mut db = AgentDb::load(t).unwrap();
    let full = AgentDbError::Sqlite("database or disk is full".into());
    assert_eq!(
        db.insert_message("s", "/p", "user", "text", "{}", "{}", None, "t").unwrap_err(),
        full
    );
    assert_eq!(db.upsert_context_usage("s", "/p", 1, 1, 1, "t").unwrap_err(), full);
    assert_eq!(db.insert_context_reset("s", "/p", "t").unwrap_err(), full);
    assert_eq!(db.insert_compaction("s", "/p", "x", 1, "t").unwrap_err(), full);
}

#[test]
fn writes_are_handed_out_in_order() {
    let mut db = AgentDb::new();
    db.create_session("s", "/f", "ask", None, None, None, None, "t").unwrap();
    db.set_skill_enabled("x", false).unwrap();
    db.upsert_context_usage("s", "/f", 1, 1, 1, "t").unwrap();
    let writes = db.take_writes();
    assert_eq!(writes.len(), 4);
    assert!(matches!(&writes[0], Write::CreateSession(_)));
    assert_eq!(writes[1], Write::SetSkill { name: "x".into(), enabled: false });
    assert_eq!(writes[2], Write::DeleteContextUsage { session_id: "s".into() });
    assert!(matches!(&writes[3], Write::InsertMessage(_)));
    assert!(db.take_writes().is_empty());

    // Carried out on other tables they give the same store.
    let mut t = Tables::empty();
    for w in &writes {
        t.apply(w);
    }
    let copy = AgentDb::load(t).unwrap();
    assert_eq!(copy.load_disabled_skills().unwrap(), vec!["x"]);
    assert_eq!(copy.get_context_usage("s").unwrap(), Some((1, 1, 1)));
}

#[test]
fn roles_and_types_read_back() {
    for role in [MessageRole::User, MessageRole::Assistant, MessageRole::Tool, MessageRole::System] {
        assert_eq!(str_to_role(role_to_str(role)), role);
    }
    for t in [
        MessageType::Text,
        MessageType::SessionInit,
        MessageType::Compaction,
        MessageType::ToolCall,
        MessageType::ToolResult,
        MessageType::CompletionSummary,
    ] {
        assert_eq!(str_to_type(type_to_str(t)), t);
    }
}

// ── Images ──

const PIXEL: &str = "data:image/png;base64,iVBORw0KGgo=";

fn image_message(url: &str) -> Json {
    parse_json(&format!(
        r#"{{"role":"user","content":[{{"type":"text","text":"look"}},{{"type":"image_url","image_url":{{"url":"{url}","detail":"low"}}}}]}}"#
    ))
    .unwrap()
}

#[test]
fn data_urls_are_taken_apart() {
    assert_eq!(parse_data_uri(PIXEL), Some(("image/png".into(), "iVBORw0KGgo=".into())));
    assert_eq!(parse_data_uri("data:text/plain,a,b"), Some(("text/plain".into(), "a,b".into())));
    assert_eq!(parse_data_uri("data:;base64,xx"), None);
    assert_eq!(parse_data_uri("data:image/png;base64"), None);
    assert_eq!(parse_data_uri("http://x/y,z"), None);
}

#[test]
fn kinds_of_image_have_extensions() {
    for (media, ext) in [
        ("image/png", "png"),
        ("image/jpeg", "jpg"),
        ("image/gif", "gif"),
        ("image/webp", "webp"),
        ("image/svg+xml", "svg"),
        ("image/bmp", "bmp"),
    ] {
        assert_eq!(ext_for_media(media), ext);
        assert_eq!(media_for_ext(ext), media);
    }
    assert_eq!(ext_for_media("image/jpg"), "jpg");
    assert_eq!(ext_for_media("image/x"), "img");
    assert_eq!(media_for_ext("jpeg"), "image/jpeg");
    assert_eq!(media_for_ext("img"), "application/octet-stream");
    assert_eq!(images_dir("/data", "s"), vec!["/data", "images", "s"]);
}

#[test]
fn images_go_to_files_and_come_back() {
    let message = image_message(PIXEL);
    let pending = images_to_store(&message);
    assert_eq!(pending.len(), 1);
    assert_eq!(pending[0].block, 1);
    assert_eq!(pending[0].extension, "png");
    assert_eq!(pending[0].bytes, vec![0x89, b'P', b'N', b'G', 0x0d, 0x0a, 0x1a, 0x0a]);

    let saved = vec![SavedImage { block: 1, file: "abc.png".into() }];
    let stored = externalize_images(&message, &saved);
    assert_eq!(image_refs(&stored), vec!["abc.png"]);
    assert!(!write_json(&stored).contains("base64"));

    let file = ImageFile {
        session_id: "s".into(),
        file: "abc.png".into(),
        bytes: pending[0].bytes.clone(),
    };
    let shown = inline_images(&stored, "s", &vec![file]);
    assert_eq!(write_json(&shown), write_json(&message));

    // A file that could not be read leaves the reference.
    assert_eq!(write_json(&inline_images(&stored, "s", &vec![])), write_json(&stored));
    // What was not put in a file stays.
    assert_eq!(write_json(&externalize_images(&message, &vec![])), write_json(&message));
}

#[test]
fn what_is_no_image_is_left_alone() {
    for url in ["http://x/y.png", "data:image/png;base64,***", "data:image/png;base64,iVBORw0KGgp="] {
        let m = image_message(url);
        assert!(images_to_store(&m).is_empty(), "{url}");
        let saved = vec![SavedImage { block: 1, file: "f.png".into() }];
        assert_eq!(write_json(&externalize_images(&m, &saved)), write_json(&m), "{url}");
    }
    let text = parse_json(r#"{"content":"plain"}"#).unwrap();
    assert!(images_to_store(&text).is_empty());
    assert!(image_refs(&text).is_empty());
}

#[test]
fn display_shows_text_and_images() {
    let none = vec![];
    assert_eq!(
        extract_display_content(r#"{"content":"hi"}"#, "s", &none),
        ("hi".to_string(), vec![])
    );
    assert_eq!(extract_display_content("broken", "s", &none), (String::new(), vec![]));
    assert_eq!(extract_display_content(r#"{"content":5}"#, "s", &none), (String::new(), vec![]));
    let stored = write_json(&externalize_images(
        &image_message(PIXEL),
        &vec![SavedImage { block: 1, file: "abc.png".into() }],
    ));
    let file = ImageFile {
        session_id: "s".into(),
        file: "abc.png".into(),
        bytes: vec![0x89, b'P', b'N', b'G', 0x0d, 0x0a, 0x1a, 0x0a],
    };
    assert_eq!(
        extract_display_content(&stored, "s", &vec![file]),
        ("look".to_string(), vec![PIXEL.to_string()])
    );
}

#[test]
fn saved_image_reaches_the_model_again() {
    let mut db = AgentDb::new();
    let p = SqliteMessagePersister::new("/proj".into());
    let mut msg = agent_msg("", MessageRole::User, MessageType::Text);
    msg.llm_message = image_message(PIXEL);
    let saved = vec![SavedImage { block: 1, file: "abc.png".into() }];
    p.persist_message(&mut db, &msg, "s", &saved, "t").unwrap();
    let stored = db.load_session_messages("s").unwrap();
    assert!(stored[0].llm_message.contains("supercoder-image:abc.png"));
    let file = ImageFile {
        session_id: "s".into(),
        file: "abc.png".into(),
        bytes: vec![0x89, b'P', b'N', b'G', 0x0d, 0x0a, 0x1a, 0x0a],
    };
    let context = p.load_context(&db, "s", &vec![file]).unwrap();
    assert_eq!(write_json(&context[0].llm_message), write_json(&msg.llm_message));
    assert_eq!(context[0].sender, Sender::HumanUser);
}

#[test]
fn saved_message_is_read_back_whole() {
    let mut db = AgentDb::new();
    let p = SqliteMessagePersister::new("/proj".into());
    insert_text(&mut db, "s", "before");
    let mut msg = agent_msg("tab\t\"quoted\" é", MessageRole::System, MessageType::SessionInit);
    msg.metadata = parse_json(r#"{"a":[1,null,{"b":false}],"n":-2.5}"#).unwrap();
    msg.turn_count = Some(7);
    let id = p.persist_message(&mut db, &msg, "s", &vec![], "t").unwrap().id;
    assert_eq!(id, "2");
    let context = p.load_context(&db, "s", &vec![]).unwrap();
    assert_eq!(context.len(), 2);
    assert_eq!(write_json(&context[1].llm_message), write_json(&msg.llm_message));
    assert_eq!(write_json(&context[1].metadata), write_json(&msg.metadata));
    assert_eq!(context[1].content, msg.content);
    assert_eq!(context[1].role, MessageRole::System);
    assert_eq!(context[1].message_type, MessageType::SessionInit);
    assert_eq!(context[1].sender, Sender::Agent);
    assert_eq!(context[1].turn_count, Some(7));
}

#[test]
fn tool_call_at_the_end_of_a_context_is_kept_behind_what_was_said() {
    let mut db = AgentDb::new();
    let p = SqliteMessagePersister::new("/proj".into());
    let said = agent_msg("go", MessageRole::User, MessageType::Text);
    let call = agent_msg("", MessageRole::Assistant, MessageType::ToolCall);
    p.persist_message(&mut db, &call, "s", &vec![], "t").unwrap();
    assert!(p.load_context(&db, "s", &vec![]).unwrap().is_empty());
    p.persist_message(&mut db, &said, "s", &vec![], "t").unwrap();
    p.persist_message(&mut db, &call, "s", &vec![], "t").unwrap();
    let kinds: Vec<MessageType> =
        p.load_context(&db, "s", &vec![]).unwrap().iter().map(|m| m.message_type).collect();
    assert_eq!(kinds, vec![MessageType::Text, MessageType::ToolCall]);
}

#[test]
fn reconstruction_keeps_a_tail_without_summaries() {
    let mut db = AgentDb::new();
    insert_text(&mut db, "s", "a");
    insert_text(&mut db, "s", "b");
    let stored = db.load_session_messages("s").unwrap();
    assert_eq!(reconstruct_context(&stored, &vec![]).len(), 2);
    assert!(reconstruct_context(&vec![], &vec![]).is_empty());
}

// ── Opening a file, and the clock ──

#[test]
fn columns_that_are_there_already_are_no_error() {
    let fresh = schema_statements(false);
    let known = schema_statements(true);
    assert_eq!(fresh.len(), 7);
    assert_eq!(known.len(), 6);
    assert!(known[0].sql.contains("CREATE TABLE IF NOT EXISTS auto_runs"));
    assert_eq!(known[1].sql, "ALTER TABLE sessions ADD COLUMN provider_id TEXT");
    let twice = Some("duplicate column name: model".to_string());
    assert!(statement_outcome(&known[2], twice.clone()).is_ok());
    assert_eq!(
        statement_outcome(&known[0], twice.clone()).unwrap_err(),
        AgentDbError::Sqlite(twice.unwrap())
    );
    assert!(statement_outcome(&known[2], Some("locked".into())).is_err());
    assert!(statement_outcome(&known[2], None).is_ok());
}

#[test]
fn stamps_have_their_forms() {
    assert_eq!(now_iso(0, 0).unwrap(), "1970-01-01T00:00:00.000Z");
    assert_eq!(now_iso(1_700_000_000, 123_456_789).unwrap(), "2023-11-14T22:13:20.123Z");
    assert_eq!(
        now_rfc3339(1_700_000_000, 123_456_789).unwrap(),
        "2023-11-14T22:13:20.123456789+00:00"
    );
    assert_eq!(local_day(1_700_000_000, 7200).unwrap(), "2023-11-15");
    assert_eq!(local_day(1_700_000_000, 0).unwrap(), "2023-11-14");
    assert!(now_iso(i64::MAX, 0).is_none());
    assert!(now_rfc3339(i64::MAX, 0).is_none());
    assert!(local_day(0, 86_400).is_none());
}
