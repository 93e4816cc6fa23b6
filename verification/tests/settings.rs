use auto_agent::agent_bridge::db::AgentDb;
use auto_agent::agent_bridge::rows::Write;
use auto_agent::agent_bridge::settings::{
    agent_get_auto_settings, agent_list_sessions_using_auto, agent_set_auto_enabled,
    agent_set_auto_orchestrator_model, agent_set_auto_worker_pool, is_auto_mode,
    read_auto_enabled, read_auto_orchestrator, read_auto_settings, read_auto_worker_pool,
    AppState, AutoSettings, Setting, SettingWrite, AUTO_ENABLED_KEY, AUTO_ORCHESTRATOR_KEY,
    AUTO_SENTINEL_MODEL, AUTO_SENTINEL_PROVIDER_ID, AUTO_WORKER_POOL_KEY,
};
use auto_agent::agent_bridge::turns::{
    agent_approve_auto_plan, agent_get_auto_run, agent_resolve_worker_failure,
    build_auto_metadata_json, build_cancelled_summary, build_worker_llm_configs, close_auto_turn,
    finish_auto_turn, last_events, resume_auto_turn, run_auto_turn, ApprovalStep, AutoTurn, FailureStep,
    ResolvedModel, ResumeAction, RunningFolders, TurnInput,
};
use auto_agent::auto::codec::{list_to_json, Coded, ModelRef};
use auto_agent::auto::types::{
    AutoResult, AutoRun, AutoStatus, Plan, WorkerFailureContext, WorkerPoolEntry, WorkerResult,
    WorkerStatus,
};
use auto_agent::json::write_json;
use auto_agent::llm::{LlmClientConfig, Provider};
use auto_agent::types::AgentEvent;

#[test]
fn is_auto_mode_recognizes_only_the_sentinel_pair() {
    assert!(is_auto_mode(AUTO_SENTINEL_PROVIDER_ID, AUTO_SENTINEL_MODEL));
    assert!(!is_auto_mode("auto", "something-else"));
    assert!(!is_auto_mode("anthropic", "auto"));
    assert!(!is_auto_mode("anthropic", "sonnet-4-6"));
    assert!(!is_auto_mode("", ""));
}

#[test]
fn read_auto_settings_returns_documented_defaults_when_unset() {
    let state = AppState::new();
    let s = read_auto_settings(&state);
    assert!(s.orchestrator.is_none());
    assert!(s.worker_pool.is_empty());
    assert_eq!(s, AutoSettings::default());
}

fn sonnet() -> ModelRef {
    ModelRef { provider_id: "anthropic".into(), model: "sonnet-4-6".into() }
}

#[test]
fn orchestrator_model_writes_then_reads_unchanged() {
    let mut state = AppState::new();
    let raw = write_json(&sonnet().to_json());
    state.set_setting(AUTO_ORCHESTRATOR_KEY, &raw).unwrap();

    let loaded = read_auto_orchestrator(&state).expect("should round-trip");
    assert_eq!(loaded.provider_id, "anthropic");
    assert_eq!(loaded.model, "sonnet-4-6");
}

#[test]
fn orchestrator_returns_none_when_value_is_corrupt() {
    let mut state = AppState::new();
    state.set_setting(AUTO_ORCHESTRATOR_KEY, "not valid json").unwrap();
    assert!(read_auto_orchestrator(&state).is_none());
}

fn pool_entry(model: &str, description: &str) -> WorkerPoolEntry {
    WorkerPoolEntry {
        provider_id: "anthropic".into(),
        model: model.into(),
        description: description.into(),
    }
}

#[test]
fn worker_pool_writes_then_reads_unchanged() {
    let mut state = AppState::new();
    let pool = vec![
        pool_entry("haiku-4-5", "cheap exploration"),
        pool_entry("sonnet-4-6", "design + synthesis"),
    ];
    let raw = write_json(&list_to_json(&pool));
    state.set_setting(AUTO_WORKER_POOL_KEY, &raw).unwrap();

    let loaded = read_auto_worker_pool(&state);
    assert_eq!(loaded.len(), 2);
    assert_eq!(loaded[0].model, "haiku-4-5");
    assert_eq!(loaded[0].description, "cheap exploration");
    assert_eq!(loaded[1].model, "sonnet-4-6");
}

#[test]
fn worker_pool_defaults_to_empty_when_corrupt() {
    let mut state = AppState::new();
    state.set_setting(AUTO_WORKER_POOL_KEY, "{broken").unwrap();
    assert!(read_auto_worker_pool(&state).is_empty());
}

#[test]
fn read_auto_settings_assembles_all_keys() {
    let mut state = AppState::new();
    state.set_setting(AUTO_ORCHESTRATOR_KEY, &write_json(&sonnet().to_json())).unwrap();
    let pool = vec![pool_entry("haiku-4-5", "cheap")];
    state.set_setting(AUTO_WORKER_POOL_KEY, &write_json(&list_to_json(&pool))).unwrap();
    state.set_setting(AUTO_ENABLED_KEY, "true").unwrap();

    let s = read_auto_settings(&state);
    assert!(s.enabled);
    assert!(s.orchestrator.is_some());
    assert_eq!(s.orchestrator.unwrap().model, "sonnet-4-6");
    assert_eq!(s.worker_pool.len(), 1);
}

#[test]
fn enabled_defaults_false_when_unset() {
    let state = AppState::new();
    assert!(!read_auto_enabled(&state));
    assert!(!read_auto_settings(&state).enabled);
}

#[test]
fn enabled_roundtrips_both_directions() {
    let mut state = AppState::new();
    state.set_setting(AUTO_ENABLED_KEY, "true").unwrap();
    assert!(read_auto_enabled(&state));
    state.set_setting(AUTO_ENABLED_KEY, "false").unwrap();
    assert!(!read_auto_enabled(&state));
}

#[test]
fn enabled_defaults_false_when_value_is_garbage() {
    let mut state = AppState::new();
    state.set_setting(AUTO_ENABLED_KEY, "yes").unwrap();
    assert!(!read_auto_enabled(&state));
    state.set_setting(AUTO_ENABLED_KEY, "1").unwrap();
    assert!(!read_auto_enabled(&state));
}

#[test]
fn settings_are_kept_and_handed_out() {
    let mut state = AppState::load(vec![
        Setting { key: "a".into(), value: "1".into() },
        Setting { key: "b".into(), value: "2".into() },
        Setting { key: "a".into(), value: "3".into() },
    ]);
    assert_eq!(state.get_setting("a").as_deref(), Some("3"));
    state.set_setting("a", "4").unwrap();
    state.delete_setting("b").unwrap();
    assert_eq!(state.get_setting("a").as_deref(), Some("4"));
    assert_eq!(state.get_setting("b"), None);
    assert_eq!(
        state.take_writes(),
        vec![
            SettingWrite::Keep { key: "a".into(), value: "4".into() },
            SettingWrite::Delete { key: "b".into() },
        ]
    );
    assert!(state.take_writes().is_empty());
}

#[test]
fn choices_read_back() {
    let mut state = AppState::new();
    agent_set_auto_orchestrator_model(&mut state, Some(sonnet())).unwrap();
    agent_set_auto_worker_pool(&mut state, vec![pool_entry("m", "d")]).unwrap();
    let s = agent_get_auto_settings(&state).unwrap();
    assert_eq!(s.orchestrator, Some(sonnet()));
    assert_eq!(s.worker_pool, vec![pool_entry("m", "d")]);
    agent_set_auto_orchestrator_model(&mut state, None).unwrap();
    assert!(read_auto_orchestrator(&state).is_none());
    assert_eq!(read_auto_worker_pool(&state).len(), 1);
}

fn configured() -> AppState {
    let mut state = AppState::new();
    agent_set_auto_orchestrator_model(&mut state, Some(sonnet())).unwrap();
    agent_set_auto_worker_pool(
        &mut state,
        vec![pool_entry("haiku-4-5", "cheap"), pool_entry("sonnet-4-6", "good")],
    )
    .unwrap();
    state.set_setting(AUTO_ENABLED_KEY, "true").unwrap();
    state
}

#[test]
fn mode_is_switched_on_only_when_it_can_be_used() {
    let db = AgentDb::new();
    let mut state = AppState::new();
    assert_eq!(
        agent_set_auto_enabled(&mut state, &db, true).unwrap_err(),
        "Cannot enable Auto: pick an orchestrator model in Settings → Auto first."
    );
    agent_set_auto_orchestrator_model(&mut state, Some(sonnet())).unwrap();
    assert_eq!(
        agent_set_auto_enabled(&mut state, &db, true).unwrap_err(),
        "Cannot enable Auto: add at least one model to the worker pool first."
    );
    agent_set_auto_worker_pool(&mut state, vec![pool_entry("m", "d")]).unwrap();
    agent_set_auto_enabled(&mut state, &db, true).unwrap();
    assert!(read_auto_enabled(&state));
}

#[test]
fn mode_is_not_switched_off_while_sessions_use_it() {
    let mut db = AgentDb::new();
    let mut state = configured();
    db.create_session("s", "/f", "coding", None, None, Some("auto"), Some("auto"), "t").unwrap();
    db.create_session("o", "/f", "coding", None, None, Some("auto"), Some("x"), "t").unwrap();
    db.create_session("n", "/f", "coding", None, None, None, None, "t").unwrap();
    let users: Vec<String> =
        agent_list_sessions_using_auto(&db).unwrap().into_iter().map(|s| s.id).collect();
    assert_eq!(users, vec!["s"]);
    assert_eq!(
        agent_set_auto_enabled(&mut state, &db, false).unwrap_err(),
        "Cannot disable Auto: 1 session(s) still use it. Switch them to a regular model first."
    );
    db.delete_session("s", "t2").unwrap();
    agent_set_auto_enabled(&mut state, &db, false).unwrap();
    assert!(!read_auto_enabled(&state));
}

#[test]
fn refused_changes_leave_nothing_to_be_saved() {
    let db = AgentDb::new();
    let mut state = AppState::new();
    assert!(agent_set_auto_enabled(&mut state, &db, true).is_err());
    assert!(state.take_writes().is_empty());
    agent_set_auto_orchestrator_model(&mut state, Some(sonnet())).unwrap();
    agent_set_auto_worker_pool(&mut state, vec![pool_entry("m", "d")]).unwrap();
    agent_set_auto_enabled(&mut state, &db, true).unwrap();
    let keys: Vec<String> = state
        .take_writes()
        .into_iter()
        .map(|w| match w {
            SettingWrite::Keep { key, .. } => key,
            SettingWrite::Delete { key } => key,
        })
        .collect();
    assert_eq!(keys, vec![AUTO_ORCHESTRATOR_KEY, AUTO_WORKER_POOL_KEY, AUTO_ENABLED_KEY]);
}

// ── Turns ──

fn resolved(model: &str) -> ResolvedModel {
    ResolvedModel {
        provider_id: "anthropic".into(),
        model: model.into(),
        config: LlmClientConfig {
            provider: Provider::Anthropic,
            base_url: "http://localhost".into(),
            model: model.into(),
            api_key: "k".into(),
            max_completion_tokens: None,
            extra_headers: vec![],
            disable_cache_control: true,
        },
    }
}

fn models() -> Vec<ResolvedModel> {
    vec![resolved("haiku-4-5"), resolved("sonnet-4-6")]
}

fn turn_input() -> TurnInput {
    TurnInput {
        session_id: "s1".into(),
        folder: "/proj".into(),
        run_id: "run-1".into(),
        models: models(),
        context_engine_enabled: true,
    }
}

fn db_with_session() -> AgentDb {
    let mut db = AgentDb::new();
    db.create_session("s1", "/proj", "coding", None, None, Some("auto"), Some("auto"), "t0")
        .unwrap();
    db
}

fn start(db: &mut AgentDb, state: &AppState, message: &str) -> Result<AutoTurn, String> {
    run_auto_turn(state, db, &turn_input(), message, None, "t1", "r1")
}

#[test]
fn turn_is_prepared_and_recorded() {
    let mut db = db_with_session();
    let long = format!("  {}", "x".repeat(100));
    let turn = start(&mut db, &configured(), &long).unwrap();

    assert_eq!(turn.exec_config.task, long);
    assert_eq!(turn.exec_config.auto_run_id, "run-1");
    assert_eq!(turn.exec_config.replan_budget, 0);
    assert!(turn.exec_config.resume_from.is_none());
    assert!(turn.exec_config.versions_fit());
    assert_eq!(turn.orchestrator_llm.model, "sonnet-4-6");
    assert!(turn.orchestrator_llm.disable_cache_control);
    assert_eq!(turn.worker_ctx.max_iterations, 100);
    assert_eq!(turn.worker_ctx.working_dir, "/proj");
    assert_eq!(turn.worker_ctx.context_engine_repo_path.as_deref(), Some("/proj"));
    assert_eq!(turn.worker_ctx.worker_llm_configs.len(), 2);
    assert!(!turn.worker_ctx.worker_llm_configs[0].config.disable_cache_control);
    assert_eq!(turn.title_model, Some(sonnet()));

    let s = db.get_session("s1").unwrap().unwrap();
    assert_eq!(s.status, "active");
    assert_eq!(s.title, Some("x".repeat(58)));
    let run = db.get_auto_run("run-1").unwrap().unwrap();
    assert_eq!(run.status, AutoStatus::Planning);
    assert_eq!(turn.assistant_row_id, 2);
    assert_eq!(db.find_auto_assistant_row_id("run-1").unwrap(), Some(2));
    assert_eq!(db.find_auto_user_prompt("run-1").unwrap(), Some(long));
    let rows = db.load_session_messages("s1").unwrap();
    assert!(rows[1].llm_message.contains("Auto run in progress…"));
    assert_eq!(rows[0].metadata, r#"{"auto_run_id":"run-1","kind":"auto"}"#);
    assert_eq!(build_auto_metadata_json("run-1"), rows[1].metadata);
}

#[test]
fn titled_sessions_keep_their_title() {
    let mut db = db_with_session();
    db.set_session_title("s1", "Mine", "t0").unwrap();
    let turn = start(&mut db, &configured(), "hello").unwrap();
    assert_eq!(turn.title_model, None);
    assert_eq!(db.get_session("s1").unwrap().unwrap().title.as_deref(), Some("Mine"));

    let mut db = db_with_session();
    let turn = start(&mut db, &configured(), " \n ").unwrap();
    assert_eq!(turn.title_model, None);
    assert!(db.get_session("s1").unwrap().unwrap().title.is_none());
}

#[test]
fn turns_are_refused_without_settings() {
    let mut db = db_with_session();
    let mut off = configured();
    off.set_setting(AUTO_ENABLED_KEY, "false").unwrap();
    assert_eq!(
        start(&mut db, &off, "m").unwrap_err(),
        "Auto mode is disabled in Settings. Re-enable it, or pick a regular model."
    );
    let mut none = configured();
    agent_set_auto_orchestrator_model(&mut none, None).unwrap();
    assert_eq!(
        start(&mut db, &none, "m").unwrap_err(),
        "Auto mode: orchestrator model not configured in Settings → Auto"
    );
    let mut empty = configured();
    agent_set_auto_worker_pool(&mut empty, vec![]).unwrap();
    assert_eq!(
        start(&mut db, &empty, "m").unwrap_err(),
        "Auto mode: worker pool is empty in Settings → Auto"
    );
    let mut far = configured();
    agent_set_auto_orchestrator_model(
        &mut far,
        Some(ModelRef { provider_id: "gone".into(), model: "x".into() }),
    )
    .unwrap();
    assert_eq!(
        start(&mut db, &far, "m").unwrap_err(),
        "Auto mode: orchestrator provider `gone` is not configured"
    );
    assert_eq!(db.get_session("s1").unwrap().unwrap().status, "idle");
    start(&mut db, &configured(), "m").unwrap();
    assert_eq!(
        start(&mut db, &configured(), "m").unwrap_err(),
        "Failed to insert auto_run: SQLite error: UNIQUE constraint failed: auto_runs.id"
    );
}

#[test]
fn pools_that_cannot_be_used_are_refused() {
    let twice = vec![pool_entry("haiku-4-5", "a"), pool_entry("haiku-4-5", "b")];
    assert_eq!(
        build_worker_llm_configs(&twice, &models()).unwrap_err(),
        "Auto mode: worker pool has duplicate model name `haiku-4-5` across providers — make pool entries' model names unique (the dispatcher looks up by model only)"
    );
    let missing = vec![pool_entry("other", "a")];
    assert_eq!(
        build_worker_llm_configs(&missing, &models()).unwrap_err(),
        "Auto mode: worker pool entry `other` references missing provider id=`anthropic`. Fix Settings → Auto (remove the worker or re-add the provider)."
    );
}

fn worker(id: &str, summary: &str, status: WorkerStatus) -> WorkerResult {
    WorkerResult {
        id: id.into(),
        model: "haiku-4-5".into(),
        prompt: "p".into(),
        summary: summary.into(),
        tool_count: 0,
        cost_cents: 0,
        status,
    }
}

fn run_with(status: AutoStatus) -> AutoRun {
    AutoRun {
        id: "run-1".into(),
        session_id: "s1".into(),
        status,
        plan_versions: vec![Plan { version: 1, reasoning: "r".into(), workers: vec![] }],
        worker_results: vec![
            worker("w1", "found it", WorkerStatus::Completed),
            worker("w2", "stopped", WorkerStatus::Cancelled),
        ],
        cost_cents: 0,
        replans_used: 0,
        current_worker: None,
        pending_failure: Some(WorkerFailureContext {
            worker_id: "w2".into(),
            worker_model: "haiku-4-5".into(),
            worker_prompt: "p".into(),
            error_message: "boom".into(),
        }),
    }
}

#[test]
fn stopped_run_is_reported_with_what_was_done() {
    let run = run_with(AutoStatus::Cancelled);
    assert_eq!(
        build_cancelled_summary(&run, "Worker w2 (m)"),
        "**Auto run stopped during Worker w2 (m).**\n\nCompleted workers (1):\n- **w1** (`haiku-4-5`): found it\n"
    );
    let mut none = run_with(AutoStatus::Cancelled);
    none.worker_results.clear();
    assert_eq!(
        build_cancelled_summary(&none, "Planning v1"),
        "**Auto run stopped during Planning v1.**\n"
    );
    let mut long = run_with(AutoStatus::Cancelled);
    long.worker_results = vec![worker("w1", &"y".repeat(241), WorkerStatus::Completed)];
    assert!(build_cancelled_summary(&long, "x").ends_with(&format!("{}…\n", "y".repeat(240))));
}

#[test]
fn end_of_a_run_is_recorded() {
    let mut db = db_with_session();
    let turn = start(&mut db, &configured(), "task").unwrap();
    let mut folders = RunningFolders::new();
    assert!(folders.acquire("/proj"));

    let done = AutoResult::Done { summary: "all good".into(), run: run_with(AutoStatus::Done) };
    let events = finish_auto_turn(&mut db, &done, turn.assistant_row_id, "s1", "run-1", "r2");
    assert!(events.is_empty());
    assert_eq!(db.get_auto_run("run-1").unwrap().unwrap().status, AutoStatus::Done);
    let row = db.get_message_by_id(turn.assistant_row_id).unwrap().unwrap();
    assert_eq!(row.llm_message, r#"{"content":"all good","role":"assistant"}"#);

    let failed = AutoResult::Failed { reason: "boom".into(), run: run_with(AutoStatus::Failed) };
    finish_auto_turn(&mut db, &failed, turn.assistant_row_id, "s1", "run-1", "r2");
    let row = db.get_message_by_id(turn.assistant_row_id).unwrap().unwrap();
    assert!(row.llm_message.contains("Auto run failed: boom"));

    let stopped = AutoResult::Cancelled {
        run: run_with(AutoStatus::Cancelled),
        phase: "Planning v1".into(),
    };
    let events = finish_auto_turn(&mut db, &stopped, turn.assistant_row_id, "s1", "run-1", "r2");
    assert_eq!(
        events,
        vec![AgentEvent::AutoFailed {
            session_id: "s1".into(),
            run_id: "run-1".into(),
            reason: "Interrupted by user".into(),
            last_worker_output: None,
        }]
    );
    assert_eq!(last_events(&stopped, "s1", "run-1"), events);
    assert!(last_events(&failed, "s1", "run-1").is_empty());
    close_auto_turn(&mut db, &mut folders, "s1", "/proj", "t9");
    assert_eq!(db.get_session("s1").unwrap().unwrap().status, "idle");
    assert!(folders.acquire("/proj"));
}

#[test]
fn approval_goes_to_whoever_waits() {
    let mut db = db_with_session();
    assert_eq!(
        agent_approve_auto_plan(&mut db, "run-1", true, true, "r"),
        Ok(ApprovalStep::Deliver(true))
    );
    assert_eq!(
        agent_approve_auto_plan(&mut db, "run-1", true, false, "r").unwrap_err(),
        "No saved Auto run with id=run-1"
    );
    db.insert_auto_run(&run_with(AutoStatus::Running), "r").unwrap();
    assert_eq!(
        agent_approve_auto_plan(&mut db, "run-1", true, false, "r").unwrap_err(),
        "Auto run id=run-1 is in status Running; resume is only allowed from awaiting_approval"
    );
    db.update_auto_run(&run_with(AutoStatus::AwaitingApproval), "r").unwrap();
    assert_eq!(
        agent_approve_auto_plan(&mut db, "run-1", true, false, "r"),
        Ok(ApprovalStep::Resume(run_with(AutoStatus::AwaitingApproval)))
    );
    assert_eq!(
        agent_approve_auto_plan(&mut db, "run-1", false, false, "r"),
        Ok(ApprovalStep::Closed)
    );
    let run = agent_get_auto_run(&db, "run-1").unwrap().unwrap();
    assert_eq!(run.status, AutoStatus::Failed);
    assert_eq!(agent_get_auto_run(&db, "other").unwrap(), None);
}

#[test]
fn failure_is_decided_by_the_user() {
    let mut db = db_with_session();
    db.insert_auto_run(&run_with(AutoStatus::Done), "r").unwrap();
    assert_eq!(
        agent_resolve_worker_failure(&mut db, "run-1", "retry", "r").unwrap_err(),
        "Auto run id=run-1 is in status Done; failure-resolve is only allowed from awaiting_failure_decision"
    );
    let waiting = run_with(AutoStatus::AwaitingFailureDecision);
    let mut bare = run_with(AutoStatus::AwaitingFailureDecision);
    bare.pending_failure = None;
    db.update_auto_run(&bare, "r").unwrap();
    assert_eq!(
        agent_resolve_worker_failure(&mut db, "run-1", "retry", "r").unwrap_err(),
        "Auto run id=run-1 is awaiting_failure_decision but has no pending_failure context"
    );
    db.update_auto_run(&waiting, "r").unwrap();
    assert_eq!(
        agent_resolve_worker_failure(&mut db, "run-1", "retry", "r"),
        Ok(FailureStep::Resume {
            run: run_with(AutoStatus::AwaitingFailureDecision),
            action: ResumeAction::RetryWorker { worker_id: "w2".into() },
        })
    );
    assert_eq!(
        agent_resolve_worker_failure(&mut db, "run-1", "replan", "r"),
        Ok(FailureStep::Resume {
            run: run_with(AutoStatus::AwaitingFailureDecision),
            action: ResumeAction::ReplanAfterFailure { reason: "boom".into() },
        })
    );
    assert_eq!(
        agent_resolve_worker_failure(&mut db, "run-1", "wait", "r").unwrap_err(),
        "Unknown action `wait`; expected one of: retry, replan, cancel"
    );
    assert_eq!(
        agent_resolve_worker_failure(&mut db, "run-1", "cancel", "r"),
        Ok(FailureStep::Cancelled {
            session_id: "s1".into(),
            reason: "Cancelled by user after worker w2 (haiku-4-5) failed: boom".into(),
        })
    );
    let run = db.get_auto_run("run-1").unwrap().unwrap();
    assert_eq!(run.status, AutoStatus::Failed);
    assert!(run.pending_failure.is_none());
    let writes = db.take_writes();
    match writes.last() {
        Some(Write::UpdateRun(row)) => assert_eq!(row.status, "failed"),
        other => panic!("expected the run to be saved, got {other:?}"),
    }
}

fn resume(
    db: &mut AgentDb,
    state: &AppState,
    folders: &mut RunningFolders,
    action: ResumeAction,
) -> Result<AutoTurn, String> {
    let run = run_with(AutoStatus::AwaitingFailureDecision);
    resume_auto_turn(state, db, folders, run, action, models(), false, "t5")
}

#[test]
fn saved_run_goes_on() {
    let mut db = db_with_session();
    let mut folders = RunningFolders::new();
    let state = configured();
    start(&mut db, &state, "the task").unwrap();
    db.set_session_status("s1", "idle", "t2").unwrap();

    let retry = ResumeAction::RetryWorker { worker_id: "w2".into() };
    let turn = resume(&mut db, &state, &mut folders, retry).unwrap();
    assert_eq!(turn.exec_config.task, "the task");
    assert_eq!(turn.exec_config.start_at_worker_id.as_deref(), Some("w2"));
    assert_eq!(turn.exec_config.initial_replan_reason, None);
    assert_eq!(
        turn.exec_config.resume_from,
        Some(run_with(AutoStatus::AwaitingFailureDecision))
    );
    assert_eq!(turn.assistant_row_id, 2);
    assert!(!turn.worker_ctx.has_context_engine);
    assert_eq!(db.get_session("s1").unwrap().unwrap().status, "active");

    let again = resume(&mut db, &state, &mut folders, ResumeAction::ApproveSavedPlan);
    assert_eq!(again.unwrap_err(), "A session is already running for /proj");
    folders.release("/proj");
    let replan = ResumeAction::ReplanAfterFailure { reason: "boom".into() };
    let turn = resume(&mut db, &state, &mut folders, replan).unwrap();
    assert_eq!(turn.exec_config.initial_replan_reason.as_deref(), Some("boom"));
    assert_eq!(turn.exec_config.start_at_worker_id, None);
}

#[test]
fn saved_run_that_lost_something_does_not_go_on() {
    let mut folders = RunningFolders::new();
    let state = configured();
    let act = || ResumeAction::ApproveSavedPlan;
    let mut db = AgentDb::new();
    assert_eq!(
        resume(&mut db, &state, &mut folders, act()).unwrap_err(),
        "Session s1 not found"
    );
    let mut db = db_with_session();
    assert_eq!(
        resume(&mut db, &state, &mut folders, act()).unwrap_err(),
        "No assistant anchor row for run_id=run-1"
    );
    let meta = build_auto_metadata_json("run-1");
    db.insert_message("s1", "/proj", "assistant", "text", "{}", &meta, None, "t").unwrap();
    assert_eq!(
        resume(&mut db, &state, &mut folders, act()).unwrap_err(),
        "No user prompt found for run_id=run-1"
    );
    db.insert_message("s1", "/proj", "user", "text", "[", &meta, None, "t").unwrap();
    assert!(resume(&mut db, &state, &mut folders, act())
        .unwrap_err()
        .starts_with("Failed to look up user prompt: JSON error: "));
    let mut db = db_with_session();
    db.insert_message("s1", "/proj", "assistant", "text", "{}", "junk", None, "t").unwrap();
    assert_eq!(
        resume(&mut db, &state, &mut folders, act()).unwrap_err(),
        "Failed to look up assistant row: SQLite error: malformed JSON"
    );
    let mut db = db_with_session();
    start(&mut db, &state, "m").unwrap();
    let mut unset = configured();
    agent_set_auto_orchestrator_model(&mut unset, None).unwrap();
    assert_eq!(
        resume(&mut db, &unset, &mut folders, act()).unwrap_err(),
        "Resume: orchestrator model not configured in Settings → Auto"
    );
    let mut empty = configured();
    agent_set_auto_worker_pool(&mut empty, vec![]).unwrap();
    assert_eq!(
        resume(&mut db, &empty, &mut folders, act()).unwrap_err(),
        "Resume: worker pool is empty in Settings → Auto"
    );
    assert!(folders.acquire("/proj"), "nothing was taken");
}
