use auto_agent::auto::types::{SeePrior, SeePriorKeyword, WorkerResult, WorkerSpec, WorkerStatus};
use auto_agent::auto::worker::{
    build_worker_user_message, classify_outcome, AgentError, Launch, ModelConfig, ToolMode,
    WorkerContext, WorkerRun, MAX_ITER_SUMMARY_PREFIX,
};
use auto_agent::llm::{LlmClientConfig, Provider};
use auto_agent::types::{AgentEvent, AgentResult};

fn wr(id: &str, summary: &str) -> WorkerResult {
    WorkerResult {
        id: id.into(),
        model: "test".into(),
        prompt: "p".into(),
        summary: summary.into(),
        tool_count: 0,
        cost_cents: 0,
        status: WorkerStatus::Completed,
    }
}

fn spec(id: &str, see: SeePrior) -> WorkerSpec {
    WorkerSpec {
        id: id.into(),
        model: "test-model".into(),
        prompt: "do the task".into(),
        see_prior: see,
    }
}

#[test]
fn user_message_with_no_priors_is_just_the_prompt() {
    let s = spec("w2", SeePrior::Keyword(SeePriorKeyword::Nothing));
    let priors = vec![wr("w1", "prior summary here")];
    let msg = build_worker_user_message(&s, &priors);
    assert_eq!(msg, "do the task");
}

#[test]
fn user_message_with_all_injects_every_prior_in_order() {
    let s = spec("w3", SeePrior::Keyword(SeePriorKeyword::All));
    let priors = vec![wr("w1", "first"), wr("w2", "second")];
    let msg = build_worker_user_message(&s, &priors);
    assert!(msg.contains("<prior_worker id=\"w1\">\nfirst\n</prior_worker>"));
    assert!(msg.contains("<prior_worker id=\"w2\">\nsecond\n</prior_worker>"));
    assert!(msg.contains("<task>\ndo the task\n</task>"));
    assert!(msg.find("w1").unwrap() < msg.find("w2").unwrap());
    assert_eq!(
        msg,
        "<prior_worker id=\"w1\">\nfirst\n</prior_worker>\n\n<prior_worker id=\"w2\">\nsecond\n</prior_worker>\n\n<task>\ndo the task\n</task>"
    );
}

#[test]
fn user_message_with_specific_filters_to_listed_priors_only() {
    let s = spec("w4", SeePrior::Specific(vec!["w2".into()]));
    let priors = vec![wr("w1", "first"), wr("w2", "second"), wr("w3", "third")];
    let msg = build_worker_user_message(&s, &priors);
    assert!(!msg.contains("first"), "w1 must be excluded");
    assert!(msg.contains("second"), "w2 must be present");
    assert!(!msg.contains("third"), "w3 must be excluded");
}

#[test]
fn user_message_with_specific_but_no_matches_emits_just_prompt() {
    let s = spec("w5", SeePrior::Specific(vec!["w99".into()]));
    let priors = vec![wr("w1", "first")];
    let msg = build_worker_user_message(&s, &priors);
    assert_eq!(msg, "do the task");
}

#[test]
fn done_classified_as_ok() {
    let (summary, status) =
        classify_outcome(Ok(AgentResult::Done { summary: "completed normally".into() }));
    assert_eq!(summary, "completed normally");
    assert_eq!(status, WorkerStatus::Completed);
}

#[test]
fn max_iterations_summary_maps_to_status() {
    let summary = format!("{} 100 steps. Progress preserved.", MAX_ITER_SUMMARY_PREFIX);
    let (out_summary, status) =
        classify_outcome(Ok(AgentResult::Done { summary: summary.clone() }));
    assert_eq!(out_summary, summary);
    assert_eq!(status, WorkerStatus::MaxIterations);
    assert!(status.is_hard_failure());
}

#[test]
fn cancelled_classified_correctly() {
    let (_, status) = classify_outcome(Err(AgentError::Cancelled));
    assert_eq!(status, WorkerStatus::Cancelled);
    assert!(!status.is_hard_failure(), "Cancelled is NOT a hard failure (no replan)");
}

#[test]
fn llm_error_classified_as_hard_failure() {
    let (summary, status) = classify_outcome(Err(AgentError::Failed("500: boom".into())));
    assert!(matches!(status, WorkerStatus::LlmError { .. }));
    assert!(status.is_hard_failure());
    assert_eq!(summary, "worker failed: 500: boom");
    assert_eq!(status, WorkerStatus::LlmError { message: "500: boom".into() });
}

#[test]
fn unexpected_ask_user_yield_treated_as_tool_error() {
    let (summary, status) =
        classify_outcome(Ok(AgentResult::AskUser { question: "?".into(), options: None }));
    assert!(matches!(status, WorkerStatus::ToolError { .. }));
    assert!(status.is_hard_failure());
    assert_eq!(summary, "worker yielded AskUser unexpectedly: ?");
}

#[test]
fn unexpected_plan_yield_treated_as_tool_error() {
    let (summary, status) = classify_outcome(Ok(AgentResult::PlanReady {
        plan: "p".into(),
        plan_path: "/p".into(),
    }));
    assert!(matches!(status, WorkerStatus::ToolError { .. }));
    assert_eq!(summary, "worker yielded PlanReady unexpectedly");
}

fn make_ctx() -> WorkerContext {
    WorkerContext {
        session_id: "parent-session".into(),
        run_id: "run-1".into(),
        working_dir: "/tmp".into(),
        worker_llm_configs: vec![ModelConfig {
            model: "gpt-test".into(),
            config: LlmClientConfig {
                provider: Provider::OpenAI,
                base_url: "http://localhost".into(),
                model: "gpt-test".into(),
                api_key: String::new(),
                max_completion_tokens: None,
                extra_headers: vec![],
                disable_cache_control: true,
            },
        }],
        max_iterations: 5,
        compaction_llm: None,
        has_context_engine: true,
        context_engine_repo_path: Some("/repo".into()),
        checkpoint_dir: None,
    }
}

fn gpt_spec() -> WorkerSpec {
    WorkerSpec {
        id: "w1".into(),
        model: "gpt-test".into(),
        prompt: "explore the auth files".into(),
        see_prior: SeePrior::Keyword(SeePriorKeyword::Nothing),
    }
}

#[test]
fn start_event_carries_worker_id_model_and_prompt() {
    let ctx = make_ctx();
    let (run, events, launch) = WorkerRun::start(&gpt_spec(), &[], &ctx);
    match &events[0] {
        AgentEvent::AutoWorkerStart { worker_id, model, prompt, run_id, session_id } => {
            assert_eq!(worker_id, "w1");
            assert_eq!(model, "gpt-test");
            assert_eq!(prompt, "explore the auth files");
            assert_eq!(run_id, "run-1");
            assert_eq!(session_id, "parent-session");
        }
        other => panic!("expected AutoWorkerStart, got {other:?}"),
    }
    match launch {
        Launch::Child(setup) => {
            assert_eq!(setup.user_text, "explore the auth files");
            assert_eq!(setup.mode, ToolMode::Coding);
            assert_eq!(setup.max_iterations, 5);
            assert_eq!(setup.llm.model, "gpt-test");
            assert_eq!(setup.index_tools, Some("/repo".to_string()));
            assert!(setup.system_prompt.is_none());
        }
        other => panic!("expected a child, got {other:?}"),
    }
    let (end, result) = run.finish(Err(AgentError::Failed("connection refused".into())));
    assert_eq!(result.id, "w1");
    assert_eq!(result.model, "gpt-test");
    assert_eq!(result.prompt, "explore the auth files");
    assert!(result.status.is_hard_failure(), "localhost LLM should fail");
    assert!(matches!(end, AgentEvent::AutoWorkerEnd { .. }));
}

#[test]
fn model_outside_the_pool_fails_at_once() {
    let ctx = make_ctx();
    let mut s = gpt_spec();
    s.model = "nope".into();
    let (_, events, launch) = WorkerRun::start(&s, &[], &ctx);
    assert_eq!(events.len(), 2);
    assert!(matches!(&events[1], AgentEvent::AutoWorkerEnd { .. }));
    match launch {
        Launch::Ended(r) => {
            assert!(r.status.is_hard_failure());
            assert_eq!(
                r.summary,
                "model `nope` is not in the configured worker pool — orchestrator picked an unknown model"
            );
        }
        other => panic!("expected an end, got {other:?}"),
    }
}

#[test]
fn only_tool_events_are_passed_on() {
    let ctx = make_ctx();
    let (mut run, _, _) = WorkerRun::start(&gpt_spec(), &[], &ctx);
    assert!(run
        .on_event(AgentEvent::TextDelta { session_id: "c".into(), delta: "x".into() })
        .is_none());
    let started = run.on_event(AgentEvent::ToolStart {
        session_id: "c".into(),
        tool_call_id: "t1".into(),
        tool_name: "grep".into(),
        args_summary: "a".into(),
    });
    assert_eq!(
        started,
        Some(AgentEvent::AutoWorkerToolStart {
            session_id: "parent-session".into(),
            run_id: "run-1".into(),
            worker_id: "w1".into(),
            tool_call_id: "t1".into(),
            tool_name: "grep".into(),
            args_summary: "a".into(),
        })
    );
    assert_eq!(run.tool_count(), 0);
    let ended = run.on_event(AgentEvent::ToolEnd {
        session_id: "c".into(),
        tool_call_id: "t1".into(),
        success: true,
        summary: "ok".into(),
        modified_files: None,
    });
    assert!(matches!(ended, Some(AgentEvent::AutoWorkerToolEnd { success: true, .. })));
    assert_eq!(run.tool_count(), 1);
    let (_, result) = run.finish(Ok(AgentResult::Done { summary: "fine".into() }));
    assert_eq!(result.tool_count, 1);
    assert_eq!(result.status, WorkerStatus::Completed);
}

#[test]
fn unwrap_done_gives_the_summary() {
    assert_eq!(AgentResult::Done { summary: "s".into() }.unwrap_done(), "s");
}
