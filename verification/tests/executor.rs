use std::cell::RefCell;
use std::collections::HashMap;

use auto_agent::auto::company::{Company, Switchboard};
use auto_agent::auto::executor::{
    self, planning_phase_label, status_label, truncate, Action, Approval, AutoApprove,
    AutoStateListener, Effect, Executor, ExecutorConfig, PlanApprover, PlanGenerator, RunHost,
    Stage, WorkerRunner,
};
use auto_agent::auto::orchestrator::{OrchestratorError, OrchestratorRequest};
use auto_agent::auto::types::{
    AutoResult, AutoRun, AutoStatus, Plan, SeePrior, SeePriorKeyword, WorkerFailureContext,
    WorkerPoolEntry, WorkerResult, WorkerSpec, WorkerStatus,
};
use auto_agent::types::AgentEvent;

/// Gives the queued plans in order.
struct MockPlanGen {
    queue: RefCell<Vec<Result<Plan, OrchestratorError>>>,
    calls: RefCell<u32>,
    reasons: RefCell<Vec<Option<String>>>,
}

impl MockPlanGen {
    fn new(plans: Vec<Result<Plan, OrchestratorError>>) -> Self {
        Self { queue: RefCell::new(plans), calls: RefCell::new(0), reasons: RefCell::new(Vec::new()) }
    }

    fn call_count(&self) -> u32 {
        *self.calls.borrow()
    }
}

impl PlanGenerator for MockPlanGen {
    fn generate(&self, req: &OrchestratorRequest<'_>) -> Result<Plan, OrchestratorError> {
        *self.calls.borrow_mut() += 1;
        self.reasons.borrow_mut().push(req.replan_reason.map(|s| s.to_string()));
        let mut q = self.queue.borrow_mut();
        if q.is_empty() {
            panic!("MockPlanGen: no more plans queued");
        }
        q.remove(0)
    }
}

/// Gives the queued results of each worker in order, and a plain success beyond.
struct MockRunner {
    results_by_id: RefCell<HashMap<String, Vec<WorkerResult>>>,
    invocations: RefCell<Vec<String>>,
    priors: RefCell<Vec<usize>>,
}

impl MockRunner {
    fn new() -> Self {
        Self {
            results_by_id: RefCell::new(HashMap::new()),
            invocations: RefCell::new(Vec::new()),
            priors: RefCell::new(Vec::new()),
        }
    }

    fn enqueue(&self, id: &str, result: WorkerResult) {
        self.results_by_id.borrow_mut().entry(id.into()).or_default().push(result);
    }

    fn invocations(&self) -> Vec<String> {
        self.invocations.borrow().clone()
    }
}

impl WorkerRunner for MockRunner {
    fn run(&self, spec: &WorkerSpec, prior: &[WorkerResult]) -> WorkerResult {
        self.invocations.borrow_mut().push(spec.id.clone());
        self.priors.borrow_mut().push(prior.len());
        let mut map = self.results_by_id.borrow_mut();
        if let Some(queue) = map.get_mut(&spec.id) {
            if !queue.is_empty() {
                return queue.remove(0);
            }
        }
        WorkerResult {
            id: spec.id.clone(),
            model: spec.model.clone(),
            prompt: spec.prompt.clone(),
            summary: format!("ok: {}", spec.prompt),
            tool_count: 0,
            cost_cents: 0,
            status: WorkerStatus::Completed,
        }
    }
}

struct AlwaysReject;

impl PlanApprover for AlwaysReject {
    fn approve(&self, _: &Plan) -> Approval {
        Approval::Rejected
    }
}

struct CancelsWhileWaiting;

impl PlanApprover for CancelsWhileWaiting {
    fn approve(&self, _: &Plan) -> Approval {
        Approval::Cancelled
    }
}

struct Host {
    events: RefCell<Vec<AgentEvent>>,
    cancelled: bool,
}

impl Host {
    fn new() -> Self {
        Self { events: RefCell::new(Vec::new()), cancelled: false }
    }

    fn has(&self, needle: &str) -> bool {
        self.events.borrow().iter().any(|e| format!("{e:?}").contains(needle))
    }
}

impl RunHost for Host {
    fn emit(&self, event: AgentEvent) {
        self.events.borrow_mut().push(event);
    }

    fn is_cancelled(&self) -> bool {
        self.cancelled
    }
}

struct Snapshots {
    statuses: RefCell<Vec<AutoStatus>>,
    in_flight: RefCell<Vec<Option<String>>>,
}

impl Snapshots {
    fn new() -> Self {
        Self { statuses: RefCell::new(Vec::new()), in_flight: RefCell::new(Vec::new()) }
    }
}

impl AutoStateListener for Snapshots {
    fn on_state(&self, run: &AutoRun) {
        self.statuses.borrow_mut().push(run.status);
        self.in_flight.borrow_mut().push(run.current_worker.as_ref().map(|w| w.id.clone()));
    }
}

fn no_listener() -> Option<Snapshots> {
    None
}

fn run<G: PlanGenerator, W: WorkerRunner, A: PlanApprover, L: AutoStateListener, H: RunHost>(
    config: ExecutorConfig,
    host: &H,
    plan_gen: &G,
    worker_runner: &W,
    approver: &A,
    listener: &Option<L>,
) -> AutoResult {
    let mut board =
        Switchboard::new(Company { host, plan_gen, worker_runner, approver, listener });
    executor::run(config, &mut board)
}

fn plan(version: u32, ids: &[&str]) -> Plan {
    Plan {
        version,
        reasoning: format!("plan v{version}"),
        workers: ids
            .iter()
            .map(|id| WorkerSpec {
                id: (*id).into(),
                model: "test-model".into(),
                prompt: format!("task for {id}"),
                see_prior: SeePrior::Keyword(SeePriorKeyword::Nothing),
            })
            .collect(),
    }
}

fn worker_ok(id: &str, summary: &str) -> WorkerResult {
    WorkerResult {
        id: id.into(),
        model: "test-model".into(),
        prompt: "p".into(),
        summary: summary.into(),
        tool_count: 1,
        cost_cents: 5,
        status: WorkerStatus::Completed,
    }
}

fn worker_fail(id: &str, kind: WorkerStatus) -> WorkerResult {
    WorkerResult {
        id: id.into(),
        model: "test-model".into(),
        prompt: "p".into(),
        summary: format!("worker {id} failed"),
        tool_count: 0,
        cost_cents: 1,
        status: kind,
    }
}

fn cfg(replan_budget: u32) -> ExecutorConfig {
    ExecutorConfig {
        task: "test task".into(),
        auto_run_id: "auto-run-test".into(),
        session_id: "sess-test".into(),
        worker_pool: vec![WorkerPoolEntry {
            provider_id: "anthropic".into(),
            model: "test-model".into(),
            description: "the only worker".into(),
        }],
        replan_budget,
        resume_from: None,
        start_at_worker_id: None,
        initial_replan_reason: None,
    }
}

fn snapshot(version: u32, ids: &[&str], done: &[&str]) -> AutoRun {
    AutoRun {
        id: "auto-run-test".into(),
        session_id: "sess-test".into(),
        status: AutoStatus::AwaitingFailureDecision,
        plan_versions: vec![plan(version, ids)],
        worker_results: done.iter().map(|id| worker_ok(id, "done")).collect(),
        cost_cents: 5,
        replans_used: 0,
        current_worker: None,
        pending_failure: Some(WorkerFailureContext {
            worker_id: "w2".into(),
            worker_model: "test-model".into(),
            worker_prompt: "p".into(),
            error_message: "it broke".into(),
        }),
    }
}

#[test]
fn happy_path_all_workers_ok_yields_autodone() {
    let plan_gen = MockPlanGen::new(vec![Ok(plan(1, &["w1", "w2"]))]);
    let runner = MockRunner::new();
    runner.enqueue("w1", worker_ok("w1", "explored 12 files"));
    runner.enqueue("w2", worker_ok("w2", "synthesized result"));
    let host = Host::new();

    let result = run(cfg(2), &host, &plan_gen, &runner, &AutoApprove, &no_listener());

    match result {
        AutoResult::Done { ref summary, ref run } => {
            assert!(summary.contains("synthesized"), "summary={summary}");
            assert_eq!(run.status, AutoStatus::Done);
            assert_eq!(run.worker_results.len(), 2);
            assert_eq!(run.replans_used, 0);
            assert_eq!(run.plan_versions.len(), 1);
            assert_eq!(run.cost_cents, 10);
        }
        other => panic!("expected Done, got {other:?}"),
    }
    assert_eq!(plan_gen.call_count(), 1, "no replans expected on happy path");
    assert_eq!(runner.invocations(), vec!["w1", "w2"]);
    assert_eq!(*runner.priors.borrow(), vec![0, 1]);

    assert!(host.has("AutoPlanning"));
    assert!(host.has("AutoPlan {"));
    assert!(host.has("AutoAwaitingApproval"));
    assert!(host.has("AutoDone"));
    assert!(!host.has("AutoReplan"), "no replan expected");
    assert!(!host.has("AutoFailed"), "no failure expected");
}

#[test]
fn worker_hard_failure_triggers_replan_then_succeeds() {
    let plan_gen =
        MockPlanGen::new(vec![Ok(plan(1, &["w1", "w2"])), Ok(plan(2, &["w2_retry"]))]);
    let runner = MockRunner::new();
    runner.enqueue("w1", worker_ok("w1", "step 1 done"));
    runner.enqueue("w2", worker_fail("w2", WorkerStatus::MaxIterations));
    runner.enqueue("w2_retry", worker_ok("w2_retry", "step 2 recovered"));
    let host = Host::new();

    let result = run(cfg(2), &host, &plan_gen, &runner, &AutoApprove, &no_listener());

    assert!(
        matches!(result, AutoResult::Done { .. }),
        "expected Done after successful replan, got {result:?}"
    );
    assert_eq!(plan_gen.call_count(), 2);
    assert_eq!(runner.invocations(), vec!["w1", "w2", "w2_retry"]);
    let auto_run = match &result {
        AutoResult::Done { run, .. } => run,
        _ => unreachable!(),
    };
    assert_eq!(auto_run.replans_used, 1);
    assert_eq!(auto_run.plan_versions.len(), 2);
    assert_eq!(auto_run.worker_results.len(), 2);
    assert_eq!(auto_run.cost_cents, 11);
    assert!(host.events.borrow().iter().any(|e| matches!(e, AgentEvent::AutoReplan { .. })));
    assert_eq!(
        *plan_gen.reasons.borrow(),
        vec![
            None,
            Some("worker w2 (test-model) failed [max_iterations]: worker w2 failed".to_string())
        ]
    );
    // Only the initial plan waits for approval.
    let waits = host
        .events
        .borrow()
        .iter()
        .filter(|e| matches!(e, AgentEvent::AutoAwaitingApproval { .. }))
        .count();
    assert_eq!(waits, 1);
}

#[test]
fn replan_budget_exhaustion_yields_autofailed() {
    let plan_gen = MockPlanGen::new(vec![Ok(plan(1, &["w1"])), Ok(plan(2, &["w1_retry"]))]);
    let runner = MockRunner::new();
    runner.enqueue("w1", worker_fail("w1", WorkerStatus::ToolError { message: "boom".into() }));
    runner.enqueue(
        "w1_retry",
        worker_fail("w1_retry", WorkerStatus::ToolError { message: "still boom".into() }),
    );
    let host = Host::new();

    let result = run(cfg(1), &host, &plan_gen, &runner, &AutoApprove, &no_listener());

    match &result {
        AutoResult::Failed { reason, run } => {
            assert!(
                reason.contains("w1_retry"),
                "reason should mention the last failed worker: {reason}"
            );
            assert_eq!(run.replans_used, 1, "budget=1 means exactly 1 replan attempted");
            assert_eq!(run.plan_versions.len(), 2);
            assert_eq!(run.status, AutoStatus::AwaitingFailureDecision);
            assert!(
                run.pending_failure.is_some(),
                "pending_failure must be populated for user recovery"
            );
        }
        other => panic!("expected Failed, got {other:?}"),
    }
    assert!(host
        .events
        .borrow()
        .iter()
        .any(|e| matches!(e, AgentEvent::AutoAwaitingFailureDecision { .. })));
}

#[test]
fn zero_replan_budget_fails_immediately_on_worker_failure() {
    let plan_gen = MockPlanGen::new(vec![Ok(plan(1, &["w1"]))]);
    let runner = MockRunner::new();
    runner.enqueue("w1", worker_fail("w1", WorkerStatus::LlmError { message: "5xx".into() }));

    let result = run(cfg(0), &Host::new(), &plan_gen, &runner, &AutoApprove, &no_listener());

    match result {
        AutoResult::Failed { run, .. } => {
            assert_eq!(run.replans_used, 0);
            assert_eq!(run.plan_versions.len(), 1);
            assert_eq!(run.status, AutoStatus::AwaitingFailureDecision);
            assert!(run.pending_failure.is_some());
        }
        other => panic!("expected immediate Failed with budget=0, got {other:?}"),
    }
}

#[test]
fn user_rejects_plan_yields_failed_with_rejection_reason() {
    let plan_gen = MockPlanGen::new(vec![Ok(plan(1, &["w1"]))]);
    let runner = MockRunner::new();
    let host = Host::new();

    let result = run(cfg(2), &host, &plan_gen, &runner, &AlwaysReject, &no_listener());

    match result {
        AutoResult::Failed { reason, run } => {
            assert!(reason.contains("rejected"), "reason: {reason}");
            assert_eq!(run.plan_versions.len(), 1, "plan was still generated and emitted");
            assert!(run.worker_results.is_empty(), "no workers should run if rejected");
        }
        other => panic!("expected Failed on plan rejection, got {other:?}"),
    }
    assert!(runner.invocations().is_empty(), "runner must not be invoked on rejection");
    assert!(host.events.borrow().iter().any(|e| matches!(e, AgentEvent::AutoFailed { .. })));
}

#[test]
fn retry_target_worker_id_missing_from_plan_fails_loudly() {
    let saved_plan = plan(1, &["w1", "w2"]);
    let saved_snapshot = AutoRun {
        id: "auto-run-test".into(),
        session_id: "sess-test".into(),
        status: AutoStatus::AwaitingFailureDecision,
        plan_versions: vec![saved_plan],
        worker_results: vec![worker_ok("w1", "done")],
        cost_cents: 5,
        replans_used: 0,
        current_worker: None,
        pending_failure: None,
    };
    let plan_gen = MockPlanGen::new(vec![]);
    let runner = MockRunner::new();

    let mut config = cfg(2);
    config.resume_from = Some(saved_snapshot);
    config.start_at_worker_id = Some("w-does-not-exist".into());

    let result = run(config, &Host::new(), &plan_gen, &runner, &AutoApprove, &no_listener());

    match result {
        AutoResult::Failed { reason, .. } => {
            assert!(
                reason.contains("w-does-not-exist"),
                "reason must name the missing id: {reason}"
            );
            assert!(reason.contains("not found"), "reason must say not found: {reason}");
            assert_eq!(
                reason,
                "Retry target worker id `w-does-not-exist` not found in saved plan (plan has: w1, w2)"
            );
        }
        other => panic!("expected Failed on missing retry target, got {other:?}"),
    }
    assert!(
        runner.invocations().is_empty(),
        "no worker should run when retry target is missing"
    );
    assert_eq!(plan_gen.call_count(), 0, "orchestrator must not be called on a resume");
}

#[test]
fn orchestrator_error_yields_failed_no_replan() {
    let plan_gen = MockPlanGen::new(vec![Err(OrchestratorError::Parse {
        attempts: 3,
        message: "all parse attempts failed".into(),
    })]);
    let runner = MockRunner::new();

    let result = run(cfg(2), &Host::new(), &plan_gen, &runner, &AutoApprove, &no_listener());

    match result {
        AutoResult::Failed { reason, run } => {
            assert!(reason.contains("orchestrator error"), "reason: {reason}");
            assert!(run.plan_versions.is_empty(), "no plan was produced");
            assert_eq!(run.replans_used, 0);
            assert_eq!(
                reason,
                "orchestrator error: orchestrator returned an unparseable plan after 3 attempt(s); last error: all parse attempts failed"
            );
        }
        other => panic!("expected Failed on orchestrator error, got {other:?}"),
    }
    assert!(runner.invocations().is_empty());
}

#[test]
fn cancel_during_worker_run_yields_cancelled() {
    let plan_gen = MockPlanGen::new(vec![Ok(plan(1, &["w1", "w2"]))]);
    let runner = MockRunner::new();
    runner.enqueue("w1", worker_fail("w1", WorkerStatus::Cancelled));

    let result = run(cfg(2), &Host::new(), &plan_gen, &runner, &AutoApprove, &no_listener());

    match result {
        AutoResult::Cancelled { run, phase } => {
            assert_eq!(run.status, AutoStatus::Cancelled);
            assert_eq!(run.worker_results.len(), 1, "only w1 ran before cancel");
            assert_eq!(runner.invocations(), vec!["w1"]);
            assert!(
                phase.starts_with("Worker w1"),
                "phase should name the cancelled worker, got {phase:?}"
            );
        }
        other => panic!("expected Cancelled, got {other:?}"),
    }
}

#[test]
fn cancel_during_second_worker_preserves_prior_success() {
    let plan_gen = MockPlanGen::new(vec![Ok(plan(1, &["w1", "w2"]))]);
    let runner = MockRunner::new();
    runner.enqueue("w1", worker_ok("w1", "explored the repo"));
    runner.enqueue("w2", worker_fail("w2", WorkerStatus::Cancelled));

    let result = run(cfg(2), &Host::new(), &plan_gen, &runner, &AutoApprove, &no_listener());

    match result {
        AutoResult::Cancelled { run, phase } => {
            assert_eq!(run.status, AutoStatus::Cancelled);
            assert_eq!(run.worker_results.len(), 2, "w1 Ok + w2 Cancelled both recorded");
            assert_eq!(run.worker_results[0].id, "w1");
            assert_eq!(run.worker_results[0].status, WorkerStatus::Completed);
            assert_eq!(run.worker_results[1].id, "w2");
            assert_eq!(run.worker_results[1].status, WorkerStatus::Cancelled);
            assert!(
                phase.starts_with("Worker w2"),
                "phase should name w2 (the cancelled one), got {phase:?}"
            );
            assert_eq!(runner.invocations(), vec!["w1", "w2"]);
        }
        other => panic!("expected Cancelled, got {other:?}"),
    }
}

#[test]
fn cancel_token_fired_before_orchestrator_yields_cancelled() {
    let plan_gen = MockPlanGen::new(vec![Ok(plan(1, &["w1"]))]);
    let runner = MockRunner::new();
    let mut host = Host::new();
    host.cancelled = true;

    let result = run(cfg(2), &host, &plan_gen, &runner, &AutoApprove, &no_listener());

    match result {
        AutoResult::Cancelled { run, phase } => {
            assert!(run.plan_versions.is_empty(), "no plan should be generated");
            assert_eq!(phase, "Planning v1", "first-plan cancel should tag Planning v1");
        }
        other => panic!("expected Cancelled with pre-fired token, got {other:?}"),
    }
    assert_eq!(plan_gen.call_count(), 0, "orchestrator must not be called when cancelled");
}

#[test]
fn cancel_while_plan_waits_names_the_plan() {
    let plan_gen = MockPlanGen::new(vec![Ok(plan(1, &["w1"]))]);
    let runner = MockRunner::new();
    let result =
        run(cfg(0), &Host::new(), &plan_gen, &runner, &CancelsWhileWaiting, &no_listener());
    match result {
        AutoResult::Cancelled { run, phase } => {
            assert_eq!(phase, "Approval for plan v1");
            assert_eq!(run.plan_versions.len(), 1);
        }
        other => panic!("expected Cancelled, got {other:?}"),
    }
}

#[test]
fn orchestrator_cancelled_ends_as_cancelled() {
    let plan_gen = MockPlanGen::new(vec![Err(OrchestratorError::Cancelled)]);
    let result =
        run(cfg(0), &Host::new(), &plan_gen, &MockRunner::new(), &AutoApprove, &no_listener());
    match result {
        AutoResult::Cancelled { phase, .. } => assert_eq!(phase, "Planning v1"),
        other => panic!("expected Cancelled, got {other:?}"),
    }
}

#[test]
fn retry_runs_the_failed_worker_and_those_behind_it() {
    let plan_gen = MockPlanGen::new(vec![]);
    let runner = MockRunner::new();
    let mut config = cfg(0);
    config.resume_from = Some(snapshot(1, &["w1", "w2", "w3"], &["w1"]));
    config.start_at_worker_id = Some("w2".into());

    let result = run(config, &Host::new(), &plan_gen, &runner, &AutoApprove, &no_listener());

    match result {
        AutoResult::Done { summary, run } => {
            assert_eq!(runner.invocations(), vec!["w2", "w3"]);
            assert_eq!(summary, "ok: task for w3");
            assert_eq!(run.worker_results.len(), 3);
            assert_eq!(run.plan_versions.len(), 1);
            assert!(run.pending_failure.is_none());
        }
        other => panic!("expected Done, got {other:?}"),
    }
}

#[test]
fn replan_after_failure_tells_the_orchestrator_why() {
    let plan_gen = MockPlanGen::new(vec![Ok(plan(2, &["w9"]))]);
    let runner = MockRunner::new();
    let host = Host::new();
    let mut config = cfg(0);
    config.resume_from = Some(snapshot(1, &["w1", "w2"], &["w1"]));
    config.initial_replan_reason = Some("it broke".into());

    let result = run(config, &host, &plan_gen, &runner, &AutoApprove, &no_listener());

    assert!(matches!(result, AutoResult::Done { .. }));
    assert_eq!(*plan_gen.reasons.borrow(), vec![Some("it broke".to_string())]);
    assert_eq!(runner.invocations(), vec!["w9"]);
    assert!(!host.has("AutoAwaitingApproval"), "a later plan is executed at once");
}

/// Notes what each request carries, and gives the next plan.
struct RequestLog {
    queue: RefCell<Vec<Plan>>,
    requests: RefCell<Vec<(u32, String, bool, Vec<String>)>>,
}

impl PlanGenerator for RequestLog {
    fn generate(&self, req: &OrchestratorRequest<'_>) -> Result<Plan, OrchestratorError> {
        self.requests.borrow_mut().push((
            req.plan_version,
            req.task.to_string(),
            req.replan_reason.is_some(),
            req.prior_results.iter().map(|r| r.summary.clone()).collect(),
        ));
        Ok(self.queue.borrow_mut().remove(0))
    }
}

/// Notes what each worker is shown; workers whose id begins with `x` fail.
struct PriorLog {
    shown: RefCell<Vec<(String, Vec<String>)>>,
}

impl WorkerRunner for PriorLog {
    fn run(&self, spec: &WorkerSpec, prior: &[WorkerResult]) -> WorkerResult {
        let seen = prior.iter().map(|r| r.summary.clone()).collect();
        self.shown.borrow_mut().push((spec.id.clone(), seen));
        if spec.id.starts_with('x') {
            worker_fail(&spec.id, WorkerStatus::MaxIterations)
        } else {
            worker_ok(&spec.id, &format!("did {}", spec.id))
        }
    }
}

#[test]
fn requests_and_workers_carry_what_was_done_across_replans() {
    let plan_gen = RequestLog {
        queue: RefCell::new(vec![
            plan(1, &["w1", "x2", "w3"]),
            plan(2, &["w4", "x5"]),
            plan(3, &["w6", "w7"]),
        ]),
        requests: RefCell::new(Vec::new()),
    };
    let runner = PriorLog { shown: RefCell::new(Vec::new()) };
    let result = run(cfg(2), &Host::new(), &plan_gen, &runner, &AutoApprove, &no_listener());
    let strings = |v: &[&str]| -> Vec<String> { v.iter().map(|s| s.to_string()).collect() };
    assert_eq!(
        *plan_gen.requests.borrow(),
        vec![
            (1, "test task".to_string(), false, strings(&[])),
            (2, "test task".to_string(), true, strings(&["did w1"])),
            (3, "test task".to_string(), true, strings(&["did w1", "did w4"])),
        ]
    );
    assert_eq!(
        *runner.shown.borrow(),
        vec![
            ("w1".to_string(), strings(&[])),
            ("x2".to_string(), strings(&["did w1"])),
            ("w4".to_string(), strings(&["did w1"])),
            ("x5".to_string(), strings(&["did w1", "did w4"])),
            ("w6".to_string(), strings(&["did w1", "did w4"])),
            ("w7".to_string(), strings(&["did w1", "did w4", "did w6"])),
        ]
    );
    match result {
        AutoResult::Done { run, .. } => {
            let kept: Vec<String> = run.worker_results.iter().map(|r| r.id.clone()).collect();
            assert_eq!(kept, strings(&["w1", "w4", "w6", "w7"]));
            assert_eq!(run.replans_used, 2);
        }
        other => panic!("expected Done, got {other:?}"),
    }
}

#[test]
fn resumed_run_shows_the_saved_results_first() {
    let plan_gen =
        RequestLog { queue: RefCell::new(vec![plan(6, &["w9"])]), requests: RefCell::new(Vec::new()) };
    let runner = PriorLog { shown: RefCell::new(Vec::new()) };
    let mut config = cfg(1);
    config.resume_from = Some(snapshot(5, &["w1", "x2"], &["w1"]));
    config.start_at_worker_id = Some("x2".into());
    let result = run(config, &Host::new(), &plan_gen, &runner, &AutoApprove, &no_listener());
    assert!(matches!(result, AutoResult::Done { .. }));
    assert_eq!(
        *plan_gen.requests.borrow(),
        vec![(6, "test task".to_string(), true, vec!["done".to_string()])]
    );
    assert_eq!(
        *runner.shown.borrow(),
        vec![
            ("x2".to_string(), vec!["done".to_string()]),
            ("w9".to_string(), vec!["done".to_string()]),
        ]
    );
}

/// Notes every call, whoever it is for, in one list.
struct CallLog {
    calls: RefCell<Vec<String>>,
}

impl CallLog {
    fn note(&self, call: String) {
        self.calls.borrow_mut().push(call);
    }
}

impl RunHost for CallLog {
    fn emit(&self, event: AgentEvent) {
        let name = format!("{event:?}");
        self.note(format!("emit {}", name.split(' ').next().unwrap()));
    }

    fn is_cancelled(&self) -> bool {
        self.note("poll".into());
        false
    }
}

impl PlanGenerator for CallLog {
    fn generate(&self, req: &OrchestratorRequest<'_>) -> Result<Plan, OrchestratorError> {
        self.note(format!("plan {}", req.plan_version));
        Ok(plan(req.plan_version, &["w1"]))
    }
}

impl WorkerRunner for CallLog {
    fn run(&self, spec: &WorkerSpec, _: &[WorkerResult]) -> WorkerResult {
        self.note(format!("work {}", spec.id));
        worker_ok(&spec.id, "s")
    }
}

impl PlanApprover for CallLog {
    fn approve(&self, plan: &Plan) -> Approval {
        self.note(format!("approve {}", plan.version));
        Approval::Approved
    }
}

struct Listens<'a>(&'a CallLog);

impl AutoStateListener for Listens<'_> {
    fn on_state(&self, run: &AutoRun) {
        self.0.note(format!("show {:?}", run.status));
    }
}

#[test]
fn every_call_is_made_once_and_in_order() {
    let log = CallLog { calls: RefCell::new(Vec::new()) };
    let listener = Some(Listens(&log));
    let result = run(cfg(0), &log, &log, &log, &log, &listener);
    assert!(matches!(result, AutoResult::Done { .. }));
    assert_eq!(
        *log.calls.borrow(),
        vec![
            "emit AutoPlanning",
            "show Planning",
            "poll",
            "plan 1",
            "show Planning",
            "emit AutoPlan",
            "show AwaitingApproval",
            "emit AutoAwaitingApproval",
            "approve 1",
            "show Running",
            "poll",
            "show Running",
            "work w1",
            "show Running",
            "show Done",
            "emit AutoDone",
        ]
    );
}

#[test]
fn listener_sees_every_change_in_order() {
    let plan_gen = MockPlanGen::new(vec![Ok(plan(1, &["w1"]))]);
    let listener = Some(Snapshots::new());
    let result =
        run(cfg(0), &Host::new(), &plan_gen, &MockRunner::new(), &AutoApprove, &listener);
    assert!(matches!(result, AutoResult::Done { .. }));
    let l = listener.unwrap();
    assert_eq!(
        *l.statuses.borrow(),
        vec![
            AutoStatus::Planning,
            AutoStatus::Planning,
            AutoStatus::AwaitingApproval,
            AutoStatus::Running,
            AutoStatus::Running,
            AutoStatus::Running,
            AutoStatus::Done,
        ]
    );
    assert_eq!(l.in_flight.borrow()[4], Some("w1".to_string()));
    assert_eq!(l.in_flight.borrow()[5], None);
}

#[test]
fn cost_stops_at_the_largest_number() {
    let plan_gen = MockPlanGen::new(vec![Ok(plan(1, &["w1", "w2"]))]);
    let runner = MockRunner::new();
    let mut big = worker_ok("w1", "a");
    big.cost_cents = u32::MAX;
    runner.enqueue("w1", big);
    runner.enqueue("w2", worker_ok("w2", "b"));
    match run(cfg(0), &Host::new(), &plan_gen, &runner, &AutoApprove, &no_listener()) {
        AutoResult::Done { run, .. } => assert_eq!(run.cost_cents, u32::MAX),
        other => panic!("expected Done, got {other:?}"),
    }
}

#[test]
fn empty_plan_is_done_at_once() {
    let plan_gen = MockPlanGen::new(vec![Ok(plan(1, &[]))]);
    match run(cfg(0), &Host::new(), &plan_gen, &MockRunner::new(), &AutoApprove, &no_listener()) {
        AutoResult::Done { summary, .. } => assert_eq!(summary, "Auto task complete."),
        other => panic!("expected Done, got {other:?}"),
    }
}

#[test]
fn failure_names_worker_status_and_summary() {
    let plan_gen = MockPlanGen::new(vec![Ok(plan(1, &["w1"]))]);
    let runner = MockRunner::new();
    let mut f = worker_fail("w1", WorkerStatus::ToolError { message: "x".into() });
    f.summary = "é".repeat(300);
    runner.enqueue("w1", f);
    match run(cfg(0), &Host::new(), &plan_gen, &runner, &AutoApprove, &no_listener()) {
        AutoResult::Failed { reason, run } => {
            let want = format!("worker w1 (test-model) failed [tool_error]: {}…", "é".repeat(240));
            assert_eq!(reason, want);
            let p = run.pending_failure.unwrap();
            assert_eq!(p.worker_id, "w1");
            assert_eq!(p.worker_prompt, "task for w1");
            assert_eq!(p.error_message, want);
            assert!(run.worker_results.is_empty());
            assert!(run.current_worker.is_none());
        }
        other => panic!("expected Failed, got {other:?}"),
    }
}

#[test]
fn steps_ask_in_turn() {
    let (mut e, step) = Executor::start(cfg(0));
    assert!(matches!(step.action, Action::PollCancel));
    assert_eq!(e.stage(), Stage::PollPlanning);
    assert_eq!(step.effects.len(), 2);
    assert!(matches!(&step.effects[0], Effect::Emit(AgentEvent::AutoPlanning { .. })));
    assert!(matches!(&step.effects[1], Effect::Notify(_)));
    let step = e.on_polled(false);
    assert!(matches!(step.action, Action::Generate));
    assert_eq!(e.plan_request().plan_version, 1);
    assert_eq!(e.plan_request().task, "test task");
    let step = e.on_plan(Ok(plan(1, &["w1"])));
    assert!(matches!(step.action, Action::Approve));
    assert_eq!(e.plan().workers.len(), 1);
    let step = e.on_approval(Approval::Approved);
    assert!(matches!(step.action, Action::PollCancel));
    let step = e.on_polled(false);
    assert!(matches!(step.action, Action::RunWorker));
    assert_eq!(e.worker().id, "w1");
    assert!(e.prior_results().is_empty());
    let step = e.on_worker(worker_ok("w1", "s"));
    assert!(matches!(step.action, Action::Finish(AutoResult::Done { .. })));
    assert_eq!(e.stage(), Stage::Finished);
}

#[test]
fn versions_that_do_not_fit_are_seen() {
    assert!(cfg(0).versions_fit());
    assert!(cfg(u32::MAX - 1).versions_fit());
    assert!(!cfg(u32::MAX).versions_fit());
    let mut c = cfg(0);
    c.resume_from = Some(snapshot(u32::MAX, &["w1"], &[]));
    assert!(c.versions_fit());
    c.initial_replan_reason = Some("r".into());
    assert!(!c.versions_fit());
}

#[test]
fn small_labels() {
    assert_eq!(status_label(&WorkerStatus::Completed), "ok");
    assert_eq!(status_label(&WorkerStatus::MaxIterations), "max_iterations");
    assert_eq!(status_label(&WorkerStatus::ToolError { message: String::new() }), "tool_error");
    assert_eq!(status_label(&WorkerStatus::LlmError { message: String::new() }), "llm_error");
    assert_eq!(status_label(&WorkerStatus::Cancelled), "cancelled");
    assert_eq!(truncate("abc", 3), "abc");
    assert_eq!(truncate("abcd", 3), "abc…");
    let mut run = snapshot(1, &["w1"], &[]);
    assert_eq!(planning_phase_label(&run), "Replanning v2");
    run.plan_versions.clear();
    assert_eq!(planning_phase_label(&run), "Planning v1");
}
