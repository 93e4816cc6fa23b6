//! The executor: drives a task from a plan through its workers to a result.
//!
//! The executor itself makes no outside call. It is a state machine: each step
//! takes the answer to the last request, says what to emit and to save, and
//! names the next request. [`run`] is the loop that serves those requests.

use vstd::prelude::*;
use vstd::string::*;
use crate::auto::company::{
    all_passed_on, deeds_of, said_approval, said_cancelled, said_plan, said_result, Company,
    DeedView, Switchboard,
};
use crate::auto::orchestrator::{
    OrchestratorError, OrchestratorErrorView, OrchestratorRequest, OrchestratorRequestView,
};
use crate::auto::types::{
    AutoResult, AutoResultView, AutoRun, AutoRunView, AutoStatus, Plan, PlanView,
    WorkerFailureContext, WorkerFailureContextView, WorkerPoolEntry, WorkerPoolEntryView,
    WorkerResult, WorkerResultView, WorkerSpec, WorkerSpecView, WorkerStatus, WorkerStatusView,
};
use crate::text::{
    decimal, dec, deep, dup_opt, dup_vec, join, joined, lemma_deep_push, opt, same_text,
    take_chars, taken, Dup,
};
use crate::types::{AgentEvent, AgentEventView};

verus! {

broadcast use lemma_deep_push;

/// What a run is asked to do.
#[derive(Clone, Debug, PartialEq)]
pub struct ExecutorConfig {
    pub task: String,
    pub auto_run_id: String,
    pub session_id: String,
    pub worker_pool: Vec<WorkerPoolEntry>,
    /// How often a failing plan may be replaced without asking the user.
    pub replan_budget: u32,
    /// The saved run to go on with; its last plan is executed before a new one is
    /// asked for.
    pub resume_from: Option<AutoRun>,
    /// Where in the first plan to begin.
    pub start_at_worker_id: Option<String>,
    /// Why the saved plan is to be replaced rather than executed.
    pub initial_replan_reason: Option<String>,
}

/// What an [`ExecutorConfig`] stands for.
#[verifier::ext_equal]
pub struct ExecutorConfigView {
    pub task: Seq<char>,
    pub auto_run_id: Seq<char>,
    pub session_id: Seq<char>,
    pub worker_pool: Seq<WorkerPoolEntryView>,
    pub replan_budget: u32,
    pub resume_from: Option<AutoRunView>,
    pub start_at_worker_id: Option<Seq<char>>,
    pub initial_replan_reason: Option<Seq<char>>,
}

impl View for ExecutorConfig {
    type V = ExecutorConfigView;

    open spec fn view(&self) -> ExecutorConfigView {
        ExecutorConfigView {
            task: self.task@,
            auto_run_id: self.auto_run_id@,
            session_id: self.session_id@,
            worker_pool: deep(self.worker_pool@),
            replan_budget: self.replan_budget,
            resume_from: opt(self.resume_from),
            start_at_worker_id: opt(self.start_at_worker_id),
            initial_replan_reason: opt(self.initial_replan_reason),
        }
    }
}

impl Dup for ExecutorConfig {
    fn dup(&self) -> (r: Self) {
        ExecutorConfig {
            task: self.task.clone(),
            auto_run_id: self.auto_run_id.clone(),
            session_id: self.session_id.clone(),
            worker_pool: dup_vec(&self.worker_pool),
            replan_budget: self.replan_budget,
            resume_from: dup_opt(&self.resume_from),
            start_at_worker_id: dup_opt(&self.start_at_worker_id),
            initial_replan_reason: dup_opt(&self.initial_replan_reason),
        }
    }
}

/// Something the executor tells its surroundings.
#[derive(Clone, Debug, PartialEq)]
pub enum Effect {
    Emit(AgentEvent),
    Notify(AutoRun),
}

/// What an [`Effect`] stands for.
#[verifier::ext_equal]
pub enum EffectView {
    Emit(AgentEventView),
    Notify(AutoRunView),
}

impl View for Effect {
    type V = EffectView;

    open spec fn view(&self) -> EffectView {
        match self {
            Effect::Emit(x) => EffectView::Emit(x@),
            Effect::Notify(x) => EffectView::Notify(x@),
        }
    }
}

impl Dup for Effect {
    fn dup(&self) -> (r: Self) {
        match self {
            Effect::Emit(x) => Effect::Emit(x.dup()),
            Effect::Notify(x) => Effect::Notify(x.dup()),
        }
    }
}

/// What the executor waits for.
#[derive(Clone, Copy, Debug, PartialEq, Eq, Structural)]
pub enum Stage {
    /// Whether the user cancelled, before the orchestrator is asked.
    PollPlanning,
    /// The orchestrator's plan.
    Planning,
    /// The user's approval of the plan.
    Approving,
    /// Whether the user cancelled, before a worker is started.
    PollWorker,
    /// The worker's result.
    Working,
    /// Nothing: the run has ended.
    Finished,
}

/// What the executor asks for next.
pub enum Action {
    /// Say whether the user has cancelled.
    PollCancel,
    /// Ask the orchestrator for a plan, with [`Executor::plan_request`].
    Generate,
    /// Have the user approve [`Executor::plan`].
    Approve,
    /// Run the worker [`Executor::worker`] on top of [`Executor::prior_results`].
    RunWorker,
    /// Nothing more: this is how the run ended.
    Finish(AutoResult),
}

/// What an [`Action`] stands for.
#[verifier::ext_equal]
pub enum ActionView {
    PollCancel,
    Generate,
    Approve,
    RunWorker,
    Finish(AutoResultView),
}

impl View for Action {
    type V = ActionView;

    open spec fn view(&self) -> ActionView {
        match self {
            Action::PollCancel => ActionView::PollCancel,
            Action::Generate => ActionView::Generate,
            Action::Approve => ActionView::Approve,
            Action::RunWorker => ActionView::RunWorker,
            Action::Finish(r) => ActionView::Finish(r@),
        }
    }
}

/// The answer to a request for approval.
#[derive(Clone, Copy, Debug, PartialEq, Eq, Structural)]
pub enum Approval {
    Approved,
    Rejected,
    /// The user cancelled the run while the plan was waiting.
    Cancelled,
}

/// The executor's state between two requests.
pub struct Executor {
    config: ExecutorConfig,
    run: AutoRun,
    prior: Vec<WorkerResult>,
    version: u32,
    reason: Option<String>,
    start_at: Option<String>,
    stage: Stage,
    plan: Plan,
    next: usize,
    last: Option<String>,
}

/// What an [`Executor`] stands for.
#[verifier::ext_equal]
pub struct ExecutorView {
    pub config: ExecutorConfigView,
    /// The run as it would be saved now.
    pub run: AutoRunView,
    /// What later workers and the orchestrator get to see.
    pub prior: Seq<WorkerResultView>,
    /// The version of the plan that is being made or executed.
    pub version: u32,
    /// Why the orchestrator is asked again.
    pub reason: Option<Seq<char>>,
    /// Where in the next plan to begin, if not at its first worker.
    pub start_at: Option<Seq<char>>,
    pub stage: Stage,
    /// The plan that is being executed.
    pub plan: PlanView,
    /// The worker of the plan whose turn it is.
    pub next: int,
    /// The summary of the last worker that ran in this plan.
    pub last: Option<Seq<char>>,
}

/// A state, what was told on the way there, and what is asked for next.
#[verifier::ext_equal]
pub struct Outcome {
    pub state: ExecutorView,
    pub effects: Seq<EffectView>,
    pub action: ActionView,
}

/// The label of a worker status in messages.
pub open spec fn status_label_of(s: WorkerStatusView) -> Seq<char> {
    match s {
        WorkerStatusView::Completed => "ok"@,
        WorkerStatusView::MaxIterations => "max_iterations"@,
        WorkerStatusView::ToolError { .. } => "tool_error"@,
        WorkerStatusView::LlmError { .. } => "llm_error"@,
        WorkerStatusView::Cancelled => "cancelled"@,
    }
}

pub fn status_label(s: &WorkerStatus) -> (r: &'static str)
    ensures
        r@ == status_label_of(s@),
{
    match s {
        WorkerStatus::Completed => "ok",
        WorkerStatus::MaxIterations => "max_iterations",
        WorkerStatus::ToolError { .. } => "tool_error",
        WorkerStatus::LlmError { .. } => "llm_error",
        WorkerStatus::Cancelled => "cancelled",
    }
}

/// `s`, cut to `max` characters and an ellipsis where it is longer.
pub open spec fn truncated(s: Seq<char>, max: nat) -> Seq<char> {
    if s.len() <= max { s } else { s.take(max as int) + "…"@ }
}

pub fn truncate(s: &str, max: usize) -> (r: String)
    ensures
        r@ == truncated(s@, max as nat),
{
    if s.unicode_len() <= max {
        s.to_owned()
    } else {
        let mut out = take_chars(s, max);
        out.append("…");
        out
    }
}

/// How the planning that a run would do next is called.
pub open spec fn planning_phase(run: AutoRunView) -> Seq<char> {
    let version = dec((run.plan_versions.len() + 1) as nat);
    if run.plan_versions.len() == 0 {
        "Planning v"@ + version
    } else {
        "Replanning v"@ + version
    }
}

pub fn planning_phase_label(run: &AutoRun) -> (r: String)
    ensures
        r@ == planning_phase(run@),
{
    let n: usize = run.plan_versions.len();
    let mut out = if n == 0 {
        "Planning v".to_owned()
    } else {
        "Replanning v".to_owned()
    };
    let version = decimal(n as u128 + 1);
    out.append(version.as_str());
    out
}

/// How the execution of a worker is called.
pub open spec fn worker_phase(w: WorkerSpecView) -> Seq<char> {
    "Worker "@ + w.id + " ("@ + w.model + ")"@
}

fn worker_phase_label(w: &WorkerSpec) -> (r: String)
    ensures
        r@ == worker_phase(w@),
{
    let mut out = "Worker ".to_owned();
    out.append(w.id.as_str());
    out.append(" (");
    out.append(w.model.as_str());
    out.append(")");
    out
}

/// What is recorded of a worker that failed.
pub open spec fn failure_of(w: WorkerSpecView, result: WorkerResultView) -> WorkerFailureContextView {
    WorkerFailureContextView {
        worker_id: w.id,
        worker_model: w.model,
        worker_prompt: w.prompt,
        error_message: "worker "@ + w.id + " ("@ + w.model + ") failed ["@
            + status_label_of(result.status) + "]: "@ + truncated(result.summary, 240),
    }
}

fn failure_context(w: &WorkerSpec, result: &WorkerResult) -> (r: WorkerFailureContext)
    ensures
        r@ == failure_of(w@, result@),
{
    let mut msg = "worker ".to_owned();
    msg.append(w.id.as_str());
    msg.append(" (");
    msg.append(w.model.as_str());
    msg.append(") failed [");
    msg.append(status_label(&result.status));
    msg.append("]: ");
    let tail = truncate(result.summary.as_str(), 240);
    msg.append(tail.as_str());
    WorkerFailureContext {
        worker_id: w.id.clone(),
        worker_model: w.model.clone(),
        worker_prompt: w.prompt.clone(),
        error_message: msg,
    }
}

/// The ids of a plan's workers, in order.
pub open spec fn worker_ids(workers: Seq<WorkerSpecView>) -> Seq<Seq<char>> {
    workers.map_values(|w: WorkerSpecView| w.id)
}

/// Why a run whose starting worker is not in the plan fails.
pub open spec fn missing_target_reason(target: Seq<char>, workers: Seq<WorkerSpecView>) -> Seq<char> {
    "Retry target worker id `"@ + target + "` not found in saved plan (plan has: "@
        + joined(worker_ids(workers), ", "@) + ")"@
}

fn missing_target(target: &str, workers: &Vec<WorkerSpec>) -> (r: String)
    ensures
        r@ == missing_target_reason(target@, deep(workers@)),
{
    let mut ids: Vec<String> = Vec::new();
    let mut i: usize = 0;
    while i < workers.len()
        invariant
            i <= workers@.len(),
            deep(ids@) == worker_ids(deep(workers@)).take(i as int),
        decreases workers@.len() - i,
    {
        let id = workers[i].id.clone();
        assert(id@ == worker_ids(deep(workers@))[i as int]);
        ids.push(id);
        i += 1;
        assert(deep(ids@) =~= worker_ids(deep(workers@)).take(i as int));
    }
    assert(deep(ids@) =~= worker_ids(deep(workers@)));
    let list = join(&ids, ", ");
    let mut out = "Retry target worker id `".to_owned();
    out.append(target);
    out.append("` not found in saved plan (plan has: ");
    out.append(list.as_str());
    out.append(")");
    out
}

/// Whether the worker at `i` is the first one called `id`.
pub open spec fn first_worker(workers: Seq<WorkerSpecView>, id: Seq<char>, i: int) -> bool {
    &&& 0 <= i < workers.len()
    &&& workers[i].id == id
    &&& forall|j: int| 0 <= j < i ==> (#[trigger] workers[j]).id != id
}

/// The position of the first worker called `id`.
pub open spec fn position_of(workers: Seq<WorkerSpecView>, id: Seq<char>) -> Option<int> {
    if exists|i: int| first_worker(workers, id, i) {
        Some(choose|i: int| first_worker(workers, id, i))
    } else {
        None
    }
}

fn worker_position(workers: &Vec<WorkerSpec>, id: &str) -> (r: Option<usize>)
    ensures
        match r {
            Some(i) => position_of(deep(workers@), id@) == Some(i as int) && i < workers@.len(),
            None => position_of(deep(workers@), id@) is None,
        },
{
    let ghost ws = deep(workers@);
    let mut i: usize = 0;
    while i < workers.len()
        invariant
            ws == deep(workers@),
            i <= workers@.len(),
            forall|j: int| 0 <= j < i ==> (#[trigger] ws[j]).id != id@,
        decreases workers@.len() - i,
    {
        if same_text(workers[i].id.as_str(), id) {
            assert(ws[i as int].id == id@);
            assert(first_worker(ws, id@, i as int));
            assert forall|k: int| first_worker(ws, id@, k) implies k == i by {
                if k < i {
                    assert(ws[k].id != id@);
                }
            }
            return Some(i);
        }
        assert(ws[i as int].id != id@);
        i += 1;
    }
    None
}

impl ExecutorConfigView {
    /// The saved run to go on with, or a fresh one.
    pub open spec fn initial_run(self) -> AutoRunView {
        match self.resume_from {
            Some(run) => run,
            None => AutoRunView {
                id: self.auto_run_id,
                session_id: self.session_id,
                status: AutoStatus::Planning,
                plan_versions: Seq::empty(),
                worker_results: Seq::empty(),
                cost_cents: 0,
                replans_used: 0,
                current_worker: None,
                pending_failure: None,
            },
        }
    }

    /// The plan that is executed without asking the orchestrator.
    pub open spec fn saved_plan(self) -> Option<PlanView> {
        match self.resume_from {
            Some(run) => if self.initial_replan_reason is None && run.plan_versions.len() > 0 {
                Some(run.plan_versions.last())
            } else {
                None
            },
            None => None,
        }
    }

    /// The version of the first plan that is made or executed.
    pub open spec fn first_version(self) -> int {
        match self.resume_from {
            Some(run) => {
                let saved = if run.plan_versions.len() > 0 {
                    run.plan_versions.last().version as int
                } else {
                    1
                };
                if self.initial_replan_reason is Some { saved + 1 } else { saved }
            },
            None => 1,
        }
    }

    /// How many replans are left to a run.
    pub open spec fn replans_left(self, run: AutoRunView) -> int {
        if run.replans_used < self.replan_budget {
            self.replan_budget - run.replans_used
        } else {
            0
        }
    }

    /// Every version that the run can come to fits its counter.
    pub open spec fn versions_fit(self) -> bool {
        self.first_version() + self.replans_left(self.initial_run()) <= u32::MAX
    }
}

impl ExecutorView {
    /// The state in which a task begins.
    pub open spec fn fresh(config: ExecutorConfigView) -> ExecutorView {
        ExecutorView {
            config,
            run: AutoRunView { pending_failure: None, ..config.initial_run() },
            prior: config.initial_run().worker_results,
            version: config.first_version() as u32,
            reason: config.initial_replan_reason,
            start_at: config.start_at_worker_id,
            stage: Stage::PollPlanning,
            plan: PlanView { version: 0, reasoning: Seq::empty(), workers: Seq::empty() },
            next: 0,
            last: None,
        }
    }

    /// A new task: its saved plan is taken up, or planning begins.
    pub open spec fn start(config: ExecutorConfigView) -> Outcome {
        let s = ExecutorView::fresh(config);
        match config.saved_plan() {
            Some(p) => s.announce(p, Seq::empty()),
            None => s.begin_planning(Seq::empty()),
        }
    }

    pub open spec fn at(self, stage: Stage) -> ExecutorView {
        ExecutorView { stage, ..self }
    }

    pub open spec fn with_run(self, run: AutoRunView) -> ExecutorView {
        ExecutorView { run, ..self }
    }

    pub open spec fn with_status(self, status: AutoStatus) -> ExecutorView {
        ExecutorView { run: AutoRunView { status, ..self.run }, ..self }
    }

    /// Announces that planning goes on, and asks whether the user has cancelled.
    pub open spec fn begin_planning(self, fx: Seq<EffectView>) -> Outcome {
        let s = self.with_status(AutoStatus::Planning).at(Stage::PollPlanning);
        Outcome {
            state: s,
            effects: fx.push(EffectView::Emit(AgentEventView::AutoPlanning {
                session_id: self.config.session_id,
                run_id: self.config.auto_run_id,
            })).push(EffectView::Notify(s.run)),
            action: ActionView::PollCancel,
        }
    }

    /// What the orchestrator is told.
    pub open spec fn request(self) -> OrchestratorRequestView {
        OrchestratorRequestView {
            task: self.config.task,
            worker_pool: self.config.worker_pool,
            prior_results: self.prior,
            replan_reason: self.reason,
            plan_version: self.version,
        }
    }

    /// Announces a plan and takes it up: the initial plan waits for approval, a
    /// later one is executed at once.
    pub open spec fn announce(self, p: PlanView, fx: Seq<EffectView>) -> Outcome {
        let s = ExecutorView { plan: p, ..self };
        let fx = fx.push(EffectView::Emit(AgentEventView::AutoPlan {
            session_id: self.config.session_id,
            run_id: self.config.auto_run_id,
            version: p.version,
            reasoning: p.reasoning,
            plan: p.workers,
        }));
        if self.version == 1 {
            let s = s.with_status(AutoStatus::AwaitingApproval).at(Stage::Approving);
            Outcome {
                state: s,
                effects: fx.push(EffectView::Notify(s.run)).push(
                    EffectView::Emit(AgentEventView::AutoAwaitingApproval {
                        session_id: self.config.session_id,
                        run_id: self.config.auto_run_id,
                    }),
                ),
                action: ActionView::Approve,
            }
        } else {
            s.begin_workers(fx)
        }
    }

    /// Begins with the plan's first worker, or with the one that was asked for.
    pub open spec fn begin_workers(self, fx: Seq<EffectView>) -> Outcome {
        let s = ExecutorView { start_at: None, last: None, ..self.with_status(AutoStatus::Running) };
        let fx = fx.push(EffectView::Notify(s.run));
        match self.start_at {
            None => (ExecutorView { next: 0, ..s }).next_worker(fx),
            Some(target) => match position_of(self.plan.workers, target) {
                Some(i) => (ExecutorView { next: i, ..s }).next_worker(fx),
                None => s.failed(missing_target_reason(target, self.plan.workers), fx),
            },
        }
    }

    /// Goes on with the worker whose turn it is, or ends the run after the last.
    pub open spec fn next_worker(self, fx: Seq<EffectView>) -> Outcome {
        if self.next < self.plan.workers.len() {
            Outcome { state: self.at(Stage::PollWorker), effects: fx, action: ActionView::PollCancel }
        } else {
            self.done(fx)
        }
    }

    pub open spec fn done(self, fx: Seq<EffectView>) -> Outcome {
        let s = self.with_status(AutoStatus::Done).at(Stage::Finished);
        let summary = match self.last {
            Some(t) => t,
            None => "Auto task complete."@,
        };
        Outcome {
            state: s,
            effects: fx.push(EffectView::Notify(s.run)).push(
                EffectView::Emit(AgentEventView::AutoDone {
                    session_id: self.config.session_id,
                    run_id: self.config.auto_run_id,
                    summary,
                    total_cost_cents: self.run.cost_cents,
                }),
            ),
            action: ActionView::Finish(AutoResultView::Done { summary, run: s.run }),
        }
    }

    pub open spec fn failed(self, reason: Seq<char>, fx: Seq<EffectView>) -> Outcome {
        let s = self.with_status(AutoStatus::Failed).at(Stage::Finished);
        Outcome {
            state: s,
            effects: fx.push(EffectView::Notify(s.run)).push(
                EffectView::Emit(AgentEventView::AutoFailed {
                    session_id: self.config.session_id,
                    run_id: self.config.auto_run_id,
                    reason,
                    last_worker_output: None,
                }),
            ),
            action: ActionView::Finish(AutoResultView::Failed { reason, run: s.run }),
        }
    }

    pub open spec fn cancelled(self, phase: Seq<char>, fx: Seq<EffectView>) -> Outcome {
        let s = self.with_status(AutoStatus::Cancelled).at(Stage::Finished);
        Outcome {
            state: s,
            effects: fx.push(EffectView::Notify(s.run)),
            action: ActionView::Finish(AutoResultView::Cancelled { run: s.run, phase }),
        }
    }

    /// Ends with a failure that the user is to decide on.
    pub open spec fn awaiting_decision(
        self,
        failure: WorkerFailureContextView,
        fx: Seq<EffectView>,
    ) -> Outcome {
        let s = self.with_run(
            AutoRunView {
                status: AutoStatus::AwaitingFailureDecision,
                pending_failure: Some(failure),
                ..self.run
            },
        ).at(Stage::Finished);
        Outcome {
            state: s,
            effects: fx.push(EffectView::Notify(s.run)).push(
                EffectView::Emit(AgentEventView::AutoAwaitingFailureDecision {
                    session_id: self.config.session_id,
                    run_id: self.config.auto_run_id,
                    failure,
                }),
            ),
            action: ActionView::Finish(
                AutoResultView::Failed { reason: failure.error_message, run: s.run },
            ),
        }
    }

    /// The answer to whether the user has cancelled.
    pub open spec fn polled(self, cancelled: bool) -> Outcome {
        if self.stage == Stage::PollPlanning {
            if cancelled {
                self.cancelled(planning_phase(self.run), Seq::empty())
            } else {
                Outcome {
                    state: self.at(Stage::Planning),
                    effects: Seq::empty(),
                    action: ActionView::Generate,
                }
            }
        } else {
            let w = self.plan.workers[self.next];
            if cancelled {
                self.cancelled(worker_phase(w), Seq::empty())
            } else {
                let s = self.with_run(
                    AutoRunView { current_worker: Some(w), ..self.run },
                ).at(Stage::Working);
                Outcome {
                    state: s,
                    effects: seq![EffectView::Notify(s.run)],
                    action: ActionView::RunWorker,
                }
            }
        }
    }

    /// The orchestrator's answer.
    pub open spec fn planned(self, reply: Result<PlanView, OrchestratorErrorView>) -> Outcome {
        match reply {
            Ok(p) => {
                let s = self.with_run(
                    AutoRunView { plan_versions: self.run.plan_versions.push(p), ..self.run },
                );
                s.announce(p, seq![EffectView::Notify(s.run)])
            },
            Err(OrchestratorErrorView::Cancelled) =>
                self.cancelled(planning_phase(self.run), Seq::empty()),
            Err(e) => self.failed("orchestrator error: "@ + e.text(), Seq::empty()),
        }
    }

    /// The user's answer to the plan.
    pub open spec fn answered(self, reply: Approval) -> Outcome {
        match reply {
            Approval::Approved => self.begin_workers(Seq::empty()),
            Approval::Rejected => self.failed("plan rejected by user"@, Seq::empty()),
            Approval::Cancelled => self.cancelled(
                "Approval for plan v"@ + dec(self.plan.version as nat),
                Seq::empty(),
            ),
        }
    }

    /// The state right after a worker came back: nothing is in flight, its cost is
    /// counted and its summary kept.
    pub open spec fn settled(self, result: WorkerResultView) -> ExecutorView {
        let cost = self.run.cost_cents + result.cost_cents;
        ExecutorView {
            run: AutoRunView {
                cost_cents: if cost > u32::MAX { u32::MAX } else { cost as u32 },
                current_worker: None,
                ..self.run
            },
            last: Some(result.summary),
            ..self
        }
    }

    pub open spec fn recorded(self, result: WorkerResultView) -> ExecutorView {
        self.with_run(
            AutoRunView { worker_results: self.run.worker_results.push(result), ..self.run },
        )
    }

    /// A worker's result.
    pub open spec fn worked(self, result: WorkerResultView) -> Outcome {
        let w = self.plan.workers[self.next];
        let s = self.settled(result);
        if result.status == WorkerStatusView::Cancelled {
            s.recorded(result).cancelled(worker_phase(w), Seq::empty())
        } else if result.status.hard_failure() {
            s.worker_failed(failure_of(w, result))
        } else {
            let s = ExecutorView {
                prior: self.prior.push(result),
                next: self.next + 1,
                ..s.recorded(result)
            };
            s.next_worker(seq![EffectView::Notify(s.run)])
        }
    }

    /// A failure within the budget leads to a new plan; beyond it, to the user.
    pub open spec fn worker_failed(self, failure: WorkerFailureContextView) -> Outcome {
        if self.run.replans_used >= self.config.replan_budget {
            self.awaiting_decision(failure, Seq::empty())
        } else {
            let s = ExecutorView {
                run: AutoRunView {
                    replans_used: (self.run.replans_used + 1) as u32,
                    ..self.run
                },
                version: (self.version + 1) as u32,
                reason: Some(failure.error_message),
                ..self
            };
            s.begin_planning(
                seq![
                    EffectView::Notify(s.run),
                    EffectView::Emit(AgentEventView::AutoReplan {
                        session_id: self.config.session_id,
                        run_id: self.config.auto_run_id,
                        reason: failure.error_message,
                    }),
                ],
            )
        }
    }
}

/// Whether `now` holds everything of `before`, and only completed work behind it.
pub open spec fn extends_ledger(before: Seq<WorkerResultView>, now: Seq<WorkerResultView>) -> bool {
    &&& before.is_prefix_of(now)
    &&& forall|i: int| before.len() <= i < now.len()
        ==> (#[trigger] now[i]).status == WorkerStatusView::Completed
}

/// The worker that ended last left this summary behind.
pub open spec fn last_summary_is(run: AutoRunView, summary: Seq<char>) -> bool {
    run.worker_results.len() > 0 && run.worker_results.last().summary == summary
}

impl ExecutorConfigView {
    /// What every state on the way to a result keeps of the run it began with, and
    /// how far it may go beyond it.
    pub open spec fn kept_by(self, run: AutoRunView) -> bool {
        let before = self.initial_run();
        &&& run.id == before.id
        &&& run.session_id == before.session_id
        &&& before.plan_versions.is_prefix_of(run.plan_versions)
        &&& run.plan_versions.len() <= before.plan_versions.len() + 1
            + (run.replans_used - before.replans_used)
        &&& before.replans_used <= run.replans_used
        &&& run.replans_used <= before.replans_used || run.replans_used <= self.replan_budget
        &&& run.cost_cents >= before.cost_cents
    }

    /// How a run may end, whatever anyone answers.
    pub open spec fn may_end_with(self, result: AutoResultView) -> bool {
        let before = self.initial_run();
        match result {
            AutoResultView::Done { summary, run } => {
                &&& self.kept_by(run)
                &&& run.status == AutoStatus::Done
                &&& run.pending_failure is None
                &&& extends_ledger(before.worker_results, run.worker_results)
                &&& summary == "Auto task complete."@ || last_summary_is(run, summary)
            },
            AutoResultView::Failed { reason, run } => {
                &&& self.kept_by(run)
                &&& extends_ledger(before.worker_results, run.worker_results)
                &&& match run.pending_failure {
                    Some(f) => {
                        &&& run.status == AutoStatus::AwaitingFailureDecision
                        &&& reason == f.error_message
                        &&& run.replans_used >= self.replan_budget
                        &&& run.current_worker is None
                    },
                    None => run.status == AutoStatus::Failed,
                }
            },
            AutoResultView::Cancelled { run, phase } => {
                &&& self.kept_by(run)
                &&& run.status == AutoStatus::Cancelled
                &&& run.pending_failure is None
                &&& extends_ledger(before.worker_results, run.worker_results) || {
                    &&& run.worker_results.len() > before.worker_results.len()
                    &&& run.worker_results.last().status == WorkerStatusView::Cancelled
                    &&& extends_ledger(before.worker_results, run.worker_results.drop_last())
                }
            },
        }
    }
}

impl AutoResultView {
    /// The run as the result carries it.
    pub open spec fn run(self) -> AutoRunView {
        match self {
            AutoResultView::Done { run, .. } => run,
            AutoResultView::Failed { run, .. } => run,
            AutoResultView::Cancelled { run, .. } => run,
        }
    }
}

impl ExecutorView {
    /// The states that a run goes through.
    pub open spec fn inv(self) -> bool {
        let before = self.config.initial_run();
        &&& self.config.kept_by(self.run)
        &&& self.version + self.config.replans_left(self.run) <= u32::MAX
        &&& self.stage != Stage::Finished ==> {
            &&& self.prior == self.run.worker_results
            &&& extends_ledger(before.worker_results, self.run.worker_results)
            &&& self.run.pending_failure is None
        }
        &&& match self.stage {
            Stage::PollPlanning | Stage::Planning => {
                &&& self.run.status == AutoStatus::Planning
                &&& self.run.plan_versions.len() <= before.plan_versions.len()
                    + (self.run.replans_used - before.replans_used)
            },
            Stage::Approving => self.run.status == AutoStatus::AwaitingApproval && self.version == 1,
            Stage::PollWorker => {
                &&& self.run.status == AutoStatus::Running
                &&& 0 <= self.next < self.plan.workers.len()
                &&& self.last matches Some(t) ==> last_summary_is(self.run, t)
            },
            Stage::Working => {
                &&& self.run.status == AutoStatus::Running
                &&& 0 <= self.next < self.plan.workers.len()
                &&& self.run.current_worker == Some(self.plan.workers[self.next])
            },
            Stage::Finished => self.run.status.at_rest(),
        }
    }
}

impl Outcome {
    /// What holds of every step: the state is one that a run goes through, the
    /// request is the one that the state waits for, and a run that has ended has
    /// said so to its listener.
    pub open spec fn sound(self) -> bool {
        &&& self.state.inv()
        &&& match self.action {
            ActionView::PollCancel =>
                self.state.stage == Stage::PollPlanning || self.state.stage == Stage::PollWorker,
            ActionView::Generate => self.state.stage == Stage::Planning,
            ActionView::Approve => self.state.stage == Stage::Approving,
            ActionView::RunWorker => self.state.stage == Stage::Working,
            ActionView::Finish(r) => {
                &&& self.state.stage == Stage::Finished
                &&& r.run() == self.state.run
                &&& self.state.config.may_end_with(r)
                &&& self.effects.contains(EffectView::Notify(self.state.run))
                &&& self.effects.last() == self.state.last_word(r)
            },
        }
    }

    /// Whether a listener that knew the run `before` knows it as it is now.
    pub open spec fn tells_change(self, before: AutoRunView) -> bool {
        self.state.run == before || self.effects.contains(EffectView::Notify(self.state.run))
    }
}

impl ExecutorView {
    /// The last thing that is told of a run: the event that says how it ended. No
    /// event says that it was cancelled.
    pub open spec fn last_word(self, result: AutoResultView) -> EffectView {
        match result {
            AutoResultView::Done { summary, run } => EffectView::Emit(
                AgentEventView::AutoDone {
                    session_id: self.config.session_id,
                    run_id: self.config.auto_run_id,
                    summary,
                    total_cost_cents: run.cost_cents,
                },
            ),
            AutoResultView::Failed { reason, run } => match run.pending_failure {
                Some(failure) => EffectView::Emit(
                    AgentEventView::AutoAwaitingFailureDecision {
                        session_id: self.config.session_id,
                        run_id: self.config.auto_run_id,
                        failure,
                    },
                ),
                None => EffectView::Emit(
                    AgentEventView::AutoFailed {
                        session_id: self.config.session_id,
                        run_id: self.config.auto_run_id,
                        reason,
                        last_worker_output: None,
                    },
                ),
            },
            AutoResultView::Cancelled { run, .. } => EffectView::Notify(run),
        }
    }
}

impl ExecutorView {
    /// How far a state is from the end of the run: the replans left, the part of
    /// the plan's life, the workers left and the half-step within a worker.
    pub open spec fn distance(self) -> (int, int, int, int) {
        let r = self.config.replans_left(self.run);
        let left = self.plan.workers.len() - self.next;
        match self.stage {
            Stage::PollPlanning => (r, 4, 0, 0),
            Stage::Planning => (r, 3, 0, 0),
            Stage::Approving => (r, 2, 0, 0),
            Stage::PollWorker => (r, 1, left, 1),
            Stage::Working => (r, 1, left, 0),
            Stage::Finished => (r, 0, 0, 0),
        }
    }
}

/// Whether `a` comes before `b` in dictionary order.
pub open spec fn closer(a: (int, int, int, int), b: (int, int, int, int)) -> bool {
    ||| a.0 < b.0
    ||| a.0 == b.0 && a.1 < b.1
    ||| a.0 == b.0 && a.1 == b.1 && a.2 < b.2
    ||| a.0 == b.0 && a.1 == b.1 && a.2 == b.2 && a.3 < b.3
}

proof fn lemma_notified(fx: Seq<EffectView>, x: EffectView, y: EffectView)
    ensures
        fx.push(x).contains(x),
        fx.push(x).push(y).contains(x),
{
    assert(fx.push(x)[fx.len() as int] == x);
    assert(fx.push(x).push(y)[fx.len() as int] == x);
}

pub proof fn lemma_position(workers: Seq<WorkerSpecView>, id: Seq<char>)
    ensures
        match position_of(workers, id) {
            Some(i) => first_worker(workers, id, i),
            None => forall|i: int| 0 <= i < workers.len() ==> (#[trigger] workers[i]).id != id,
        },
{
    if position_of(workers, id) is None {
        assert forall|i: int| 0 <= i < workers.len() implies (#[trigger] workers[i]).id != id by {
            if workers[i].id == id {
                lemma_some_first(workers, id, i);
            }
        }
    }
}

proof fn lemma_some_first(workers: Seq<WorkerSpecView>, id: Seq<char>, i: int)
    requires
        0 <= i < workers.len(),
        workers[i].id == id,
    ensures
        exists|k: int| first_worker(workers, id, k),
    decreases i,
{
    if exists|j: int| 0 <= j < i && (#[trigger] workers[j]).id == id {
        let j = choose|j: int| 0 <= j < i && (#[trigger] workers[j]).id == id;
        lemma_some_first(workers, id, j);
    } else {
        assert(first_worker(workers, id, i));
    }
}

/// A failing worker leads to exactly one of two things: within the budget to a
/// new plan that the orchestrator is told the reason for, beyond it to a run that
/// waits for the user. In neither is its result recorded.
pub proof fn law_worker_failed(s: ExecutorView, result: WorkerResultView)
    requires
        s.inv(),
        s.stage == Stage::Working,
        result.status.hard_failure(),
    ensures
        s.worked(result).state.run.worker_results == s.run.worker_results,
        s.worked(result).state.prior == s.prior,
        s.run.replans_used < s.config.replan_budget ==> {
            let o = s.worked(result);
            &&& o.action == ActionView::PollCancel
            &&& o.state.stage == Stage::PollPlanning
            &&& o.state.version == s.version + 1
            &&& o.state.run.replans_used == s.run.replans_used + 1
            &&& o.state.request().replan_reason == Some(
                failure_of(s.plan.workers[s.next], result).error_message,
            )
            &&& o.state.request().prior_results == s.run.worker_results
        },
        s.run.replans_used >= s.config.replan_budget ==> {
            let f = failure_of(s.plan.workers[s.next], result);
            &&& s.worked(result).state.run.pending_failure == Some(f)
            &&& s.worked(result).state.run.status == AutoStatus::AwaitingFailureDecision
            &&& s.worked(result).action == ActionView::Finish(
                AutoResultView::Failed { reason: f.error_message, run: s.worked(result).state.run },
            )
        },
{
}

/// Every task starts in a sound state.
pub proof fn law_start(config: ExecutorConfigView)
    requires
        config.versions_fit(),
    ensures
        ExecutorView::start(config).sound(),
        ExecutorView::start(config).state.config == config,
{
    let s = ExecutorView::fresh(config);
    assert(config.initial_run().plan_versions.is_prefix_of(config.initial_run().plan_versions));
    assert(config.initial_run().worker_results.is_prefix_of(config.initial_run().worker_results));
    match config.saved_plan() {
        Some(p) => {
            lemma_announce(s, p, Seq::empty());
        },
        None => {},
    }
}

proof fn lemma_next_worker(s: ExecutorView, fx: Seq<EffectView>)
    requires
        s.config.kept_by(s.run),
        s.version + s.config.replans_left(s.run) <= u32::MAX,
        s.prior == s.run.worker_results,
        extends_ledger(s.config.initial_run().worker_results, s.run.worker_results),
        s.run.pending_failure is None,
        s.stage != Stage::Finished,
        s.run.status == AutoStatus::Running,
        0 <= s.next,
        s.last matches Some(t) ==> last_summary_is(s.run, t),
    ensures
        s.next_worker(fx).sound(),
        s.next_worker(fx).state.config == s.config,
        s.next_worker(fx).state.run.replans_used == s.run.replans_used,
        s.next_worker(fx).state.plan == s.plan,
        s.next_worker(fx).state.next == s.next,
        s.next_worker(fx).state.stage == Stage::PollWorker
            || s.next_worker(fx).state.stage == Stage::Finished,
{
    lemma_notified(fx, EffectView::Notify(s.done(fx).state.run), s.done(fx).effects.last());
}

proof fn lemma_begin_workers(s: ExecutorView, fx: Seq<EffectView>)
    requires
        s.config.kept_by(s.run),
        s.version + s.config.replans_left(s.run) <= u32::MAX,
        s.prior == s.run.worker_results,
        extends_ledger(s.config.initial_run().worker_results, s.run.worker_results),
        s.run.pending_failure is None,
        s.stage != Stage::Finished,
    ensures
        s.begin_workers(fx).sound(),
        s.begin_workers(fx).state.config == s.config,
        s.begin_workers(fx).state.run.replans_used == s.run.replans_used,
        s.begin_workers(fx).state.stage == Stage::PollWorker
            || s.begin_workers(fx).state.stage == Stage::Finished,
{
    let t = ExecutorView { start_at: None, last: None, ..s.with_status(AutoStatus::Running) };
    let fx2 = fx.push(EffectView::Notify(t.run));
    match s.start_at {
        None => {
            lemma_next_worker(ExecutorView { next: 0, ..t }, fx2);
        },
        Some(target) => {
            lemma_position(s.plan.workers, target);
            match position_of(s.plan.workers, target) {
                Some(i) => {
                    lemma_next_worker(ExecutorView { next: i, ..t }, fx2);
                },
                None => {
                    let reason = missing_target_reason(target, s.plan.workers);
                    let o = t.failed(reason, fx2);
                    lemma_notified(fx2, EffectView::Notify(o.state.run), o.effects.last());
                },
            }
        },
    }
}

proof fn lemma_announce(s: ExecutorView, p: PlanView, fx: Seq<EffectView>)
    requires
        s.config.kept_by(s.run),
        s.version + s.config.replans_left(s.run) <= u32::MAX,
        s.prior == s.run.worker_results,
        extends_ledger(s.config.initial_run().worker_results, s.run.worker_results),
        s.run.pending_failure is None,
        s.stage != Stage::Finished,
    ensures
        s.announce(p, fx).sound(),
        s.announce(p, fx).state.config == s.config,
        s.announce(p, fx).state.run.replans_used == s.run.replans_used,
        s.announce(p, fx).state.stage != Stage::PollPlanning,
        s.announce(p, fx).state.stage != Stage::Planning,
{
    let t = ExecutorView { plan: p, ..s };
    let fx2 = fx.push(EffectView::Emit(AgentEventView::AutoPlan {
        session_id: s.config.session_id,
        run_id: s.config.auto_run_id,
        version: p.version,
        reasoning: p.reasoning,
        plan: p.workers,
    }));
    if s.version != 1 {
        lemma_begin_workers(t, fx2);
    }
}

/// Being told whether the user cancelled leads from a sound state to a sound
/// step, closer to the end.
pub proof fn law_polled(s: ExecutorView, cancelled: bool)
    requires
        s.inv(),
        s.stage == Stage::PollPlanning || s.stage == Stage::PollWorker,
    ensures
        s.polled(cancelled).sound(),
        s.polled(cancelled).state.config == s.config,
        closer(s.polled(cancelled).state.distance(), s.distance()),
        cancelled ==> (s.polled(cancelled).action matches ActionView::Finish(
            AutoResultView::Cancelled { run, .. },
        ) && run.worker_results == s.run.worker_results),
{
    if cancelled {
        lemma_notified(
            Seq::empty(),
            EffectView::Notify(s.polled(cancelled).state.run),
            EffectView::Notify(s.run),
        );
    }
}

/// The orchestrator's answer leads from a sound state to a sound step, closer to
/// the end; a plan is recorded as it came.
pub proof fn law_planned(s: ExecutorView, reply: Result<PlanView, OrchestratorErrorView>)
    requires
        s.inv(),
        s.stage == Stage::Planning,
    ensures
        s.planned(reply).sound(),
        s.planned(reply).state.config == s.config,
        closer(s.planned(reply).state.distance(), s.distance()),
        reply matches Ok(p) ==> s.planned(reply).state.run.plan_versions
            == s.run.plan_versions.push(p),
        reply is Err ==> s.planned(reply).state.run.plan_versions == s.run.plan_versions,
{
    match reply {
        Ok(p) => {
            let t = s.with_run(
                AutoRunView { plan_versions: s.run.plan_versions.push(p), ..s.run },
            );
            lemma_announce(t, p, seq![EffectView::Notify(t.run)]);
        },
        Err(e) => {
            let o = s.planned(reply);
            lemma_notified(Seq::empty(), EffectView::Notify(o.state.run), o.effects.last());
        },
    }
}

/// The user's answer to the plan leads from a sound state to a sound step, closer
/// to the end.
pub proof fn law_answered(s: ExecutorView, reply: Approval)
    requires
        s.inv(),
        s.stage == Stage::Approving,
    ensures
        s.answered(reply).sound(),
        s.answered(reply).state.config == s.config,
        closer(s.answered(reply).state.distance(), s.distance()),
{
    lemma_begin_workers(s, Seq::empty());
    let o = s.answered(reply);
    if reply != Approval::Approved {
        lemma_notified(Seq::empty(), EffectView::Notify(o.state.run), o.effects.last());
    }
}

/// A worker's result leads from a sound state to a sound step, closer to the end.
pub proof fn law_worked(s: ExecutorView, result: WorkerResultView)
    requires
        s.inv(),
        s.stage == Stage::Working,
    ensures
        s.worked(result).sound(),
        s.worked(result).state.config == s.config,
        closer(s.worked(result).state.distance(), s.distance()),
        s.worked(result).state.run.current_worker is None,
        s.run.worker_results.is_prefix_of(s.worked(result).state.run.worker_results),
{
    let t = s.settled(result);
    let o = s.worked(result);
    if result.status == WorkerStatusView::Cancelled {
        lemma_notified(Seq::empty(), EffectView::Notify(o.state.run), o.effects.last());
        assert(o.state.run.worker_results.drop_last() =~= s.run.worker_results);
    } else if result.status.hard_failure() {
        if s.run.replans_used >= s.config.replan_budget {
            lemma_notified(Seq::empty(), EffectView::Notify(o.state.run), o.effects.last());
        }
    } else {
        assert(result.status == WorkerStatusView::Completed);
        let u = ExecutorView {
            prior: s.prior.push(result),
            next: s.next + 1,
            ..t.recorded(result)
        };
        lemma_next_worker(u, seq![EffectView::Notify(u.run)]);
    }
}

/// A run that goes on executes its saved plan: the orchestrator is not asked for it,
/// and it is not recorded a second time.
pub proof fn law_resume_uses_saved_plan(config: ExecutorConfigView)
    requires
        config.versions_fit(),
        config.saved_plan() is Some,
    ensures
        ({
            let o = ExecutorView::start(config);
            &&& o.state.plan == config.saved_plan()->0
            &&& o.state.run.plan_versions == config.initial_run().plan_versions
            &&& o.state.stage != Stage::PollPlanning
            &&& o.state.stage != Stage::Planning
            &&& o.state.run.pending_failure is None
        }),
{
    lemma_announce(ExecutorView::fresh(config), config.saved_plan()->0, Seq::empty());
}

/// A retry begins with the worker that it names, at once or, for an initial plan,
/// once the plan is approved.
pub proof fn law_retry_starts_at_worker(config: ExecutorConfigView, id: Seq<char>, i: int)
    requires
        config.versions_fit(),
        config.saved_plan() is Some,
        config.start_at_worker_id == Some(id),
        first_worker(config.saved_plan()->0.workers, id, i),
    ensures
        ({
            let o = ExecutorView::start(config);
            let s = if config.first_version() == 1 {
                o.state.answered(Approval::Approved).state
            } else {
                o.state
            };
            &&& config.first_version() == 1 <==> o.state.stage == Stage::Approving
            &&& s.stage == Stage::PollWorker
            &&& s.next == i
            &&& s.prior == config.initial_run().worker_results
        }),
{
    let ws = config.saved_plan()->0.workers;
    let k = choose|k: int| first_worker(ws, id, k);
    assert(first_worker(ws, id, k));
    assert(k == i) by {
        if k < i {
            assert(ws[k].id != id);
        }
        if i < k {
            assert(ws[i].id != id);
        }
    }
}

/// A run that goes on with a replan asks the orchestrator, and tells it the reason
/// and what the workers so far left behind.
pub proof fn law_replan_asks_orchestrator(config: ExecutorConfigView, reason: Seq<char>)
    requires
        config.versions_fit(),
        config.initial_replan_reason == Some(reason),
    ensures
        ({
            let o = ExecutorView::start(config);
            let r = o.state.request();
            &&& o.state.stage == Stage::PollPlanning
            &&& o.state.run.pending_failure is None
            &&& o.state.polled(false).action == ActionView::Generate
            &&& r.replan_reason == Some(reason)
            &&& r.prior_results == config.initial_run().worker_results
            &&& r.plan_version == config.first_version()
        }),
{
}

/// What a worker leaves behind is recorded where it ended well, and shown to those
/// that follow; where it was cancelled it is recorded as the last.
pub proof fn law_worker_recorded(s: ExecutorView, result: WorkerResultView)
    requires
        s.inv(),
        s.stage == Stage::Working,
        !result.status.hard_failure(),
    ensures
        s.worked(result).state.run.worker_results == s.run.worker_results.push(result),
        result.status == WorkerStatusView::Completed ==> s.worked(result).state.prior
            == s.prior.push(result),
        result.status == WorkerStatusView::Cancelled ==> s.worked(result).action
            is Finish,
{
}

proof fn lemma_workers_told(s: ExecutorView, fx: Seq<EffectView>)
    ensures
        s.begin_workers(fx).effects.contains(
            EffectView::Notify(s.begin_workers(fx).state.run),
        ),
{
    let t = ExecutorView { start_at: None, last: None, ..s.with_status(AutoStatus::Running) };
    let fx2 = fx.push(EffectView::Notify(t.run));
    let o = s.begin_workers(fx);
    lemma_notified(fx, EffectView::Notify(t.run), EffectView::Notify(t.run));
    lemma_notified(fx2, EffectView::Notify(o.state.run), o.effects.last());
}

proof fn lemma_announce_told(s: ExecutorView, p: PlanView, fx: Seq<EffectView>)
    ensures
        s.announce(p, fx).effects.contains(EffectView::Notify(s.announce(p, fx).state.run)),
{
    let o = s.announce(p, fx);
    let fx2 = fx.push(EffectView::Emit(AgentEventView::AutoPlan {
        session_id: s.config.session_id,
        run_id: s.config.auto_run_id,
        version: p.version,
        reasoning: p.reasoning,
        plan: p.workers,
    }));
    if s.version == 1 {
        lemma_notified(fx2, EffectView::Notify(o.state.run), o.effects.last());
    } else {
        lemma_workers_told(ExecutorView { plan: p, ..s }, fx2);
    }
}

/// The listener is shown the run whenever it has changed, so that what is saved is
/// never behind at the end of a step.
pub proof fn law_listener_sees_every_change(
    config: ExecutorConfigView,
    s: ExecutorView,
    cancelled: bool,
    plan: Result<PlanView, OrchestratorErrorView>,
    approval: Approval,
    result: WorkerResultView,
)
    requires
        config.versions_fit(),
        s.inv(),
    ensures
        ExecutorView::start(config).tells_change(config.initial_run()),
        s.stage == Stage::PollPlanning || s.stage == Stage::PollWorker ==> s.polled(
            cancelled,
        ).tells_change(s.run),
        s.stage == Stage::Planning ==> s.planned(plan).tells_change(s.run),
        s.stage == Stage::Approving ==> s.answered(approval).tells_change(s.run),
        s.stage == Stage::Working ==> s.worked(result).tells_change(s.run),
{
    let none = Seq::<EffectView>::empty();
    let f = ExecutorView::fresh(config);
    match config.saved_plan() {
        Some(p) => lemma_announce_told(f, p, none),
        None => {
            let o = f.begin_planning(none);
            lemma_notified(
                none.push(o.effects[0]),
                EffectView::Notify(o.state.run),
                EffectView::Notify(o.state.run),
            );
        },
    }
    let o = s.polled(cancelled);
    lemma_notified(none, EffectView::Notify(o.state.run), o.effects.last());
    assert(seq![EffectView::Notify(o.state.run)].contains(EffectView::Notify(o.state.run))) by {
        assert(seq![EffectView::Notify(o.state.run)][0] == EffectView::Notify(o.state.run));
    }
    match plan {
        Ok(p) => {
            let t = s.with_run(AutoRunView { plan_versions: s.run.plan_versions.push(p), ..s.run });
            lemma_announce_told(t, p, seq![EffectView::Notify(t.run)]);
        },
        Err(_) => {
            let o = s.planned(plan);
            lemma_notified(none, EffectView::Notify(o.state.run), o.effects.last());
        },
    }
    lemma_workers_told(s, none);
    let o = s.answered(approval);
    lemma_notified(none, EffectView::Notify(o.state.run), o.effects.last());
    let o = s.worked(result);
    if !result.status.hard_failure() && result.status != WorkerStatusView::Cancelled {
        let u = ExecutorView {
            prior: s.prior.push(result),
            next: s.next + 1,
            ..s.settled(result).recorded(result)
        };
        let fx = seq![EffectView::Notify(u.run)];
        assert(fx[0] == EffectView::Notify(u.run));
        lemma_notified(fx, EffectView::Notify(o.state.run), o.effects.last());
    } else if result.status.hard_failure() && s.run.replans_used < s.config.replan_budget {
        let n = o.effects.len() as int;
        assert(o.effects[n - 1] == EffectView::Notify(o.state.run));
    } else {
        lemma_notified(none, EffectView::Notify(o.state.run), o.effects.last());
    }
}

impl ExecutorConfig {
    /// Whether every version that the run can come to fits its counter.
    pub fn versions_fit(&self) -> (r: bool)
        ensures
            r == self@.versions_fit(),
    {
        match &self.resume_from {
            None => {
                let left: u64 = self.replan_budget as u64;
                1 + left <= u32::MAX as u64
            },
            Some(run) => {
                let n: usize = run.plan_versions.len();
                let saved: u64 = if n > 0 {
                    assert(deep(run.plan_versions@)[n - 1] == run.plan_versions@[n - 1]@);
                    run.plan_versions[n - 1].version as u64
                } else {
                    1
                };
                let first: u64 = if self.initial_replan_reason.is_some() {
                    saved + 1
                } else {
                    saved
                };
                let left: u64 = if run.replans_used < self.replan_budget {
                    (self.replan_budget - run.replans_used) as u64
                } else {
                    0
                };
                first + left <= u32::MAX as u64
            },
        }
    }
}

impl View for Executor {
    type V = ExecutorView;

    closed spec fn view(&self) -> ExecutorView {
        ExecutorView {
            config: self.config@,
            run: self.run@,
            prior: deep(self.prior@),
            version: self.version,
            reason: opt(self.reason),
            start_at: opt(self.start_at),
            stage: self.stage,
            plan: self.plan@,
            next: self.next as int,
            last: opt(self.last),
        }
    }
}

/// What a step tells, and what it asks for.
pub struct Step {
    pub effects: Vec<Effect>,
    pub action: Action,
}

impl Step {
    /// The step's part of an outcome.
    pub open spec fn is(self, o: Outcome) -> bool {
        deep(self.effects@) == o.effects && self.action@ == o.action
    }
}

impl Executor {
    /// Takes up a task.
    pub fn start(config: ExecutorConfig) -> (r: (Executor, Step))
        requires
            config@.versions_fit(),
        ensures
            r.0@ == ExecutorView::start(config@).state,
            r.1.is(ExecutorView::start(config@)),
            ExecutorView::start(config@).sound(),
    {
        proof {
            law_start(config@);
        }
        let ghost cv = config@;
        let mut run = match &config.resume_from {
            Some(run) => run.dup(),
            None => AutoRun {
                id: config.auto_run_id.clone(),
                session_id: config.session_id.clone(),
                status: AutoStatus::Planning,
                plan_versions: Vec::new(),
                worker_results: Vec::new(),
                cost_cents: 0,
                replans_used: 0,
                current_worker: None,
                pending_failure: None,
            },
        };
        assert(run@ =~~= cv.initial_run());
        let replanning = config.initial_replan_reason.is_some();
        let mut saved: Option<Plan> = None;
        let mut version: u32 = 1;
        if config.resume_from.is_some() {
            let n: usize = run.plan_versions.len();
            if n > 0 {
                assert(deep(run.plan_versions@)[n - 1] == run.plan_versions@[n - 1]@);
                version = run.plan_versions[n - 1].version;
                if !replanning {
                    saved = Some(run.plan_versions[n - 1].dup());
                }
            }
            if replanning {
                version = version + 1;
            }
        }
        assert(opt(saved) == cv.saved_plan());
        run.pending_failure = None;
        let prior = dup_vec(&run.worker_results);
        let reason = dup_opt(&config.initial_replan_reason);
        let start_at = dup_opt(&config.start_at_worker_id);
        let mut e = Executor {
            config,
            run,
            prior,
            version,
            reason,
            start_at,
            stage: Stage::PollPlanning,
            plan: Plan { version: 0, reasoning: String::new(), workers: Vec::new() },
            next: 0,
            last: None,
        };
        assert(e@ =~~= ExecutorView::fresh(cv));
        let mut effects: Vec<Effect> = Vec::new();
        assert(deep(effects@) =~= Seq::<EffectView>::empty());
        let action = match saved {
            Some(p) => e.announce(p, &mut effects),
            None => e.begin_planning(&mut effects),
        };
        (e, Step { effects, action })
    }

    /// What the executor waits for.
    pub fn stage(&self) -> (r: Stage)
        ensures
            r == self@.stage,
    {
        self.stage
    }

    /// What to tell the orchestrator.
    pub fn plan_request(&self) -> (r: OrchestratorRequest<'_>)
        ensures
            r@ == self@.request(),
    {
        OrchestratorRequest {
            task: self.config.task.as_str(),
            worker_pool: self.config.worker_pool.as_slice(),
            prior_results: self.prior.as_slice(),
            replan_reason: match &self.reason {
                Some(s) => Some(s.as_str()),
                None => None,
            },
            plan_version: self.version,
        }
    }

    /// The plan to approve or to execute.
    pub fn plan(&self) -> (r: &Plan)
        ensures
            r@ == self@.plan,
    {
        &self.plan
    }

    /// The worker to run.
    pub fn worker(&self) -> (r: &WorkerSpec)
        requires
            0 <= self@.next < self@.plan.workers.len(),
        ensures
            r@ == self@.plan.workers[self@.next],
    {
        &self.plan.workers[self.next]
    }

    /// What the worker may see of the workers before it.
    pub fn prior_results(&self) -> (r: &[WorkerResult])
        ensures
            deep(r@) == self@.prior,
    {
        self.prior.as_slice()
    }

    /// Takes the answer to whether the user has cancelled.
    pub fn on_polled(&mut self, cancelled: bool) -> (r: Step)
        requires
            old(self)@.inv(),
            old(self)@.stage == Stage::PollPlanning || old(self)@.stage == Stage::PollWorker,
        ensures
            final(self)@ == old(self)@.polled(cancelled).state,
            r.is(old(self)@.polled(cancelled)),
            old(self)@.polled(cancelled).sound(),
    {
        proof {
            law_polled(self@, cancelled);
        }
        let mut effects: Vec<Effect> = Vec::new();
        assert(deep(effects@) =~= Seq::<EffectView>::empty());
        let planning = matches!(self.stage, Stage::PollPlanning);
        let action = if planning {
            if cancelled {
                let phase = planning_phase_label(&self.run);
                self.finalize_cancelled(phase, &mut effects)
            } else {
                self.stage = Stage::Planning;
                Action::Generate
            }
        } else {
            let w = self.plan.workers[self.next].dup();
            if cancelled {
                let phase = worker_phase_label(&w);
                self.finalize_cancelled(phase, &mut effects)
            } else {
                self.run.current_worker = Some(w);
                self.notify(&mut effects);
                self.stage = Stage::Working;
                Action::RunWorker
            }
        };
        assert(deep(effects@) =~= old(self)@.polled(cancelled).effects);
        Step { effects, action }
    }

    /// Takes the orchestrator's answer.
    pub fn on_plan(&mut self, reply: Result<Plan, OrchestratorError>) -> (r: Step)
        requires
            old(self)@.inv(),
            old(self)@.stage == Stage::Planning,
        ensures
            final(self)@ == old(self)@.planned(reply_view(reply)).state,
            r.is(old(self)@.planned(reply_view(reply))),
            old(self)@.planned(reply_view(reply)).sound(),
    {
        proof {
            law_planned(self@, reply_view(reply));
        }
        let ghost rv = reply_view(reply);
        let mut effects: Vec<Effect> = Vec::new();
        assert(deep(effects@) =~= Seq::<EffectView>::empty());
        let action = match reply {
            Ok(p) => {
                self.run.plan_versions.push(p.dup());
                self.notify(&mut effects);
                assert(deep(effects@) =~= seq![EffectView::Notify(self.run@)]);
                self.announce(p, &mut effects)
            },
            Err(e) => {
                let phase = planning_phase_label(&self.run);
                if matches!(e, OrchestratorError::Cancelled) {
                    self.finalize_cancelled(phase, &mut effects)
                } else {
                    let mut reason = "orchestrator error: ".to_owned();
                    let text = e.to_text();
                    reason.append(text.as_str());
                    self.finalize_failed(reason, &mut effects)
                }
            },
        };
        Step { effects, action }
    }

    /// Takes the user's answer to the plan.
    pub fn on_approval(&mut self, reply: Approval) -> (r: Step)
        requires
            old(self)@.inv(),
            old(self)@.stage == Stage::Approving,
        ensures
            final(self)@ == old(self)@.answered(reply).state,
            r.is(old(self)@.answered(reply)),
            old(self)@.answered(reply).sound(),
    {
        proof {
            law_answered(self@, reply);
        }
        let mut effects: Vec<Effect> = Vec::new();
        assert(deep(effects@) =~= Seq::<EffectView>::empty());
        let action = match reply {
            Approval::Approved => self.begin_workers(&mut effects),
            Approval::Rejected => self.finalize_failed("plan rejected by user".to_owned(), &mut effects),
            Approval::Cancelled => {
                let mut phase = "Approval for plan v".to_owned();
                let version = decimal(self.plan.version as u128);
                phase.append(version.as_str());
                self.finalize_cancelled(phase, &mut effects)
            },
        };
        Step { effects, action }
    }

    /// Takes a worker's result.
    pub fn on_worker(&mut self, result: WorkerResult) -> (r: Step)
        requires
            old(self)@.inv(),
            old(self)@.stage == Stage::Working,
        ensures
            final(self)@ == old(self)@.worked(result@).state,
            r.is(old(self)@.worked(result@)),
            old(self)@.worked(result@).sound(),
    {
        proof {
            law_worked(self@, result@);
        }
        let mut effects: Vec<Effect> = Vec::new();
        assert(deep(effects@) =~= Seq::<EffectView>::empty());
        let w = self.plan.workers[self.next].dup();
        self.last = Some(result.summary.clone());
        self.run.cost_cents = self.run.cost_cents.saturating_add(result.cost_cents);
        self.run.current_worker = None;
        assert(self@ == old(self)@.settled(result@));
        let action = if result.status.is_cancelled() {
            let phase = worker_phase_label(&w);
            self.run.worker_results.push(result);
            self.finalize_cancelled(phase, &mut effects)
        } else if result.status.is_hard_failure() {
            let failure = failure_context(&w, &result);
            self.worker_failed(failure, &mut effects)
        } else {
            self.prior.push(result.dup());
            self.run.worker_results.push(result);
            assert(self.next < self.plan.workers.len());
            self.next += 1;
            self.notify(&mut effects);
            assert(deep(effects@) =~= seq![EffectView::Notify(self.run@)]);
            self.next_worker(&mut effects)
        };
        Step { effects, action }
    }

    fn notify(&self, effects: &mut Vec<Effect>)
        ensures
            deep(final(effects)@) == deep(old(effects)@).push(EffectView::Notify(self@.run)),
    {
        effects.push(Effect::Notify(self.run.dup()));
    }

    fn begin_planning(&mut self, effects: &mut Vec<Effect>) -> (r: Action)
        ensures
            final(self)@ == old(self)@.begin_planning(deep(old(effects)@)).state,
            deep(final(effects)@) == old(self)@.begin_planning(deep(old(effects)@)).effects,
            r@ == old(self)@.begin_planning(deep(old(effects)@)).action,
    {
        effects.push(Effect::Emit(AgentEvent::AutoPlanning {
            session_id: self.config.session_id.clone(),
            run_id: self.config.auto_run_id.clone(),
        }));
        self.run.status = AutoStatus::Planning;
        self.stage = Stage::PollPlanning;
        self.notify(effects);
        Action::PollCancel
    }

    fn announce(&mut self, p: Plan, effects: &mut Vec<Effect>) -> (r: Action)
        ensures
            final(self)@ == old(self)@.announce(p@, deep(old(effects)@)).state,
            deep(final(effects)@) == old(self)@.announce(p@, deep(old(effects)@)).effects,
            r@ == old(self)@.announce(p@, deep(old(effects)@)).action,
    {
        effects.push(Effect::Emit(AgentEvent::AutoPlan {
            session_id: self.config.session_id.clone(),
            run_id: self.config.auto_run_id.clone(),
            version: p.version,
            reasoning: p.reasoning.clone(),
            plan: dup_vec(&p.workers),
        }));
        self.plan = p;
        if self.version == 1 {
            self.run.status = AutoStatus::AwaitingApproval;
            self.stage = Stage::Approving;
            self.notify(effects);
            effects.push(Effect::Emit(AgentEvent::AutoAwaitingApproval {
                session_id: self.config.session_id.clone(),
                run_id: self.config.auto_run_id.clone(),
            }));
            Action::Approve
        } else {
            self.begin_workers(effects)
        }
    }

    fn begin_workers(&mut self, effects: &mut Vec<Effect>) -> (r: Action)
        ensures
            final(self)@ == old(self)@.begin_workers(deep(old(effects)@)).state,
            deep(final(effects)@) == old(self)@.begin_workers(deep(old(effects)@)).effects,
            r@ == old(self)@.begin_workers(deep(old(effects)@)).action,
    {
        self.run.status = AutoStatus::Running;
        self.notify(effects);
        self.last = None;
        let target = dup_opt(&self.start_at);
        self.start_at = None;
        match target {
            None => {
                self.next = 0;
                self.next_worker(effects)
            },
            Some(id) => match worker_position(&self.plan.workers, id.as_str()) {
                Some(i) => {
                    self.next = i;
                    self.next_worker(effects)
                },
                None => {
                    let reason = missing_target(id.as_str(), &self.plan.workers);
                    self.finalize_failed(reason, effects)
                },
            },
        }
    }

    fn next_worker(&mut self, effects: &mut Vec<Effect>) -> (r: Action)
        ensures
            final(self)@ == old(self)@.next_worker(deep(old(effects)@)).state,
            deep(final(effects)@) == old(self)@.next_worker(deep(old(effects)@)).effects,
            r@ == old(self)@.next_worker(deep(old(effects)@)).action,
    {
        if self.next < self.plan.workers.len() {
            self.stage = Stage::PollWorker;
            Action::PollCancel
        } else {
            self.finalize_done(effects)
        }
    }

    fn worker_failed(&mut self, failure: WorkerFailureContext, effects: &mut Vec<Effect>) -> (r: Action)
        requires
            deep(old(effects)@) == Seq::<EffectView>::empty(),
            old(self)@.version + old(self)@.config.replans_left(old(self)@.run) <= u32::MAX,
        ensures
            final(self)@ == old(self)@.worker_failed(failure@).state,
            deep(final(effects)@) == old(self)@.worker_failed(failure@).effects,
            r@ == old(self)@.worker_failed(failure@).action,
    {
        if self.run.replans_used >= self.config.replan_budget {
            self.finalize_awaiting_failure_decision(failure, effects)
        } else {
            self.run.replans_used += 1;
            self.version += 1;
            self.notify(effects);
            effects.push(Effect::Emit(AgentEvent::AutoReplan {
                session_id: self.config.session_id.clone(),
                run_id: self.config.auto_run_id.clone(),
                reason: failure.error_message.clone(),
            }));
            assert(deep(effects@) =~= seq![
                EffectView::Notify(self.run@),
                EffectView::Emit(AgentEventView::AutoReplan {
                    session_id: self.config@.session_id,
                    run_id: self.config@.auto_run_id,
                    reason: failure@.error_message,
                }),
            ]);
            self.reason = Some(failure.error_message);
            self.begin_planning(effects)
        }
    }

    fn finalize_awaiting_failure_decision(
        &mut self,
        failure: WorkerFailureContext,
        effects: &mut Vec<Effect>,
    ) -> (r: Action)
        ensures
            final(self)@ == old(self)@.awaiting_decision(failure@, deep(old(effects)@)).state,
            deep(final(effects)@)
                == old(self)@.awaiting_decision(failure@, deep(old(effects)@)).effects,
            r@ == old(self)@.awaiting_decision(failure@, deep(old(effects)@)).action,
    {
        self.run.status = AutoStatus::AwaitingFailureDecision;
        self.run.pending_failure = Some(failure.dup());
        self.stage = Stage::Finished;
        self.notify(effects);
        let reason = failure.error_message.clone();
        effects.push(Effect::Emit(AgentEvent::AutoAwaitingFailureDecision {
            session_id: self.config.session_id.clone(),
            run_id: self.config.auto_run_id.clone(),
            failure,
        }));
        Action::Finish(AutoResult::Failed { reason, run: self.run.dup() })
    }

    fn finalize_done(&mut self, effects: &mut Vec<Effect>) -> (r: Action)
        ensures
            final(self)@ == old(self)@.done(deep(old(effects)@)).state,
            deep(final(effects)@) == old(self)@.done(deep(old(effects)@)).effects,
            r@ == old(self)@.done(deep(old(effects)@)).action,
    {
        self.run.status = AutoStatus::Done;
        self.stage = Stage::Finished;
        self.notify(effects);
        let summary = match &self.last {
            Some(s) => s.clone(),
            None => "Auto task complete.".to_owned(),
        };
        effects.push(Effect::Emit(AgentEvent::AutoDone {
            session_id: self.config.session_id.clone(),
            run_id: self.config.auto_run_id.clone(),
            summary: summary.clone(),
            total_cost_cents: self.run.cost_cents,
        }));
        Action::Finish(AutoResult::Done { summary, run: self.run.dup() })
    }

    fn finalize_failed(&mut self, reason: String, effects: &mut Vec<Effect>) -> (r: Action)
        ensures
            final(self)@ == old(self)@.failed(reason@, deep(old(effects)@)).state,
            deep(final(effects)@) == old(self)@.failed(reason@, deep(old(effects)@)).effects,
            r@ == old(self)@.failed(reason@, deep(old(effects)@)).action,
    {
        self.run.status = AutoStatus::Failed;
        self.stage = Stage::Finished;
        self.notify(effects);
        effects.push(Effect::Emit(AgentEvent::AutoFailed {
            session_id: self.config.session_id.clone(),
            run_id: self.config.auto_run_id.clone(),
            reason: reason.clone(),
            last_worker_output: None,
        }));
        Action::Finish(AutoResult::Failed { reason, run: self.run.dup() })
    }

    fn finalize_cancelled(&mut self, phase: String, effects: &mut Vec<Effect>) -> (r: Action)
        ensures
            final(self)@ == old(self)@.cancelled(phase@, deep(old(effects)@)).state,
            deep(final(effects)@) == old(self)@.cancelled(phase@, deep(old(effects)@)).effects,
            r@ == old(self)@.cancelled(phase@, deep(old(effects)@)).action,
    {
        self.run.status = AutoStatus::Cancelled;
        self.stage = Stage::Finished;
        self.notify(effects);
        Action::Finish(AutoResult::Cancelled { run: self.run.dup(), phase })
    }
}

/// What the orchestrator's answer stands for.
pub open spec fn reply_view(
    reply: Result<Plan, OrchestratorError>,
) -> Result<PlanView, OrchestratorErrorView> {
    match reply {
        Ok(p) => Ok(p@),
        Err(e) => Err(e@),
    }
}

/// Produces a plan from a task and a pool of models.
pub trait PlanGenerator {
    fn generate(&self, req: &OrchestratorRequest<'_>) -> Result<Plan, OrchestratorError>;
}

/// Runs one worker to its end.
pub trait WorkerRunner {
    fn run(&self, spec: &WorkerSpec, prior_results: &[WorkerResult]) -> WorkerResult;
}

/// Puts a plan before the user.
pub trait PlanApprover {
    fn approve(&self, plan: &Plan) -> Approval;
}

/// Is shown the run whenever it changes, so that it can be saved.
pub trait AutoStateListener {
    fn on_state(&self, run: &AutoRun);
}

/// Where the events of a run go, and where the wish to cancel it comes from.
pub trait RunHost {
    fn emit(&self, event: AgentEvent);

    fn is_cancelled(&self) -> bool;
}

/// Approves every plan.
pub struct AutoApprove;

impl PlanApprover for AutoApprove {
    fn approve(&self, _plan: &Plan) -> (r: Approval)
        ensures
            r == Approval::Approved,
    {
        Approval::Approved
    }
}

impl ExecutorConfigView {
    /// A saved plan that needs no approval and does not hold the worker to begin
    /// with: whatever anyone answers, the run fails.
    pub open spec fn target_missing(self) -> bool {
        &&& self.saved_plan() is Some
        &&& self.first_version() != 1
        &&& self.start_at_worker_id matches Some(id)
            && position_of(self.saved_plan()->0.workers, id) is None
    }
}

/// How a run ends whose saved plan does not hold the worker to begin with.
pub open spec fn missing_target_result(config: ExecutorConfigView) -> AutoResultView {
    AutoResultView::Failed {
        reason: missing_target_reason(
            config.start_at_worker_id->0,
            config.saved_plan()->0.workers,
        ),
        run: AutoRunView {
            status: AutoStatus::Failed,
            pending_failure: None,
            ..config.initial_run()
        },
    }
}

/// An answer to one of the executor's requests.
pub enum ReplyView {
    Polled(bool),
    Planned(Result<PlanView, OrchestratorErrorView>),
    Answered(Approval),
    Worked(WorkerResultView),
}

impl Outcome {
    /// The answer is one to the request.
    pub open spec fn takes(self, reply: ReplyView) -> bool {
        match reply {
            ReplyView::Polled(_) => self.action is PollCancel,
            ReplyView::Planned(_) => self.action is Generate,
            ReplyView::Answered(_) => self.action is Approve,
            ReplyView::Worked(_) => self.action is RunWorker,
        }
    }

    /// The step that follows from an answer.
    #[verifier::opaque]
    pub open spec fn then_told(self, reply: ReplyView) -> Outcome {
        match reply {
            ReplyView::Polled(cancelled) => self.state.polled(cancelled),
            ReplyView::Planned(plan) => self.state.planned(plan),
            ReplyView::Answered(approval) => self.state.answered(approval),
            ReplyView::Worked(result) => self.state.worked(result),
        }
    }
}

/// Where a task stands after a sequence of answers.
pub open spec fn after_replies(config: ExecutorConfigView, replies: Seq<ReplyView>) -> Outcome
    decreases replies.len(),
{
    if replies.len() == 0 {
        ExecutorView::start(config)
    } else {
        after_replies(config, replies.drop_last()).then_told(replies.last())
    }
}

/// Each of the answers was one to what was asked for.
pub open spec fn answers_fit(config: ExecutorConfigView, replies: Seq<ReplyView>) -> bool {
    forall|i: int| 0 <= i < replies.len() ==> after_replies(config, replies.take(i)).takes(
        #[trigger] replies[i],
    )
}

/// The call by which an answer was obtained in a state.
pub open spec fn deed_of(s: ExecutorView, reply: ReplyView) -> DeedView {
    match reply {
        ReplyView::Polled(cancelled) => DeedView::Polled(cancelled),
        ReplyView::Planned(plan) => DeedView::Planned(s.request(), plan),
        ReplyView::Answered(approval) => DeedView::Answered(s.plan, approval),
        ReplyView::Worked(result) => DeedView::Worked(s.plan.workers[s.next], s.prior, result),
    }
}

/// The calls up to the last answer: what each step tells, in order, and then the
/// question that it asks.
pub open spec fn calls_until(
    config: ExecutorConfigView,
    replies: Seq<ReplyView>,
    listening: bool,
) -> Seq<DeedView>
    decreases replies.len(),
{
    if replies.len() == 0 {
        Seq::empty()
    } else {
        let before = replies.drop_last();
        let o = after_replies(config, before);
        (calls_until(config, before, listening) + deeds_of(o.effects, listening)).push(
            deed_of(o.state, replies.last()),
        )
    }
}

/// All the calls of a run that got these answers.
pub open spec fn calls_of(
    config: ExecutorConfigView,
    replies: Seq<ReplyView>,
    listening: bool,
) -> Seq<DeedView> {
    calls_until(config, replies, listening) + deeds_of(
        after_replies(config, replies).effects,
        listening,
    )
}

impl<'a, G: PlanGenerator, W: WorkerRunner, A: PlanApprover, L: AutoStateListener, H: RunHost> Company<
    'a,
    G,
    W,
    A,
    L,
    H,
> {
    /// The answer was given by the one who was asked, to what the state asks for.
    pub open spec fn said(self, s: ExecutorView, reply: ReplyView) -> bool {
        match reply {
            ReplyView::Polled(cancelled) => said_cancelled(self.host, cancelled),
            ReplyView::Planned(plan) => said_plan(self.plan_gen, s.request(), plan),
            ReplyView::Answered(approval) => said_approval(self.approver, s.plan, approval),
            ReplyView::Worked(result) => said_result(
                self.worker_runner,
                s.plan.workers[s.next],
                s.prior,
                result,
            ),
        }
    }

    /// Every answer was given to what was asked for then, and what each step before
    /// it tells was passed on.
    #[verifier::opaque]
    pub open spec fn gave(self, config: ExecutorConfigView, replies: Seq<ReplyView>) -> bool {
        forall|i: int|
            0 <= i < replies.len() ==> {
                &&& self.said(after_replies(config, replies.take(i)).state, #[trigger] replies[i])
                &&& all_passed_on(
                    self.host,
                    self.listener,
                    after_replies(config, replies.take(i)).effects,
                )
            }
    }

    /// The task came to this result by what the company answered. These were the
    /// calls: each question that a step asks, once, and between them what each step
    /// tells, in order, and no others.
    pub open spec fn brings(
        self,
        config: ExecutorConfigView,
        calls: Seq<DeedView>,
        result: AutoResultView,
    ) -> bool {
        exists|replies: Seq<ReplyView>|
            {
                &&& #[trigger] answers_fit(config, replies)
                &&& self.gave(config, replies)
                &&& after_replies(config, replies).action == ActionView::Finish(result)
                &&& all_passed_on(
                    self.host,
                    self.listener,
                    after_replies(config, replies).effects,
                )
                &&& calls == calls_of(config, replies, self.listener is Some)
            }
    }
}

proof fn lemma_gave_more<
    'a,
    G: PlanGenerator,
    W: WorkerRunner,
    A: PlanApprover,
    L: AutoStateListener,
    H: RunHost,
>(
    c: Company<'a, G, W, A, L, H>,
    config: ExecutorConfigView,
    replies: Seq<ReplyView>,
    reply: ReplyView,
)
    requires
        c.gave(config, replies),
        c.said(after_replies(config, replies).state, reply),
        all_passed_on(c.host, c.listener, after_replies(config, replies).effects),
    ensures
        c.gave(config, replies.push(reply)),
{
    reveal(Company::gave);
    let all = replies.push(reply);
    assert forall|i: int| 0 <= i < all.len() implies {
        &&& c.said(after_replies(config, all.take(i)).state, #[trigger] all[i])
        &&& all_passed_on(c.host, c.listener, after_replies(config, all.take(i)).effects)
    } by {
        if i < replies.len() {
            assert(all.take(i) =~= replies.take(i));
            assert(all[i] == replies[i]);
        } else {
            assert(all.take(i) =~= replies);
        }
    }
}

/// The task stands here after these answers, and has kept to its rules.
#[verifier::opaque]
spec fn on_course(config: ExecutorConfigView, replies: Seq<ReplyView>, o: Outcome) -> bool {
    &&& answers_fit(config, replies)
    &&& o == after_replies(config, replies)
    &&& o.sound()
    &&& o.state.config == config
    &&& config.target_missing() ==> o.action == ActionView::Finish(missing_target_result(config))
}

proof fn lemma_course_starts(config: ExecutorConfigView)
    requires
        config.versions_fit(),
    ensures
        on_course(config, Seq::empty(), ExecutorView::start(config)),
{
    reveal(on_course);
    law_start(config);
}

proof fn lemma_course_ends(
    config: ExecutorConfigView,
    replies: Seq<ReplyView>,
    o: Outcome,
    result: AutoResultView,
)
    requires
        on_course(config, replies, o),
        o.action == ActionView::Finish(result),
    ensures
        answers_fit(config, replies),
        after_replies(config, replies) == o,
        config.may_end_with(result),
        config.target_missing() ==> result == missing_target_result(config),
{
    reveal(on_course);
}

proof fn lemma_distance_counts(s: ExecutorView)
    requires
        s.inv(),
    ensures
        0 <= s.distance().0,
        0 <= s.distance().1,
        0 <= s.distance().2,
        0 <= s.distance().3,
{
}

proof fn lemma_told_keeps(o: Outcome, reply: ReplyView)
    requires
        o.sound(),
        o.takes(reply),
    ensures
        o.then_told(reply).sound(),
        o.then_told(reply).state.config == o.state.config,
        closer(o.then_told(reply).state.distance(), o.state.distance()),
{
    match reply {
        ReplyView::Polled(cancelled) => {
            assert(o.then_told(reply) == o.state.polled(cancelled)) by {
                reveal(Outcome::then_told);
            }
            law_polled(o.state, cancelled);
        },
        ReplyView::Planned(plan) => {
            assert(o.then_told(reply) == o.state.planned(plan)) by {
                reveal(Outcome::then_told);
            }
            law_planned(o.state, plan);
        },
        ReplyView::Answered(approval) => {
            assert(o.then_told(reply) == o.state.answered(approval)) by {
                reveal(Outcome::then_told);
            }
            law_answered(o.state, approval);
        },
        ReplyView::Worked(result) => {
            assert(o.then_told(reply) == o.state.worked(result)) by {
                reveal(Outcome::then_told);
            }
            law_worked(o.state, result);
        },
    }
}

proof fn lemma_one_more_reply(config: ExecutorConfigView, replies: Seq<ReplyView>, reply: ReplyView)
    requires
        answers_fit(config, replies),
        after_replies(config, replies).takes(reply),
    ensures
        answers_fit(config, replies.push(reply)),
        after_replies(config, replies.push(reply)) == after_replies(config, replies).then_told(
            reply,
        ),
{
    let all = replies.push(reply);
    assert(all.drop_last() =~= replies);
    assert forall|i: int| 0 <= i < all.len() implies after_replies(config, all.take(i)).takes(
        #[trigger] all[i],
    ) by {
        if i < replies.len() {
            assert(all.take(i) =~= replies.take(i));
            assert(all[i] == replies[i]);
        } else {
            assert(all.take(i) =~= replies);
        }
    }
}

/// How often the orchestrator was asked.
pub open spec fn plan_calls(replies: Seq<ReplyView>) -> int
    decreases replies.len(),
{
    if replies.len() == 0 {
        0
    } else {
        plan_calls(replies.drop_last()) + if replies.last() is Planned { 1int } else { 0 }
    }
}

/// The orchestrator is asked at this stage, or about to be.
pub open spec fn planning(s: ExecutorView) -> bool {
    s.stage == Stage::PollPlanning || s.stage == Stage::Planning
}

/// Each answer leaves the number of replans as it is, or adds one and leads back to
/// planning; a plan leads away from it.
proof fn lemma_told_counts(o: Outcome, reply: ReplyView)
    requires
        o.sound(),
        o.takes(reply),
    ensures
        ({
            let s = o.state;
            let t = o.then_told(reply).state;
            if reply is Worked {
                ||| t.run.replans_used == s.run.replans_used && !planning(t)
                ||| t.run.replans_used == s.run.replans_used + 1
            } else {
                &&& t.run.replans_used == s.run.replans_used
                &&& planning(t) ==> planning(s) && !(reply is Planned)
                &&& reply is Planned ==> planning(s)
            }
        }),
{
    let s = o.state;
    match reply {
        ReplyView::Polled(cancelled) => {
            assert(o.then_told(reply) == s.polled(cancelled)) by {
                reveal(Outcome::then_told);
            }
        },
        ReplyView::Planned(plan) => {
            assert(o.then_told(reply) == s.planned(plan)) by {
                reveal(Outcome::then_told);
            }
            if let Ok(p) = plan {
                let t = s.with_run(
                    AutoRunView { plan_versions: s.run.plan_versions.push(p), ..s.run },
                );
                lemma_announce(t, p, seq![EffectView::Notify(t.run)]);
            }
        },
        ReplyView::Answered(approval) => {
            assert(o.then_told(reply) == s.answered(approval)) by {
                reveal(Outcome::then_told);
            }
            lemma_begin_workers(s, Seq::empty());
        },
        ReplyView::Worked(result) => {
            assert(o.then_told(reply) == s.worked(result)) by {
                reveal(Outcome::then_told);
            }
        },
    }
}

pub proof fn lemma_plan_calls(config: ExecutorConfigView, replies: Seq<ReplyView>)
    requires
        config.versions_fit(),
        answers_fit(config, replies),
    ensures
        ({
            let o = after_replies(config, replies);
            let replans = o.state.run.replans_used - config.initial_run().replans_used;
            let allowed = replans + if config.saved_plan() is Some { 0int } else { 1 };
            &&& o.sound()
            &&& o.state.config == config
            &&& plan_calls(replies) <= allowed
            &&& planning(o.state) ==> plan_calls(replies) < allowed
        }),
    decreases replies.len(),
{
    if replies.len() == 0 {
        law_start(config);
        match config.saved_plan() {
            Some(p) => lemma_announce(ExecutorView::fresh(config), p, Seq::empty()),
            None => {},
        }
    } else {
        let before = replies.drop_last();
        lemma_last_reply(config, replies);
        lemma_plan_calls(config, before);
        lemma_told_keeps(after_replies(config, before), replies.last());
        lemma_told_counts(after_replies(config, before), replies.last());
    }
}

/// The orchestrator is asked once, and once more for each replan that is left; for a
/// run that goes on with its saved plan, only for the replans. No more replans are
/// counted than were left.
pub proof fn law_plan_calls_bounded(config: ExecutorConfigView, replies: Seq<ReplyView>)
    requires
        config.versions_fit(),
        answers_fit(config, replies),
    ensures
        plan_calls(replies) <= 1 + config.replans_left(config.initial_run()),
        config.saved_plan() is Some ==> plan_calls(replies) <= config.replans_left(
            config.initial_run(),
        ),
        after_replies(config, replies).state.run.replans_used <= config.initial_run().replans_used
            + config.replans_left(config.initial_run()),
{
    lemma_plan_calls(config, replies);
}

/// The version of a plan and the reason for it change only where a worker fails within
/// the budget.
proof fn lemma_told_versions(o: Outcome, reply: ReplyView)
    requires
        o.sound(),
        o.takes(reply),
    ensures
        ({
            let s = o.state;
            let t = o.then_told(reply).state;
            if reply is Worked && reply->Worked_0.status.hard_failure() && s.run.replans_used
                < s.config.replan_budget {
                &&& planning(t)
                &&& t.version == s.version + 1
                &&& t.reason == Some(
                    failure_of(s.plan.workers[s.next], reply->Worked_0).error_message,
                )
                &&& t.run.replans_used == s.run.replans_used + 1
            } else {
                &&& t.version == s.version
                &&& t.reason == s.reason
                &&& t.run.replans_used == s.run.replans_used
                &&& planning(t) ==> planning(s) && reply is Polled
                &&& !planning(t) && planning(s) && t.stage != Stage::Finished ==> reply is Planned
            }
        }),
{
    let s = o.state;
    match reply {
        ReplyView::Polled(cancelled) => {
            assert(o.then_told(reply) == s.polled(cancelled)) by {
                reveal(Outcome::then_told);
            }
        },
        ReplyView::Planned(plan) => {
            assert(o.then_told(reply) == s.planned(plan)) by {
                reveal(Outcome::then_told);
            }
        },
        ReplyView::Answered(approval) => {
            assert(o.then_told(reply) == s.answered(approval)) by {
                reveal(Outcome::then_told);
            }
        },
        ReplyView::Worked(result) => {
            assert(o.then_told(reply) == s.worked(result)) by {
                reveal(Outcome::then_told);
            }
        },
    }
}

/// The last answer, and those before it.
pub proof fn lemma_last_reply(config: ExecutorConfigView, replies: Seq<ReplyView>)
    requires
        answers_fit(config, replies),
        replies.len() > 0,
    ensures
        answers_fit(config, replies.drop_last()),
        after_replies(config, replies.drop_last()).takes(replies.last()),
{
    let before = replies.drop_last();
    assert forall|i: int| 0 <= i < before.len() implies after_replies(
        config,
        before.take(i),
    ).takes(#[trigger] before[i]) by {
        assert(before.take(i) =~= replies.take(i));
        assert(before[i] == replies[i]);
    }
    let n = replies.len() - 1;
    assert(replies.take(n) =~= before);
    assert(after_replies(config, before).takes(replies[n]));
}

impl ExecutorConfigView {
    /// The version that the orchestrator is asked for after `calls` answers.
    pub open spec fn version_after(self, calls: int) -> int {
        self.first_version() + calls + if self.saved_plan() is Some { 1int } else { 0 }
    }
}

proof fn lemma_versions(config: ExecutorConfigView, replies: Seq<ReplyView>)
    requires
        config.versions_fit(),
        answers_fit(config, replies),
    ensures
        ({
            let s = after_replies(config, replies).state;
            let calls = plan_calls(replies);
            &&& after_replies(config, replies).sound()
            &&& s.config == config
            &&& calls >= 0
            &&& s.version >= config.first_version()
            &&& s.run.replans_used - config.initial_run().replans_used == s.version
                - config.first_version()
            &&& s.version == config.first_version() ==> s.reason == config.initial_replan_reason
            &&& s.version > config.first_version() ==> s.reason is Some
            &&& planning(s) ==> s.version == config.version_after(calls)
            &&& !planning(s) && s.stage != Stage::Finished ==> s.version == config.version_after(
                calls,
            ) - 1
        }),
    decreases replies.len(),
{
    if replies.len() == 0 {
        law_start(config);
        match config.saved_plan() {
            Some(p) => lemma_announce(ExecutorView::fresh(config), p, Seq::empty()),
            None => {},
        }
    } else {
        let before = replies.drop_last();
        lemma_last_reply(config, replies);
        lemma_versions(config, before);
        lemma_told_keeps(after_replies(config, before), replies.last());
        lemma_told_versions(after_replies(config, before), replies.last());
    }
}

/// Whenever the orchestrator is asked, it is told the task, the pool, the version that
/// follows on the plans so far, and why it is asked again: for the first plan of a
/// fresh task there is no reason, and for every later one there is.
pub proof fn law_plan_request(config: ExecutorConfigView, replies: Seq<ReplyView>)
    requires
        config.versions_fit(),
        answers_fit(config, replies),
        after_replies(config, replies).action is Generate,
    ensures
        ({
            let r = after_replies(config, replies).state.request();
            let calls = plan_calls(replies);
            &&& r.task == config.task
            &&& r.worker_pool == config.worker_pool
            &&& r.plan_version == config.version_after(calls)
            &&& config.saved_plan() is None && calls == 0 ==> r.replan_reason
                == config.initial_replan_reason
            &&& config.saved_plan() is Some || calls > 0 ==> r.replan_reason is Some
            &&& config.resume_from is None ==> r.plan_version == calls + 1
        }),
{
    lemma_versions(config, replies);
}

/// A worker that fails hands its failure to the next request for a plan.
pub proof fn law_failure_is_the_reason(
    config: ExecutorConfigView,
    replies: Seq<ReplyView>,
    result: WorkerResultView,
)
    requires
        config.versions_fit(),
        answers_fit(config, replies),
        after_replies(config, replies).action is RunWorker,
        result.status.hard_failure(),
    ensures
        ({
            let s = after_replies(config, replies).state;
            let o = after_replies(config, replies.push(ReplyView::Worked(result)));
            let failure = failure_of(s.plan.workers[s.next], result);
            if s.run.replans_used < config.replan_budget {
                &&& o.action is PollCancel
                &&& o.state.request().replan_reason == Some(failure.error_message)
                &&& o.state.request().plan_version == s.version + 1
                &&& o.state.run.replans_used == s.run.replans_used + 1
            } else {
                &&& o.action == ActionView::Finish(
                    AutoResultView::Failed { reason: failure.error_message, run: o.state.run },
                )
                &&& o.state.run.pending_failure == Some(failure)
                &&& o.state.run.replans_used == s.run.replans_used
            }
        }),
{
    lemma_versions(config, replies);
    let o = after_replies(config, replies);
    let reply = ReplyView::Worked(result);
    lemma_one_more_reply(config, replies, reply);
    assert(o.then_told(reply) == o.state.worked(result)) by {
        reveal(Outcome::then_told);
    }
    law_worker_failed(o.state, result);
}

/// Where no replan is left, the first worker that fails ends the run, and no replan
/// is counted.
pub proof fn law_no_budget_no_replan(
    config: ExecutorConfigView,
    replies: Seq<ReplyView>,
    result: WorkerResultView,
)
    requires
        config.versions_fit(),
        config.replans_left(config.initial_run()) == 0,
        answers_fit(config, replies),
        after_replies(config, replies).action is RunWorker,
        result.status.hard_failure(),
    ensures
        ({
            let o = after_replies(config, replies.push(ReplyView::Worked(result)));
            &&& o.action matches ActionView::Finish(AutoResultView::Failed { run, .. })
            &&& run.status == AutoStatus::AwaitingFailureDecision
            &&& run.replans_used == config.initial_run().replans_used
        }),
        plan_calls(replies) <= 1,
{
    law_failure_is_the_reason(config, replies, result);
    law_plan_calls_bounded(config, replies);
    lemma_versions(config, replies);
    lemma_one_more_reply(config, replies, ReplyView::Worked(result));
    let o = after_replies(config, replies);
    assert(o.then_told(ReplyView::Worked(result)) == o.state.worked(result)) by {
        reveal(Outcome::then_told);
    }
}

/// The results that are recorded: all but those of workers that failed.
pub open spec fn recorded_results(replies: Seq<ReplyView>) -> Seq<WorkerResultView>
    decreases replies.len(),
{
    if replies.len() == 0 {
        Seq::empty()
    } else {
        let rest = recorded_results(replies.drop_last());
        match replies.last() {
            ReplyView::Worked(r) => if r.status.hard_failure() { rest } else { rest.push(r) },
            _ => rest,
        }
    }
}

/// The results of the workers that completed.
pub open spec fn completed_results(replies: Seq<ReplyView>) -> Seq<WorkerResultView>
    decreases replies.len(),
{
    if replies.len() == 0 {
        Seq::empty()
    } else {
        let rest = completed_results(replies.drop_last());
        match replies.last() {
            ReplyView::Worked(r) => if r.status == WorkerStatusView::Completed {
                rest.push(r)
            } else {
                rest
            },
            _ => rest,
        }
    }
}

/// Only a worker's result changes what is recorded and what is shown to others.
proof fn lemma_told_ledger(o: Outcome, reply: ReplyView)
    requires
        o.sound(),
        o.takes(reply),
    ensures
        ({
            let s = o.state;
            let t = o.then_told(reply).state;
            match reply {
                ReplyView::Worked(r) => {
                    &&& t.run.worker_results == if r.status.hard_failure() {
                        s.run.worker_results
                    } else {
                        s.run.worker_results.push(r)
                    }
                    &&& t.prior == if r.status == WorkerStatusView::Completed {
                        s.prior.push(r)
                    } else {
                        s.prior
                    }
                },
                _ => t.run.worker_results == s.run.worker_results && t.prior == s.prior,
            }
        }),
{
    let s = o.state;
    match reply {
        ReplyView::Polled(cancelled) => {
            assert(o.then_told(reply) == s.polled(cancelled)) by {
                reveal(Outcome::then_told);
            }
        },
        ReplyView::Planned(plan) => {
            assert(o.then_told(reply) == s.planned(plan)) by {
                reveal(Outcome::then_told);
            }
        },
        ReplyView::Answered(approval) => {
            assert(o.then_told(reply) == s.answered(approval)) by {
                reveal(Outcome::then_told);
            }
        },
        ReplyView::Worked(result) => {
            assert(o.then_told(reply) == s.worked(result)) by {
                reveal(Outcome::then_told);
            }
        },
    }
}

/// Whatever is answered, what a run has recorded is what it began with and the results
/// of the workers since that did not fail, in the order in which they came; and the
/// orchestrator and each worker are shown what it began with and the results of the
/// workers since that completed.
pub proof fn law_results_carried(config: ExecutorConfigView, replies: Seq<ReplyView>)
    requires
        config.versions_fit(),
        answers_fit(config, replies),
    ensures
        ({
            let s = after_replies(config, replies).state;
            let before = config.initial_run().worker_results;
            &&& s.run.worker_results == before + recorded_results(replies)
            &&& s.prior == before + completed_results(replies)
            &&& s.request().prior_results == before + completed_results(replies)
        }),
    decreases replies.len(),
{
    lemma_plan_calls(config, replies);
    let first = config.initial_run().worker_results;
    if replies.len() == 0 {
        assert(first + Seq::<WorkerResultView>::empty() =~= first);
    } else {
        let before = replies.drop_last();
        let o = after_replies(config, before);
        lemma_last_reply(config, replies);
        law_results_carried(config, before);
        lemma_plan_calls(config, before);
        lemma_told_ledger(o, replies.last());
        let s = after_replies(config, replies).state;
        assert(s.run.worker_results =~= first + recorded_results(replies));
        assert(s.prior =~= first + completed_results(replies));
    }
}

/// Among the results that are recorded there is none of a worker that failed, and
/// among those that are shown none but of workers that completed.
pub proof fn law_no_failure_recorded(replies: Seq<ReplyView>)
    ensures
        forall|i: int|
            0 <= i < recorded_results(replies).len() ==> !(#[trigger] recorded_results(
                replies,
            )[i]).status.hard_failure(),
        forall|i: int|
            0 <= i < completed_results(replies).len() ==> (#[trigger] completed_results(
                replies,
            )[i]).status == WorkerStatusView::Completed,
    decreases replies.len(),
{
    if replies.len() > 0 {
        law_no_failure_recorded(replies.drop_last());
    }
}

proof fn lemma_answers_before(config: ExecutorConfigView, replies: Seq<ReplyView>, i: int)
    requires
        answers_fit(config, replies),
        0 <= i < replies.len(),
    ensures
        answers_fit(config, replies.take(i)),
        after_replies(config, replies.take(i)).takes(replies[i]),
{
    let before = replies.take(i);
    assert forall|k: int| 0 <= k < before.len() implies after_replies(
        config,
        before.take(k),
    ).takes(#[trigger] before[k]) by {
        assert(before.take(k) =~= replies.take(k));
        assert(before[k] == replies[k]);
    }
    assert(after_replies(config, replies.take(i)).takes(replies[i]));
}

/// Over a whole run: each worker was shown the saved results and then those of the
/// workers before it that completed, in the order in which they came, and each request
/// for a plan carried the same, the task, and the version that follows on the plans so
/// far. For the first plan of a fresh task it carried no reason, for every later one it
/// did.
pub proof fn law_run_hands_on<
    'a,
    G: PlanGenerator,
    W: WorkerRunner,
    A: PlanApprover,
    L: AutoStateListener,
    H: RunHost,
>(c: Company<'a, G, W, A, L, H>, config: ExecutorConfigView, replies: Seq<ReplyView>, i: int)
    requires
        config.versions_fit(),
        answers_fit(config, replies),
        c.gave(config, replies),
        0 <= i < replies.len(),
    ensures
        ({
            let before = replies.take(i);
            let s = after_replies(config, before).state;
            let shown = config.initial_run().worker_results + completed_results(before);
            let calls = plan_calls(before);
            match replies[i] {
                ReplyView::Worked(result) => {
                    &&& 0 <= s.next < s.plan.workers.len()
                    &&& said_result(c.worker_runner, s.plan.workers[s.next], shown, result)
                },
                ReplyView::Planned(plan) => exists|reason: Option<Seq<char>>|
                    {
                        &&& #[trigger] said_plan(
                            c.plan_gen,
                            OrchestratorRequestView {
                                task: config.task,
                                worker_pool: config.worker_pool,
                                prior_results: shown,
                                replan_reason: reason,
                                plan_version: config.version_after(calls) as u32,
                            },
                            plan,
                        )
                        &&& config.resume_from is None && config.initial_replan_reason is None ==> {
                            &&& config.version_after(calls) == calls + 1
                            &&& reason is None <==> calls == 0
                        }
                    },
                ReplyView::Answered(approval) => said_approval(c.approver, s.plan, approval),
                ReplyView::Polled(cancelled) => said_cancelled(c.host, cancelled),
            }
        }),
{
    reveal(Company::gave);
    let before = replies.take(i);
    let o = after_replies(config, before);
    assert(c.said(o.state, replies[i]));
    lemma_answers_before(config, replies, i);
    law_results_carried(config, before);
    lemma_versions(config, before);
    if let ReplyView::Planned(plan) = replies[i] {
        law_plan_request(config, before);
        let shown = config.initial_run().worker_results + completed_results(before);
        assert(o.state.request() == OrchestratorRequestView {
            task: config.task,
            worker_pool: config.worker_pool,
            prior_results: shown,
            replan_reason: o.state.reason,
            plan_version: config.version_after(plan_calls(before)) as u32,
        });
    }
}

/// What a run that ended has recorded is what it began with and the results of the
/// workers since that did not fail.
pub proof fn law_run_records<
    'a,
    G: PlanGenerator,
    W: WorkerRunner,
    A: PlanApprover,
    L: AutoStateListener,
    H: RunHost,
>(
    c: Company<'a, G, W, A, L, H>,
    config: ExecutorConfigView,
    calls: Seq<DeedView>,
    result: AutoResultView,
)
    requires
        config.versions_fit(),
        c.brings(config, calls, result),
    ensures
        exists|replies: Seq<ReplyView>|
            {
                &&& #[trigger] answers_fit(config, replies)
                &&& c.gave(config, replies)
                &&& calls == calls_of(config, replies, c.listener is Some)
                &&& result.run().worker_results == config.initial_run().worker_results
                    + recorded_results(replies)
            },
        config.resume_from is None ==> {
            &&& result.run().replans_used <= config.replan_budget
            &&& forall|i: int|
                0 <= i < result.run().worker_results.len() ==> !(
                #[trigger] result.run().worker_results[i]).status.hard_failure()
        },
{
    let replies = choose|replies: Seq<ReplyView>|
        {
            &&& #[trigger] answers_fit(config, replies)
            &&& c.gave(config, replies)
            &&& after_replies(config, replies).action == ActionView::Finish(result)
            &&& all_passed_on(c.host, c.listener, after_replies(config, replies).effects)
            &&& calls == calls_of(config, replies, c.listener is Some)
        };
    law_results_carried(config, replies);
    law_plan_calls_bounded(config, replies);
    law_no_failure_recorded(replies);
    lemma_plan_calls(config, replies);
    if config.resume_from is None {
        assert(Seq::<WorkerResultView>::empty() + recorded_results(replies) =~= recorded_results(
            replies,
        ));
    }
}

proof fn lemma_course_goes_on(
    config: ExecutorConfigView,
    replies: Seq<ReplyView>,
    o: Outcome,
    reply: ReplyView,
)
    requires
        on_course(config, replies, o),
        o.takes(reply),
    ensures
        on_course(config, replies.push(reply), o.then_told(reply)),
        closer(o.then_told(reply).state.distance(), o.state.distance()),
        0 <= o.then_told(reply).state.distance().0,
        0 <= o.then_told(reply).state.distance().1,
        0 <= o.then_told(reply).state.distance().2,
        0 <= o.then_told(reply).state.distance().3,
{
    reveal(on_course);
    lemma_told_keeps(o, reply);
    lemma_distance_counts(o.then_told(reply).state);
    lemma_one_more_reply(config, replies, reply);
}

proof fn lemma_course_sound(config: ExecutorConfigView, replies: Seq<ReplyView>, o: Outcome)
    requires
        on_course(config, replies, o),
    ensures
        o.sound(),
        o == after_replies(config, replies),
{
    reveal(on_course);
}

/// Asks whether the user has cancelled.
fn serve_poll<
    'a,
    G: PlanGenerator,
    W: WorkerRunner,
    A: PlanApprover,
    L: AutoStateListener,
    H: RunHost,
>(
    e: &mut Executor,
    board: &mut Switchboard<'a, G, W, A, L, H>,
    Ghost(config): Ghost<ExecutorConfigView>,
    Ghost(replies): Ghost<Seq<ReplyView>>,
    Ghost(o): Ghost<Outcome>,
) -> (r: (Step, Ghost<ReplyView>))
    requires
        on_course(config, replies, o),
        old(e)@ == o.state,
        o.action is PollCancel,
    ensures
        o.takes(r.1@),
        final(e)@ == o.then_told(r.1@).state,
        r.0.is(o.then_told(r.1@)),
        final(board).company() == old(board).company(),
        final(board).calls() == old(board).calls().push(deed_of(o.state, r.1@)),
        old(board).company().said(o.state, r.1@),
{
    proof {
        lemma_course_sound(config, replies, o);
    }
    let c = board.poll();
    let step = e.on_polled(c);
    assert(o.then_told(ReplyView::Polled(c)) == o.state.polled(c)) by {
        reveal(Outcome::then_told);
    }
    (step, Ghost(ReplyView::Polled(c)))
}

/// Asks the orchestrator.
fn serve_plan<
    'a,
    G: PlanGenerator,
    W: WorkerRunner,
    A: PlanApprover,
    L: AutoStateListener,
    H: RunHost,
>(
    e: &mut Executor,
    board: &mut Switchboard<'a, G, W, A, L, H>,
    Ghost(config): Ghost<ExecutorConfigView>,
    Ghost(replies): Ghost<Seq<ReplyView>>,
    Ghost(o): Ghost<Outcome>,
) -> (r: (Step, Ghost<ReplyView>))
    requires
        on_course(config, replies, o),
        old(e)@ == o.state,
        o.action is Generate,
    ensures
        o.takes(r.1@),
        final(e)@ == o.then_told(r.1@).state,
        r.0.is(o.then_told(r.1@)),
        final(board).company() == old(board).company(),
        final(board).calls() == old(board).calls().push(deed_of(o.state, r.1@)),
        old(board).company().said(o.state, r.1@),
{
    proof {
        lemma_course_sound(config, replies, o);
    }
    let reply = board.plan(&e.plan_request());
    let ghost told = ReplyView::Planned(reply_view(reply));
    assert(o.then_told(told) == o.state.planned(reply_view(reply))) by {
        reveal(Outcome::then_told);
    }
    (e.on_plan(reply), Ghost(told))
}

/// Asks the user.
fn serve_approval<
    'a,
    G: PlanGenerator,
    W: WorkerRunner,
    A: PlanApprover,
    L: AutoStateListener,
    H: RunHost,
>(
    e: &mut Executor,
    board: &mut Switchboard<'a, G, W, A, L, H>,
    Ghost(config): Ghost<ExecutorConfigView>,
    Ghost(replies): Ghost<Seq<ReplyView>>,
    Ghost(o): Ghost<Outcome>,
) -> (r: (Step, Ghost<ReplyView>))
    requires
        on_course(config, replies, o),
        old(e)@ == o.state,
        o.action is Approve,
    ensures
        o.takes(r.1@),
        final(e)@ == o.then_told(r.1@).state,
        r.0.is(o.then_told(r.1@)),
        final(board).company() == old(board).company(),
        final(board).calls() == old(board).calls().push(deed_of(o.state, r.1@)),
        old(board).company().said(o.state, r.1@),
{
    proof {
        lemma_course_sound(config, replies, o);
    }
    let reply = board.approve(e.plan());
    assert(o.then_told(ReplyView::Answered(reply)) == o.state.answered(reply)) by {
        reveal(Outcome::then_told);
    }
    (e.on_approval(reply), Ghost(ReplyView::Answered(reply)))
}

/// Runs the worker whose turn it is.
fn serve_worker<
    'a,
    G: PlanGenerator,
    W: WorkerRunner,
    A: PlanApprover,
    L: AutoStateListener,
    H: RunHost,
>(
    e: &mut Executor,
    board: &mut Switchboard<'a, G, W, A, L, H>,
    Ghost(config): Ghost<ExecutorConfigView>,
    Ghost(replies): Ghost<Seq<ReplyView>>,
    Ghost(o): Ghost<Outcome>,
) -> (r: (Step, Ghost<ReplyView>))
    requires
        on_course(config, replies, o),
        old(e)@ == o.state,
        o.action is RunWorker,
    ensures
        o.takes(r.1@),
        final(e)@ == o.then_told(r.1@).state,
        r.0.is(o.then_told(r.1@)),
        final(board).company() == old(board).company(),
        final(board).calls() == old(board).calls().push(deed_of(o.state, r.1@)),
        old(board).company().said(o.state, r.1@),
{
    proof {
        lemma_course_sound(config, replies, o);
    }
    let result = board.work(e.worker(), e.prior_results());
    let ghost told = ReplyView::Worked(result@);
    assert(o.then_told(told) == o.state.worked(result@)) by {
        reveal(Outcome::then_told);
    }
    (e.on_worker(result), Ghost(told))
}

/// One more answer is one more call, behind what the step before it tells.
proof fn lemma_calls_go_on(
    config: ExecutorConfigView,
    replies: Seq<ReplyView>,
    reply: ReplyView,
    listening: bool,
)
    ensures
        calls_until(config, replies.push(reply), listening) == calls_of(
            config,
            replies,
            listening,
        ).push(deed_of(after_replies(config, replies).state, reply)),
{
    assert(replies.push(reply).drop_last() =~= replies);
}

/// Drives a task to its end, whatever the orchestrator, the workers and the user
/// answer: the result is the one that their answers lead to, each of them an answer
/// to what was asked for. The host and the listener are told of every step, in the
/// order of the steps, and nobody is called but for that.
pub fn run<
    'a,
    G: PlanGenerator,
    W: WorkerRunner,
    A: PlanApprover,
    L: AutoStateListener,
    H: RunHost,
>(config: ExecutorConfig, board: &mut Switchboard<'a, G, W, A, L, H>) -> (r: AutoResult)
    requires
        config@.versions_fit(),
    ensures
        final(board).company() == old(board).company(),
        old(board).calls().is_prefix_of(final(board).calls()),
        old(board).company().brings(
            config@,
            final(board).calls().skip(old(board).calls().len() as int),
            r@,
        ),
        config@.may_end_with(r@),
        config@.target_missing() ==> r@ == missing_target_result(config@),
{
    let ghost cv = config@;
    let ghost company = board.company();
    let ghost listening = board.listening();
    let ghost earlier = board.calls();
    let started = Executor::start(config);
    let mut e = started.0;
    let mut step = started.1;
    let ghost mut o = ExecutorView::start(cv);
    let ghost mut replies: Seq<ReplyView> = Seq::empty();
    proof {
        lemma_course_starts(cv);
        reveal(Company::gave);
        assert(earlier + calls_until(cv, replies, listening) =~= earlier);
    }
    loop
        invariant
            cv == config@,
            company == board.company(),
            company == old(board).company(),
            earlier == old(board).calls(),
            listening == (company.listener is Some),
            on_course(cv, replies, o),
            company.gave(cv, replies),
            board.calls() == earlier + calls_until(cv, replies, listening),
            e@ == o.state,
            step.is(o),
        decreases
            o.state.distance().0, o.state.distance().1, o.state.distance().2, o.state.distance().3,
    {
        let Step { effects, action } = step;
        board.deliver(effects);
        proof {
            lemma_course_sound(cv, replies, o);
            assert(board.calls() =~= earlier + calls_of(cv, replies, listening));
        }
        let served = match action {
            Action::PollCancel => serve_poll(&mut e, board, Ghost(cv), Ghost(replies), Ghost(o)),
            Action::Generate => serve_plan(&mut e, board, Ghost(cv), Ghost(replies), Ghost(o)),
            Action::Approve => serve_approval(&mut e, board, Ghost(cv), Ghost(replies), Ghost(o)),
            Action::RunWorker => serve_worker(&mut e, board, Ghost(cv), Ghost(replies), Ghost(o)),
            Action::Finish(result) => {
                proof {
                    lemma_course_ends(cv, replies, o, result@);
                    assert(board.calls().skip(earlier.len() as int) =~= calls_of(
                        cv,
                        replies,
                        listening,
                    ));
                }
                return result;
            },
        };
        proof {
            let reply = served.1@;
            lemma_gave_more(company, cv, replies, reply);
            lemma_course_goes_on(cv, replies, o, reply);
            lemma_calls_go_on(cv, replies, reply, listening);
            assert(board.calls() =~= earlier + calls_until(cv, replies.push(reply), listening));
            replies = replies.push(reply);
            o = o.then_told(reply);
        }
        step = served.0;
    }
}

} // verus!
