//! The data of an automatic run: plans, workers, results and the run itself.

use vstd::prelude::*;
use crate::text::{deep, dup_opt, dup_vec, opt, Dup};

verus! {

/// The keyword forms of [`SeePrior`].
#[derive(Clone, Copy, Debug, PartialEq, Eq, Structural)]
pub enum SeePriorKeyword {
    Nothing,
    All,
}

/// Which earlier workers' outputs a worker is shown: a keyword, or the ids of the
/// workers to show.
#[derive(Clone, Debug, PartialEq)]
pub enum SeePrior {
    Keyword(SeePriorKeyword),
    Specific(Vec<String>),
}

/// What a [`SeePrior`] stands for.
#[verifier::ext_equal]
pub enum SeePriorView {
    Keyword(SeePriorKeyword),
    Specific(Seq<Seq<char>>),
}

impl View for SeePrior {
    type V = SeePriorView;

    open spec fn view(&self) -> SeePriorView {
        match self {
            SeePrior::Keyword(x) => SeePriorView::Keyword(*x),
            SeePrior::Specific(x) => SeePriorView::Specific(deep(x@)),
        }
    }
}

impl Dup for SeePrior {
    fn dup(&self) -> (r: Self) {
        match self {
            SeePrior::Keyword(x) => SeePrior::Keyword(*x),
            SeePrior::Specific(x) => SeePrior::Specific(dup_vec(x)),
        }
    }
}

impl Default for SeePrior {
    /// A worker whose plan leaves the choice out sees everything.
    fn default() -> (r: SeePrior)
        ensures
            r@ == SeePriorView::Keyword(SeePriorKeyword::All),
    {
        SeePrior::Keyword(SeePriorKeyword::All)
    }
}

/// One worker of a plan.
#[derive(Clone, Debug, PartialEq)]
pub struct WorkerSpec {
    /// Stable name such as "w1"; `see_prior` lists refer to it.
    pub id: String,
    /// The model the worker runs on, one of the pool.
    pub model: String,
    /// The worker's own task.
    pub prompt: String,
    /// Which earlier outputs are put in front of the prompt.
    pub see_prior: SeePrior,
}

/// What a [`WorkerSpec`] stands for.
#[verifier::ext_equal]
pub struct WorkerSpecView {
    pub id: Seq<char>,
    pub model: Seq<char>,
    pub prompt: Seq<char>,
    pub see_prior: SeePriorView,
}

impl View for WorkerSpec {
    type V = WorkerSpecView;

    open spec fn view(&self) -> WorkerSpecView {
        WorkerSpecView {
            id: self.id@,
            model: self.model@,
            prompt: self.prompt@,
            see_prior: self.see_prior@,
        }
    }
}

impl Dup for WorkerSpec {
    fn dup(&self) -> (r: Self) {
        WorkerSpec {
            id: self.id.clone(),
            model: self.model.clone(),
            prompt: self.prompt.clone(),
            see_prior: self.see_prior.dup(),
        }
    }
}

/// A plan as the orchestrator gave it.
#[derive(Clone, Debug, PartialEq)]
pub struct Plan {
    /// 1 for the initial plan, one more for each replan.
    pub version: u32,
    /// Why this plan.
    pub reasoning: String,
    /// The workers in execution order.
    pub workers: Vec<WorkerSpec>,
}

/// What a [`Plan`] stands for.
#[verifier::ext_equal]
pub struct PlanView {
    pub version: u32,
    pub reasoning: Seq<char>,
    pub workers: Seq<WorkerSpecView>,
}

impl View for Plan {
    type V = PlanView;

    open spec fn view(&self) -> PlanView {
        PlanView {
            version: self.version,
            reasoning: self.reasoning@,
            workers: deep(self.workers@),
        }
    }
}

impl Dup for Plan {
    fn dup(&self) -> (r: Self) {
        Plan {
            version: self.version,
            reasoning: self.reasoning.clone(),
            workers: dup_vec(&self.workers),
        }
    }
}

/// How a worker ended.
#[derive(Clone, Debug, PartialEq, Eq)]
pub enum WorkerStatus {
    Completed,
    /// The worker ran out of iterations.
    MaxIterations,
    ToolError { message: String },
    LlmError { message: String },
    Cancelled,
}

/// What a [`WorkerStatus`] stands for.
#[verifier::ext_equal]
pub enum WorkerStatusView {
    Completed,
    MaxIterations,
    ToolError { message: Seq<char> },
    LlmError { message: Seq<char> },
    Cancelled,
}

impl View for WorkerStatus {
    type V = WorkerStatusView;

    open spec fn view(&self) -> WorkerStatusView {
        match self {
            WorkerStatus::Completed => WorkerStatusView::Completed,
            WorkerStatus::MaxIterations => WorkerStatusView::MaxIterations,
            WorkerStatus::ToolError { message } => WorkerStatusView::ToolError {
                message: message@,
            },
            WorkerStatus::LlmError { message } => WorkerStatusView::LlmError {
                message: message@,
            },
            WorkerStatus::Cancelled => WorkerStatusView::Cancelled,
        }
    }
}

impl Dup for WorkerStatus {
    fn dup(&self) -> (r: Self) {
        match self {
            WorkerStatus::Completed => WorkerStatus::Completed,
            WorkerStatus::MaxIterations => WorkerStatus::MaxIterations,
            WorkerStatus::ToolError { message } => WorkerStatus::ToolError {
                message: message.clone(),
            },
            WorkerStatus::LlmError { message } => WorkerStatus::LlmError {
                message: message.clone(),
            },
            WorkerStatus::Cancelled => WorkerStatus::Cancelled,
        }
    }
}

impl WorkerStatusView {
    /// The statuses that stop the plan: everything but a normal end and a cancellation.
    pub open spec fn hard_failure(self) -> bool {
        self != WorkerStatusView::Completed && self != WorkerStatusView::Cancelled
    }
}

impl WorkerStatus {
    /// Whether this status stops the plan.
    pub fn is_hard_failure(&self) -> (r: bool)
        ensures
            r == self@.hard_failure(),
    {
        matches!(
            self,
            WorkerStatus::MaxIterations
                | WorkerStatus::ToolError { .. }
                | WorkerStatus::LlmError { .. }
        )
    }

    /// Whether the worker was cancelled.
    pub fn is_cancelled(&self) -> (r: bool)
        ensures
            r == (self@ == WorkerStatusView::Cancelled),
    {
        matches!(self, WorkerStatus::Cancelled)
    }
}

/// What a worker left behind.
#[derive(Clone, Debug, PartialEq)]
pub struct WorkerResult {
    pub id: String,
    pub model: String,
    pub prompt: String,
    /// The final text of the worker's loop.
    pub summary: String,
    pub tool_count: u32,
    pub cost_cents: u32,
    pub status: WorkerStatus,
}

/// What a [`WorkerResult`] stands for.
#[verifier::ext_equal]
pub struct WorkerResultView {
    pub id: Seq<char>,
    pub model: Seq<char>,
    pub prompt: Seq<char>,
    pub summary: Seq<char>,
    pub tool_count: u32,
    pub cost_cents: u32,
    pub status: WorkerStatusView,
}

impl View for WorkerResult {
    type V = WorkerResultView;

    open spec fn view(&self) -> WorkerResultView {
        WorkerResultView {
            id: self.id@,
            model: self.model@,
            prompt: self.prompt@,
            summary: self.summary@,
            tool_count: self.tool_count,
            cost_cents: self.cost_cents,
            status: self.status@,
        }
    }
}

impl Dup for WorkerResult {
    fn dup(&self) -> (r: Self) {
        WorkerResult {
            id: self.id.clone(),
            model: self.model.clone(),
            prompt: self.prompt.clone(),
            summary: self.summary.clone(),
            tool_count: self.tool_count,
            cost_cents: self.cost_cents,
            status: self.status.dup(),
        }
    }
}

/// A failure that waits for the user's choice to retry, replan or cancel.
#[derive(Clone, Debug, PartialEq)]
pub struct WorkerFailureContext {
    pub worker_id: String,
    pub worker_model: String,
    pub worker_prompt: String,
    pub error_message: String,
}

/// What a [`WorkerFailureContext`] stands for.
#[verifier::ext_equal]
pub struct WorkerFailureContextView {
    pub worker_id: Seq<char>,
    pub worker_model: Seq<char>,
    pub worker_prompt: Seq<char>,
    pub error_message: Seq<char>,
}

impl View for WorkerFailureContext {
    type V = WorkerFailureContextView;

    open spec fn view(&self) -> WorkerFailureContextView {
        WorkerFailureContextView {
            worker_id: self.worker_id@,
            worker_model: self.worker_model@,
            worker_prompt: self.worker_prompt@,
            error_message: self.error_message@,
        }
    }
}

impl Dup for WorkerFailureContext {
    fn dup(&self) -> (r: Self) {
        WorkerFailureContext {
            worker_id: self.worker_id.clone(),
            worker_model: self.worker_model.clone(),
            worker_prompt: self.worker_prompt.clone(),
            error_message: self.error_message.clone(),
        }
    }
}

/// Where a run stands.
#[derive(Clone, Copy, Debug, PartialEq, Eq, Structural)]
pub enum AutoStatus {
    Planning,
    AwaitingApproval,
    Running,
    /// A worker failed and the user has yet to choose what to do about it.
    AwaitingFailureDecision,
    Done,
    Failed,
    Cancelled,
}

impl AutoStatus {
    /// Whether a run in this status is over or waits for the user: nothing is
    /// being executed for it.
    pub open spec fn at_rest(self) -> bool {
        self == AutoStatus::Done || self == AutoStatus::Failed || self == AutoStatus::Cancelled
            || self == AutoStatus::AwaitingFailureDecision
    }
}

/// The state of one automatic run, as it is saved.
#[derive(Clone, Debug, PartialEq)]
pub struct AutoRun {
    pub id: String,
    pub session_id: String,
    pub status: AutoStatus,
    /// The initial plan first, then the replans.
    pub plan_versions: Vec<Plan>,
    pub worker_results: Vec<WorkerResult>,
    pub cost_cents: u32,
    pub replans_used: u32,
    /// The worker that is executing right now.
    pub current_worker: Option<WorkerSpec>,
    /// The failure that waits for a decision.
    pub pending_failure: Option<WorkerFailureContext>,
}

/// What an [`AutoRun`] stands for.
#[verifier::ext_equal]
pub struct AutoRunView {
    pub id: Seq<char>,
    pub session_id: Seq<char>,
    pub status: AutoStatus,
    pub plan_versions: Seq<PlanView>,
    pub worker_results: Seq<WorkerResultView>,
    pub cost_cents: u32,
    pub replans_used: u32,
    pub current_worker: Option<WorkerSpecView>,
    pub pending_failure: Option<WorkerFailureContextView>,
}

impl View for AutoRun {
    type V = AutoRunView;

    open spec fn view(&self) -> AutoRunView {
        AutoRunView {
            id: self.id@,
            session_id: self.session_id@,
            status: self.status,
            plan_versions: deep(self.plan_versions@),
            worker_results: deep(self.worker_results@),
            cost_cents: self.cost_cents,
            replans_used: self.replans_used,
            current_worker: opt(self.current_worker),
            pending_failure: opt(self.pending_failure),
        }
    }
}

impl Dup for AutoRun {
    fn dup(&self) -> (r: Self) {
        AutoRun {
            id: self.id.clone(),
            session_id: self.session_id.clone(),
            status: self.status,
            plan_versions: dup_vec(&self.plan_versions),
            worker_results: dup_vec(&self.worker_results),
            cost_cents: self.cost_cents,
            replans_used: self.replans_used,
            current_worker: dup_opt(&self.current_worker),
            pending_failure: dup_opt(&self.pending_failure),
        }
    }
}

/// How a run ended.
#[derive(Clone, Debug, PartialEq)]
pub enum AutoResult {
    /// Every worker of the last plan ended well.
    Done { summary: String, run: AutoRun },
    /// The run failed, or waits for a decision on a failure.
    Failed { reason: String, run: AutoRun },
    /// The user cancelled; `phase` says during what.
    Cancelled { run: AutoRun, phase: String },
}

/// What an [`AutoResult`] stands for.
#[verifier::ext_equal]
pub enum AutoResultView {
    Done { summary: Seq<char>, run: AutoRunView },
    Failed { reason: Seq<char>, run: AutoRunView },
    Cancelled { run: AutoRunView, phase: Seq<char> },
}

impl View for AutoResult {
    type V = AutoResultView;

    open spec fn view(&self) -> AutoResultView {
        match self {
            AutoResult::Done { summary, run } => AutoResultView::Done {
                summary: summary@,
                run: run@,
            },
            AutoResult::Failed { reason, run } => AutoResultView::Failed {
                reason: reason@,
                run: run@,
            },
            AutoResult::Cancelled { run, phase } => AutoResultView::Cancelled {
                run: run@,
                phase: phase@,
            },
        }
    }
}

impl Dup for AutoResult {
    fn dup(&self) -> (r: Self) {
        match self {
            AutoResult::Done { summary, run } => AutoResult::Done {
                summary: summary.clone(),
                run: run.dup(),
            },
            AutoResult::Failed { reason, run } => AutoResult::Failed {
                reason: reason.clone(),
                run: run.dup(),
            },
            AutoResult::Cancelled { run, phase } => AutoResult::Cancelled {
                run: run.dup(),
                phase: phase.clone(),
            },
        }
    }
}

/// One model the orchestrator may give to a worker.
#[derive(Clone, Debug, PartialEq)]
pub struct WorkerPoolEntry {
    pub provider_id: String,
    pub model: String,
    /// What the model is good for, in the user's words.
    pub description: String,
}

/// What a [`WorkerPoolEntry`] stands for.
#[verifier::ext_equal]
pub struct WorkerPoolEntryView {
    pub provider_id: Seq<char>,
    pub model: Seq<char>,
    pub description: Seq<char>,
}

impl View for WorkerPoolEntry {
    type V = WorkerPoolEntryView;

    open spec fn view(&self) -> WorkerPoolEntryView {
        WorkerPoolEntryView {
            provider_id: self.provider_id@,
            model: self.model@,
            description: self.description@,
        }
    }
}

impl Dup for WorkerPoolEntry {
    fn dup(&self) -> (r: Self) {
        WorkerPoolEntry {
            provider_id: self.provider_id.clone(),
            model: self.model.clone(),
            description: self.description.clone(),
        }
    }
}

} // verus!
