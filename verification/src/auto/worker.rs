//! A worker: what it is told, which of its events are passed on, and what its end
//! means for the run.

use vstd::prelude::*;
use vstd::string::*;
use crate::auto::types::{
    SeePrior, SeePriorKeyword, SeePriorView, WorkerResult, WorkerResultView, WorkerSpec,
    WorkerSpecView, WorkerStatus, WorkerStatusView,
};
use crate::llm::{LlmClientConfig, LlmClientConfigView};
use crate::text::{
    contains_text, deep, dup_opt, dup_vec, first_where, has_prefix, lemma_deep_push, lemma_first,
    lemma_no_first, lemma_take_next, opt, same_text, starts_with, Dup,
};
use crate::types::{AgentEvent, AgentEventView, AgentResult, AgentResultView};

verus! {

broadcast use lemma_deep_push;

/// What the agent loop writes at the beginning of its summary when it runs out of
/// iterations.
pub const MAX_ITER_SUMMARY_PREFIX: &'static str = "Reached maximum of";

/// The tools an agent is given.
#[derive(Clone, Copy, Debug, PartialEq, Eq, Structural)]
pub enum ToolMode {
    Ask,
    Plan,
    Coding,
}

/// How one model of the pool is reached.
#[derive(Clone, Debug, PartialEq)]
pub struct ModelConfig {
    pub model: String,
    pub config: LlmClientConfig,
}

/// What a [`ModelConfig`] stands for.
#[verifier::ext_equal]
pub struct ModelConfigView {
    pub model: Seq<char>,
    pub config: LlmClientConfigView,
}

impl View for ModelConfig {
    type V = ModelConfigView;

    open spec fn view(&self) -> ModelConfigView {
        ModelConfigView {
            model: self.model@,
            config: self.config@,
        }
    }
}

impl Dup for ModelConfig {
    fn dup(&self) -> (r: Self) {
        ModelConfig {
            model: self.model.clone(),
            config: self.config.dup(),
        }
    }
}

/// What all workers of a run share.
#[derive(Clone, Debug, PartialEq)]
pub struct WorkerContext {
    pub session_id: String,
    pub run_id: String,
    pub working_dir: String,
    /// The models of the pool; of two entries for one model the first counts.
    pub worker_llm_configs: Vec<ModelConfig>,
    pub max_iterations: u32,
    pub compaction_llm: Option<LlmClientConfig>,
    pub has_context_engine: bool,
    pub context_engine_repo_path: Option<String>,
    pub checkpoint_dir: Option<String>,
}

/// What a [`WorkerContext`] stands for.
#[verifier::ext_equal]
pub struct WorkerContextView {
    pub session_id: Seq<char>,
    pub run_id: Seq<char>,
    pub working_dir: Seq<char>,
    pub worker_llm_configs: Seq<ModelConfigView>,
    pub max_iterations: u32,
    pub compaction_llm: Option<LlmClientConfigView>,
    pub has_context_engine: bool,
    pub context_engine_repo_path: Option<Seq<char>>,
    pub checkpoint_dir: Option<Seq<char>>,
}

impl View for WorkerContext {
    type V = WorkerContextView;

    open spec fn view(&self) -> WorkerContextView {
        WorkerContextView {
            session_id: self.session_id@,
            run_id: self.run_id@,
            working_dir: self.working_dir@,
            worker_llm_configs: deep(self.worker_llm_configs@),
            max_iterations: self.max_iterations,
            compaction_llm: opt(self.compaction_llm),
            has_context_engine: self.has_context_engine,
            context_engine_repo_path: opt(self.context_engine_repo_path),
            checkpoint_dir: opt(self.checkpoint_dir),
        }
    }
}

impl Dup for WorkerContext {
    fn dup(&self) -> (r: Self) {
        WorkerContext {
            session_id: self.session_id.clone(),
            run_id: self.run_id.clone(),
            working_dir: self.working_dir.clone(),
            worker_llm_configs: dup_vec(&self.worker_llm_configs),
            max_iterations: self.max_iterations,
            compaction_llm: dup_opt(&self.compaction_llm),
            has_context_engine: self.has_context_engine,
            context_engine_repo_path: dup_opt(&self.context_engine_repo_path),
            checkpoint_dir: dup_opt(&self.checkpoint_dir),
        }
    }
}

/// The agent loop to run for a worker.
#[derive(Clone, Debug, PartialEq)]
pub struct ChildSetup {
    pub llm: LlmClientConfig,
    pub working_dir: String,
    pub mode: ToolMode,
    pub max_iterations: u32,
    /// `None` for the standard prompt of the mode.
    pub system_prompt: Option<String>,
    pub compaction_llm: Option<LlmClientConfig>,
    pub context_engine_repo_path: Option<String>,
    /// The repository that the index tools work on, where there is an engine for it.
    pub index_tools: Option<String>,
    pub checkpoint_dir: Option<String>,
    /// The first message.
    pub user_text: String,
}

/// What a [`ChildSetup`] stands for.
#[verifier::ext_equal]
pub struct ChildSetupView {
    pub llm: LlmClientConfigView,
    pub working_dir: Seq<char>,
    pub mode: ToolMode,
    pub max_iterations: u32,
    pub system_prompt: Option<Seq<char>>,
    pub compaction_llm: Option<LlmClientConfigView>,
    pub context_engine_repo_path: Option<Seq<char>>,
    pub index_tools: Option<Seq<char>>,
    pub checkpoint_dir: Option<Seq<char>>,
    pub user_text: Seq<char>,
}

impl View for ChildSetup {
    type V = ChildSetupView;

    open spec fn view(&self) -> ChildSetupView {
        ChildSetupView {
            llm: self.llm@,
            working_dir: self.working_dir@,
            mode: self.mode,
            max_iterations: self.max_iterations,
            system_prompt: opt(self.system_prompt),
            compaction_llm: opt(self.compaction_llm),
            context_engine_repo_path: opt(self.context_engine_repo_path),
            index_tools: opt(self.index_tools),
            checkpoint_dir: opt(self.checkpoint_dir),
            user_text: self.user_text@,
        }
    }
}

impl Dup for ChildSetup {
    fn dup(&self) -> (r: Self) {
        ChildSetup {
            llm: self.llm.dup(),
            working_dir: self.working_dir.clone(),
            mode: self.mode,
            max_iterations: self.max_iterations,
            system_prompt: dup_opt(&self.system_prompt),
            compaction_llm: dup_opt(&self.compaction_llm),
            context_engine_repo_path: dup_opt(&self.context_engine_repo_path),
            index_tools: dup_opt(&self.index_tools),
            checkpoint_dir: dup_opt(&self.checkpoint_dir),
            user_text: self.user_text.clone(),
        }
    }
}

/// Why an agent loop ended without a result.
#[derive(Clone, Debug, PartialEq)]
pub enum AgentError {
    Cancelled,
    /// Anything else, in words.
    Failed(String),
}

/// What an [`AgentError`] stands for.
#[verifier::ext_equal]
pub enum AgentErrorView {
    Cancelled,
    Failed(Seq<char>),
}

impl View for AgentError {
    type V = AgentErrorView;

    open spec fn view(&self) -> AgentErrorView {
        match self {
            AgentError::Cancelled => AgentErrorView::Cancelled,
            AgentError::Failed(x) => AgentErrorView::Failed(x@),
        }
    }
}

impl Dup for AgentError {
    fn dup(&self) -> (r: Self) {
        match self {
            AgentError::Cancelled => AgentError::Cancelled,
            AgentError::Failed(x) => AgentError::Failed(x.clone()),
        }
    }
}

/// What follows from the start of a worker.
#[derive(Clone, Debug, PartialEq)]
pub enum Launch {
    Child(ChildSetup),
    /// There is nothing to run.
    Ended(WorkerResult),
}

/// What a [`Launch`] stands for.
#[verifier::ext_equal]
pub enum LaunchView {
    Child(ChildSetupView),
    Ended(WorkerResultView),
}

impl View for Launch {
    type V = LaunchView;

    open spec fn view(&self) -> LaunchView {
        match self {
            Launch::Child(x) => LaunchView::Child(x@),
            Launch::Ended(x) => LaunchView::Ended(x@),
        }
    }
}

// ── The message ──

/// The results a worker is shown, in order.
pub open spec fn visible(see: SeePriorView, prior: Seq<WorkerResultView>) -> Seq<WorkerResultView> {
    match see {
        SeePriorView::Keyword(SeePriorKeyword::Nothing) => Seq::empty(),
        SeePriorView::Keyword(SeePriorKeyword::All) => prior,
        SeePriorView::Specific(ids) => prior.filter(|r: WorkerResultView| ids.contains(r.id)),
    }
}

pub open spec fn prior_block(r: WorkerResultView) -> Seq<char> {
    "<prior_worker id=\""@ + r.id + "\">\n"@ + r.summary + "\n</prior_worker>\n\n"@
}

pub open spec fn prior_blocks(rs: Seq<WorkerResultView>) -> Seq<char>
    decreases rs.len(),
{
    if rs.len() == 0 {
        Seq::empty()
    } else {
        prior_blocks(rs.drop_last()) + prior_block(rs.last())
    }
}

/// The message to a worker: the results it is shown and then its task, or the bare
/// prompt where it is shown none.
pub open spec fn worker_message(w: WorkerSpecView, prior: Seq<WorkerResultView>) -> Seq<char> {
    let shown = visible(w.see_prior, prior);
    if shown.len() == 0 {
        w.prompt
    } else {
        prior_blocks(shown) + "<task>\n"@ + w.prompt + "\n</task>"@
    }
}

fn is_shown(see: &SeePrior, id: &str) -> (r: bool)
    ensures
        r == match see@ {
            SeePriorView::Keyword(k) => k == SeePriorKeyword::All,
            SeePriorView::Specific(ids) => ids.contains(id@),
        },
{
    match see {
        SeePrior::Keyword(k) => matches!(k, SeePriorKeyword::All),
        SeePrior::Specific(ids) => contains_text(ids, id),
    }
}

proof fn lemma_visible_next(see: SeePriorView, prior: Seq<WorkerResultView>, i: int)
    requires
        0 <= i < prior.len(),
    ensures
        visible(see, prior.take(i + 1)) == if match see {
            SeePriorView::Keyword(k) => k == SeePriorKeyword::All,
            SeePriorView::Specific(ids) => ids.contains(prior[i].id),
        } {
            visible(see, prior.take(i)).push(prior[i])
        } else {
            visible(see, prior.take(i))
        },
{
    lemma_take_next(prior, i);
    if let SeePriorView::Specific(ids) = see {
        prior.take(i).lemma_filter_push(prior[i], |r: WorkerResultView| ids.contains(r.id));
    }
}

pub fn build_worker_user_message(spec: &WorkerSpec, prior: &[WorkerResult]) -> (r: String)
    ensures
        r@ == worker_message(spec@, deep(prior@)),
{
    let ghost see = spec@.see_prior;
    let ghost rs = deep(prior@);
    let mut s = String::new();
    let mut any = false;
    let mut i: usize = 0;
    proof {
        assert(rs.take(0) =~= Seq::empty());
        if let SeePriorView::Specific(ids) = see {
            Seq::<WorkerResultView>::empty().lemma_filter_len(|r: WorkerResultView| ids.contains(r.id));
        }
        assert(visible(see, rs.take(0)) =~= Seq::empty());
    }
    while i < prior.len()
        invariant
            i <= prior@.len(),
            see == spec@.see_prior,
            rs == deep(prior@),
            s@ == prior_blocks(visible(see, rs.take(i as int))),
            any == (visible(see, rs.take(i as int)).len() > 0),
        decreases prior@.len() - i,
    {
        let p = &prior[i];
        proof {
            assert(rs[i as int] == p@);
            lemma_visible_next(see, rs, i as int);
        }
        if is_shown(&spec.see_prior, p.id.as_str()) {
            let mut block = "<prior_worker id=\"".to_owned();
            block.append(p.id.as_str());
            block.append("\">\n");
            block.append(p.summary.as_str());
            block.append("\n</prior_worker>\n\n");
            s.append(block.as_str());
            any = true;
            proof {
                let before = visible(see, rs.take(i as int));
                assert(before.push(p@).drop_last() =~= before);
            }
        }
        i += 1;
    }
    assert(rs.take(i as int) =~= rs);
    if !any {
        return spec.prompt.clone();
    }
    s.append("<task>\n");
    s.append(spec.prompt.as_str());
    s.append("\n</task>");
    s
}

// ── The end ──

/// What an agent loop came to.
pub open spec fn outcome_view(o: Result<AgentResult, AgentError>) -> Result<
    AgentResultView,
    AgentErrorView,
> {
    match o {
        Ok(r) => Ok(r@),
        Err(e) => Err(e@),
    }
}

/// The summary and the status that follow from how the loop ended. A worker has
/// nobody to ask, so a loop that stops for the user has failed.
pub open spec fn classified(o: Result<AgentResultView, AgentErrorView>) -> (
    Seq<char>,
    WorkerStatusView,
) {
    match o {
        Ok(AgentResultView::Done { summary }) => (
            summary,
            if has_prefix(summary, MAX_ITER_SUMMARY_PREFIX@) {
                WorkerStatusView::MaxIterations
            } else {
                WorkerStatusView::Completed
            },
        ),
        Ok(AgentResultView::AskUser { question, .. }) => (
            "worker yielded AskUser unexpectedly: "@ + question,
            WorkerStatusView::ToolError {
                message:
                    "unexpected AskUser yield from a worker — Auto mode does not pass questions through"@,
            },
        ),
        Ok(AgentResultView::PlanReady { .. }) => (
            "worker yielded PlanReady unexpectedly"@,
            WorkerStatusView::ToolError {
                message:
                    "unexpected PlanReady yield from a worker — Auto mode does not surface plans"@,
            },
        ),
        Err(AgentErrorView::Cancelled) => ("cancelled"@, WorkerStatusView::Cancelled),
        Err(AgentErrorView::Failed(msg)) => (
            "worker failed: "@ + msg,
            WorkerStatusView::LlmError { message: msg },
        ),
    }
}

pub fn classify_outcome(outcome: Result<AgentResult, AgentError>) -> (r: (String, WorkerStatus))
    ensures
        (r.0@, r.1@) == classified(outcome_view(outcome)),
{
    match outcome {
        Ok(AgentResult::Done { summary }) => if starts_with(
            summary.as_str(),
            MAX_ITER_SUMMARY_PREFIX,
        ) {
            (summary, WorkerStatus::MaxIterations)
        } else {
            (summary, WorkerStatus::Completed)
        },
        Ok(AgentResult::AskUser { question, .. }) => {
            let mut s = "worker yielded AskUser unexpectedly: ".to_owned();
            s.append(question.as_str());
            (
                s,
                WorkerStatus::ToolError {
                    message:
                        "unexpected AskUser yield from a worker — Auto mode does not pass questions through".to_owned(),
                },
            )
        },
        Ok(AgentResult::PlanReady { .. }) => (
            "worker yielded PlanReady unexpectedly".to_owned(),
            WorkerStatus::ToolError {
                message:
                    "unexpected PlanReady yield from a worker — Auto mode does not surface plans".to_owned(),
            },
        ),
        Err(AgentError::Cancelled) => ("cancelled".to_owned(), WorkerStatus::Cancelled),
        Err(AgentError::Failed(msg)) => {
            let mut s = "worker failed: ".to_owned();
            s.append(msg.as_str());
            (s, WorkerStatus::LlmError { message: msg })
        },
    }
}

/// A loop that was cancelled, and only that, makes a cancelled worker; of the
/// others only a normal end is no hard failure.
pub proof fn law_classified(o: Result<AgentResultView, AgentErrorView>)
    ensures
        classified(o).1 == WorkerStatusView::Cancelled <==> o == Err::<AgentResultView, _>(
            AgentErrorView::Cancelled,
        ),
        classified(o).1 == WorkerStatusView::Completed <==> (o matches Ok(
            AgentResultView::Done { summary },
        ) && !has_prefix(summary, MAX_ITER_SUMMARY_PREFIX@)),
        classified(o).1.hard_failure() <==> classified(o).1 != WorkerStatusView::Cancelled
            && classified(o).1 != WorkerStatusView::Completed,
{
}

// ── The worker's life ──

impl WorkerContextView {
    /// How a model is reached: its first entry.
    pub open spec fn config_of(self, model: Seq<char>) -> Option<LlmClientConfigView> {
        let cs = self.worker_llm_configs;
        match first_where(cs.len() as int, |i: int| cs[i].model == model) {
            Some(i) => Some(cs[i].config),
            None => None,
        }
    }

    pub open spec fn start_event(self, w: WorkerSpecView) -> AgentEventView {
        AgentEventView::AutoWorkerStart {
            session_id: self.session_id,
            run_id: self.run_id,
            worker_id: w.id,
            model: w.model,
            prompt: w.prompt,
        }
    }

    pub open spec fn end_event(self, r: WorkerResultView) -> AgentEventView {
        AgentEventView::AutoWorkerEnd {
            session_id: self.session_id,
            run_id: self.run_id,
            worker_id: r.id,
            summary: r.summary,
            cost_cents: r.cost_cents,
            tool_count: r.tool_count,
            status: r.status,
        }
    }

    /// The loop that is run for a worker.
    pub open spec fn setup(
        self,
        w: WorkerSpecView,
        llm: LlmClientConfigView,
        prior: Seq<WorkerResultView>,
    ) -> ChildSetupView {
        ChildSetupView {
            llm,
            working_dir: self.working_dir,
            mode: ToolMode::Coding,
            max_iterations: self.max_iterations,
            system_prompt: None,
            compaction_llm: self.compaction_llm,
            context_engine_repo_path: self.context_engine_repo_path,
            index_tools: if self.has_context_engine { self.context_engine_repo_path } else { None },
            checkpoint_dir: self.checkpoint_dir,
            user_text: worker_message(w, prior),
        }
    }
}

/// What a worker leaves behind; its cost is not known.
pub open spec fn result_of(
    w: WorkerSpecView,
    summary: Seq<char>,
    tool_count: u32,
    status: WorkerStatusView,
) -> WorkerResultView {
    WorkerResultView {
        id: w.id,
        model: w.model,
        prompt: w.prompt,
        summary,
        tool_count,
        cost_cents: 0,
        status,
    }
}

pub open spec fn unknown_model_text(model: Seq<char>) -> Seq<char> {
    "model `"@ + model
        + "` is not in the configured worker pool — orchestrator picked an unknown model"@
}

/// What a worker whose model is not in the pool leaves behind.
pub open spec fn unknown_model(w: WorkerSpecView) -> WorkerResultView {
    let msg = unknown_model_text(w.model);
    result_of(w, msg, 0, WorkerStatusView::LlmError { message: msg })
}

/// The event of a worker's own loop that its run passes on, if any: the beginning
/// and the end of a tool call.
pub open spec fn relayed(
    ctx: WorkerContextView,
    worker_id: Seq<char>,
    ev: AgentEventView,
) -> Option<AgentEventView> {
    match ev {
        AgentEventView::ToolStart { tool_call_id, tool_name, args_summary, .. } => Some(
            AgentEventView::AutoWorkerToolStart {
                session_id: ctx.session_id,
                run_id: ctx.run_id,
                worker_id,
                tool_call_id,
                tool_name,
                args_summary,
            },
        ),
        AgentEventView::ToolEnd { tool_call_id, success, summary, .. } => Some(
            AgentEventView::AutoWorkerToolEnd {
                session_id: ctx.session_id,
                run_id: ctx.run_id,
                worker_id,
                tool_call_id,
                success,
                summary,
            },
        ),
        _ => None,
    }
}

/// A worker between its start and its end.
pub struct WorkerRun {
    ctx: WorkerContext,
    spec: WorkerSpec,
    tool_count: u32,
}

/// What a [`WorkerRun`] stands for.
#[verifier::ext_equal]
pub struct WorkerRunView {
    pub ctx: WorkerContextView,
    pub spec: WorkerSpecView,
    /// The tool calls that have ended so far.
    pub tool_count: u32,
}

impl View for WorkerRun {
    type V = WorkerRunView;

    closed spec fn view(&self) -> WorkerRunView {
        WorkerRunView { ctx: self.ctx@, spec: self.spec@, tool_count: self.tool_count }
    }
}

fn find_config(configs: &Vec<ModelConfig>, model: &str) -> (r: Option<usize>)
    ensures
        match r {
            Some(i) => first_where(configs@.len() as int, |i: int| deep(configs@)[i].model == model@)
                == Some(i as int) && i < configs@.len(),
            None => first_where(
                configs@.len() as int,
                |i: int| deep(configs@)[i].model == model@,
            ) is None,
        },
{
    let ghost cs = deep(configs@);
    let ghost hit = |i: int| deep(configs@)[i].model == model@;
    let mut i: usize = 0;
    while i < configs.len()
        invariant
            i <= configs@.len(),
            cs == deep(configs@),
            hit == (|i: int| deep(configs@)[i].model == model@),
            forall|k: int| 0 <= k < i ==> !#[trigger] hit(k),
        decreases configs@.len() - i,
    {
        assert(cs[i as int] == configs@[i as int]@);
        if same_text(configs[i].model.as_str(), model) {
            proof {
                assert(hit(i as int));
                lemma_first(configs@.len() as int, hit, i as int);
            }
            return Some(i);
        }
        assert(!hit(i as int));
        i += 1;
    }
    proof {
        lemma_no_first(configs@.len() as int, hit);
    }
    None
}

impl WorkerRun {
    /// Starts a worker: announces it and sets up its loop. A model that is not in
    /// the pool ends the worker at once.
    pub fn start(spec: &WorkerSpec, prior_results: &[WorkerResult], ctx: &WorkerContext) -> (r: (
        WorkerRun,
        Vec<AgentEvent>,
        Launch,
    ))
        ensures
            r.0@ == (WorkerRunView { ctx: ctx@, spec: spec@, tool_count: 0 }),
            match ctx@.config_of(spec@.model) {
                Some(llm) => {
                    &&& deep(r.1@) == seq![ctx@.start_event(spec@)]
                    &&& r.2@ == LaunchView::Child(ctx@.setup(spec@, llm, deep(prior_results@)))
                },
                None => {
                    &&& deep(r.1@) == seq![
                        ctx@.start_event(spec@),
                        ctx@.end_event(unknown_model(spec@)),
                    ]
                    &&& r.2@ == LaunchView::Ended(unknown_model(spec@))
                },
            },
    {
        let run = WorkerRun { ctx: ctx.dup(), spec: spec.dup(), tool_count: 0 };
        let mut events: Vec<AgentEvent> = Vec::new();
        events.push(AgentEvent::AutoWorkerStart {
            session_id: ctx.session_id.clone(),
            run_id: ctx.run_id.clone(),
            worker_id: spec.id.clone(),
            model: spec.model.clone(),
            prompt: spec.prompt.clone(),
        });
        assert(deep(events@) =~= seq![ctx@.start_event(spec@)]);
        let user_text = build_worker_user_message(spec, prior_results);
        let found = find_config(&ctx.worker_llm_configs, spec.model.as_str());
        proof {
            assert((|i: int| deep(ctx.worker_llm_configs@)[i].model == spec@.model) =~= (|i: int|
                ctx@.worker_llm_configs[i].model == spec@.model));
        }
        match found {
            Some(i) => {
                assert(deep(ctx.worker_llm_configs@)[i as int] == ctx.worker_llm_configs@[i as int]@);
                let setup = ChildSetup {
                    llm: ctx.worker_llm_configs[i].config.dup(),
                    working_dir: ctx.working_dir.clone(),
                    mode: ToolMode::Coding,
                    max_iterations: ctx.max_iterations,
                    system_prompt: None,
                    compaction_llm: dup_opt(&ctx.compaction_llm),
                    context_engine_repo_path: dup_opt(&ctx.context_engine_repo_path),
                    index_tools: if ctx.has_context_engine {
                        dup_opt(&ctx.context_engine_repo_path)
                    } else {
                        None
                    },
                    checkpoint_dir: dup_opt(&ctx.checkpoint_dir),
                    user_text,
                };
                (run, events, Launch::Child(setup))
            },
            None => {
                let mut msg = "model `".to_owned();
                msg.append(spec.model.as_str());
                msg.append(
                    "` is not in the configured worker pool — orchestrator picked an unknown model",
                );
                let status = WorkerStatus::LlmError { message: msg.clone() };
                let result = run.result(msg, status);
                events.push(run.end_event(&result));
                assert(deep(events@) =~= seq![
                    ctx@.start_event(spec@),
                    ctx@.end_event(unknown_model(spec@)),
                ]);
                (run, events, Launch::Ended(result))
            },
        }
    }

    /// Takes an event of the worker's loop: counts the tool calls that end, and
    /// gives what is to be passed on.
    pub fn on_event(&mut self, ev: AgentEvent) -> (r: Option<AgentEvent>)
        requires
            old(self)@.tool_count < u32::MAX,
        ensures
            opt(r) == relayed(old(self)@.ctx, old(self)@.spec.id, ev@),
            final(self)@ == (WorkerRunView {
                tool_count: if ev is ToolEnd {
                    (old(self)@.tool_count + 1) as u32
                } else {
                    old(self)@.tool_count
                },
                ..old(self)@
            }),
    {
        match ev {
            AgentEvent::ToolStart { tool_call_id, tool_name, args_summary, .. } => Some(
                AgentEvent::AutoWorkerToolStart {
                    session_id: self.ctx.session_id.clone(),
                    run_id: self.ctx.run_id.clone(),
                    worker_id: self.spec.id.clone(),
                    tool_call_id,
                    tool_name,
                    args_summary,
                },
            ),
            AgentEvent::ToolEnd { tool_call_id, success, summary, .. } => {
                self.tool_count += 1;
                Some(
                    AgentEvent::AutoWorkerToolEnd {
                        session_id: self.ctx.session_id.clone(),
                        run_id: self.ctx.run_id.clone(),
                        worker_id: self.spec.id.clone(),
                        tool_call_id,
                        success,
                        summary,
                    },
                )
            },
            _ => None,
        }
    }

    /// How many tool calls have ended.
    pub fn tool_count(&self) -> (r: u32)
        ensures
            r == self@.tool_count,
    {
        self.tool_count
    }

    /// Takes the end of the worker's loop: what to announce, and the result.
    pub fn finish(self, outcome: Result<AgentResult, AgentError>) -> (r: (AgentEvent, WorkerResult))
        ensures
            r.1@ == ({
                let c = classified(outcome_view(outcome));
                result_of(self@.spec, c.0, self@.tool_count, c.1)
            }),
            r.0@ == self@.ctx.end_event(r.1@),
    {
        let (summary, status) = classify_outcome(outcome);
        let result = self.result(summary, status);
        (self.end_event(&result), result)
    }

    fn result(&self, summary: String, status: WorkerStatus) -> (r: WorkerResult)
        ensures
            r@ == result_of(self@.spec, summary@, self@.tool_count, status@),
    {
        WorkerResult {
            id: self.spec.id.clone(),
            model: self.spec.model.clone(),
            prompt: self.spec.prompt.clone(),
            summary,
            tool_count: self.tool_count,
            cost_cents: 0,
            status,
        }
    }

    fn end_event(&self, result: &WorkerResult) -> (r: AgentEvent)
        ensures
            r@ == self@.ctx.end_event(result@),
    {
        AgentEvent::AutoWorkerEnd {
            session_id: self.ctx.session_id.clone(),
            run_id: self.ctx.run_id.clone(),
            worker_id: result.id.clone(),
            summary: result.summary.clone(),
            cost_cents: result.cost_cents,
            tool_count: result.tool_count,
            status: result.status.dup(),
        }
    }
}

} // verus!
