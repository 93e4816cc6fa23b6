//! What the agent loop tells its surroundings: events while it runs, a result
//! when it ends.

use vstd::prelude::*;
use crate::auto::types::{
    WorkerFailureContext, WorkerFailureContextView, WorkerSpec, WorkerSpecView, WorkerStatus,
    WorkerStatusView,
};
use crate::text::{deep, dup_opt, dup_vec, opt, Dup};

verus! {

/// One entry of the agent's to-do list.
#[derive(Clone, Debug, PartialEq)]
pub struct TodoItem {
    pub id: String,
    pub content: String,
    pub status: String,
}

/// What a [`TodoItem`] stands for.
#[verifier::ext_equal]
pub struct TodoItemView {
    pub id: Seq<char>,
    pub content: Seq<char>,
    pub status: Seq<char>,
}

impl View for TodoItem {
    type V = TodoItemView;

    open spec fn view(&self) -> TodoItemView {
        TodoItemView {
            id: self.id@,
            content: self.content@,
            status: self.status@,
        }
    }
}

impl Dup for TodoItem {
    fn dup(&self) -> (r: Self) {
        TodoItem {
            id: self.id.clone(),
            content: self.content.clone(),
            status: self.status.clone(),
        }
    }
}

/// An event for the user interface.
#[allow(inconsistent_fields)]
#[derive(Clone, Debug, PartialEq)]
pub enum AgentEvent {
    TextDelta { session_id: String, delta: String },
    ThinkingDelta { session_id: String, delta: String },
    ToolStart { session_id: String, tool_call_id: String, tool_name: String, args_summary: String },
    ToolStatus { session_id: String, tool_call_id: String, status: String },
    /// `modified_files` is there for tools that write.
    ToolEnd { session_id: String, tool_call_id: String, success: bool, summary: String, modified_files: Option<Vec<String>> },
    Error { session_id: String, message: String, retrying: bool },
    Done { session_id: String, summary: Option<String> },
    Compaction { session_id: String },
    /// Tokens used so far; the limit is `None` for a model whose window is unknown.
    TokenUsage { session_id: String, total_tokens: u32, context_limit: Option<u32>, cache_read_tokens: Option<u32>, cache_creation_tokens: Option<u32> },
    TurnCompleted { session_id: String, turn_count: u32, modified_files: Vec<String> },
    UserQuestionAsked { session_id: String, question: String, options: Option<Vec<String>> },
    TodoUpdated { session_id: String, todos: Vec<TodoItem> },
    PlanReady { session_id: String, plan: String, plan_path: String, project_path: String },
    SkillLoaded { session_id: String, skill_name: String },
    SubagentStart { session_id: String, parent_tool_call_id: String, child_session_id: String, subagent_name: String, prompt_preview: String },
    SubagentEnd { session_id: String, parent_tool_call_id: String, child_session_id: String, success: bool, summary: String },
    /// The orchestrator is being asked for a plan.
    AutoPlanning { session_id: String, run_id: String },
    /// A plan is there, new or saved.
    AutoPlan { session_id: String, run_id: String, version: u32, reasoning: String, plan: Vec<WorkerSpec> },
    /// The run waits for the user to approve the plan.
    AutoAwaitingApproval { session_id: String, run_id: String },
    AutoWorkerStart { session_id: String, run_id: String, worker_id: String, model: String, prompt: String },
    AutoWorkerEnd { session_id: String, run_id: String, worker_id: String, summary: String, cost_cents: u32, tool_count: u32, status: WorkerStatus },
    /// A worker's own tool call, passed on.
    AutoWorkerToolStart { session_id: String, run_id: String, worker_id: String, tool_call_id: String, tool_name: String, args_summary: String },
    AutoWorkerToolEnd { session_id: String, run_id: String, worker_id: String, tool_call_id: String, success: bool, summary: String },
    /// A worker failed and the orchestrator is asked again.
    AutoReplan { session_id: String, run_id: String, reason: String },
    AutoFailed { session_id: String, run_id: String, reason: String, last_worker_output: Option<String> },
    /// The run waits for the user to retry, replan or cancel.
    AutoAwaitingFailureDecision { session_id: String, run_id: String, failure: WorkerFailureContext },
    AutoDone { session_id: String, run_id: String, summary: String, total_cost_cents: u32 },
}

/// What an [`AgentEvent`] stands for.
#[allow(inconsistent_fields)]
#[verifier::ext_equal]
pub enum AgentEventView {
    TextDelta { session_id: Seq<char>, delta: Seq<char> },
    ThinkingDelta { session_id: Seq<char>, delta: Seq<char> },
    ToolStart { session_id: Seq<char>, tool_call_id: Seq<char>, tool_name: Seq<char>, args_summary: Seq<char> },
    ToolStatus { session_id: Seq<char>, tool_call_id: Seq<char>, status: Seq<char> },
    ToolEnd { session_id: Seq<char>, tool_call_id: Seq<char>, success: bool, summary: Seq<char>, modified_files: Option<Seq<Seq<char>>> },
    Error { session_id: Seq<char>, message: Seq<char>, retrying: bool },
    Done { session_id: Seq<char>, summary: Option<Seq<char>> },
    Compaction { session_id: Seq<char> },
    TokenUsage { session_id: Seq<char>, total_tokens: u32, context_limit: Option<u32>, cache_read_tokens: Option<u32>, cache_creation_tokens: Option<u32> },
    TurnCompleted { session_id: Seq<char>, turn_count: u32, modified_files: Seq<Seq<char>> },
    UserQuestionAsked { session_id: Seq<char>, question: Seq<char>, options: Option<Seq<Seq<char>>> },
    TodoUpdated { session_id: Seq<char>, todos: Seq<TodoItemView> },
    PlanReady { session_id: Seq<char>, plan: Seq<char>, plan_path: Seq<char>, project_path: Seq<char> },
    SkillLoaded { session_id: Seq<char>, skill_name: Seq<char> },
    SubagentStart { session_id: Seq<char>, parent_tool_call_id: Seq<char>, child_session_id: Seq<char>, subagent_name: Seq<char>, prompt_preview: Seq<char> },
    SubagentEnd { session_id: Seq<char>, parent_tool_call_id: Seq<char>, child_session_id: Seq<char>, success: bool, summary: Seq<char> },
    AutoPlanning { session_id: Seq<char>, run_id: Seq<char> },
    AutoPlan { session_id: Seq<char>, run_id: Seq<char>, version: u32, reasoning: Seq<char>, plan: Seq<WorkerSpecView> },
    AutoAwaitingApproval { session_id: Seq<char>, run_id: Seq<char> },
    AutoWorkerStart { session_id: Seq<char>, run_id: Seq<char>, worker_id: Seq<char>, model: Seq<char>, prompt: Seq<char> },
    AutoWorkerEnd { session_id: Seq<char>, run_id: Seq<char>, worker_id: Seq<char>, summary: Seq<char>, cost_cents: u32, tool_count: u32, status: WorkerStatusView },
    AutoWorkerToolStart { session_id: Seq<char>, run_id: Seq<char>, worker_id: Seq<char>, tool_call_id: Seq<char>, tool_name: Seq<char>, args_summary: Seq<char> },
    AutoWorkerToolEnd { session_id: Seq<char>, run_id: Seq<char>, worker_id: Seq<char>, tool_call_id: Seq<char>, success: bool, summary: Seq<char> },
    AutoReplan { session_id: Seq<char>, run_id: Seq<char>, reason: Seq<char> },
    AutoFailed { session_id: Seq<char>, run_id: Seq<char>, reason: Seq<char>, last_worker_output: Option<Seq<char>> },
    AutoAwaitingFailureDecision { session_id: Seq<char>, run_id: Seq<char>, failure: WorkerFailureContextView },
    AutoDone { session_id: Seq<char>, run_id: Seq<char>, summary: Seq<char>, total_cost_cents: u32 },
}

impl View for AgentEvent {
    type V = AgentEventView;

    open spec fn view(&self) -> AgentEventView {
        match self {
            AgentEvent::TextDelta { session_id, delta } => AgentEventView::TextDelta {
                session_id: session_id@,
                delta: delta@,
            },
            AgentEvent::ThinkingDelta { session_id, delta } => AgentEventView::ThinkingDelta {
                session_id: session_id@,
                delta: delta@,
            },
            AgentEvent::ToolStart { session_id, tool_call_id, tool_name, args_summary } => AgentEventView::ToolStart {
                session_id: session_id@,
                tool_call_id: tool_call_id@,
                tool_name: tool_name@,
                args_summary: args_summary@,
            },
            AgentEvent::ToolStatus { session_id, tool_call_id, status } => AgentEventView::ToolStatus {
                session_id: session_id@,
                tool_call_id: tool_call_id@,
                status: status@,
            },
            AgentEvent::ToolEnd { session_id, tool_call_id, success, summary, modified_files } => AgentEventView::ToolEnd {
                session_id: session_id@,
                tool_call_id: tool_call_id@,
                success: *success,
                summary: summary@,
                modified_files: match modified_files {
                    Some(v) => Some(deep(v@)),
                    None => None,
                },
            },
            AgentEvent::Error { session_id, message, retrying } => AgentEventView::Error {
                session_id: session_id@,
                message: message@,
                retrying: *retrying,
            },
            AgentEvent::Done { session_id, summary } => AgentEventView::Done {
                session_id: session_id@,
                summary: opt(*summary),
            },
            AgentEvent::Compaction { session_id } => AgentEventView::Compaction {
                session_id: session_id@,
            },
            AgentEvent::TokenUsage { session_id, total_tokens, context_limit, cache_read_tokens, cache_creation_tokens } => AgentEventView::TokenUsage {
                session_id: session_id@,
                total_tokens: *total_tokens,
                context_limit: *context_limit,
                cache_read_tokens: *cache_read_tokens,
                cache_creation_tokens: *cache_creation_tokens,
            },
            AgentEvent::TurnCompleted { session_id, turn_count, modified_files } => AgentEventView::TurnCompleted {
                session_id: session_id@,
                turn_count: *turn_count,
                modified_files: deep(modified_files@),
            },
            AgentEvent::UserQuestionAsked { session_id, question, options } => AgentEventView::UserQuestionAsked {
                session_id: session_id@,
                question: question@,
                options: match options {
                    Some(v) => Some(deep(v@)),
                    None => None,
                },
            },
            AgentEvent::TodoUpdated { session_id, todos } => AgentEventView::TodoUpdated {
                session_id: session_id@,
                todos: deep(todos@),
            },
            AgentEvent::PlanReady { session_id, plan, plan_path, project_path } => AgentEventView::PlanReady {
                session_id: session_id@,
                plan: plan@,
                plan_path: plan_path@,
                project_path: project_path@,
            },
            AgentEvent::SkillLoaded { session_id, skill_name } => AgentEventView::SkillLoaded {
                session_id: session_id@,
                skill_name: skill_name@,
            },
            AgentEvent::SubagentStart { session_id, parent_tool_call_id, child_session_id, subagent_name, prompt_preview } => AgentEventView::SubagentStart {
                session_id: session_id@,
                parent_tool_call_id: parent_tool_call_id@,
                child_session_id: child_session_id@,
                subagent_name: subagent_name@,
                prompt_preview: prompt_preview@,
            },
            AgentEvent::SubagentEnd { session_id, parent_tool_call_id, child_session_id, success, summary } => AgentEventView::SubagentEnd {
                session_id: session_id@,
                parent_tool_call_id: parent_tool_call_id@,
                child_session_id: child_session_id@,
                success: *success,
                summary: summary@,
            },
            AgentEvent::AutoPlanning { session_id, run_id } => AgentEventView::AutoPlanning {
                session_id: session_id@,
                run_id: run_id@,
            },
            AgentEvent::AutoPlan { session_id, run_id, version, reasoning, plan } => AgentEventView::AutoPlan {
                session_id: session_id@,
                run_id: run_id@,
                version: *version,
                reasoning: reasoning@,
                plan: deep(plan@),
            },
            AgentEvent::AutoAwaitingApproval { session_id, run_id } => AgentEventView::AutoAwaitingApproval {
                session_id: session_id@,
                run_id: run_id@,
            },
            AgentEvent::AutoWorkerStart { session_id, run_id, worker_id, model, prompt } => AgentEventView::AutoWorkerStart {
                session_id: session_id@,
                run_id: run_id@,
                worker_id: worker_id@,
                model: model@,
                prompt: prompt@,
            },
            AgentEvent::AutoWorkerEnd { session_id, run_id, worker_id, summary, cost_cents, tool_count, status } => AgentEventView::AutoWorkerEnd {
                session_id: session_id@,
                run_id: run_id@,
                worker_id: worker_id@,
                summary: summary@,
                cost_cents: *cost_cents,
                tool_count: *tool_count,
                status: status@,
            },
            AgentEvent::AutoWorkerToolStart { session_id, run_id, worker_id, tool_call_id, tool_name, args_summary } => AgentEventView::AutoWorkerToolStart {
                session_id: session_id@,
                run_id: run_id@,
                worker_id: worker_id@,
                tool_call_id: tool_call_id@,
                tool_name: tool_name@,
                args_summary: args_summary@,
            },
            AgentEvent::AutoWorkerToolEnd { session_id, run_id, worker_id, tool_call_id, success, summary } => AgentEventView::AutoWorkerToolEnd {
                session_id: session_id@,
                run_id: run_id@,
                worker_id: worker_id@,
                tool_call_id: tool_call_id@,
                success: *success,
                summary: summary@,
            },
            AgentEvent::AutoReplan { session_id, run_id, reason } => AgentEventView::AutoReplan {
                session_id: session_id@,
                run_id: run_id@,
                reason: reason@,
            },
            AgentEvent::AutoFailed { session_id, run_id, reason, last_worker_output } => AgentEventView::AutoFailed {
                session_id: session_id@,
                run_id: run_id@,
                reason: reason@,
                last_worker_output: opt(*last_worker_output),
            },
            AgentEvent::AutoAwaitingFailureDecision { session_id, run_id, failure } => AgentEventView::AutoAwaitingFailureDecision {
                session_id: session_id@,
                run_id: run_id@,
                failure: failure@,
            },
            AgentEvent::AutoDone { session_id, run_id, summary, total_cost_cents } => AgentEventView::AutoDone {
                session_id: session_id@,
                run_id: run_id@,
                summary: summary@,
                total_cost_cents: *total_cost_cents,
            },
        }
    }
}

impl Dup for AgentEvent {
    fn dup(&self) -> (r: Self) {
        match self {
            AgentEvent::TextDelta { session_id, delta } => AgentEvent::TextDelta {
                session_id: session_id.clone(),
                delta: delta.clone(),
            },
            AgentEvent::ThinkingDelta { session_id, delta } => AgentEvent::ThinkingDelta {
                session_id: session_id.clone(),
                delta: delta.clone(),
            },
            AgentEvent::ToolStart { session_id, tool_call_id, tool_name, args_summary } => AgentEvent::ToolStart {
                session_id: session_id.clone(),
                tool_call_id: tool_call_id.clone(),
                tool_name: tool_name.clone(),
                args_summary: args_summary.clone(),
            },
            AgentEvent::ToolStatus { session_id, tool_call_id, status } => AgentEvent::ToolStatus {
                session_id: session_id.clone(),
                tool_call_id: tool_call_id.clone(),
                status: status.clone(),
            },
            AgentEvent::ToolEnd { session_id, tool_call_id, success, summary, modified_files } => AgentEvent::ToolEnd {
                session_id: session_id.clone(),
                tool_call_id: tool_call_id.clone(),
                success: *success,
                summary: summary.clone(),
                modified_files: match modified_files {
                    Some(v) => Some(dup_vec(v)),
                    None => None,
                },
            },
            AgentEvent::Error { session_id, message, retrying } => AgentEvent::Error {
                session_id: session_id.clone(),
                message: message.clone(),
                retrying: *retrying,
            },
            AgentEvent::Done { session_id, summary } => AgentEvent::Done {
                session_id: session_id.clone(),
                summary: dup_opt(summary),
            },
            AgentEvent::Compaction { session_id } => AgentEvent::Compaction {
                session_id: session_id.clone(),
            },
            AgentEvent::TokenUsage { session_id, total_tokens, context_limit, cache_read_tokens, cache_creation_tokens } => AgentEvent::TokenUsage {
                session_id: session_id.clone(),
                total_tokens: *total_tokens,
                context_limit: *context_limit,
                cache_read_tokens: *cache_read_tokens,
                cache_creation_tokens: *cache_creation_tokens,
            },
            AgentEvent::TurnCompleted { session_id, turn_count, modified_files } => AgentEvent::TurnCompleted {
                session_id: session_id.clone(),
                turn_count: *turn_count,
                modified_files: dup_vec(modified_files),
            },
            AgentEvent::UserQuestionAsked { session_id, question, options } => AgentEvent::UserQuestionAsked {
                session_id: session_id.clone(),
                question: question.clone(),
                options: match options {
                    Some(v) => Some(dup_vec(v)),
                    None => None,
                },
            },
            AgentEvent::TodoUpdated { session_id, todos } => AgentEvent::TodoUpdated {
                session_id: session_id.clone(),
                todos: dup_vec(todos),
            },
            AgentEvent::PlanReady { session_id, plan, plan_path, project_path } => AgentEvent::PlanReady {
                session_id: session_id.clone(),
                plan: plan.clone(),
                plan_path: plan_path.clone(),
                project_path: project_path.clone(),
            },
            AgentEvent::SkillLoaded { session_id, skill_name } => AgentEvent::SkillLoaded {
                session_id: session_id.clone(),
                skill_name: skill_name.clone(),
            },
            AgentEvent::SubagentStart { session_id, parent_tool_call_id, child_session_id, subagent_name, prompt_preview } => AgentEvent::SubagentStart {
                session_id: session_id.clone(),
                parent_tool_call_id: parent_tool_call_id.clone(),
                child_session_id: child_session_id.clone(),
                subagent_name: subagent_name.clone(),
                prompt_preview: prompt_preview.clone(),
            },
            AgentEvent::SubagentEnd { session_id, parent_tool_call_id, child_session_id, success, summary } => AgentEvent::SubagentEnd {
                session_id: session_id.clone(),
                parent_tool_call_id: parent_tool_call_id.clone(),
                child_session_id: child_session_id.clone(),
                success: *success,
                summary: summary.clone(),
            },
            AgentEvent::AutoPlanning { session_id, run_id } => AgentEvent::AutoPlanning {
                session_id: session_id.clone(),
                run_id: run_id.clone(),
            },
            AgentEvent::AutoPlan { session_id, run_id, version, reasoning, plan } => AgentEvent::AutoPlan {
                session_id: session_id.clone(),
                run_id: run_id.clone(),
                version: *version,
                reasoning: reasoning.clone(),
                plan: dup_vec(plan),
            },
            AgentEvent::AutoAwaitingApproval { session_id, run_id } => AgentEvent::AutoAwaitingApproval {
                session_id: session_id.clone(),
                run_id: run_id.clone(),
            },
            AgentEvent::AutoWorkerStart { session_id, run_id, worker_id, model, prompt } => AgentEvent::AutoWorkerStart {
                session_id: session_id.clone(),
                run_id: run_id.clone(),
                worker_id: worker_id.clone(),
                model: model.clone(),
                prompt: prompt.clone(),
            },
            AgentEvent::AutoWorkerEnd { session_id, run_id, worker_id, summary, cost_cents, tool_count, status } => AgentEvent::AutoWorkerEnd {
                session_id: session_id.clone(),
                run_id: run_id.clone(),
                worker_id: worker_id.clone(),
                summary: summary.clone(),
                cost_cents: *cost_cents,
                tool_count: *tool_count,
                status: status.dup(),
            },
            AgentEvent::AutoWorkerToolStart { session_id, run_id, worker_id, tool_call_id, tool_name, args_summary } => AgentEvent::AutoWorkerToolStart {
                session_id: session_id.clone(),
                run_id: run_id.clone(),
                worker_id: worker_id.clone(),
                tool_call_id: tool_call_id.clone(),
                tool_name: tool_name.clone(),
                args_summary: args_summary.clone(),
            },
            AgentEvent::AutoWorkerToolEnd { session_id, run_id, worker_id, tool_call_id, success, summary } => AgentEvent::AutoWorkerToolEnd {
                session_id: session_id.clone(),
                run_id: run_id.clone(),
                worker_id: worker_id.clone(),
                tool_call_id: tool_call_id.clone(),
                success: *success,
                summary: summary.clone(),
            },
            AgentEvent::AutoReplan { session_id, run_id, reason } => AgentEvent::AutoReplan {
                session_id: session_id.clone(),
                run_id: run_id.clone(),
                reason: reason.clone(),
            },
            AgentEvent::AutoFailed { session_id, run_id, reason, last_worker_output } => AgentEvent::AutoFailed {
                session_id: session_id.clone(),
                run_id: run_id.clone(),
                reason: reason.clone(),
                last_worker_output: dup_opt(last_worker_output),
            },
            AgentEvent::AutoAwaitingFailureDecision { session_id, run_id, failure } => AgentEvent::AutoAwaitingFailureDecision {
                session_id: session_id.clone(),
                run_id: run_id.clone(),
                failure: failure.dup(),
            },
            AgentEvent::AutoDone { session_id, run_id, summary, total_cost_cents } => AgentEvent::AutoDone {
                session_id: session_id.clone(),
                run_id: run_id.clone(),
                summary: summary.clone(),
                total_cost_cents: *total_cost_cents,
            },
        }
    }
}

/// How an agent loop ended.
#[derive(Clone, Debug, PartialEq)]
pub enum AgentResult {
    Done { summary: String },
    /// The loop stopped to ask the user something.
    AskUser { question: String, options: Option<Vec<String>> },
    /// A plan was saved and waits for approval.
    PlanReady { plan: String, plan_path: String },
}

/// What an [`AgentResult`] stands for.
#[verifier::ext_equal]
pub enum AgentResultView {
    Done { summary: Seq<char> },
    AskUser { question: Seq<char>, options: Option<Seq<Seq<char>>> },
    PlanReady { plan: Seq<char>, plan_path: Seq<char> },
}

impl View for AgentResult {
    type V = AgentResultView;

    open spec fn view(&self) -> AgentResultView {
        match self {
            AgentResult::Done { summary } => AgentResultView::Done {
                summary: summary@,
            },
            AgentResult::AskUser { question, options } => AgentResultView::AskUser {
                question: question@,
                options: match options {
                    Some(v) => Some(deep(v@)),
                    None => None,
                },
            },
            AgentResult::PlanReady { plan, plan_path } => AgentResultView::PlanReady {
                plan: plan@,
                plan_path: plan_path@,
            },
        }
    }
}

impl Dup for AgentResult {
    fn dup(&self) -> (r: Self) {
        match self {
            AgentResult::Done { summary } => AgentResult::Done {
                summary: summary.clone(),
            },
            AgentResult::AskUser { question, options } => AgentResult::AskUser {
                question: question.clone(),
                options: match options {
                    Some(v) => Some(dup_vec(v)),
                    None => None,
                },
            },
            AgentResult::PlanReady { plan, plan_path } => AgentResult::PlanReady {
                plan: plan.clone(),
                plan_path: plan_path.clone(),
            },
        }
    }
}

impl AgentResult {
    /// The summary of a loop that ended normally.
    pub fn unwrap_done(self) -> (r: String)
        requires
            self is Done,
        ensures
            self@ == (AgentResultView::Done { summary: r@ }),
    {
        match self {
            AgentResult::Done { summary } => summary,
            _ => String::new(),
        }
    }
}

} // verus!
