//! What holds of a worker, whatever it is asked to do and however it ends.

use vstd::prelude::*;
use crate::auto::types::{
    SeePriorKeyword, SeePriorView, WorkerResultView, WorkerSpecView, WorkerStatusView,
};
use crate::auto::worker::{
    classified, prior_block, prior_blocks, relayed, result_of, unknown_model, visible,
    worker_message, AgentErrorView, ToolMode, WorkerContextView,
};
use crate::llm::LlmClientConfigView;
use crate::text::{
    first_where, holds_text, is_first, lemma_first, lemma_has_first, lemma_holds_text,
};
use crate::types::{AgentEventView, AgentResultView};

verus! {

/// Whether a worker may see the result of another: of all, of none, or of those that
/// it lists.
pub open spec fn may_see(w: WorkerSpecView, r: WorkerResultView) -> bool {
    match w.see_prior {
        SeePriorView::Keyword(SeePriorKeyword::Nothing) => false,
        SeePriorView::Keyword(SeePriorKeyword::All) => true,
        SeePriorView::Specific(ids) => exists|i: int| 0 <= i < ids.len() && ids[i] == r.id,
    }
}

proof fn lemma_visible_push(w: WorkerSpecView, prior: Seq<WorkerResultView>, r: WorkerResultView)
    ensures
        visible(w.see_prior, prior.push(r)) == if may_see(w, r) {
            visible(w.see_prior, prior).push(r)
        } else {
            visible(w.see_prior, prior)
        },
{
    if let SeePriorView::Specific(ids) = w.see_prior {
        let p = |x: WorkerResultView| ids.contains(x.id);
        prior.lemma_filter_push(r, p);
        assert(p(r) == may_see(w, r));
    }
}

proof fn lemma_visible_any(w: WorkerSpecView, prior: Seq<WorkerResultView>)
    ensures
        visible(w.see_prior, prior).len() > 0 <==> exists|i: int|
            0 <= i < prior.len() && may_see(w, #[trigger] prior[i]),
    decreases prior.len(),
{
    if prior.len() > 0 {
        let before = prior.drop_last();
        lemma_visible_any(w, before);
        lemma_visible_push(w, before, prior.last());
        assert(before.push(prior.last()) =~= prior);
        if exists|i: int| 0 <= i < prior.len() && may_see(w, #[trigger] prior[i]) {
            let i = choose|i: int| 0 <= i < prior.len() && may_see(w, #[trigger] prior[i]);
            if i < before.len() {
                assert(may_see(w, before[i]));
            }
        }
        if exists|i: int| 0 <= i < before.len() && may_see(w, #[trigger] before[i]) {
            let i = choose|i: int| 0 <= i < before.len() && may_see(w, #[trigger] before[i]);
            assert(may_see(w, prior[i]));
        }
        if may_see(w, prior.last()) {
            assert(may_see(w, prior[prior.len() - 1]));
        }
    } else if let SeePriorView::Specific(ids) = w.see_prior {
        prior.lemma_filter_len(|x: WorkerResultView| ids.contains(x.id));
    }
}

/// Whatever a worker may see, its message carries its task: where it may see nothing of
/// what was done, the message is its prompt, and otherwise the message ends with the
/// prompt, marked as the task.
pub proof fn law_message_carries_task(w: WorkerSpecView, prior: Seq<WorkerResultView>)
    ensures
        (forall|i: int| 0 <= i < prior.len() ==> !may_see(w, #[trigger] prior[i]))
            ==> worker_message(w, prior) == w.prompt,
        (exists|i: int| 0 <= i < prior.len() && may_see(w, #[trigger] prior[i])) ==> exists|
            head: Seq<char>,
        |
            worker_message(w, prior) == #[trigger] (head + ("<task>\n"@ + w.prompt + "\n</task>"@)),
        holds_text(worker_message(w, prior), w.prompt),
{
    lemma_visible_any(w, prior);
    let shown = visible(w.see_prior, prior);
    let task = "<task>\n"@ + w.prompt + "\n</task>"@;
    if shown.len() > 0 {
        assert(worker_message(w, prior) =~= prior_blocks(shown) + task);
        assert(worker_message(w, prior) =~= (prior_blocks(shown) + "<task>\n"@) + w.prompt
            + "\n</task>"@);
        lemma_holds_text(prior_blocks(shown) + "<task>\n"@, w.prompt, "\n</task>"@);
    } else {
        assert(w.prompt =~= Seq::<char>::empty() + w.prompt + Seq::<char>::empty());
        lemma_holds_text(Seq::empty(), w.prompt, Seq::empty());
        if exists|i: int| 0 <= i < prior.len() && may_see(w, #[trigger] prior[i]) {
            assert(false);
        }
    }
}

/// One more result: where the worker may not see it, its message stays; where it may,
/// the id and the summary of the result are put in behind what was shown already and
/// in front of the task, and nothing else changes.
pub proof fn law_message_grows(
    w: WorkerSpecView,
    prior: Seq<WorkerResultView>,
    r: WorkerResultView,
)
    ensures
        ({
            let before = worker_message(w, prior);
            let after = worker_message(w, prior.push(r));
            let task = "<task>\n"@ + w.prompt + "\n</task>"@;
            let block = "<prior_worker id=\""@ + r.id + "\">\n"@ + r.summary
                + "\n</prior_worker>\n\n"@;
            if !may_see(w, r) {
                after == before
            } else if forall|i: int| 0 <= i < prior.len() ==> !may_see(w, #[trigger] prior[i]) {
                after == block + task
            } else {
                exists|head: Seq<char>|
                    before == #[trigger] (head + task) && after == head + block + task
            }
        }),
        worker_message(w, Seq::empty()) == w.prompt,
{
    let none = Seq::<WorkerResultView>::empty();
    lemma_visible_any(w, none);
    assert forall|i: int| 0 <= i < none.len() implies !may_see(w, #[trigger] none[i]) by {}
    lemma_visible_any(w, prior);
    lemma_visible_push(w, prior, r);
    let shown = visible(w.see_prior, prior);
    let task = "<task>\n"@ + w.prompt + "\n</task>"@;
    let block = prior_block(r);
    if may_see(w, r) {
        assert(shown.push(r).drop_last() =~= shown);
        assert(worker_message(w, prior.push(r)) =~= prior_blocks(shown) + block + task);
        if shown.len() > 0 {
            assert(worker_message(w, prior) =~= prior_blocks(shown) + task);
        } else {
            assert(prior_blocks(shown) =~= Seq::<char>::empty());
            assert(worker_message(w, prior.push(r)) =~= block + task);
        }
    }
}

/// Every result that a worker may see is in its message, with its id and its summary.
pub proof fn law_message_shows_results(
    w: WorkerSpecView,
    prior: Seq<WorkerResultView>,
    i: int,
)
    requires
        0 <= i < prior.len(),
        may_see(w, prior[i]),
    ensures
        holds_text(
            worker_message(w, prior),
            "<prior_worker id=\""@ + prior[i].id + "\">\n"@ + prior[i].summary
                + "\n</prior_worker>\n\n"@,
        ),
    decreases prior.len(),
{
    let before = prior.drop_last();
    let r = prior.last();
    let task = "<task>\n"@ + w.prompt + "\n</task>"@;
    let block = "<prior_worker id=\""@ + r.id + "\">\n"@ + r.summary + "\n</prior_worker>\n\n"@;
    let sought = "<prior_worker id=\""@ + prior[i].id + "\">\n"@ + prior[i].summary
        + "\n</prior_worker>\n\n"@;
    assert(before.push(r) =~= prior);
    law_message_grows(w, before, r);
    if i == prior.len() - 1 {
        if forall|k: int| 0 <= k < before.len() ==> !may_see(w, #[trigger] before[k]) {
            assert(worker_message(w, prior) =~= Seq::<char>::empty() + block + task);
            lemma_holds_text(Seq::empty(), block, task);
        } else {
            let head = choose|head: Seq<char>|
                worker_message(w, before) == #[trigger] (head + task) && worker_message(w, prior)
                    == head + block + task;
            lemma_holds_text(head, block, task);
        }
    } else {
        assert(before[i] == prior[i]);
        law_message_shows_results(w, before, i);
        if may_see(w, r) {
            let head = choose|head: Seq<char>|
                worker_message(w, before) == #[trigger] (head + task) && worker_message(w, prior)
                    == head + block + task;
            lemma_blocks_hold(w, before, i);
            let shown = visible(w.see_prior, before);
            lemma_visible_any(w, before);
            lemma_visible_push(w, before, r);
            assert(shown.push(r).drop_last() =~= shown);
            let at = choose|at: int|
                0 <= at && at + sought.len() <= prior_blocks(shown).len() && #[trigger] prior_blocks(
                    shown,
                ).subrange(at, at + sought.len()) == sought;
            assert(worker_message(w, prior).subrange(at, at + sought.len()) =~= sought);
        }
    }
}

proof fn lemma_blocks_hold(w: WorkerSpecView, prior: Seq<WorkerResultView>, i: int)
    requires
        0 <= i < prior.len(),
        may_see(w, prior[i]),
    ensures
        holds_text(prior_blocks(visible(w.see_prior, prior)), prior_block(prior[i])),
    decreases prior.len(),
{
    let before = prior.drop_last();
    let r = prior.last();
    assert(before.push(r) =~= prior);
    lemma_visible_push(w, before, r);
    let shown = visible(w.see_prior, before);
    assert(shown.push(r).drop_last() =~= shown);
    let none = Seq::<char>::empty();
    if i == prior.len() - 1 {
        lemma_holds_text(prior_blocks(shown), prior_block(r), none);
        assert(prior_blocks(shown) + prior_block(r) + none =~= prior_blocks(shown) + prior_block(r));
    } else {
        assert(before[i] == prior[i]);
        lemma_blocks_hold(w, before, i);
        if may_see(w, r) {
            let b = prior_block(prior[i]);
            let at = choose|at: int|
                0 <= at && at + b.len() <= prior_blocks(shown).len() && #[trigger] prior_blocks(
                    shown,
                ).subrange(at, at + b.len()) == b;
            assert((prior_blocks(shown) + prior_block(r)).subrange(at, at + b.len()) =~= b);
        }
    }
}

/// A worker runs on the configuration that its context holds under the name of its
/// model, the first of that name, and on none where there is none.
pub proof fn law_worker_runs_on_its_model(ctx: WorkerContextView, model: Seq<char>)
    ensures
        match ctx.config_of(model) {
            Some(c) => exists|i: int|
                {
                    &&& 0 <= i < ctx.worker_llm_configs.len()
                    &&& (#[trigger] ctx.worker_llm_configs[i]).model == model
                    &&& ctx.worker_llm_configs[i].config == c
                    &&& forall|k: int|
                        0 <= k < i ==> (#[trigger] ctx.worker_llm_configs[k]).model != model
                },
            None => forall|i: int|
                0 <= i < ctx.worker_llm_configs.len() ==> (#[trigger] ctx.worker_llm_configs[i]).model
                    != model,
        },
{
    let cs = ctx.worker_llm_configs;
    let n = cs.len() as int;
    let hit = |i: int| cs[i].model == model;
    if exists|i: int| is_first(n, hit, i) {
        let i = choose|i: int| is_first(n, hit, i);
        lemma_first(n, hit, i);
        assert(cs[i].model == model);
        assert forall|k: int| 0 <= k < i implies (#[trigger] cs[k]).model != model by {
            assert(!hit(k));
        }
    } else {
        assert(first_where(n, hit) is None);
        assert forall|i: int| 0 <= i < n implies (#[trigger] cs[i]).model != model by {
            if hit(i) {
                lemma_has_first(n, hit, i);
            }
        }
    }
}

/// The loop of a worker is one that writes code, in the folder of the run, with the
/// limits of the run, on the model that it was given and with its message; the index
/// tools are there where there is an engine and a repository for them.
pub proof fn law_worker_setup(
    ctx: WorkerContextView,
    w: WorkerSpecView,
    llm: LlmClientConfigView,
    prior: Seq<WorkerResultView>,
)
    ensures
        ({
            let s = ctx.setup(w, llm, prior);
            &&& s.llm == llm
            &&& s.user_text == worker_message(w, prior)
            &&& s.working_dir == ctx.working_dir
            &&& s.mode == ToolMode::Coding
            &&& s.max_iterations == ctx.max_iterations
            &&& s.system_prompt is None
            &&& s.compaction_llm == ctx.compaction_llm
            &&& s.context_engine_repo_path == ctx.context_engine_repo_path
            &&& s.checkpoint_dir == ctx.checkpoint_dir
            &&& s.index_tools is Some <==> ctx.has_context_engine
                && ctx.context_engine_repo_path is Some
            &&& s.index_tools is Some ==> s.index_tools == ctx.context_engine_repo_path
        }),
{
}

/// A worker is announced and its end is told under the session, the run and the worker
/// that they belong to; and the end says what the result says.
pub proof fn law_worker_announced(
    ctx: WorkerContextView,
    w: WorkerSpecView,
    r: WorkerResultView,
)
    ensures
        ctx.start_event(w) matches AgentEventView::AutoWorkerStart {
            session_id,
            run_id,
            worker_id,
            model,
            prompt,
        } && session_id == ctx.session_id && run_id == ctx.run_id && worker_id == w.id && model
            == w.model && prompt == w.prompt,
        ctx.end_event(r) matches AgentEventView::AutoWorkerEnd {
            session_id,
            run_id,
            worker_id,
            summary,
            cost_cents,
            tool_count,
            status,
        } && session_id == ctx.session_id && run_id == ctx.run_id && worker_id == r.id && summary
            == r.summary && cost_cents == r.cost_cents && tool_count == r.tool_count && status
            == r.status,
{
}

/// A result is that of the worker whose it is; it costs nothing yet, and says how many
/// tools were used and how the worker ended.
pub proof fn law_result_is_the_workers(
    w: WorkerSpecView,
    summary: Seq<char>,
    tool_count: u32,
    status: WorkerStatusView,
)
    ensures
        result_of(w, summary, tool_count, status).id == w.id,
        result_of(w, summary, tool_count, status).model == w.model,
        result_of(w, summary, tool_count, status).prompt == w.prompt,
        result_of(w, summary, tool_count, status).summary == summary,
        result_of(w, summary, tool_count, status).tool_count == tool_count,
        result_of(w, summary, tool_count, status).cost_cents == 0,
        result_of(w, summary, tool_count, status).status == status,
{
}

/// A worker whose model is not in the pool has failed for its model, without using a
/// tool, and its summary and its status name the model.
pub proof fn law_unknown_model_fails(w: WorkerSpecView)
    ensures
        ({
            let why = "model `"@ + w.model
                + "` is not in the configured worker pool — orchestrator picked an unknown model"@;
            let r = unknown_model(w);
            &&& r.status == WorkerStatusView::LlmError { message: why }
            &&& r.status.hard_failure()
            &&& r.summary == why
            &&& r.tool_count == 0
            &&& r.cost_cents == 0
            &&& r.id == w.id && r.model == w.model && r.prompt == w.prompt
        }),
{
}

/// Of what a worker's loop tells, the beginnings and the ends of tool calls are passed
/// on, with all that they say and under the names of the run and the worker; of the
/// rest nothing is.
pub proof fn law_tools_are_relayed(
    ctx: WorkerContextView,
    worker_id: Seq<char>,
    ev: AgentEventView,
)
    ensures
        ev is ToolStart || ev is ToolEnd <==> relayed(ctx, worker_id, ev) is Some,
        ev matches AgentEventView::ToolStart { tool_call_id, tool_name, args_summary, .. } ==> (
        relayed(ctx, worker_id, ev) matches Some(
            AgentEventView::AutoWorkerToolStart {
                session_id,
                run_id,
                worker_id: of,
                tool_call_id: id,
                tool_name: name,
                args_summary: args,
            },
        ) && session_id == ctx.session_id && run_id == ctx.run_id && of == worker_id && id
            == tool_call_id && name == tool_name && args == args_summary),
        ev matches AgentEventView::ToolEnd { tool_call_id, success, summary, .. } ==> (relayed(
            ctx,
            worker_id,
            ev,
        ) matches Some(
            AgentEventView::AutoWorkerToolEnd {
                session_id,
                run_id,
                worker_id: of,
                tool_call_id: id,
                success: well,
                summary: said,
            },
        ) && session_id == ctx.session_id && run_id == ctx.run_id && of == worker_id && id
            == tool_call_id && well == success && said == summary),
{
}

/// How a loop that ended is taken. A normal end keeps its summary and is a success,
/// but for one that begins with the words of a loop that ran out of iterations. A loop
/// that stopped for the user, or to hand in a plan, is a failure of its tools; any
/// error but a cancellation is one of its model, and says which.
pub proof fn law_end_is_told_truly(o: Result<AgentResultView, AgentErrorView>)
    ensures
        o matches Ok(AgentResultView::Done { summary }) ==> {
            let ran_out = exists|rest: Seq<char>| summary == #[trigger] ("Reached maximum of"@ + rest);
            &&& classified(o).0 == summary
            &&& classified(o).1 == if ran_out {
                WorkerStatusView::MaxIterations
            } else {
                WorkerStatusView::Completed
            }
        },
        o matches Ok(AgentResultView::AskUser { question, .. }) ==> classified(o).1 is ToolError
            && classified(o).0 == "worker yielded AskUser unexpectedly: "@ + question
            && classified(o).1->ToolError_message
            == "unexpected AskUser yield from a worker — Auto mode does not pass questions through"@,
        o matches Ok(AgentResultView::PlanReady { .. }) ==> classified(o).1 is ToolError
            && classified(o).0 == "worker yielded PlanReady unexpectedly"@
            && classified(o).1->ToolError_message
            == "unexpected PlanReady yield from a worker — Auto mode does not surface plans"@,
        o matches Err(AgentErrorView::Cancelled) ==> classified(o).1 is Cancelled && classified(o).0
            == "cancelled"@,
        o matches Err(AgentErrorView::Failed(msg)) ==> classified(o).1
            == (WorkerStatusView::LlmError { message: msg }) && classified(o).0
            == "worker failed: "@ + msg,
{
    if let Ok(AgentResultView::Done { summary }) = o {
        let p = "Reached maximum of"@;
        if exists|rest: Seq<char>| summary == #[trigger] (p + rest) {
            let rest = choose|rest: Seq<char>| summary == #[trigger] (p + rest);
            assert(summary.take(p.len() as int) =~= p);
        } else {
            if p.len() <= summary.len() && summary.take(p.len() as int) == p {
                assert(summary =~= p + summary.skip(p.len() as int));
            }
        }
    }
}

/// What stops a plan: running out of iterations, and errors of tools or of the model.
/// A normal end does not, and neither does a cancellation.
pub proof fn law_hard_failures(s: WorkerStatusView)
    ensures
        s.hard_failure() <==> s is MaxIterations || s is ToolError || s is LlmError,
{
}

} // verus!
