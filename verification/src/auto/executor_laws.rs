//! What holds of every task, whatever is answered on the way: how it ends and why, which
//! worker comes next, what is recorded and what is told.

use vstd::prelude::*;
use crate::auto::executor::{
    after_replies, answers_fit, failure_of, first_worker, lemma_last_reply, lemma_plan_calls,
    lemma_position, missing_target_reason, position_of, status_label_of, ActionView, Approval,
    EffectView, ExecutorConfigView, ExecutorView, Outcome, ReplyView, Stage,
};
use crate::auto::orchestrator::OrchestratorErrorView;
use crate::auto::types::{
    AutoResultView, AutoRunView, AutoStatus, PlanView, WorkerResultView, WorkerSpecView,
    WorkerStatusView,
};
use crate::text::{dec, joined};
use crate::types::AgentEventView;

verus! {

// ── How a task ends, and why ──

/// An answer by which the user calls the task off.
pub open spec fn calls_off(reply: ReplyView) -> bool {
    match reply {
        ReplyView::Polled(cancelled) => cancelled,
        ReplyView::Planned(r) => r == Err::<PlanView, _>(OrchestratorErrorView::Cancelled),
        ReplyView::Answered(a) => a == Approval::Cancelled,
        ReplyView::Worked(r) => r.status == WorkerStatusView::Cancelled,
    }
}

pub proof fn lemma_step(config: ExecutorConfigView, replies: Seq<ReplyView>)
    requires
        config.versions_fit(),
        answers_fit(config, replies),
        replies.len() > 0,
    ensures
        ({
            let s = after_replies(config, replies.drop_last()).state;
            let o = after_replies(config, replies);
            &&& s.inv()
            &&& s.config == config
            &&& after_replies(config, replies.drop_last()).takes(replies.last())
            &&& match replies.last() {
                ReplyView::Polled(c) => (s.stage == Stage::PollPlanning || s.stage
                    == Stage::PollWorker) && o == s.polled(c),
                ReplyView::Planned(r) => s.stage == Stage::Planning && o == s.planned(r),
                ReplyView::Answered(a) => s.stage == Stage::Approving && o == s.answered(a),
                ReplyView::Worked(r) => s.stage == Stage::Working && o == s.worked(r),
            }
        }),
{
    lemma_last_reply(config, replies);
    lemma_plan_calls(config, replies.drop_last());
    reveal(Outcome::then_told);
}

proof fn lemma_begun(s: ExecutorView, fx: Seq<EffectView>)
    ensures
        !(s.begin_workers(fx).action is Generate),
        !(s.begin_workers(fx).action matches ActionView::Finish(AutoResultView::Cancelled { .. })),
{
}

proof fn lemma_announced(s: ExecutorView, p: PlanView, fx: Seq<EffectView>)
    ensures
        !(s.announce(p, fx).action matches ActionView::Finish(AutoResultView::Cancelled { .. })),
{
}

/// A task is cancelled exactly where the last answer called it off: a poll that was
/// true, a planning call or an approval that was cancelled, or a worker that was. No
/// error, no rejection and no failing worker cancels it.
pub proof fn law_cancelled_only_if_called_off(
    config: ExecutorConfigView,
    replies: Seq<ReplyView>,
)
    requires
        config.versions_fit(),
        answers_fit(config, replies),
    ensures
        (after_replies(config, replies).action matches ActionView::Finish(
            AutoResultView::Cancelled { .. },
        )) <==> replies.len() > 0 && calls_off(replies.last()),
        replies.len() > 0 && calls_off(replies.last()) ==> after_replies(
            config,
            replies,
        ).state.run.status == AutoStatus::Cancelled,
{
    let o = after_replies(config, replies);
    if replies.len() == 0 {
        let s = ExecutorView::fresh(config);
        match config.saved_plan() {
            Some(p) => lemma_announced(s, p, Seq::empty()),
            None => {},
        }
    } else {
        let s = after_replies(config, replies.drop_last()).state;
        lemma_step(config, replies);
        match replies.last() {
            ReplyView::Polled(c) => {},
            ReplyView::Planned(r) => {
                if let Ok(p) = r {
                    let t = s.with_run(
                        AutoRunView { plan_versions: s.run.plan_versions.push(p), ..s.run },
                    );
                    lemma_announced(t, p, seq![EffectView::Notify(t.run)]);
                }
            },
            ReplyView::Answered(a) => lemma_begun(s, Seq::empty()),
            ReplyView::Worked(r) => {},
        }
    }
}

/// An answer of the orchestrator that is an error, other than the user's cancellation,
/// ends the task as failed. The reason, in the result and in the event that is told
/// last, is the text of the error, marked as the orchestrator's.
pub proof fn law_orchestrator_error_fails(
    config: ExecutorConfigView,
    replies: Seq<ReplyView>,
    e: OrchestratorErrorView,
)
    requires
        config.versions_fit(),
        answers_fit(config, replies),
        replies.len() > 0,
        replies.last() == ReplyView::Planned(Err(e)),
        e != OrchestratorErrorView::Cancelled,
    ensures
        ({
            let said = match e {
                OrchestratorErrorView::EmptyWorkerPool =>
                    "worker pool is empty — orchestrator cannot pick from zero models"@,
                OrchestratorErrorView::Parse { attempts, message } =>
                    "orchestrator returned an unparseable plan after "@ + dec(attempts as nat)
                        + " attempt(s); last error: "@ + message,
                OrchestratorErrorView::Http(m) => "orchestrator HTTP error: "@ + m,
                OrchestratorErrorView::Cancelled => "orchestrator call cancelled"@,
                OrchestratorErrorView::NoToolUse(m) =>
                    "provider returned no submit_plan tool_use: "@ + m,
            };
            let reason = "orchestrator error: "@ + said;
            let o = after_replies(config, replies);
            &&& o.action == ActionView::Finish(AutoResultView::Failed { reason, run: o.state.run })
            &&& o.state.run.status == AutoStatus::Failed
            &&& o.effects == seq![
                EffectView::Notify(o.state.run),
                EffectView::Emit(
                    AgentEventView::AutoFailed {
                        session_id: config.session_id,
                        run_id: config.auto_run_id,
                        reason,
                        last_worker_output: None,
                    },
                ),
            ]
        }),
{
    lemma_step(config, replies);
    let o = after_replies(config, replies);
    assert(o.effects =~= seq![o.effects[0], o.effects[1]]);
}

/// A plan that the user rejects ends the task as failed, and says so.
pub proof fn law_rejection_fails(config: ExecutorConfigView, replies: Seq<ReplyView>)
    requires
        config.versions_fit(),
        answers_fit(config, replies),
        replies.len() > 0,
        replies.last() == ReplyView::Answered(Approval::Rejected),
    ensures
        ({
            let o = after_replies(config, replies);
            &&& o.action == ActionView::Finish(
                AutoResultView::Failed { reason: "plan rejected by user"@, run: o.state.run },
            )
            &&& o.state.run.status == AutoStatus::Failed
            &&& o.effects == seq![
                EffectView::Notify(o.state.run),
                EffectView::Emit(
                    AgentEventView::AutoFailed {
                        session_id: config.session_id,
                        run_id: config.auto_run_id,
                        reason: "plan rejected by user"@,
                        last_worker_output: None,
                    },
                ),
            ]
        }),
{
    lemma_step(config, replies);
    let o = after_replies(config, replies);
    assert(o.effects =~= seq![o.effects[0], o.effects[1]]);
}

/// A task fails only for a cause: the orchestrator's error, the user's rejection, a
/// worker that failed with no replan left, or a worker to begin with that the plan does
/// not have.
pub proof fn law_failed_only_for_cause(config: ExecutorConfigView, replies: Seq<ReplyView>)
    requires
        config.versions_fit(),
        answers_fit(config, replies),
        after_replies(config, replies).action matches ActionView::Finish(
            AutoResultView::Failed { .. },
        ),
    ensures
        ({
            let run = after_replies(config, replies).state.run;
            ||| config.start_at_worker_id is Some && exists|p: PlanView|
                {
                    &&& #[trigger] run.plan_versions.contains(p)
                    &&& forall|i: int|
                        0 <= i < p.workers.len() ==> (#[trigger] p.workers[i]).id
                            != config.start_at_worker_id->0
                }
            ||| replies.len() > 0 && match replies.last() {
                ReplyView::Planned(r) => r is Err,
                ReplyView::Answered(a) => a == Approval::Rejected,
                ReplyView::Worked(r) => (r.status is MaxIterations || r.status is ToolError
                    || r.status is LlmError) && run.replans_used >= config.replan_budget,
                ReplyView::Polled(_) => false,
            }
        }),
{
    let o = after_replies(config, replies);
    lemma_start_at(config, replies);
    if replies.len() == 0 {
        let s = ExecutorView::fresh(config);
        match config.saved_plan() {
            Some(p) => {
                lemma_failed_begin(ExecutorView { plan: p, ..s });
                let n = o.state.run.plan_versions.len() - 1;
                assert(o.state.run.plan_versions[n] == p);
                assert(o.state.run.plan_versions.contains(p));
            },
            None => {},
        }
    } else {
        let s = after_replies(config, replies.drop_last()).state;
        lemma_step(config, replies);
        lemma_last_reply(config, replies);
        lemma_start_at(config, replies.drop_last());
        match replies.last() {
            ReplyView::Polled(c) => {},
            ReplyView::Planned(r) => {
                if let Ok(p) = r {
                    let t = s.with_run(
                        AutoRunView { plan_versions: s.run.plan_versions.push(p), ..s.run },
                    );
                    lemma_failed_begin(ExecutorView { plan: p, ..t });
                    let n = o.state.run.plan_versions.len() - 1;
                    assert(o.state.run.plan_versions[n] == p);
                    assert(o.state.run.plan_versions.contains(p));
                }
            },
            ReplyView::Answered(a) => {
                lemma_failed_begin(s);
                if a == Approval::Approved {
                    assert(o.state.run.plan_versions == s.run.plan_versions);
                    assert(o.state.run.plan_versions.contains(s.plan));
                }
            },
            ReplyView::Worked(r) => {},
        }
    }
}

proof fn lemma_failed_begin(s: ExecutorView)
    ensures
        forall|fx: Seq<EffectView>|
            ((#[trigger] s.begin_workers(fx)).action matches ActionView::Finish(
                AutoResultView::Failed { .. },
            )) ==> s.start_at is Some && forall|i: int|
                0 <= i < s.plan.workers.len() ==> (#[trigger] s.plan.workers[i]).id
                    != s.start_at->0,
{
    if let Some(target) = s.start_at {
        lemma_position(s.plan.workers, target);
    }
}

/// Where to begin is forgotten or what was asked for at the start; a plan that waits
/// for approval is one of the run's.
pub proof fn lemma_start_at(config: ExecutorConfigView, replies: Seq<ReplyView>)
    requires
        config.versions_fit(),
        answers_fit(config, replies),
    ensures
        ({
            let s = after_replies(config, replies).state;
            &&& s.start_at is None || s.start_at == config.start_at_worker_id
            &&& s.stage == Stage::Approving || s.stage == Stage::PollWorker || s.stage
                == Stage::Working ==> s.run.plan_versions.contains(s.plan)
        }),
    decreases replies.len(),
{
    if replies.len() == 0 {
        if let Some(p) = config.saved_plan() {
            let o = ExecutorView::start(config);
            let n = config.initial_run().plan_versions.len() - 1;
            assert(o.state.run.plan_versions[n] == p);
        }
    } else {
        lemma_last_reply(config, replies);
        lemma_start_at(config, replies.drop_last());
        lemma_step(config, replies);
        let s = after_replies(config, replies.drop_last()).state;
        let o = after_replies(config, replies);
        if let ReplyView::Planned(Ok(p)) = replies.last() {
            assert(o.state.run.plan_versions == s.run.plan_versions.push(p));
            assert(o.state.run.plan_versions[s.run.plan_versions.len() as int] == p);
        } else {
            assert(o.state.run.plan_versions == s.run.plan_versions);
        }
    }
}

/// A task is done only where no worker of its plan is left, and what it says at the end
/// is what the worker that just completed said; where none did, that it is complete.
pub proof fn law_done_only_at_the_end(
    config: ExecutorConfigView,
    replies: Seq<ReplyView>,
    summary: Seq<char>,
    run: AutoRunView,
)
    requires
        config.versions_fit(),
        answers_fit(config, replies),
        after_replies(config, replies).action == ActionView::Finish(
            AutoResultView::Done { summary, run },
        ),
    ensures
        ({
            let o = after_replies(config, replies);
            &&& run == o.state.run && run.status == AutoStatus::Done
            &&& o.state.next >= o.state.plan.workers.len()
            &&& match replies.last() {
                ReplyView::Worked(r) if replies.len() > 0 => r.status == WorkerStatusView::Completed
                    && summary == r.summary && run.worker_results.last() == r,
                _ => o.state.plan.workers.len() == 0 && summary == "Auto task complete."@,
            }
            &&& o.effects.last() == EffectView::Emit(
                AgentEventView::AutoDone {
                    session_id: config.session_id,
                    run_id: config.auto_run_id,
                    summary,
                    total_cost_cents: run.cost_cents,
                },
            )
        }),
{
    lemma_plan_calls(config, replies);
    if replies.len() > 0 {
        lemma_step(config, replies);
        let s = after_replies(config, replies.drop_last()).state;
        if let ReplyView::Planned(Ok(p)) = replies.last() {
            let t = s.with_run(
                AutoRunView { plan_versions: s.run.plan_versions.push(p), ..s.run },
            );
            lemma_done_begin(ExecutorView { plan: p, ..t });
        }
        lemma_done_begin(s);
    } else {
        let s = ExecutorView::fresh(config);
        if let Some(p) = config.saved_plan() {
            lemma_done_begin(ExecutorView { plan: p, ..s });
        }
    }
}

proof fn lemma_done_begin(s: ExecutorView)
    ensures
        forall|fx: Seq<EffectView>|
            ((#[trigger] s.begin_workers(fx)).action matches ActionView::Finish(
                AutoResultView::Done { summary, .. },
            ) && summary == summary) ==> s.plan.workers.len() == 0 && s.begin_workers(
                fx,
            ).action->Finish_0->summary == "Auto task complete."@ && s.begin_workers(
                fx,
            ).state.plan == s.plan,
{
    if let Some(target) = s.start_at {
        lemma_position(s.plan.workers, target);
    }
}

/// A worker that completes as the last of its plan ends the task as done; with others
/// behind it, it does not end it.
pub proof fn law_last_worker_ends_the_task(
    config: ExecutorConfigView,
    replies: Seq<ReplyView>,
    r: WorkerResultView,
)
    requires
        config.versions_fit(),
        answers_fit(config, replies),
        replies.len() > 0,
        replies.last() == ReplyView::Worked(r),
        r.status == WorkerStatusView::Completed,
    ensures
        ({
            let s = after_replies(config, replies.drop_last()).state;
            let o = after_replies(config, replies);
            if s.next + 1 == s.plan.workers.len() {
                o.action == ActionView::Finish(
                    AutoResultView::Done { summary: r.summary, run: o.state.run },
                )
            } else {
                o.action is PollCancel && o.state.stage == Stage::PollWorker && o.state.next
                    == s.next + 1 && o.state.plan == s.plan
            }
        }),
{
    lemma_step(config, replies);
}

// ── One answer at a time ──

/// Nothing of a run but its status has changed.
pub open spec fn same_but_status(a: AutoRunView, b: AutoRunView) -> bool {
    &&& a.id == b.id
    &&& a.session_id == b.session_id
    &&& a.plan_versions == b.plan_versions
    &&& a.worker_results == b.worker_results
    &&& a.cost_cents == b.cost_cents
    &&& a.replans_used == b.replans_used
    &&& a.current_worker == b.current_worker
    &&& a.pending_failure == b.pending_failure
}

/// A cancellation says in which phase it came: the planning of which version, which
/// worker, or the approval of which plan.
pub proof fn law_cancelled_phase(s: ExecutorView, reply: ReplyView, o: Outcome)
    requires
        calls_off(reply),
        match reply {
            ReplyView::Polled(c) => (s.stage == Stage::PollPlanning || s.stage == Stage::PollWorker)
                && o == s.polled(c),
            ReplyView::Planned(r) => o == s.planned(r),
            ReplyView::Answered(a) => o == s.answered(a),
            ReplyView::Worked(r) => o == s.worked(r),
        },
    ensures
        ({
            let w = s.plan.workers[s.next];
            let planning = reply is Planned || (reply is Polled && s.stage == Stage::PollPlanning);
            let phase = if planning {
                (if s.run.plan_versions.len() == 0 { "Planning v"@ } else { "Replanning v"@ }) + dec(
                    (s.run.plan_versions.len() + 1) as nat,
                )
            } else if reply is Answered {
                "Approval for plan v"@ + dec(s.plan.version as nat)
            } else {
                "Worker "@ + w.id + " ("@ + w.model + ")"@
            };
            &&& o.action == ActionView::Finish(
                AutoResultView::Cancelled { run: o.state.run, phase },
            )
            &&& o.state.run.status == AutoStatus::Cancelled
            &&& o.effects == seq![EffectView::Notify(o.state.run)]
            &&& !(reply is Worked) ==> same_but_status(o.state.run, s.run)
        }),
{
    assert(o.effects =~= seq![o.effects[0]]);
}

/// Where the user has not cancelled, the orchestrator is asked, or the worker is run
/// whose turn it is; the run then shows that worker, and nothing else has changed.
pub proof fn law_goes_on(s: ExecutorView)
    requires
        s.stage == Stage::PollPlanning || s.stage == Stage::PollWorker,
    ensures
        ({
            let o = s.polled(false);
            if s.stage == Stage::PollPlanning {
                &&& o.action is Generate
                &&& o.state == (ExecutorView { stage: Stage::Planning, ..s })
                &&& o.effects.len() == 0
            } else {
                let run = AutoRunView { current_worker: Some(s.plan.workers[s.next]), ..s.run };
                &&& o.action is RunWorker
                &&& o.state == (ExecutorView { stage: Stage::Working, run, ..s })
                &&& o.effects == seq![EffectView::Notify(run)]
            }
        }),
{
}

/// A plan becomes the plan that is executed and the newest of the run's plans, and is
/// told as it is. The user is asked about it exactly where it is the first.
pub proof fn law_plan_taken(s: ExecutorView, p: PlanView)
    ensures
        ({
            let o = s.planned(Ok(p));
            let run = AutoRunView { plan_versions: s.run.plan_versions.push(p), ..s.run };
            &&& o.state.plan == p
            &&& o.state.run.plan_versions == s.run.plan_versions.push(p)
            &&& o.state.run.worker_results == s.run.worker_results
            &&& o.state.run.cost_cents == s.run.cost_cents
            &&& o.state.run.replans_used == s.run.replans_used
            &&& o.state.run.id == s.run.id && o.state.run.session_id == s.run.session_id
            &&& o.state.prior == s.prior && o.state.version == s.version
            &&& o.action is Approve <==> s.version == 1
            &&& o.effects.len() >= 3
            &&& o.effects[0] == EffectView::Notify(run)
            &&& o.effects[1] == EffectView::Emit(
                AgentEventView::AutoPlan {
                    session_id: s.config.session_id,
                    run_id: s.config.auto_run_id,
                    version: p.version,
                    reasoning: p.reasoning,
                    plan: p.workers,
                },
            )
            &&& s.version == 1 ==> {
                &&& o.state.run.status == AutoStatus::AwaitingApproval
                &&& o.state.start_at == s.start_at
                &&& o.effects.skip(2) == seq![
                    EffectView::Notify(o.state.run),
                    EffectView::Emit(
                        AgentEventView::AutoAwaitingApproval {
                            session_id: s.config.session_id,
                            run_id: s.config.auto_run_id,
                        },
                    ),
                ]
            }
            &&& s.version != 1 ==> {
                let approved = (ExecutorView { plan: p, run, ..s }).answered(Approval::Approved);
                &&& o.state == approved.state
                &&& o.action == approved.action
                &&& o.effects.skip(2) == approved.effects
            }
        }),
{
    let o = s.planned(Ok(p));
    if s.version == 1 {
        assert(o.effects.skip(2) =~= seq![o.effects[2], o.effects[3]]);
    } else {
        let run = AutoRunView { plan_versions: s.run.plan_versions.push(p), ..s.run };
        let approved = (ExecutorView { plan: p, run, ..s }).answered(Approval::Approved);
        if let Some(target) = s.start_at {
            lemma_position(p.workers, target);
        }
        assert(o.effects.skip(2) =~= approved.effects);
    }
}

/// An approved plan is executed from its first worker on, or from the worker that the
/// task was to begin with, the first of that id. A plan that does not have it fails the
/// task, and the reason names the id and those that the plan has. A plan without
/// workers is done.
pub proof fn law_approved_plan_begins(s: ExecutorView)
    ensures
        ({
            let o = s.answered(Approval::Approved);
            let ws = s.plan.workers;
            let run = AutoRunView { status: AutoStatus::Running, ..s.run };
            &&& same_but_status(o.state.run, s.run)
            &&& o.state.plan == s.plan && o.state.prior == s.prior && o.state.version == s.version
            &&& o.state.start_at is None
            &&& o.effects.len() >= 1 && o.effects[0] == EffectView::Notify(run)
            &&& s.start_at is None ==> if ws.len() == 0 {
                o.action == ActionView::Finish(
                    AutoResultView::Done { summary: "Auto task complete."@, run: o.state.run },
                ) && o.state.run.status == AutoStatus::Done
            } else {
                o.action is PollCancel && o.state.stage == Stage::PollWorker && o.state.next == 0
                    && o.state.run == run && o.effects.len() == 1
            }
            &&& s.start_at matches Some(target) ==> {
                &&& forall|i: int|
                    {
                        &&& 0 <= i < ws.len()
                        &&& (#[trigger] ws[i]).id == target
                        &&& forall|k: int| 0 <= k < i ==> (#[trigger] ws[k]).id != target
                    } ==> o.action is PollCancel && o.state.stage == Stage::PollWorker
                        && o.state.next == i && o.state.run == run && o.effects.len() == 1
                &&& (forall|i: int| 0 <= i < ws.len() ==> (#[trigger] ws[i]).id != target) ==> {
                    let reason = "Retry target worker id `"@ + target
                        + "` not found in saved plan (plan has: "@ + joined(
                        ws.map_values(|w: WorkerSpecView| w.id),
                        ", "@,
                    ) + ")"@;
                    &&& o.action == ActionView::Finish(
                        AutoResultView::Failed { reason, run: o.state.run },
                    )
                    &&& o.state.run.status == AutoStatus::Failed
                    &&& o.effects.last() == EffectView::Emit(
                        AgentEventView::AutoFailed {
                            session_id: s.config.session_id,
                            run_id: s.config.auto_run_id,
                            reason,
                            last_worker_output: None,
                        },
                    )
                }
            }
        }),
{
    let o = s.answered(Approval::Approved);
    let ws = s.plan.workers;
    let run = AutoRunView { status: AutoStatus::Running, ..s.run };
    if let Some(target) = s.start_at {
        lemma_position(ws, target);
        assert forall|i: int|
            {
                &&& 0 <= i < ws.len()
                &&& (#[trigger] ws[i]).id == target
                &&& forall|k: int| 0 <= k < i ==> (#[trigger] ws[k]).id != target
            } implies o.action is PollCancel && o.state.stage == Stage::PollWorker && o.state.next
            == i && o.state.run == run && o.effects.len() == 1 by {
            let k = position_of(ws, target)->0;
            assert(first_worker(ws, target, k));
            if k < i {
                assert(ws[k].id != target);
            }
            if i < k {
                assert(ws[i].id != target);
            }
        }
        if forall|i: int| 0 <= i < ws.len() ==> (#[trigger] ws[i]).id != target {
            assert(position_of(ws, target) is None);
            let f = |w: WorkerSpecView| w.id;
            assert(missing_target_reason(target, ws) == "Retry target worker id `"@ + target
                + "` not found in saved plan (plan has: "@ + joined(ws.map_values(f), ", "@)
                + ")"@);
        }
    }
}

/// What a worker leaves behind: its cost is added to the run's, up to the greatest
/// number there is, and no worker is running any more. The result is recorded unless
/// the worker failed, and those that follow see it where it completed.
pub proof fn law_result_booked(s: ExecutorView, r: WorkerResultView)
    ensures
        ({
            let o = s.worked(r);
            let failed = r.status is MaxIterations || r.status is ToolError || r.status is LlmError;
            &&& o.state.run.cost_cents == if s.run.cost_cents + r.cost_cents <= u32::MAX {
                s.run.cost_cents + r.cost_cents
            } else {
                u32::MAX as int
            }
            &&& o.state.run.current_worker is None
            &&& o.state.run.worker_results == if failed {
                s.run.worker_results
            } else {
                s.run.worker_results.push(r)
            }
            &&& o.state.prior == if r.status is Completed { s.prior.push(r) } else { s.prior }
            &&& o.state.run.plan_versions == s.run.plan_versions
            &&& o.state.run.id == s.run.id && o.state.run.session_id == s.run.session_id
            &&& o.state.run.replans_used == if failed && s.run.replans_used
                < s.config.replan_budget {
                s.run.replans_used + 1
            } else {
                s.run.replans_used as int
            }
        }),
{
}

/// A worker that completed with others behind it: the next one's turn comes, and the
/// run is shown with the result.
pub proof fn law_next_workers_turn(s: ExecutorView, r: WorkerResultView)
    requires
        r.status == WorkerStatusView::Completed,
        s.next + 1 < s.plan.workers.len(),
    ensures
        ({
            let o = s.worked(r);
            &&& o.action is PollCancel
            &&& o.state.stage == Stage::PollWorker
            &&& o.state.next == s.next + 1
            &&& o.state.plan == s.plan
            &&& o.state.run.status == s.run.status
            &&& o.effects == seq![EffectView::Notify(o.state.run)]
        }),
{
    let o = s.worked(r);
    assert(o.effects =~= seq![EffectView::Notify(o.state.run)]);
}

/// What is said of a worker that failed: its id, its model, how it ended and the
/// beginning of its summary.
pub proof fn law_failure_says(w: WorkerSpecView, r: WorkerResultView)
    ensures
        ({
            let f = failure_of(w, r);
            let said = "worker "@ + w.id + " ("@ + w.model + ") failed ["@ + status_label_of(
                r.status,
            ) + "]: "@;
            &&& f.worker_id == w.id
            &&& f.worker_model == w.model
            &&& f.worker_prompt == w.prompt
            &&& r.summary.len() <= 240 ==> f.error_message == said + r.summary
            &&& r.summary.len() > 240 ==> f.error_message == said + (r.summary.take(240) + "…"@)
        }),
{
}

/// A worker that failed while a replan is left: the orchestrator is asked anew, for the
/// next version and for that reason, and both are told. Without a replan left the task
/// ends and waits for the user, with the failure.
pub proof fn law_failure_leads_on(s: ExecutorView, r: WorkerResultView)
    requires
        r.status is MaxIterations || r.status is ToolError || r.status is LlmError,
        s.version < u32::MAX,
    ensures
        ({
            let o = s.worked(r);
            let failure = failure_of(s.plan.workers[s.next], r);
            let reason = failure.error_message;
            if s.run.replans_used < s.config.replan_budget {
                &&& o.action is PollCancel
                &&& o.state.stage == Stage::PollPlanning
                &&& o.state.version == s.version + 1
                &&& o.state.reason == Some(reason)
                &&& o.state.run.status == AutoStatus::Planning
                &&& o.state.run.pending_failure == s.run.pending_failure
                &&& o.effects.len() == 4
                &&& o.effects[0] matches EffectView::Notify(shown) && same_but_status(
                    shown,
                    o.state.run,
                )
                &&& o.effects[1] == EffectView::Emit(
                    AgentEventView::AutoReplan {
                        session_id: s.config.session_id,
                        run_id: s.config.auto_run_id,
                        reason,
                    },
                )
                &&& o.effects[2] == EffectView::Emit(
                    AgentEventView::AutoPlanning {
                        session_id: s.config.session_id,
                        run_id: s.config.auto_run_id,
                    },
                )
                &&& o.effects[3] == EffectView::Notify(o.state.run)
            } else {
                &&& o.action == ActionView::Finish(
                    AutoResultView::Failed { reason, run: o.state.run },
                )
                &&& o.state.run.status == AutoStatus::AwaitingFailureDecision
                &&& o.state.run.pending_failure == Some(failure)
                &&& o.effects == seq![
                    EffectView::Notify(o.state.run),
                    EffectView::Emit(
                        AgentEventView::AutoAwaitingFailureDecision {
                            session_id: s.config.session_id,
                            run_id: s.config.auto_run_id,
                            failure,
                        },
                    ),
                ]
            }
        }),
{
    let o = s.worked(r);
    if s.run.replans_used >= s.config.replan_budget {
        assert(o.effects =~= seq![o.effects[0], o.effects[1]]);
    }
}

/// A fresh task begins with an empty run, asks for the first version of a plan, and
/// tells that it plans. It is told nothing but its task and its pool.
pub proof fn law_fresh_task(config: ExecutorConfigView)
    requires
        config.resume_from is None,
    ensures
        ({
            let o = ExecutorView::start(config);
            let run = AutoRunView {
                id: config.auto_run_id,
                session_id: config.session_id,
                status: AutoStatus::Planning,
                plan_versions: Seq::empty(),
                worker_results: Seq::empty(),
                cost_cents: 0,
                replans_used: 0,
                current_worker: None,
                pending_failure: None,
            };
            &&& o.state.run == run
            &&& o.action is PollCancel && o.state.stage == Stage::PollPlanning
            &&& o.effects == seq![
                EffectView::Emit(
                    AgentEventView::AutoPlanning {
                        session_id: config.session_id,
                        run_id: config.auto_run_id,
                    },
                ),
                EffectView::Notify(run),
            ]
            &&& o.state.request().task == config.task
            &&& o.state.request().worker_pool == config.worker_pool
            &&& o.state.request().prior_results.len() == 0
            &&& o.state.request().replan_reason == config.initial_replan_reason
            &&& o.state.request().plan_version == 1
        }),
{
    let o = ExecutorView::start(config);
    assert(o.effects =~= seq![o.effects[0], o.effects[1]]);
}

/// A run that is taken up keeps its results, its plans, its cost and its count of
/// replans, and forgets the failure that it waited with. With a reason to plan anew the
/// orchestrator is asked for the version behind the last one; without, the last plan is
/// told again, and approved again where it is the first.
pub proof fn law_taken_up_task(config: ExecutorConfigView, saved: AutoRunView)
    requires
        config.resume_from == Some(saved),
        config.versions_fit(),
    ensures
        ({
            let o = ExecutorView::start(config);
            let newest = if saved.plan_versions.len() == 0 {
                1
            } else {
                saved.plan_versions.last().version
            };
            &&& o.state.run.id == saved.id && o.state.run.session_id == saved.session_id
            &&& o.state.run.plan_versions == saved.plan_versions
            &&& o.state.run.worker_results == saved.worker_results
            &&& o.state.run.cost_cents == saved.cost_cents
            &&& o.state.run.replans_used == saved.replans_used
            &&& o.state.run.current_worker == saved.current_worker
            &&& o.state.run.pending_failure is None
            &&& o.state.prior == saved.worker_results
            &&& o.state.reason == config.initial_replan_reason
            &&& config.initial_replan_reason is Some ==> o.state.version == newest + 1
            &&& config.initial_replan_reason is None ==> o.state.version == newest
            &&& config.initial_replan_reason is Some || saved.plan_versions.len() == 0 ==> {
                &&& o.action is PollCancel && o.state.stage == Stage::PollPlanning
                &&& o.state.run.status == AutoStatus::Planning
                &&& o.state.start_at == config.start_at_worker_id
            }
            &&& config.initial_replan_reason is None && saved.plan_versions.len() > 0 ==> {
                let p = saved.plan_versions.last();
                &&& o.state.plan == p
                &&& o.action is Approve <==> p.version == 1
                &&& !(o.action is Generate) && o.state.stage != Stage::PollPlanning
                &&& o.effects.len() > 0 && o.effects[0] == EffectView::Emit(
                    AgentEventView::AutoPlan {
                        session_id: config.session_id,
                        run_id: config.auto_run_id,
                        version: p.version,
                        reasoning: p.reasoning,
                        plan: p.workers,
                    },
                )
                &&& p.version != 1 ==> {
                    let s = ExecutorView::fresh(config);
                    let approved = (ExecutorView { plan: p, ..s }).answered(Approval::Approved);
                    o.state == approved.state && o.action == approved.action
                }
            }
        }),
{
    let s = ExecutorView::fresh(config);
    if let Some(target) = config.start_at_worker_id {
        if let Some(p) = config.saved_plan() {
            lemma_position(p.workers, target);
        }
    }
}

} // verus!
