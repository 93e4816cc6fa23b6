//! What holds of a whole run, as those see it whom it asks and tells: how it ends is
//! told by what they answered.

use vstd::prelude::*;
use crate::auto::company::{all_passed_on, deeds_of, Company, DeedView};
use crate::auto::executor::{
    after_replies, answers_fit, calls_of, calls_until, deed_of, lemma_last_reply, lemma_plan_calls,
    ActionView, Approval, AutoStateListener, EffectView, ExecutorConfigView, ExecutorView,
    PlanApprover, PlanGenerator, ReplyView, RunHost, WorkerRunner,
};
use crate::auto::executor_laws::{
    calls_off, law_cancelled_only_if_called_off, law_done_only_at_the_end,
    law_orchestrator_error_fails, law_rejection_fails, lemma_start_at, lemma_step,
};
use crate::auto::orchestrator::OrchestratorErrorView;
use crate::auto::types::{AutoResultView, AutoRunView, AutoStatus, PlanView, WorkerStatusView};
use crate::text::dec;
use crate::types::AgentEventView;

verus! {

/// An answer by which the user calls a run off.
pub open spec fn said_stop(d: DeedView) -> bool {
    match d {
        DeedView::Polled(cancelled) => cancelled,
        DeedView::Planned(_, r) => r == Err::<PlanView, _>(OrchestratorErrorView::Cancelled),
        DeedView::Answered(_, a) => a == Approval::Cancelled,
        DeedView::Worked(_, _, r) => r.status == WorkerStatusView::Cancelled,
        _ => false,
    }
}

/// The plans that were handed in, in order.
pub open spec fn plans_given(calls: Seq<DeedView>) -> Seq<PlanView>
    decreases calls.len(),
{
    if calls.len() == 0 {
        Seq::empty()
    } else {
        let rest = plans_given(calls.drop_last());
        match calls.last() {
            DeedView::Planned(_, Ok(p)) => rest.push(p),
            _ => rest,
        }
    }
}

/// What the workers cost, all together.
pub open spec fn cost_of(calls: Seq<DeedView>) -> nat
    decreases calls.len(),
{
    if calls.len() == 0 {
        0
    } else {
        let rest = cost_of(calls.drop_last());
        match calls.last() {
            DeedView::Worked(_, _, r) => rest + r.cost_cents as nat,
            _ => rest,
        }
    }
}

/// One call more for each effect, in order: every event is emitted, and every state of
/// the run is shown where somebody listens.
pub proof fn law_effects_passed_on(effects: Seq<EffectView>, e: AgentEventView, r: AutoRunView)
    ensures
        deeds_of(Seq::empty(), true).len() == 0,
        deeds_of(Seq::empty(), false).len() == 0,
        forall|listening: bool| #[trigger]
            deeds_of(effects.push(EffectView::Emit(e)), listening) == deeds_of(
                effects,
                listening,
            ).push(DeedView::Emitted(e)),
        deeds_of(effects.push(EffectView::Notify(r)), true) == deeds_of(effects, true).push(
            DeedView::Shown(r),
        ),
        deeds_of(effects.push(EffectView::Notify(r)), false) == deeds_of(effects, false),
{
    assert(effects.push(EffectView::Emit(e)).drop_last() =~= effects);
    assert(effects.push(EffectView::Notify(r)).drop_last() =~= effects);
}

proof fn lemma_told(calls: Seq<DeedView>, effects: Seq<EffectView>, listening: bool)
    ensures
        plans_given(calls + deeds_of(effects, listening)) == plans_given(calls),
        cost_of(calls + deeds_of(effects, listening)) == cost_of(calls),
        forall|i: int|
            0 <= i < deeds_of(effects, listening).len() ==> (
            #[trigger] deeds_of(effects, listening)[i]) is Emitted || deeds_of(
                effects,
                listening,
            )[i] is Shown,
    decreases effects.len(),
{
    let ds = deeds_of(effects, listening);
    if effects.len() == 0 {
        assert(calls + ds =~= calls);
    } else {
        let before = deeds_of(effects.drop_last(), listening);
        lemma_told(calls, effects.drop_last(), listening);
        if ds.len() > before.len() {
            assert(ds.drop_last() =~= before);
            assert((calls + ds).drop_last() =~= calls + before);
            assert((calls + ds).last() == ds.last());
        }
    }
}

/// Each answer is among the calls, and each call that was answered has its answer.
proof fn lemma_calls(config: ExecutorConfigView, replies: Seq<ReplyView>, listening: bool)
    ensures
        forall|i: int|
            0 <= i < replies.len() ==> calls_until(config, replies, listening).contains(
                deed_of(after_replies(config, replies.take(i)).state, #[trigger] replies[i]),
            ),
        forall|k: int|
            {
                &&& 0 <= k < calls_until(config, replies, listening).len()
                &&& !((#[trigger] calls_until(config, replies, listening)[k]) is Emitted)
                &&& !(calls_until(config, replies, listening)[k] is Shown)
            } ==> exists|i: int|
                0 <= i < replies.len() && calls_until(config, replies, listening)[k] == deed_of(
                    after_replies(config, replies.take(i)).state,
                    #[trigger] replies[i],
                ),
    decreases replies.len(),
{
    if replies.len() > 0 {
        let before = replies.drop_last();
        let n = replies.len() - 1;
        let o = after_replies(config, before);
        let all = calls_until(config, replies, listening);
        let old_calls = calls_until(config, before, listening);
        let told = deeds_of(o.effects, listening);
        lemma_calls(config, before, listening);
        lemma_told(old_calls, o.effects, listening);
        assert(replies.take(n) =~= before);
        assert forall|i: int| 0 <= i < replies.len() implies all.contains(
            deed_of(after_replies(config, replies.take(i)).state, #[trigger] replies[i]),
        ) by {
            let d = deed_of(after_replies(config, replies.take(i)).state, replies[i]);
            if i < n {
                assert(before[i] == replies[i]);
                assert(before.take(i) =~= replies.take(i));
                assert(old_calls.contains(d));
                let k = choose|k: int| 0 <= k < old_calls.len() && old_calls[k] == d;
                assert(all[k] == d);
            } else {
                assert(all[all.len() - 1] == d);
            }
        }
        assert forall|k: int|
            {
                &&& 0 <= k < all.len()
                &&& !((#[trigger] all[k]) is Emitted)
                &&& !(all[k] is Shown)
            } implies exists|i: int|
            0 <= i < replies.len() && all[k] == deed_of(
                after_replies(config, replies.take(i)).state,
                #[trigger] replies[i],
            ) by {
            if k < old_calls.len() {
                assert(all[k] == old_calls[k]);
                let i = choose|i: int|
                    0 <= i < before.len() && old_calls[k] == deed_of(
                        after_replies(config, before.take(i)).state,
                        #[trigger] before[i],
                    );
                assert(before.take(i) =~= replies.take(i));
                assert(replies[i] == before[i]);
                assert(all[k] == deed_of(
                    after_replies(config, replies.take(i)).state,
                    replies[i],
                ));
            } else if k < old_calls.len() + told.len() {
                assert(all[k] == told[k - old_calls.len()]);
            } else {
                assert(all[k] == deed_of(
                    after_replies(config, replies.take(n)).state,
                    replies[n],
                ));
            }
        }
    }
}

proof fn lemma_all_calls(config: ExecutorConfigView, replies: Seq<ReplyView>, listening: bool)
    ensures
        forall|i: int|
            0 <= i < replies.len() ==> calls_of(config, replies, listening).contains(
                deed_of(after_replies(config, replies.take(i)).state, #[trigger] replies[i]),
            ),
        forall|k: int|
            {
                &&& 0 <= k < calls_of(config, replies, listening).len()
                &&& !((#[trigger] calls_of(config, replies, listening)[k]) is Emitted)
                &&& !(calls_of(config, replies, listening)[k] is Shown)
            } ==> exists|i: int|
                0 <= i < replies.len() && calls_of(config, replies, listening)[k] == deed_of(
                    after_replies(config, replies.take(i)).state,
                    #[trigger] replies[i],
                ),
{
    let o = after_replies(config, replies);
    let a = calls_until(config, replies, listening);
    let all = calls_of(config, replies, listening);
    let told = deeds_of(o.effects, listening);
    lemma_calls(config, replies, listening);
    lemma_told(a, o.effects, listening);
    assert forall|i: int| 0 <= i < replies.len() implies all.contains(
        deed_of(after_replies(config, replies.take(i)).state, #[trigger] replies[i]),
    ) by {
        let d = deed_of(after_replies(config, replies.take(i)).state, replies[i]);
        let k = choose|k: int| 0 <= k < a.len() && a[k] == d;
        assert(all[k] == d);
    }
    assert forall|k: int|
        {
            &&& 0 <= k < all.len()
            &&& !((#[trigger] all[k]) is Emitted)
            &&& !(all[k] is Shown)
        } implies exists|i: int|
        0 <= i < replies.len() && all[k] == deed_of(
            after_replies(config, replies.take(i)).state,
            #[trigger] replies[i],
        ) by {
        if k < a.len() {
            assert(all[k] == a[k]);
            let i = choose|i: int|
                0 <= i < replies.len() && a[k] == deed_of(
                    after_replies(config, replies.take(i)).state,
                    #[trigger] replies[i],
                );
            assert(all[k] == deed_of(after_replies(config, replies.take(i)).state, replies[i]));
        } else {
            assert(all[k] == told[k - a.len()]);
        }
    }
}

/// Nothing is asked any more once a run has ended.
proof fn lemma_end_is_last(config: ExecutorConfigView, replies: Seq<ReplyView>, i: int)
    requires
        answers_fit(config, replies),
        0 <= i <= replies.len(),
        after_replies(config, replies.take(i)).action is Finish,
    ensures
        i == replies.len(),
{
    if i < replies.len() {
        assert(after_replies(config, replies.take(i)).takes(replies[i]));
    }
}

proof fn lemma_prefix_fits(config: ExecutorConfigView, replies: Seq<ReplyView>, i: int)
    requires
        answers_fit(config, replies),
        0 <= i <= replies.len(),
    ensures
        answers_fit(config, replies.take(i)),
{
    let before = replies.take(i);
    assert forall|k: int| 0 <= k < before.len() implies after_replies(
        config,
        before.take(k),
    ).takes(#[trigger] before[k]) by {
        assert(before.take(k) =~= replies.take(k));
        assert(before[k] == replies[k]);
    }
}

/// The answers by which a run went.
proof fn lemma_brought<
    'a,
    G: PlanGenerator,
    W: WorkerRunner,
    A: PlanApprover,
    L: AutoStateListener,
    H: RunHost,
>(
    c: Company<'a, G, W, A, L, H>,
    config: ExecutorConfigView,
    calls: Seq<DeedView>,
    result: AutoResultView,
) -> (replies: Seq<ReplyView>)
    requires
        c.brings(config, calls, result),
    ensures
        answers_fit(config, replies),
        after_replies(config, replies).action == ActionView::Finish(result),
        calls == calls_of(config, replies, c.listener is Some),
{
    choose|replies: Seq<ReplyView>|
        {
            &&& #[trigger] answers_fit(config, replies)
            &&& c.gave(config, replies)
            &&& after_replies(config, replies).action == ActionView::Finish(result)
            &&& all_passed_on(c.host, c.listener, after_replies(config, replies).effects)
            &&& calls == calls_of(config, replies, c.listener is Some)
        }
}

/// The answer that a call was answered with.
proof fn lemma_answer_of(
    config: ExecutorConfigView,
    replies: Seq<ReplyView>,
    listening: bool,
    k: int,
) -> (i: int)
    requires
        0 <= k < calls_of(config, replies, listening).len(),
        !(calls_of(config, replies, listening)[k] is Emitted),
        !(calls_of(config, replies, listening)[k] is Shown),
    ensures
        0 <= i < replies.len(),
        calls_of(config, replies, listening)[k] == deed_of(
            after_replies(config, replies.take(i)).state,
            replies[i],
        ),
{
    lemma_all_calls(config, replies, listening);
    choose|i: int|
        0 <= i < replies.len() && calls_of(config, replies, listening)[k] == deed_of(
            after_replies(config, replies.take(i)).state,
            #[trigger] replies[i],
        )
}

/// A run is cancelled exactly where somebody said to stop: a poll that was true, a
/// planning call or an approval that was cancelled, or a worker that was.
#[verifier::rlimit(40)]
pub proof fn law_run_cancelled_only_if_told<
    'a,
    G: PlanGenerator,
    W: WorkerRunner,
    A: PlanApprover,
    L: AutoStateListener,
    H: RunHost,
>(
    c: Company<'a, G, W, A, L, H>,
    config: ExecutorConfigView,
    calls: Seq<DeedView>,
    result: AutoResultView,
)
    requires
        config.versions_fit(),
        c.brings(config, calls, result),
    ensures
        result is Cancelled <==> exists|k: int|
            0 <= k < calls.len() && said_stop(#[trigger] calls[k]),
{
    let replies = lemma_brought(c, config, calls, result);
    let listening = c.listener is Some;
    lemma_stop_is_last(config, replies, listening);
    law_cancelled_only_if_called_off(config, replies);
}

/// Somebody said to stop exactly where the last answer was to stop.
#[verifier::rlimit(40)]
proof fn lemma_stop_is_last(config: ExecutorConfigView, replies: Seq<ReplyView>, listening: bool)
    requires
        config.versions_fit(),
        answers_fit(config, replies),
    ensures
        (exists|k: int|
            0 <= k < calls_of(config, replies, listening).len() && said_stop(
                #[trigger] calls_of(config, replies, listening)[k],
            )) <==> replies.len() > 0 && calls_off(replies.last()),
{
    let calls = calls_of(config, replies, listening);
    if replies.len() > 0 && calls_off(replies.last()) {
        let k = lemma_last_call(config, replies, listening);
        assert(said_stop(calls[k]));
    }
    if exists|k: int| 0 <= k < calls.len() && said_stop(#[trigger] calls[k]) {
        let k = choose|k: int| 0 <= k < calls.len() && said_stop(#[trigger] calls[k]);
        let i = lemma_answer_of(config, replies, listening, k);
        lemma_stopped_at(config, replies, i);
    }
}

/// The call of the last answer.
proof fn lemma_last_call(
    config: ExecutorConfigView,
    replies: Seq<ReplyView>,
    listening: bool,
) -> (k: int)
    requires
        replies.len() > 0,
    ensures
        0 <= k < calls_of(config, replies, listening).len(),
        exists|s: ExecutorView|
            calls_of(config, replies, listening)[k] == #[trigger] deed_of(s, replies.last()),
{
    lemma_all_calls(config, replies, listening);
    let calls = calls_of(config, replies, listening);
    let n = replies.len() - 1;
    let s = after_replies(config, replies.take(n)).state;
    let d = deed_of(s, replies[n]);
    assert(calls.contains(d));
    let k = choose|k: int| 0 <= k < calls.len() && calls[k] == d;
    assert(calls[k] == deed_of(s, replies.last()));
    k
}

/// Nothing is asked behind an answer that calls a run off.
#[verifier::rlimit(40)]
proof fn lemma_stopped_at(config: ExecutorConfigView, replies: Seq<ReplyView>, i: int)
    requires
        config.versions_fit(),
        answers_fit(config, replies),
        0 <= i < replies.len(),
        calls_off(replies[i]),
    ensures
        i == replies.len() - 1,
{
    let until = replies.take(i + 1);
    lemma_prefix_fits(config, replies, i + 1);
    assert(until.last() == replies[i]);
    law_cancelled_only_if_called_off(config, until);
    lemma_end_is_last(config, replies, i + 1);
}

/// A run whose orchestrator answered with an error, other than the user's cancellation,
/// has failed; the reason is the text of that error, and the last thing told.
#[verifier::rlimit(40)]
pub proof fn law_run_fails_with_the_orchestrators_error<
    'a,
    G: PlanGenerator,
    W: WorkerRunner,
    A: PlanApprover,
    L: AutoStateListener,
    H: RunHost,
>(
    c: Company<'a, G, W, A, L, H>,
    config: ExecutorConfigView,
    calls: Seq<DeedView>,
    result: AutoResultView,
    k: int,
    e: OrchestratorErrorView,
)
    requires
        config.versions_fit(),
        c.brings(config, calls, result),
        0 <= k < calls.len(),
        calls[k] matches DeedView::Planned(_, r) && r == Err::<PlanView, _>(e),
        e != OrchestratorErrorView::Cancelled,
    ensures
        ({
            let said = match e {
                OrchestratorErrorView::EmptyWorkerPool =>
                    "worker pool is empty — orchestrator cannot pick from zero models"@,
                OrchestratorErrorView::Parse { attempts, message } =>
                    "orchestrator returned an unparseable plan after "@ + dec(attempts as nat)
                        + " attempt(s); last error: "@ + message,
                OrchestratorErrorView::Http(m) => "orchestrator HTTP error: "@ + m,
                OrchestratorErrorView::Cancelled => "orchestrator call cancelled"@,
                OrchestratorErrorView::NoToolUse(m) =>
                    "provider returned no submit_plan tool_use: "@ + m,
            };
            let reason = "orchestrator error: "@ + said;
            &&& result matches AutoResultView::Failed { reason: why, run } && why == reason
                && run.status == AutoStatus::Failed
            &&& calls.last() == DeedView::Emitted(
                AgentEventView::AutoFailed {
                    session_id: config.session_id,
                    run_id: config.auto_run_id,
                    reason,
                    last_worker_output: None,
                },
            )
        }),
{
    let replies = lemma_brought(c, config, calls, result);
    let listening = c.listener is Some;
    lemma_error_is_last(config, replies, listening, k, e);
    law_orchestrator_error_fails(config, replies, e);
    lemma_last_told(config, replies, listening);
}

/// An error of the orchestrator is the last answer.
#[verifier::rlimit(40)]
proof fn lemma_error_is_last(
    config: ExecutorConfigView,
    replies: Seq<ReplyView>,
    listening: bool,
    k: int,
    e: OrchestratorErrorView,
)
    requires
        config.versions_fit(),
        answers_fit(config, replies),
        0 <= k < calls_of(config, replies, listening).len(),
        calls_of(config, replies, listening)[k] matches DeedView::Planned(_, r) && r == Err::<
            PlanView,
            _,
        >(e),
        e != OrchestratorErrorView::Cancelled,
    ensures
        replies.len() > 0,
        replies.last() == ReplyView::Planned(Err(e)),
{
    let i = lemma_answer_of(config, replies, listening, k);
    assert(replies[i] == ReplyView::Planned(Err(e)));
    let until = replies.take(i + 1);
    lemma_prefix_fits(config, replies, i + 1);
    assert(until.last() == replies[i]);
    law_orchestrator_error_fails(config, until, e);
    lemma_end_is_last(config, replies, i + 1);
    assert(until =~= replies);
}

/// What is told last is what was told at the end.
proof fn lemma_last_told(config: ExecutorConfigView, replies: Seq<ReplyView>, listening: bool)
    ensures
        after_replies(config, replies).effects.len() > 0 ==> (after_replies(
            config,
            replies,
        ).effects.last() matches EffectView::Emit(e) ==> calls_of(config, replies, listening).len()
            > 0 && calls_of(config, replies, listening).last() == DeedView::Emitted(e)),
{
}

/// A run whose plan was rejected has failed for that.
pub proof fn law_run_fails_where_rejected<
    'a,
    G: PlanGenerator,
    W: WorkerRunner,
    A: PlanApprover,
    L: AutoStateListener,
    H: RunHost,
>(
    c: Company<'a, G, W, A, L, H>,
    config: ExecutorConfigView,
    calls: Seq<DeedView>,
    result: AutoResultView,
    k: int,
)
    requires
        config.versions_fit(),
        c.brings(config, calls, result),
        0 <= k < calls.len(),
        calls[k] matches DeedView::Answered(_, a) && a == Approval::Rejected,
    ensures
        result matches AutoResultView::Failed { reason, run } && reason == "plan rejected by user"@
            && run.status == AutoStatus::Failed,
{
    let replies = lemma_brought(c, config, calls, result);
    let listening = c.listener is Some;
    lemma_rejection_is_last(config, replies, listening, k);
    law_rejection_fails(config, replies);
}

/// A rejection is the last answer.
#[verifier::rlimit(40)]
proof fn lemma_rejection_is_last(
    config: ExecutorConfigView,
    replies: Seq<ReplyView>,
    listening: bool,
    k: int,
)
    requires
        config.versions_fit(),
        answers_fit(config, replies),
        0 <= k < calls_of(config, replies, listening).len(),
        calls_of(config, replies, listening)[k] matches DeedView::Answered(_, a) && a
            == Approval::Rejected,
    ensures
        replies.len() > 0,
        replies.last() == ReplyView::Answered(Approval::Rejected),
{
    let i = lemma_answer_of(config, replies, listening, k);
    assert(replies[i] == ReplyView::Answered(Approval::Rejected));
    let until = replies.take(i + 1);
    lemma_prefix_fits(config, replies, i + 1);
    assert(until.last() == replies[i]);
    law_rejection_fails(config, until);
    lemma_end_is_last(config, replies, i + 1);
    assert(until =~= replies);
}

/// Plans are recorded as they were handed in, behind those that the run began with, and
/// its cost is what it began with and what every worker cost, the failed ones too, up
/// to the greatest number there is.
#[verifier::rlimit(40)]
pub proof fn law_run_adds_up<
    'a,
    G: PlanGenerator,
    W: WorkerRunner,
    A: PlanApprover,
    L: AutoStateListener,
    H: RunHost,
>(
    c: Company<'a, G, W, A, L, H>,
    config: ExecutorConfigView,
    calls: Seq<DeedView>,
    result: AutoResultView,
)
    requires
        config.versions_fit(),
        c.brings(config, calls, result),
    ensures
        ({
            let before = config.initial_run();
            let total = before.cost_cents + cost_of(calls);
            &&& result.run().plan_versions == before.plan_versions + plans_given(calls)
            &&& result.run().cost_cents == if total <= u32::MAX { total } else { u32::MAX as int }
        }),
{
    let replies = lemma_brought(c, config, calls, result);
    let listening = c.listener is Some;
    lemma_adds_up(config, replies, listening);
    lemma_told(
        calls_until(config, replies, listening),
        after_replies(config, replies).effects,
        listening,
    );
    lemma_plan_calls(config, replies);
}

#[verifier::rlimit(40)]
proof fn lemma_adds_up(config: ExecutorConfigView, replies: Seq<ReplyView>, listening: bool)
    requires
        config.versions_fit(),
        answers_fit(config, replies),
    ensures
        ({
            let before = config.initial_run();
            let calls = calls_until(config, replies, listening);
            let run = after_replies(config, replies).state.run;
            let total = before.cost_cents + cost_of(calls);
            &&& run.plan_versions == before.plan_versions + plans_given(calls)
            &&& run.cost_cents == if total <= u32::MAX { total } else { u32::MAX as int }
        }),
    decreases replies.len(),
{
    let start = config.initial_run();
    let calls = calls_until(config, replies, listening);
    let run = after_replies(config, replies).state.run;
    if replies.len() == 0 {
        assert(start.plan_versions + plans_given(calls) =~= start.plan_versions);
    } else {
        let before = replies.drop_last();
        let o = after_replies(config, before);
        let a = calls_until(config, before, listening);
        lemma_last_reply(config, replies);
        lemma_adds_up(config, before, listening);
        lemma_told(a, o.effects, listening);
        lemma_step(config, replies);
        assert(calls.drop_last() =~= a + deeds_of(o.effects, listening));
        assert(calls.last() == deed_of(o.state, replies.last()));
        match replies.last() {
            ReplyView::Planned(Ok(p)) => {
                assert(run.plan_versions == o.state.run.plan_versions.push(p));
                assert(run.plan_versions =~= start.plan_versions + plans_given(calls));
            },
            ReplyView::Planned(Err(e)) => {},
            ReplyView::Polled(b) => {},
            ReplyView::Answered(b) => {},
            ReplyView::Worked(r) => {},
        }
    }
}

/// Every worker that ran is one of a plan of the run, and so is every plan that the user
/// was asked about.
pub proof fn law_only_planned_workers_run<
    'a,
    G: PlanGenerator,
    W: WorkerRunner,
    A: PlanApprover,
    L: AutoStateListener,
    H: RunHost,
>(
    c: Company<'a, G, W, A, L, H>,
    config: ExecutorConfigView,
    calls: Seq<DeedView>,
    result: AutoResultView,
    k: int,
)
    requires
        config.versions_fit(),
        c.brings(config, calls, result),
        0 <= k < calls.len(),
    ensures
        calls[k] matches DeedView::Worked(w, _, _) ==> exists|p: PlanView|
            #[trigger] result.run().plan_versions.contains(p) && p.workers.contains(w),
        calls[k] matches DeedView::Answered(p, _) ==> result.run().plan_versions.contains(p),
{
    let replies = lemma_brought(c, config, calls, result);
    let listening = c.listener is Some;
    lemma_plan_calls(config, replies);
    if calls[k] is Worked || calls[k] is Answered {
        lemma_of_a_plan(config, replies, listening, k);
    }
}

#[verifier::rlimit(40)]
proof fn lemma_of_a_plan(
    config: ExecutorConfigView,
    replies: Seq<ReplyView>,
    listening: bool,
    k: int,
)
    requires
        config.versions_fit(),
        answers_fit(config, replies),
        0 <= k < calls_of(config, replies, listening).len(),
        calls_of(config, replies, listening)[k] is Worked || calls_of(
            config,
            replies,
            listening,
        )[k] is Answered,
    ensures
        ({
            let plans = after_replies(config, replies).state.run.plan_versions;
            &&& calls_of(config, replies, listening)[k] matches DeedView::Worked(w, _, _)
                ==> exists|p: PlanView| #[trigger] plans.contains(p) && p.workers.contains(w)
            &&& calls_of(config, replies, listening)[k] matches DeedView::Answered(p, _)
                ==> plans.contains(p)
        }),
{
    let i = lemma_answer_of(config, replies, listening, k);
    let o = after_replies(config, replies.take(i));
    let s = o.state;
    let plans = after_replies(config, replies).state.run.plan_versions;
    lemma_prefix_fits(config, replies, i);
    lemma_start_at(config, replies.take(i));
    lemma_plan_calls(config, replies.take(i));
    assert(o.takes(replies[i]));
    assert(s.run.plan_versions.contains(s.plan));
    lemma_plans_kept(config, replies, i);
    let n = choose|n: int| 0 <= n < s.run.plan_versions.len() && s.run.plan_versions[n] == s.plan;
    assert(plans[n] == s.plan);
    assert(plans.contains(s.plan));
    if replies[i] is Worked {
        assert(s.plan.workers.contains(s.plan.workers[s.next]));
    }
}

#[verifier::rlimit(40)]
proof fn lemma_plans_kept(config: ExecutorConfigView, replies: Seq<ReplyView>, i: int)
    requires
        config.versions_fit(),
        answers_fit(config, replies),
        0 <= i <= replies.len(),
    ensures
        after_replies(config, replies.take(i)).state.run.plan_versions.is_prefix_of(
            after_replies(config, replies).state.run.plan_versions,
        ),
    decreases replies.len() - i,
{
    if i == replies.len() {
        assert(replies.take(i) =~= replies);
    } else {
        let next = replies.take(i + 1);
        lemma_plans_kept(config, replies, i + 1);
        lemma_prefix_fits(config, replies, i + 1);
        lemma_step(config, next);
        assert(next.drop_last() =~= replies.take(i));
        let a = after_replies(config, replies.take(i)).state.run.plan_versions;
        let b = after_replies(config, next).state.run.plan_versions;
        assert(next.last() == replies[i]);
        match next.last() {
            ReplyView::Planned(Ok(p)) => {
                assert(b == a.push(p));
            },
            _ => {
                assert(b == a);
            },
        }
        assert(a.is_prefix_of(b));
    }
}

/// A run that is done ends with what its last worker said, or with the plain word that
/// it is complete where its plan had no worker; that worker completed.
#[verifier::rlimit(40)]
pub proof fn law_run_done_says<
    'a,
    G: PlanGenerator,
    W: WorkerRunner,
    A: PlanApprover,
    L: AutoStateListener,
    H: RunHost,
>(
    c: Company<'a, G, W, A, L, H>,
    config: ExecutorConfigView,
    calls: Seq<DeedView>,
    summary: Seq<char>,
    run: AutoRunView,
)
    requires
        config.versions_fit(),
        c.brings(config, calls, AutoResultView::Done { summary, run }),
    ensures
        summary == "Auto task complete."@ || exists|k: int|
            {
                &&& 0 <= k < calls.len()
                &&& (#[trigger] calls[k]) matches DeedView::Worked(_, _, r)
                &&& r.status == WorkerStatusView::Completed
                &&& r.summary == summary
                &&& run.worker_results.last() == r
            },
        calls.last() == DeedView::Emitted(
            AgentEventView::AutoDone {
                session_id: config.session_id,
                run_id: config.auto_run_id,
                summary,
                total_cost_cents: run.cost_cents,
            },
        ),
{
    let result = AutoResultView::Done { summary, run };
    let replies = lemma_brought(c, config, calls, result);
    let listening = c.listener is Some;
    lemma_all_calls(config, replies, listening);
    law_done_only_at_the_end(config, replies, summary, run);
    lemma_last_told(config, replies, listening);
    lemma_done_told(config, replies);
    if summary != "Auto task complete."@ {
        let n = replies.len() - 1;
        assert(replies[n] == replies.last());
        let d = deed_of(after_replies(config, replies.take(n)).state, replies[n]);
        assert(calls.contains(d));
        let k = choose|k: int| 0 <= k < calls.len() && calls[k] == d;
        assert(calls[k] is Worked);
    }
}

proof fn lemma_done_told(config: ExecutorConfigView, replies: Seq<ReplyView>)
    requires
        config.versions_fit(),
        answers_fit(config, replies),
        after_replies(config, replies).action is Finish,
    ensures
        after_replies(config, replies).effects.len() > 0,
{
    lemma_plan_calls(config, replies);
}

} // verus!
