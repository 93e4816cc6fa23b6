//! Those whom a run asks and tells, and the switchboard through which it does so.

use vstd::prelude::*;
use crate::auto::executor::{
    reply_view, Approval, AutoStateListener, Effect, EffectView, PlanApprover, PlanGenerator,
    RunHost, WorkerRunner,
};
use crate::auto::orchestrator::{
    OrchestratorError, OrchestratorErrorView, OrchestratorRequest, OrchestratorRequestView,
};
use crate::auto::types::{
    AutoRun, AutoRunView, Plan, PlanView, WorkerResult, WorkerResultView, WorkerSpec,
    WorkerSpecView,
};
use crate::text::deep;
use crate::types::{AgentEvent, AgentEventView};

verus! {

/// Those whom a run asks, and those whom it tells.
pub struct Company<'a, G, W, A, L, H> {
    pub host: &'a H,
    pub plan_gen: &'a G,
    pub worker_runner: &'a W,
    pub approver: &'a A,
    pub listener: &'a Option<L>,
}

/// The host said whether the user has cancelled.
pub open spec fn said_cancelled<H: RunHost>(host: &H, cancelled: bool) -> bool {
    call_ensures(H::is_cancelled, (host,), cancelled)
}

/// The orchestrator gave this answer to a request.
pub open spec fn said_plan<G: PlanGenerator>(
    plan_gen: &G,
    request: OrchestratorRequestView,
    reply: Result<PlanView, OrchestratorErrorView>,
) -> bool {
    exists|req: OrchestratorRequest<'_>, r: Result<Plan, OrchestratorError>|
        {
            &&& req@ == request
            &&& reply_view(r) == reply
            &&& #[trigger] call_ensures(G::generate, (plan_gen, &req), r)
        }
}

/// The user gave this answer to a plan.
pub open spec fn said_approval<A: PlanApprover>(approver: &A, plan: PlanView, reply: Approval) -> bool {
    exists|p: Plan| p@ == plan && #[trigger] call_ensures(A::approve, (approver, &p), reply)
}

/// A worker, shown what was done before it, came to this result.
pub open spec fn said_result<W: WorkerRunner>(
    worker_runner: &W,
    worker: WorkerSpecView,
    prior: Seq<WorkerResultView>,
    reply: WorkerResultView,
) -> bool {
    exists|w: WorkerSpec, before: &[WorkerResult], r: WorkerResult|
        {
            &&& w@ == worker
            &&& deep(before@) == prior
            &&& r@ == reply
            &&& #[trigger] call_ensures(W::run, (worker_runner, &w, before), r)
        }
}

/// What a step tells was passed on: an event to the host, the run to the listener
/// where there is one.
pub open spec fn passed_on<L: AutoStateListener, H: RunHost>(
    host: &H,
    listener: &Option<L>,
    effect: EffectView,
) -> bool {
    match effect {
        EffectView::Emit(e) => exists|event: AgentEvent|
            event@ == e && #[trigger] call_ensures(H::emit, (host, event), ()),
        EffectView::Notify(r) => *listener matches Some(l) ==> exists|run: AutoRun|
            run@ == r && #[trigger] call_ensures(L::on_state, (&l, &run), ()),
    }
}

/// Everything that a step tells was passed on.
pub open spec fn all_passed_on<L: AutoStateListener, H: RunHost>(
    host: &H,
    listener: &Option<L>,
    effects: Seq<EffectView>,
) -> bool {
    forall|i: int| 0 <= i < effects.len() ==> passed_on(host, listener, #[trigger] effects[i])
}

/// One call to one of the company: what was said to them, and what they answered.
pub enum DeedView {
    Emitted(AgentEventView),
    Shown(AutoRunView),
    Polled(bool),
    Planned(OrchestratorRequestView, Result<PlanView, OrchestratorErrorView>),
    Answered(PlanView, Approval),
    Worked(WorkerSpecView, Seq<WorkerResultView>, WorkerResultView),
}

/// The calls by which effects are passed on: one for each, in their order. Where
/// nobody listens, the run is shown to nobody.
pub open spec fn deeds_of(effects: Seq<EffectView>, listening: bool) -> Seq<DeedView>
    decreases effects.len(),
{
    if effects.len() == 0 {
        Seq::empty()
    } else {
        let rest = deeds_of(effects.drop_last(), listening);
        match effects.last() {
            EffectView::Emit(e) => rest.push(DeedView::Emitted(e)),
            EffectView::Notify(r) => if listening { rest.push(DeedView::Shown(r)) } else { rest },
        }
    }
}

/// The company, and the list of the calls that were made to it. Whoever holds a
/// switchboard reaches the company through it alone, so that the list is complete.
pub struct Switchboard<'a, G, W, A, L, H> {
    company: Company<'a, G, W, A, L, H>,
    calls: Ghost<Seq<DeedView>>,
}

impl<'a, G: PlanGenerator, W: WorkerRunner, A: PlanApprover, L: AutoStateListener, H: RunHost> Switchboard<
    'a,
    G,
    W,
    A,
    L,
    H,
> {
    /// Those who are reached.
    pub closed spec fn company(&self) -> Company<'a, G, W, A, L, H> {
        self.company
    }

    /// The calls so far, in the order in which they were made.
    pub closed spec fn calls(&self) -> Seq<DeedView> {
        self.calls@
    }

    /// Whether anybody is shown the run.
    pub open spec fn listening(&self) -> bool {
        self.company().listener is Some
    }

    /// A switchboard that was not used yet.
    pub fn new(company: Company<'a, G, W, A, L, H>) -> (r: Self)
        ensures
            r.company() == company,
            r.calls() == Seq::<DeedView>::empty(),
    {
        Switchboard { company, calls: Ghost(Seq::empty()) }
    }

    /// Asks the host whether the user has cancelled.
    pub fn poll(&mut self) -> (r: bool)
        ensures
            final(self).company() == old(self).company(),
            final(self).calls() == old(self).calls().push(DeedView::Polled(r)),
            said_cancelled(old(self).company().host, r),
    {
        let r = self.company.host.is_cancelled();
        proof {
            self.calls@ = self.calls@.push(DeedView::Polled(r));
        }
        r
    }

    /// Asks the orchestrator for a plan.
    pub fn plan(&mut self, req: &OrchestratorRequest<'_>) -> (r: Result<Plan, OrchestratorError>)
        ensures
            final(self).company() == old(self).company(),
            final(self).calls() == old(self).calls().push(DeedView::Planned(req@, reply_view(r))),
            said_plan(old(self).company().plan_gen, req@, reply_view(r)),
    {
        let r = self.company.plan_gen.generate(req);
        proof {
            self.calls@ = self.calls@.push(DeedView::Planned(req@, reply_view(r)));
        }
        r
    }

    /// Puts a plan before the user.
    pub fn approve(&mut self, plan: &Plan) -> (r: Approval)
        ensures
            final(self).company() == old(self).company(),
            final(self).calls() == old(self).calls().push(DeedView::Answered(plan@, r)),
            said_approval(old(self).company().approver, plan@, r),
    {
        let r = self.company.approver.approve(plan);
        proof {
            self.calls@ = self.calls@.push(DeedView::Answered(plan@, r));
        }
        r
    }

    /// Has a worker do its part.
    pub fn work(&mut self, worker: &WorkerSpec, prior: &[WorkerResult]) -> (r: WorkerResult)
        ensures
            final(self).company() == old(self).company(),
            final(self).calls() == old(self).calls().push(
                DeedView::Worked(worker@, deep(prior@), r@),
            ),
            said_result(old(self).company().worker_runner, worker@, deep(prior@), r@),
    {
        let r = self.company.worker_runner.run(worker, prior);
        proof {
            self.calls@ = self.calls@.push(DeedView::Worked(worker@, deep(prior@), r@));
        }
        r
    }

    /// Passes on one thing that a step tells.
    fn tell(&mut self, effect: Effect)
        ensures
            final(self).company() == old(self).company(),
            final(self).calls() == old(self).calls() + deeds_of(
                seq![effect@],
                old(self).listening(),
            ),
            passed_on(old(self).company().host, old(self).company().listener, effect@),
    {
        let ghost one = seq![effect@];
        let ghost listening = self.listening();
        proof {
            assert(one.drop_last() =~= Seq::<EffectView>::empty());
            assert(deeds_of(one.drop_last(), listening) =~= Seq::<DeedView>::empty());
            assert(one.last() == effect@);
        }
        match effect {
            Effect::Emit(event) => {
                let ghost e = event@;
                self.company.host.emit(event);
                proof {
                    self.calls@ = self.calls@.push(DeedView::Emitted(e));
                }
            },
            Effect::Notify(run) => {
                if let Some(l) = self.company.listener {
                    l.on_state(&run);
                    proof {
                        self.calls@ = self.calls@.push(DeedView::Shown(run@));
                    }
                }
            },
        }
        assert(self.calls() =~= old(self).calls() + deeds_of(one, listening));
    }

    /// Passes on what a step tells: each thing once, in order.
    pub fn deliver(&mut self, effects: Vec<Effect>)
        ensures
            final(self).company() == old(self).company(),
            final(self).calls() == old(self).calls() + deeds_of(
                deep(effects@),
                old(self).listening(),
            ),
            all_passed_on(
                old(self).company().host,
                old(self).company().listener,
                deep(effects@),
            ),
    {
        let ghost all = deep(effects@);
        let ghost before = self.calls();
        let ghost listening = self.listening();
        let ghost company = self.company();
        assert(before + deeds_of(all.take(0), listening) =~= before);
        for effect in it: effects
            invariant
                all == deep(it.seq()),
                company == self.company(),
                company == old(self).company(),
                listening == (company.listener is Some),
                self.calls() == before + deeds_of(all.take(it.index() as int), listening),
                forall|i: int|
                    0 <= i < it.index() ==> passed_on(
                        company.host,
                        company.listener,
                        #[trigger] all[i],
                    ),
        {
            let ghost i = it.index() as int;
            let ghost here = self.calls();
            assert(all[i] == effect@);
            self.tell(effect);
            proof {
                let next = all.take(i + 1);
                assert(next.drop_last() =~= all.take(i));
                assert(next.last() == all[i]);
                let one = seq![all[i]];
                assert(one.drop_last() =~= Seq::<EffectView>::empty());
                assert(deeds_of(one.drop_last(), listening) =~= Seq::<DeedView>::empty());
                assert(self.calls() =~= before + deeds_of(next, listening));
            }
        }
        assert(all.take(all.len() as int) =~= all);
    }
}

} // verus!
