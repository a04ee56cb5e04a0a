//! Steps of the engine: a step is launched, and later collected or cancelled.
//!
//! While a step is pending it borrows the engine, so there is never a second one.  Nothing is
//! committed before the work is done and its output is what was asked for.

use crate::sched_state::{ReqId, TokenId};
use crate::scheduler::{BatchPlan, Scheduler, SchedulerFault};
use vstd::prelude::*;

verus! {

/// What a step produced for one request.
#[derive(Copy, Clone, Debug, PartialEq, Eq, Structural)]
pub struct StepOutput {
    pub req_id: ReqId,
    pub new_token: TokenId,
    pub finished: bool,
}

/// A failure of the backend.
#[derive(Debug)]
pub struct StepFault {
    pub reason: String,
}

/// Work of the backend that was launched for one plan.
pub trait StepTicket: Send {
    /// The work may end with `answer`: any answer, unless a backend says more of its own
    /// tickets.
    open spec fn may_return(&self, answer: Result<Vec<(ReqId, TokenId)>, StepFault>) -> bool {
        true
    }

    /// Waits for completion and returns one token per decoding request, and none for prompts.
    fn collect(self: Box<Self>) -> (answer: Result<Vec<(ReqId, TokenId)>, StepFault>)
        ensures
            self.may_return(answer),
    ;

    /// The ticket may answer a cancellation with `answer`: any answer, unless a backend says
    /// more of its own tickets.
    open spec fn may_answer(&self, answer: Result<(), StepFault>) -> bool {
        true
    }

    /// Cancels the work, or waits for it: its resources can be used again afterwards.
    fn cancel(self: Box<Self>) -> (answer: Result<(), StepFault>)
        ensures
            self.may_answer(answer),
    ;
}

/// The backend.
pub trait StepExecutor: Send {
    /// The backend may accept a plan, and hand out `ticket` for its work: any plan and any
    /// ticket, unless the backend says more.  A plan that was accepted has a ticket.
    open spec fn may_accept(
        &self,
        plan: crate::scheduler::PlanModel,
        ticket: Option<Box<dyn StepTicket>>,
    ) -> bool {
        true
    }

    /// The backend may refuse a plan with `fault`.
    open spec fn may_refuse(&self, plan: crate::scheduler::PlanModel, fault: StepFault) -> bool {
        true
    }

    /// The plans that the backend was handed so far, where it keeps account of them.
    open spec fn handed(&self) -> Option<Seq<crate::scheduler::PlanModel>> {
        None
    }

    /// Launches the work of a plan.  Afterwards the backend may answer nothing that it could
    /// not answer before.
    fn launch(&mut self, plan: &BatchPlan) -> (answer: Result<Box<dyn StepTicket>, StepFault>)
        ensures
            match answer {
                Ok(_) => old(self).may_accept(plan@, answer.ok()),
                Err(fault) => old(self).may_refuse(plan@, fault),
            },
            forall|p: crate::scheduler::PlanModel, t: Option<Box<dyn StepTicket>>| #[trigger]
                final(self).may_accept(p, t) ==> old(self).may_accept(p, t),
            forall|p: crate::scheduler::PlanModel, f: StepFault| #[trigger]
                final(self).may_refuse(p, f) ==> old(self).may_refuse(p, f),
            old(self).handed() matches Some(plans) ==> final(self).handed() == Some(
                plans.push(plan@),
            ),
    ;
}

#[derive(Copy, Clone, Debug, PartialEq, Eq, Structural)]
pub enum OutputFault {
    /// A step without requests returned tokens.
    IdleReturnedTokens,
    /// A step over prompts returned tokens.
    PrefillReturnedTokens,
    /// The tokens are not those of the scheduled requests in their order.
    DecodeMismatch,
}

#[derive(Debug)]
pub enum EngineFault {
    /// There is work, and no backend to do it.
    ExecutorMissing,
    /// The pending step holds no plan, or no work for it.
    AlreadyDrained,
    Executor(StepFault),
    Output(OutputFault),
    Scheduler(SchedulerFault),
}

pub struct Engine {
    pub scheduler: Scheduler,
    pub executor: Option<Box<dyn StepExecutor>>,
}

/// A launched step.
#[must_use]
pub struct PendingStep<'e> {
    pub engine: &'e mut Engine,
    pub plan: Option<BatchPlan>,
    pub ticket: Option<Box<dyn StepTicket>>,
}

/// What is wrong with the output of a step.
pub open spec fn output_fault(
    plan: crate::scheduler::PlanModel,
    out: Seq<(ReqId, TokenId)>,
) -> Option<OutputFault> {
    match plan {
        crate::scheduler::PlanModel::Idle => if out.len() > 0 {
            Some(OutputFault::IdleReturnedTokens)
        } else {
            None
        },
        crate::scheduler::PlanModel::Prefill(_) => if out.len() > 0 {
            Some(OutputFault::PrefillReturnedTokens)
        } else {
            None
        },
        crate::scheduler::PlanModel::Decode(ids) => if crate::scheduler::output_ids(out) == ids {
            None
        } else {
            Some(OutputFault::DecodeMismatch)
        },
    }
}

/// Why the output of a step cannot be committed.
pub open spec fn settle_fault(
    m: Seq<crate::sched_state::RequestModel>,
    plan: crate::scheduler::PlanModel,
    out: Seq<(ReqId, TokenId)>,
) -> Option<EngineFault> {
    match output_fault(plan, out) {
        Some(f) => Some(EngineFault::Output(f)),
        None => {
            let refused = match plan {
                crate::scheduler::PlanModel::Idle => None,
                crate::scheduler::PlanModel::Prefill(ids) => crate::scheduler::batch_fault(
                    m,
                    ids,
                    ids.len() as int,
                    crate::sched_state::ReqState::Queued,
                ),
                crate::scheduler::PlanModel::Decode(ids) => crate::scheduler::batch_fault(
                    m,
                    ids,
                    ids.len() as int,
                    crate::sched_state::ReqState::Decoding,
                ),
            };
            match refused {
                Some(f) => Some(EngineFault::Scheduler(f)),
                None => None,
            }
        },
    }
}

/// The requests after the output of a step has been committed.
pub open spec fn settled(
    m: Seq<crate::sched_state::RequestModel>,
    plan: crate::scheduler::PlanModel,
    out: Seq<(ReqId, TokenId)>,
) -> Seq<crate::sched_state::RequestModel> {
    match plan {
        crate::scheduler::PlanModel::Idle => m,
        crate::scheduler::PlanModel::Prefill(ids) => crate::scheduler::prefilled(m, ids),
        crate::scheduler::PlanModel::Decode(_) => crate::scheduler::decoded(m, out),
    }
}

/// What the caller is told of each token, given the requests after the commit.
pub open spec fn outputs_of(
    after: Seq<crate::sched_state::RequestModel>,
    out: Seq<(ReqId, TokenId)>,
) -> Seq<StepOutput> {
    Seq::new(
        out.len(),
        |k: int|
            StepOutput {
                req_id: out[k].0,
                new_token: out[k].1,
                finished: !after[crate::scheduler::position_of(after, out[k].0)->0].alive(),
            },
    )
}

/// `position_of` looks at the identifiers alone.
proof fn lemma_position_kept(
    a: Seq<crate::sched_state::RequestModel>,
    b: Seq<crate::sched_state::RequestModel>,
    id: ReqId,
)
    requires
        a.len() == b.len(),
        forall|i: int| 0 <= i < a.len() ==> (#[trigger] a[i]).id == b[i].id,
    ensures
        crate::scheduler::position_of(a, id) == crate::scheduler::position_of(b, id),
    decreases a.len(),
{
    if a.len() > 0 {
        assert(a[a.len() - 1].id == b[a.len() - 1].id);
        let ra = a.drop_last();
        let rb = b.drop_last();
        assert forall|i: int| 0 <= i < ra.len() implies (#[trigger] ra[i]).id == rb[i].id by {
            assert(a[i].id == b[i].id);
        }
        lemma_position_kept(ra, rb, id);
    }
}

/// What launching a step leaves of the backend: all of it where there is nothing to do, and
/// otherwise one that was handed the plan once, and may answer nothing that it could not answer
/// before.
pub open spec fn backend_after(
    before: Option<Box<dyn StepExecutor>>,
    plan: crate::scheduler::PlanModel,
    after: Option<Box<dyn StepExecutor>>,
) -> bool {
    match before {
        Some(b) if !(plan is Idle) => {
            &&& after is Some
            &&& forall|p: crate::scheduler::PlanModel, t: Option<Box<dyn StepTicket>>| #[trigger]
                after->0.may_accept(p, t) ==> b.may_accept(p, t)
            &&& forall|p: crate::scheduler::PlanModel, f: StepFault| #[trigger]
                after->0.may_refuse(p, f) ==> b.may_refuse(p, f)
            &&& b.handed() matches Some(plans) ==> after->0.handed() == Some(plans.push(plan))
        },
        _ => after == before,
    }
}

impl Default for Engine {
    fn default() -> (e: Engine)
        ensures
            e.wf(),
            e.scheduler@.len() == 0,
            e.executor is None,
    {
        Engine::new()
    }
}

impl Engine {
    pub open spec fn wf(&self) -> bool {
        self.scheduler.wf()
    }

    /// An engine without a backend.  It can be idle; any work fails until there is a backend.
    pub fn new() -> (e: Engine)
        ensures
            e.wf(),
            e.scheduler@.len() == 0,
            e.executor is None,
    {
        Engine { scheduler: Scheduler::new(), executor: None }
    }

    /// An engine without requests, whose steps `executor` runs.
    pub fn with_executor<E: StepExecutor + 'static>(executor: E) -> (e: Engine)
        ensures
            e.wf(),
            e.scheduler@.len() == 0,
            e.executor == Some::<Box<dyn StepExecutor>>(Box::new(executor)),
    {
        Engine { scheduler: Scheduler::new(), executor: Some(Box::new(executor)) }
    }

    /// Some request is neither finished nor aborted.
    pub fn has_pending_work(&self) -> (yes: bool)
        ensures
            yes == (crate::scheduler::alive_count(self.scheduler@) > 0),
    {
        self.scheduler.num_alive() > 0
    }

    /// Plans a step and hands the plan to the backend, whose answer decides; an idle step needs
    /// no backend.  The requests stay as they are.
    pub fn step_launch<'e>(&'e mut self) -> (r: Result<PendingStep<'e>, EngineFault>)
        ensures
            match r {
                Ok(p) => {
                    &&& p.engine.scheduler == old(self).scheduler
                    &&& backend_after(old(self).executor, p.plan->0@, p.engine.executor)
                    &&& *final(self) == *final(p.engine)
                    &&& p.plan is Some
                    &&& p.plan->0@ == crate::scheduler::plan_of(old(self).scheduler@)
                    &&& match p.ticket {
                        None => p.plan->0@ is Idle,
                        Some(_) => {
                            &&& !(p.plan->0@ is Idle)
                            &&& old(self).executor is Some
                            &&& old(self).executor->0.may_accept(p.plan->0@, p.ticket)
                        },
                    }
                },
                Err(f) => {
                    &&& final(self).scheduler == old(self).scheduler
                    &&& backend_after(
                        old(self).executor,
                        crate::scheduler::plan_of(old(self).scheduler@),
                        final(self).executor,
                    )
                    &&& !(crate::scheduler::plan_of(old(self).scheduler@) is Idle)
                    &&& match old(self).executor {
                        None => f is ExecutorMissing,
                        Some(executor) => f is Executor && executor.may_refuse(
                            crate::scheduler::plan_of(old(self).scheduler@),
                            f->Executor_0,
                        ),
                    }
                },
            },
            old(self).executor is None && !(crate::scheduler::plan_of(
                old(self).scheduler@,
            ) is Idle) ==> r is Err,
    {
        let plan = self.scheduler.schedule();
        if let BatchPlan::Idle = plan {
            return Ok(PendingStep { engine: self, plan: Some(plan), ticket: None });
        }
        let launched = match &mut self.executor {
            None => {
                return Err(EngineFault::ExecutorMissing);
            },
            Some(executor) => executor.launch(&plan),
        };
        match launched {
            Err(f) => Err(EngineFault::Executor(f)),
            accepted => Ok(
                PendingStep { engine: self, plan: Some(plan), ticket: accepted.ok() },
            ),
        }
    }

    /// Commits what a step did, if its output is that of the plan.
    pub fn settle(&mut self, plan: &BatchPlan, out: Vec<(ReqId, TokenId)>) -> (r: Result<
        Vec<StepOutput>,
        EngineFault,
    >)
        requires
            old(self).wf(),
        ensures
            final(self).wf(),
            final(self).executor == old(self).executor,
            match settle_fault(old(self).scheduler@, plan@, out@) {
                Some(f) => r == Err::<Vec<StepOutput>, EngineFault>(f) && final(self).scheduler@
                    == old(self).scheduler@,
                None => {
                    &&& r is Ok
                    &&& final(self).scheduler@ == settled(old(self).scheduler@, plan@, out@)
                    &&& r->Ok_0@ == outputs_of(final(self).scheduler@, out@)
                },
            },
    {
        match plan {
            BatchPlan::Idle => {
                if out.len() > 0 {
                    return Err(EngineFault::Output(OutputFault::IdleReturnedTokens));
                }
                Ok(Vec::new())
            },
            BatchPlan::Prefill { req_ids } => {
                if out.len() > 0 {
                    return Err(EngineFault::Output(OutputFault::PrefillReturnedTokens));
                }
                match self.scheduler.commit_prefill(req_ids.as_slice()) {
                    Ok(()) => Ok(Vec::new()),
                    Err(f) => Err(EngineFault::Scheduler(f)),
                }
            },
            BatchPlan::Decode { req_ids } => {
                if !ids_match(&out, req_ids) {
                    return Err(EngineFault::Output(OutputFault::DecodeMismatch));
                }
                let ghost before = self.scheduler@;
                match self.scheduler.commit_decode(out.as_slice()) {
                    Ok(()) => {},
                    Err(f) => {
                        return Err(EngineFault::Scheduler(f));
                    },
                }
                let mut outputs: Vec<StepOutput> = Vec::new();
                let mut k: usize = 0;
                while k < out.len()
                    invariant
                        k <= out@.len(),
                        self.scheduler@ == crate::scheduler::decoded(before, out@),
                        crate::scheduler::output_ids(out@) == req_ids@,
                        crate::scheduler::batch_fault(
                            before,
                            req_ids@,
                            req_ids@.len() as int,
                            crate::sched_state::ReqState::Decoding,
                        ) is None,
                        outputs@ == outputs_of(self.scheduler@, out@).take(k as int),
                    decreases out@.len() - k,
                {
                    let req_id = out[k].0;
                    proof {
                        assert(req_ids@[k as int] == req_id);
                        crate::scheduler::lemma_no_fault(
                            before,
                            req_ids@,
                            req_ids@.len() as int,
                            crate::sched_state::ReqState::Decoding,
                            k as int,
                        );
                        lemma_position_kept(self.scheduler@, before, req_id);
                    }
                    match self.scheduler.request(req_id) {
                        Some(request) => {
                            outputs.push(
                                StepOutput {
                                    req_id,
                                    new_token: out[k].1,
                                    finished: !request.is_alive(),
                                },
                            );
                            assert(outputs@ =~= outputs_of(self.scheduler@, out@).take(k + 1));
                        },
                        None => {},
                    }
                    k += 1;
                }
                assert(outputs@ =~= outputs_of(self.scheduler@, out@));
                Ok(outputs)
            },
        }
    }
}

fn ids_match(out: &Vec<(ReqId, TokenId)>, ids: &Vec<ReqId>) -> (yes: bool)
    ensures
        yes == (crate::scheduler::output_ids(out@) == ids@),
{
    let ghost got = crate::scheduler::output_ids(out@);
    if out.len() != ids.len() {
        assert(got.len() != ids@.len());
        return false;
    }
    let mut k: usize = 0;
    while k < out.len()
        invariant
            k <= out@.len() == ids@.len(),
            got == crate::scheduler::output_ids(out@),
            forall|j: int| 0 <= j < k ==> #[trigger] got[j] == ids@[j],
        decreases out@.len() - k,
    {
        if out[k].0.0 != ids[k].0 {
            assert(got[k as int] != ids@[k as int]);
            return false;
        }
        assert(got[k as int] == ids@[k as int]);
        k += 1;
    }
    assert(got =~= ids@);
    true
}

/// What collecting a step comes to, given what its work ended with: a failure changes nothing,
/// output that is not that of the plan changes nothing, other output is committed.
pub open spec fn collected(
    r: Result<Vec<StepOutput>, EngineFault>,
    before: Seq<crate::sched_state::RequestModel>,
    after: Seq<crate::sched_state::RequestModel>,
    plan: crate::scheduler::PlanModel,
    answer: Result<Vec<(ReqId, TokenId)>, StepFault>,
) -> bool {
    match answer {
        Err(f) => r == Err::<Vec<StepOutput>, EngineFault>(EngineFault::Executor(f)) && after
            == before,
        Ok(out) => match settle_fault(before, plan, out@) {
            Some(f) => r == Err::<Vec<StepOutput>, EngineFault>(f) && after == before,
            None => {
                &&& r is Ok
                &&& after == settled(before, plan, out@)
                &&& r->Ok_0@ == outputs_of(after, out@)
            },
        },
    }
}

/// What giving a step up comes to, given the answer of its work.
pub open spec fn cancelled(answer: Result<(), StepFault>) -> Result<(), EngineFault> {
    match answer {
        Ok(()) => Ok(()),
        Err(f) => Err(EngineFault::Executor(f)),
    }
}

/// Hands the answer to a cancellation on: a failure of the backend is one of the engine.
pub fn settle_cancel(answer: Result<(), StepFault>) -> (r: Result<(), EngineFault>)
    ensures
        r == cancelled(answer),
{
    match answer {
        Ok(()) => Ok(()),
        Err(f) => Err(EngineFault::Executor(f)),
    }
}

impl<'e> PendingStep<'e> {
    /// What was launched, until it is collected.
    pub fn plan(&self) -> (p: Option<&BatchPlan>)
        ensures
            match self.plan {
                Some(plan) => p == Some(&plan),
                None => p is None,
            },
    {
        self.plan.as_ref()
    }

    /// Waits for the work, and commits what it ended with.  Where the work failed, or its output
    /// is not that of the plan, no request changes.
    pub fn collect(self) -> (r: Result<Vec<StepOutput>, EngineFault>)
        requires
            self.engine.wf(),
        ensures
            final(self.engine).wf(),
            final(self.engine).executor == old(self.engine).executor,
            match self.plan {
                None => r == Err::<Vec<StepOutput>, EngineFault>(EngineFault::AlreadyDrained)
                    && final(self.engine).scheduler@ == old(self.engine).scheduler@,
                Some(plan) => match self.ticket {
                    Some(ticket) => exists|
                        answer: Result<Vec<(ReqId, TokenId)>, StepFault>,
                    |
                        {
                            &&& #[trigger] ticket.may_return(answer)
                            &&& collected(
                                r,
                                old(self.engine).scheduler@,
                                final(self.engine).scheduler@,
                                plan@,
                                answer,
                            )
                        },
                    None => if plan@ is Idle {
                        r is Ok && r->Ok_0@.len() == 0 && final(self.engine).scheduler@ == old(
                            self.engine,
                        ).scheduler@
                    } else {
                        r == Err::<Vec<StepOutput>, EngineFault>(EngineFault::AlreadyDrained)
                            && final(self.engine).scheduler@ == old(self.engine).scheduler@
                    },
                },
            },
    {
        let plan = match self.plan {
            Some(plan) => plan,
            None => {
                return Err(EngineFault::AlreadyDrained);
            },
        };
        let out = match self.ticket {
            Some(ticket) => match ticket.collect() {
                Ok(out) => out,
                Err(f) => {
                    return Err(EngineFault::Executor(f));
                },
            },
            None => {
                if let BatchPlan::Idle = plan {
                    Vec::new()
                } else {
                    return Err(EngineFault::AlreadyDrained);
                }
            },
        };
        self.engine.settle(&plan, out)
    }

    /// Gives the step up.  Where work was launched, the work is cancelled and its answer
    /// decides; otherwise there is nothing that could fail.  No request changes.
    pub fn cancel(self) -> (r: Result<(), EngineFault>)
        ensures
            *final(self.engine) == *old(self.engine),
            match self.ticket {
                Some(ticket) => exists|answer: Result<(), StepFault>|
                    {
                        &&& #[trigger] ticket.may_answer(answer)
                        &&& r == cancelled(answer)
                    },
                None => r == Ok::<(), EngineFault>(()),
            },
    {
        match self.ticket {
            Some(ticket) => settle_cancel(ticket.cancel()),
            None => Ok(()),
        }
    }
}

/// A step that the scheduler planned is never refused by it: only its output can be wrong.
pub proof fn law_planned_step_is_accepted(
    m: Seq<crate::sched_state::RequestModel>,
    out: Seq<(ReqId, TokenId)>,
)
    requires
        crate::scheduler::queue_wf(m),
        output_fault(crate::scheduler::plan_of(m), out) is None,
    ensures
        settle_fault(m, crate::scheduler::plan_of(m), out) is None,
{
    crate::scheduler::lemma_planned_batch(m, crate::sched_state::ReqState::Queued);
    crate::scheduler::lemma_planned_batch(m, crate::sched_state::ReqState::Decoding);
}

/// Committing what was planned keeps the queue well formed and leaves strictly less to do; an
/// engine whose steps succeed therefore comes to rest.
pub proof fn law_committed_step_makes_progress(
    m: Seq<crate::sched_state::RequestModel>,
    out: Seq<(ReqId, TokenId)>,
)
    requires
        crate::scheduler::queue_wf(m),
        output_fault(crate::scheduler::plan_of(m), out) is None,
        !(crate::scheduler::plan_of(m) is Idle),
    ensures
        crate::scheduler::work_left(settled(m, crate::scheduler::plan_of(m), out))
            < crate::scheduler::work_left(m),
{
    match crate::scheduler::plan_of(m) {
        crate::scheduler::PlanModel::Prefill(ids) => {
            crate::scheduler::lemma_ids_in_state(m, crate::sched_state::ReqState::Queued);
            crate::scheduler::lemma_prefill_progress(m, ids);
        },
        crate::scheduler::PlanModel::Decode(ids) => {
            crate::scheduler::lemma_ids_in_state(m, crate::sched_state::ReqState::Decoding);
            crate::scheduler::lemma_decode_progress(m, out);
        },
        _ => {},
    }
}

} // verus!
