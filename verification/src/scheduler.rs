//! Which requests the next step serves.
//!
//! A plan names its requests and changes nothing: what a step did is committed afterwards, all
//! of it or none.

use crate::sched_state::{ReqId, ReqState, Request, RequestModel, TokenId};
use vstd::prelude::*;

verus! {

/// What one step does.
#[derive(Debug)]
pub enum BatchPlan {
    Idle,
    /// The prompts of these requests.
    Prefill { req_ids: Vec<ReqId> },
    /// One token of each of these requests.
    Decode { req_ids: Vec<ReqId> },
}

/// The mathematical content of a plan.
#[verifier::ext_equal]
pub enum PlanModel {
    Idle,
    Prefill(Seq<ReqId>),
    Decode(Seq<ReqId>),
}

impl View for BatchPlan {
    type V = PlanModel;

    open spec fn view(&self) -> PlanModel {
        match self {
            BatchPlan::Idle => PlanModel::Idle,
            BatchPlan::Prefill { req_ids } => PlanModel::Prefill(req_ids@),
            BatchPlan::Decode { req_ids } => PlanModel::Decode(req_ids@),
        }
    }
}

/// Why the scheduler refused.
#[derive(Copy, Clone, Debug, PartialEq, Eq, Structural)]
pub enum SchedulerFault {
    /// The request is known already.
    KnownRequest(ReqId),
    /// Only a request that has not been served can be added.
    AlreadyServed(ReqId),
    UnknownRequest(ReqId),
    /// The request is named twice.
    NamedTwice(ReqId),
    /// The step does not apply to the request in its state.
    WrongState(ReqId),
}

/// Holds the requests in the order in which they came.
pub struct Scheduler {
    requests: Vec<Request>,
}

impl View for Scheduler {
    type V = Seq<RequestModel>;

    closed spec fn view(&self) -> Seq<RequestModel> {
        Seq::new(self.requests@.len(), |i: int| self.requests@[i]@)
    }
}

/// No identifier occurs twice, a request that waits has produced nothing, and between steps
/// no prompt is under way.
pub open spec fn queue_wf(m: Seq<RequestModel>) -> bool {
    &&& forall|i: int, j: int|
        0 <= i < j < m.len() ==> (#[trigger] m[i]).id != (#[trigger] m[j]).id
    &&& forall|i: int| 0 <= i < m.len() ==> (#[trigger] m[i]).wf()
    &&& forall|i: int|
        0 <= i < m.len() && (#[trigger] m[i]).state is Queued ==> m[i].output.len() == 0
    &&& forall|i: int| 0 <= i < m.len() ==> !((#[trigger] m[i]).state is Prefilling)
}

/// Where the request is.
pub open spec fn position_of(m: Seq<RequestModel>, id: ReqId) -> Option<int>
    decreases m.len(),
{
    if m.len() == 0 {
        None
    } else if m.last().id == id {
        Some(m.len() - 1)
    } else {
        position_of(m.drop_last(), id)
    }
}

/// The requests in a state, oldest first.
pub open spec fn ids_in(m: Seq<RequestModel>, state: ReqState) -> Seq<ReqId>
    decreases m.len(),
{
    if m.len() == 0 {
        Seq::empty()
    } else {
        let rest = ids_in(m.drop_last(), state);
        if m.last().state == state {
            rest.push(m.last().id)
        } else {
            rest
        }
    }
}

pub open spec fn alive_count(m: Seq<RequestModel>) -> nat
    decreases m.len(),
{
    if m.len() == 0 {
        0
    } else {
        alive_count(m.drop_last()) + if m.last().alive() {
            1nat
        } else {
            0
        }
    }
}

/// Prompts go first.
pub open spec fn plan_of(m: Seq<RequestModel>) -> PlanModel {
    let waiting = ids_in(m, ReqState::Queued);
    let decoding = ids_in(m, ReqState::Decoding);
    if waiting.len() > 0 {
        PlanModel::Prefill(waiting)
    } else if decoding.len() > 0 {
        PlanModel::Decode(decoding)
    } else {
        PlanModel::Idle
    }
}

/// What is wrong with the `k`-th request of a step for requests in `state`.
pub open spec fn entry_fault(m: Seq<RequestModel>, ids: Seq<ReqId>, k: int, state: ReqState) -> Option<
    SchedulerFault,
> {
    if ids.take(k).contains(ids[k]) {
        Some(SchedulerFault::NamedTwice(ids[k]))
    } else {
        match position_of(m, ids[k]) {
            None => Some(SchedulerFault::UnknownRequest(ids[k])),
            Some(i) => if m[i].state == state {
                None
            } else {
                Some(SchedulerFault::WrongState(ids[k]))
            },
        }
    }
}

/// The first fault among the first `n` requests of a step.
pub open spec fn batch_fault(m: Seq<RequestModel>, ids: Seq<ReqId>, n: int, state: ReqState) -> Option<
    SchedulerFault,
>
    decreases n,
{
    if n <= 0 {
        None
    } else {
        match batch_fault(m, ids, n - 1, state) {
            Some(f) => Some(f),
            None => entry_fault(m, ids, n - 1, state),
        }
    }
}

/// The requests after the prompts of `ids` ran.
pub open spec fn prefilled(m: Seq<RequestModel>, ids: Seq<ReqId>) -> Seq<RequestModel> {
    Seq::new(
        m.len(),
        |i: int|
            if ids.contains(m[i].id) {
                RequestModel { state: ReqState::Decoding, ..m[i] }
            } else {
                m[i]
            },
    )
}

pub open spec fn output_ids(out: Seq<(ReqId, TokenId)>) -> Seq<ReqId> {
    Seq::new(out.len(), |k: int| out[k].0)
}

/// The token that a step produced for a request.
pub open spec fn token_for(out: Seq<(ReqId, TokenId)>, id: ReqId) -> Option<TokenId>
    decreases out.len(),
{
    if out.len() == 0 {
        None
    } else if out.last().0 == id {
        Some(out.last().1)
    } else {
        token_for(out.drop_last(), id)
    }
}

/// The requests after each took its token.
pub open spec fn decoded(m: Seq<RequestModel>, out: Seq<(ReqId, TokenId)>) -> Seq<RequestModel> {
    Seq::new(
        m.len(),
        |i: int|
            match token_for(out, m[i].id) {
                Some(t) => m[i].pushed(t),
                None => m[i],
            },
    )
}

pub proof fn lemma_position(m: Seq<RequestModel>, id: ReqId)
    ensures
        match position_of(m, id) {
            Some(i) => 0 <= i < m.len() && m[i].id == id,
            None => forall|i: int| 0 <= i < m.len() ==> (#[trigger] m[i]).id != id,
        },
    decreases m.len(),
{
    if m.len() > 0 && m.last().id != id {
        let rest = m.drop_last();
        lemma_position(rest, id);
        if position_of(rest, id) is None {
            assert forall|i: int| 0 <= i < m.len() implies (#[trigger] m[i]).id != id by {
                if i < m.len() - 1 {
                    assert(rest[i] == m[i]);
                }
            }
        }
    }
}

proof fn lemma_token_for(out: Seq<(ReqId, TokenId)>, id: ReqId)
    ensures
        token_for(out, id) is Some <==> output_ids(out).contains(id),
    decreases out.len(),
{
    let ids = output_ids(out);
    if out.len() > 0 {
        let rest = out.drop_last();
        lemma_token_for(rest, id);
        assert(output_ids(rest) =~= ids.drop_last());
        if out.last().0 == id {
            assert(ids[out.len() - 1] == id);
        } else {
            if ids.contains(id) {
                let k = choose|k: int| 0 <= k < ids.len() && ids[k] == id;
                assert(output_ids(rest)[k] == id);
            }
            if output_ids(rest).contains(id) {
                let k = choose|k: int| 0 <= k < output_ids(rest).len() && output_ids(rest)[k] == id;
                assert(ids[k] == id);
            }
        }
    }
}

/// A step without a fault names requests that exist and are in its state.
pub proof fn lemma_no_fault(m: Seq<RequestModel>, ids: Seq<ReqId>, n: int, state: ReqState, k: int)
    requires
        batch_fault(m, ids, n, state) is None,
        0 <= k < n <= ids.len(),
    ensures
        entry_fault(m, ids, k, state) is None,
    decreases n,
{
    if k < n - 1 {
        lemma_no_fault(m, ids, n - 1, state, k);
    }
}

/// Whoever a faultless step names is in the step's state.
pub proof fn lemma_named_state(m: Seq<RequestModel>, ids: Seq<ReqId>, state: ReqState, i: int)
    requires
        queue_wf(m),
        batch_fault(m, ids, ids.len() as int, state) is None,
        0 <= i < m.len(),
        ids.contains(m[i].id),
    ensures
        m[i].state == state,
{
    let k = choose|k: int| 0 <= k < ids.len() && ids[k] == m[i].id;
    lemma_no_fault(m, ids, ids.len() as int, state, k);
    lemma_position(m, ids[k]);
    let p = position_of(m, ids[k])->0;
    assert(m[p].id == m[i].id);
    assert(p == i) by {
        if p < i {
            assert(m[p].id != m[i].id);
        } else if i < p {
            assert(m[i].id != m[p].id);
        }
    }
}

/// `ids_in` names exactly the requests in the state, each once.
pub proof fn lemma_ids_in_state(m: Seq<RequestModel>, state: ReqState)
    requires
        queue_wf(m),
    ensures
        forall|i: int|
            0 <= i < m.len() ==> (ids_in(m, state).contains((#[trigger] m[i]).id) <==> m[i].state
                == state),
        forall|k: int|
            0 <= k < ids_in(m, state).len() ==> position_of(m, #[trigger] ids_in(m, state)[k])
                is Some,
        ids_in(m, state).no_duplicates(),
    decreases m.len(),
{
    if m.len() > 0 {
        let rest = m.drop_last();
        let last = m.last();
        let before = ids_in(rest, state);
        let ids = ids_in(m, state);
        assert forall|i: int, j: int| 0 <= i < j < rest.len() implies (#[trigger] rest[i]).id != (
        #[trigger] rest[j]).id by {
            assert(m[i].id != m[j].id);
        }
        assert forall|i: int| 0 <= i < rest.len() implies (#[trigger] rest[i]).wf()
            && !(rest[i].state is Prefilling) && (rest[i].state is Queued
            ==> rest[i].output.len() == 0) by {
            assert(m[i].wf());
        }
        lemma_ids_in_state(rest, state);
        assert(!before.contains(last.id)) by {
            if before.contains(last.id) {
                let k = choose|k: int| 0 <= k < before.len() && before[k] == last.id;
                lemma_position(rest, before[k]);
                let p = position_of(rest, before[k])->0;
                assert(m[p].id != m[m.len() - 1].id);
            }
        }
        assert forall|i: int| 0 <= i < m.len() implies (ids.contains((#[trigger] m[i]).id)
            <==> m[i].state == state) by {
            if i < m.len() - 1 {
                assert(rest[i] == m[i]);
                assert(m[i].id != m[m.len() - 1].id);
                if before.contains(m[i].id) {
                    let k = choose|k: int| 0 <= k < before.len() && before[k] == m[i].id;
                    assert(ids[k] == m[i].id);
                }
                if ids.contains(m[i].id) {
                    let k = choose|k: int| 0 <= k < ids.len() && ids[k] == m[i].id;
                    assert(k < before.len());
                    assert(before[k] == m[i].id);
                }
            } else if last.state == state {
                assert(ids[before.len() as int] == last.id);
            }
        }
        assert forall|k: int| 0 <= k < ids.len() implies position_of(m, #[trigger] ids[k])
            is Some by {
            if k < before.len() {
                assert(before[k] == ids[k]);
            }
        }
    }
}

/// A step over the requests in a state has no fault.
pub proof fn lemma_planned_batch(m: Seq<RequestModel>, state: ReqState)
    requires
        queue_wf(m),
    ensures
        batch_fault(m, ids_in(m, state), ids_in(m, state).len() as int, state) is None,
{
    lemma_planned_prefix(m, state, ids_in(m, state).len() as int);
}

proof fn lemma_planned_prefix(m: Seq<RequestModel>, state: ReqState, n: int)
    requires
        queue_wf(m),
        n <= ids_in(m, state).len(),
    ensures
        batch_fault(m, ids_in(m, state), n, state) is None,
    decreases n,
{
    if n > 0 {
        lemma_planned_prefix(m, state, n - 1);
        let ids = ids_in(m, state);
        let k = n - 1;
        lemma_ids_in_state(m, state);
        lemma_position(m, ids[k]);
        if ids.take(k).contains(ids[k]) {
            let j = choose|j: int| 0 <= j < k && ids.take(k)[j] == ids[k];
            assert(ids[j] == ids[k]);
        }
        let p = position_of(m, ids[k])->0;
        assert(ids.contains(m[p].id));
    }
}

/// Steps that a request still needs at most.
pub open spec fn steps_left(r: RequestModel) -> int {
    if r.state is Queued {
        1 + r.budget as int
    } else if r.state is Decoding {
        r.budget - r.output.len()
    } else {
        0
    }
}

pub open spec fn work_left(m: Seq<RequestModel>) -> int
    decreases m.len(),
{
    if m.len() == 0 {
        0
    } else {
        work_left(m.drop_last()) + steps_left(m.last())
    }
}

/// Where no request needs more and one needs less, less is left.
proof fn lemma_less_work(a: Seq<RequestModel>, b: Seq<RequestModel>)
    requires
        a.len() == b.len(),
        forall|i: int| 0 <= i < a.len() ==> steps_left(#[trigger] b[i]) <= steps_left(a[i]),
    ensures
        work_left(b) <= work_left(a),
        (exists|i: int| 0 <= i < a.len() && steps_left(#[trigger] b[i]) < steps_left(a[i])) ==> work_left(b)
            < work_left(a),
    decreases a.len(),
{
    if a.len() > 0 {
        let ra = a.drop_last();
        let rb = b.drop_last();
        assert forall|i: int| 0 <= i < ra.len() implies steps_left(#[trigger] rb[i]) <= steps_left(
            ra[i],
        ) by {
            assert(b[i] == rb[i]);
        }
        lemma_less_work(ra, rb);
        let z = a.len() - 1;
        assert(steps_left(b[z]) <= steps_left(a[z]));
        if exists|i: int| 0 <= i < a.len() && steps_left(#[trigger] b[i]) < steps_left(a[i]) {
            let i = choose|i: int| 0 <= i < a.len() && steps_left(#[trigger] b[i]) < steps_left(a[i]);
            if i < z {
                assert(steps_left(rb[i]) < steps_left(ra[i]));
            }
        }
    }
}

pub proof fn lemma_prefill_progress(m: Seq<RequestModel>, ids: Seq<ReqId>)
    requires
        queue_wf(m),
        ids == ids_in(m, ReqState::Queued),
        ids.len() > 0,
    ensures
        work_left(prefilled(m, ids)) < work_left(m),
{
    lemma_ids_in_state(m, ReqState::Queued);
    let b = prefilled(m, ids);
    assert forall|i: int| 0 <= i < m.len() implies steps_left(#[trigger] b[i]) <= steps_left(m[i]) by {
        assert(ids.contains(m[i].id) <==> m[i].state is Queued);
    }
    lemma_position(m, ids[0]);
    let p = position_of(m, ids[0])->0;
    assert(ids.contains(m[p].id));
    assert(steps_left(b[p]) < steps_left(m[p]));
    lemma_less_work(m, b);
}

pub proof fn lemma_decode_progress(m: Seq<RequestModel>, out: Seq<(ReqId, TokenId)>)
    requires
        queue_wf(m),
        output_ids(out) == ids_in(m, ReqState::Decoding),
        out.len() > 0,
    ensures
        work_left(decoded(m, out)) < work_left(m),
{
    let ids = output_ids(out);
    lemma_ids_in_state(m, ReqState::Decoding);
    let b = decoded(m, out);
    assert forall|i: int| 0 <= i < m.len() implies steps_left(#[trigger] b[i]) <= steps_left(m[i])
        && (ids.contains(m[i].id) ==> steps_left(b[i]) < steps_left(m[i])) by {
        lemma_token_for(out, m[i].id);
        assert(m[i].wf());
    }
    lemma_position(m, ids[0]);
    let p = position_of(m, ids[0])->0;
    assert(ids.contains(m[p].id));
    assert(steps_left(b[p]) < steps_left(m[p]));
    lemma_less_work(m, b);
}

/// The scheduler has nothing to do exactly when no request is alive.
pub proof fn law_idle_means_no_pending_work(m: Seq<RequestModel>)
    requires
        queue_wf(m),
    ensures
        plan_of(m) is Idle <==> alive_count(m) == 0,
    decreases m.len(),
{
    if m.len() > 0 {
        let rest = m.drop_last();
        assert forall|i: int, j: int| 0 <= i < j < rest.len() implies (#[trigger] rest[i]).id != (
        #[trigger] rest[j]).id by {
            assert(m[i].id != m[j].id);
        }
        assert forall|i: int| 0 <= i < rest.len() implies (#[trigger] rest[i]).wf()
            && !(rest[i].state is Prefilling) && (rest[i].state is Queued
            ==> rest[i].output.len() == 0) by {
            assert(m[i].wf());
        }
        law_idle_means_no_pending_work(rest);
        assert(!(m[m.len() - 1].state is Prefilling));
    }
}

fn same_id(a: ReqId, b: ReqId) -> (same: bool)
    ensures
        same == (a == b),
{
    a.0 == b.0
}

fn same_state(a: ReqState, b: ReqState) -> (same: bool)
    ensures
        same == (a == b),
{
    a == b
}

fn names(ids: &[ReqId], id: ReqId) -> (yes: bool)
    ensures
        yes == ids@.contains(id),
{
    let mut k: usize = 0;
    while k < ids.len()
        invariant
            k <= ids@.len(),
            forall|j: int| 0 <= j < k ==> #[trigger] ids@[j] != id,
        decreases ids@.len() - k,
    {
        if same_id(ids[k], id) {
            return true;
        }
        k += 1;
    }
    false
}

impl Scheduler {
    pub open spec fn wf(&self) -> bool {
        queue_wf(self@)
    }

    /// A scheduler without requests.
    pub fn new() -> (s: Scheduler)
        ensures
            s@ == Seq::<RequestModel>::empty(),
            s.wf(),
    {
        let s = Scheduler { requests: Vec::new() };
        assert(s@ =~= Seq::<RequestModel>::empty());
        s
    }

    fn position(&self, id: ReqId) -> (p: Option<usize>)
        ensures
            match p {
                Some(i) => position_of(self@, id) == Some(i as int) && i < self.requests@.len(),
                None => position_of(self@, id) is None,
            },
    {
        let n: usize = self.requests.len();
        let mut i: usize = n;
        assert(self@.take(n as int) =~= self@);
        while i > 0
            invariant
                i <= n == self.requests@.len(),
                self@.len() == n,
                position_of(self@, id) == position_of(self@.take(i as int), id),
            decreases i,
        {
            i -= 1;
            let ghost t = self@.take(i + 1);
            assert(t.drop_last() =~= self@.take(i as int));
            assert(t.last() == self.requests@[i as int]@);
            if same_id(self.requests[i].id, id) {
                return Some(i);
            }
        }
        None
    }

    /// The request with this identifier.
    pub fn request(&self, id: ReqId) -> (r: Option<&Request>)
        ensures
            match position_of(self@, id) {
                Some(i) => r matches Some(q) && q@ == self@[i],
                None => r is None,
            },
    {
        match self.position(id) {
            Some(i) => Some(&self.requests[i]),
            None => None,
        }
    }

    /// Requests that are neither finished nor aborted.
    pub fn num_alive(&self) -> (n: usize)
        ensures
            n == alive_count(self@),
    {
        let mut n: usize = 0;
        let mut i: usize = 0;
        assert(self@.take(0) =~= Seq::<RequestModel>::empty());
        while i < self.requests.len()
            invariant
                i <= self.requests@.len(),
                self@.len() == self.requests@.len(),
                n <= i,
                n == alive_count(self@.take(i as int)),
            decreases self.requests@.len() - i,
        {
            let ghost t = self@.take(i + 1);
            assert(t.drop_last() =~= self@.take(i as int));
            assert(t.last() == self.requests@[i as int]@);
            if self.requests[i].is_alive() {
                n += 1;
            }
            i += 1;
        }
        assert(self@.take(i as int) =~= self@);
        n
    }

    /// Adds a request that nothing was done for yet.
    pub fn enqueue(&mut self, request: Request) -> (r: Result<(), SchedulerFault>)
        requires
            old(self).wf(),
            request@.wf(),
        ensures
            final(self).wf(),
            r == (if !(request@.state is Queued) || request@.output.len() > 0 {
                Err::<(), SchedulerFault>(SchedulerFault::AlreadyServed(request@.id))
            } else if position_of(old(self)@, request@.id) is Some {
                Err(SchedulerFault::KnownRequest(request@.id))
            } else {
                Ok(())
            }),
            r is Ok ==> final(self)@ == old(self)@.push(request@),
            r is Err ==> final(self)@ == old(self)@,
    {
        if !matches!(request.state, ReqState::Queued) || request.output_tokens.len() > 0 {
            return Err(SchedulerFault::AlreadyServed(request.id));
        }
        if self.position(request.id).is_some() {
            return Err(SchedulerFault::KnownRequest(request.id));
        }
        proof {
            lemma_position(self@, request@.id);
        }
        let ghost before = self@;
        let ghost q = request@;
        self.requests.push(request);
        assert(self@ =~= before.push(q));
        Ok(())
    }

    fn ids_of(&self, state: ReqState) -> (ids: Vec<ReqId>)
        ensures
            ids@ == ids_in(self@, state),
    {
        let mut ids: Vec<ReqId> = Vec::new();
        let mut i: usize = 0;
        assert(self@.take(0) =~= Seq::<RequestModel>::empty());
        while i < self.requests.len()
            invariant
                i <= self.requests@.len(),
                self@.len() == self.requests@.len(),
                ids@ == ids_in(self@.take(i as int), state),
            decreases self.requests@.len() - i,
        {
            let ghost t = self@.take(i + 1);
            assert(t.drop_last() =~= self@.take(i as int));
            assert(t.last() == self.requests@[i as int]@);
            if same_state(self.requests[i].state, state) {
                ids.push(self.requests[i].id);
            }
            i += 1;
        }
        assert(self@.take(i as int) =~= self@);
        ids
    }

    /// The next step.
    pub fn schedule(&self) -> (plan: BatchPlan)
        ensures
            plan@ == plan_of(self@),
    {
        let waiting = self.ids_of(ReqState::Queued);
        if waiting.len() > 0 {
            return BatchPlan::Prefill { req_ids: waiting };
        }
        let decoding = self.ids_of(ReqState::Decoding);
        if decoding.len() > 0 {
            return BatchPlan::Decode { req_ids: decoding };
        }
        BatchPlan::Idle
    }

    fn check_batch(&self, ids: &[ReqId], state: ReqState) -> (f: Option<SchedulerFault>)
        ensures
            f == batch_fault(self@, ids@, ids@.len() as int, state),
    {
        let mut k: usize = 0;
        let mut fault: Option<SchedulerFault> = None;
        while k < ids.len()
            invariant
                k <= ids@.len(),
                fault == batch_fault(self@, ids@, k as int, state),
            decreases ids@.len() - k,
        {
            if fault.is_none() {
                let id = ids[k];
                let earlier = vstd::slice::slice_subrange(ids, 0, k);
                assert(earlier@ =~= ids@.take(k as int));
                if names(earlier, id) {
                    fault = Some(SchedulerFault::NamedTwice(id));
                } else {
                    match self.position(id) {
                        None => {
                            fault = Some(SchedulerFault::UnknownRequest(id));
                        },
                        Some(i) => {
                            assert(self@[i as int] == self.requests@[i as int]@);
                            if !same_state(self.requests[i].state, state) {
                                fault = Some(SchedulerFault::WrongState(id));
                            }
                        },
                    }
                }
            }
            k += 1;
        }
        fault
    }

    /// Commits that the prompts of these requests ran.
    pub fn commit_prefill(&mut self, req_ids: &[ReqId]) -> (r: Result<(), SchedulerFault>)
        requires
            old(self).wf(),
        ensures
            final(self).wf(),
            match batch_fault(old(self)@, req_ids@, req_ids@.len() as int, ReqState::Queued) {
                Some(f) => r == Err::<(), SchedulerFault>(f) && final(self)@ == old(self)@,
                None => r is Ok && final(self)@ == prefilled(old(self)@, req_ids@),
            },
    {
        match self.check_batch(req_ids, ReqState::Queued) {
            Some(f) => {
                return Err(f);
            },
            None => {},
        }
        let ghost before = self@;
        let n: usize = self.requests.len();
        let mut i: usize = 0;
        while i < n
            invariant
                i <= n == self.requests@.len(),
                before.len() == n,
                forall|j: int|
                    0 <= j < i ==> (#[trigger] self.requests@[j])@ == prefilled(before, req_ids@)[j],
                forall|j: int| i <= j < n ==> (#[trigger] self.requests@[j])@ == before[j],
            decreases n - i,
        {
            if names(req_ids, self.requests[i].id) {
                self.requests[i].state = ReqState::Decoding;
            }
            i += 1;
        }
        proof {
            assert(self@ =~= prefilled(before, req_ids@));
            assert forall|j: int| 0 <= j < self@.len() implies (#[trigger] self@[j]).wf()
                && (self@[j].state is Queued ==> self@[j].output.len() == 0)
                && !(self@[j].state is Prefilling) by {
                assert(before[j].wf());
                if req_ids@.contains(before[j].id) {
                    lemma_named_state(before, req_ids@, ReqState::Queued, j);
                }
            }
            assert forall|a: int, b: int| 0 <= a < b < self@.len() implies (#[trigger] self@[a]).id
                != (#[trigger] self@[b]).id by {
                assert(before[a].id != before[b].id);
            }
        }
        Ok(())
    }

    /// Commits one token of each of these requests.
    pub fn commit_decode(&mut self, outputs: &[(ReqId, TokenId)]) -> (r: Result<(), SchedulerFault>)
        requires
            old(self).wf(),
        ensures
            final(self).wf(),
            match batch_fault(
                old(self)@,
                output_ids(outputs@),
                outputs@.len() as int,
                ReqState::Decoding,
            ) {
                Some(f) => r == Err::<(), SchedulerFault>(f) && final(self)@ == old(self)@,
                None => r is Ok && final(self)@ == decoded(old(self)@, outputs@),
            },
    {
        let mut ids: Vec<ReqId> = Vec::new();
        let mut k: usize = 0;
        while k < outputs.len()
            invariant
                k <= outputs@.len(),
                ids@ == output_ids(outputs@).take(k as int),
            decreases outputs@.len() - k,
        {
            ids.push(outputs[k].0);
            assert(ids@ =~= output_ids(outputs@).take(k + 1));
            k += 1;
        }
        assert(ids@ =~= output_ids(outputs@));
        match self.check_batch(ids.as_slice(), ReqState::Decoding) {
            Some(f) => {
                return Err(f);
            },
            None => {},
        }
        let ghost before = self@;
        let n: usize = self.requests.len();
        let mut i: usize = 0;
        while i < n
            invariant
                i <= n == self.requests@.len(),
                before.len() == n,
                queue_wf(before),
                batch_fault(
                    before,
                    output_ids(outputs@),
                    outputs@.len() as int,
                    ReqState::Decoding,
                ) is None,
                forall|j: int|
                    0 <= j < i ==> (#[trigger] self.requests@[j])@ == decoded(before, outputs@)[j],
                forall|j: int| i <= j < n ==> (#[trigger] self.requests@[j])@ == before[j],
            decreases n - i,
        {
            let id = self.requests[i].id;
            match find_token(outputs, id) {
                Some(t) => {
                    proof {
                        lemma_token_for(outputs@, id);
                        lemma_named_state(before, output_ids(outputs@), ReqState::Decoding, i as int);
                        assert(before[i as int].wf());
                    }
                    let taken = self.requests[i].push_output(t);
                    assert(taken is Ok);
                },
                None => {},
            }
            i += 1;
        }
        proof {
            assert(self@ =~= decoded(before, outputs@));
            assert forall|j: int| 0 <= j < self@.len() implies (#[trigger] self@[j]).wf()
                && (self@[j].state is Queued ==> self@[j].output.len() == 0)
                && !(self@[j].state is Prefilling) by {
                assert(before[j].wf());
                lemma_token_for(outputs@, before[j].id);
                if output_ids(outputs@).contains(before[j].id) {
                    lemma_named_state(before, output_ids(outputs@), ReqState::Decoding, j);
                }
            }
            assert forall|a: int, b: int| 0 <= a < b < self@.len() implies (#[trigger] self@[a]).id
                != (#[trigger] self@[b]).id by {
                assert(before[a].id != before[b].id);
            }
        }
        Ok(())
    }
}

fn find_token(outputs: &[(ReqId, TokenId)], id: ReqId) -> (t: Option<TokenId>)
    ensures
        t == token_for(outputs@, id),
{
    let n: usize = outputs.len();
    let mut k: usize = n;
    assert(outputs@.take(n as int) =~= outputs@);
    while k > 0
        invariant
            k <= n == outputs@.len(),
            token_for(outputs@, id) == token_for(outputs@.take(k as int), id),
        decreases k,
    {
        k -= 1;
        assert(outputs@.take(k + 1).drop_last() =~= outputs@.take(k as int));
        if same_id(outputs[k].0, id) {
            return Some(outputs[k].1);
        }
    }
    None
}

} // verus!
