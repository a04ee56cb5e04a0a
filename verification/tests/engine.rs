use std::sync::atomic::{AtomicUsize, Ordering};
use std::sync::Arc;

use rvllm_runtime::arena::{Arena, ArenaFull};
use rvllm_runtime::engine::{
    settle_cancel, Engine, EngineFault, OutputFault, PendingStep, StepExecutor, StepFault,
    StepTicket,
};
use rvllm_runtime::sched_state::{ReqId, ReqState, Request, TokenId};
use rvllm_runtime::scheduler::{BatchPlan, Scheduler, SchedulerFault};

struct ImmediateExecutor;
struct ImmediateTicket(Vec<(ReqId, TokenId)>);

impl StepExecutor for ImmediateExecutor {
    fn launch(&mut self, plan: &BatchPlan) -> Result<Box<dyn StepTicket>, StepFault> {
        let output = match plan {
            BatchPlan::Decode { req_ids, .. } => {
                req_ids.iter().map(|&id| (id, TokenId(42))).collect()
            }
            _ => Vec::new(),
        };
        Ok(Box::new(ImmediateTicket(output)))
    }
}

impl StepTicket for ImmediateTicket {
    fn collect(self: Box<Self>) -> Result<Vec<(ReqId, TokenId)>, StepFault> {
        Ok(self.0)
    }

    fn cancel(self: Box<Self>) -> Result<(), StepFault> {
        Ok(())
    }
}

/// Always answers with the same tokens.
struct FixedExecutor(Vec<(ReqId, TokenId)>);

impl StepExecutor for FixedExecutor {
    fn launch(&mut self, _plan: &BatchPlan) -> Result<Box<dyn StepTicket>, StepFault> {
        Ok(Box::new(ImmediateTicket(self.0.clone())))
    }
}

struct BrokenExecutor;

impl StepExecutor for BrokenExecutor {
    fn launch(&mut self, _plan: &BatchPlan) -> Result<Box<dyn StepTicket>, StepFault> {
        Err(StepFault { reason: "no device".to_string() })
    }
}

fn request(id: u64, budget: u32) -> Request {
    Request::new(ReqId(id), vec![TokenId(0)], budget).unwrap()
}

fn state(engine: &Engine, id: u64) -> ReqState {
    engine.scheduler.request(ReqId(id)).unwrap().state
}

#[test]
fn empty_engine_has_no_pending_work() {
    let mut engine = Engine::new();
    assert!(!engine.has_pending_work());
    assert!(engine.step_launch().unwrap().collect().unwrap().is_empty());
}

#[test]
fn non_idle_engine_without_executor_fails_closed() {
    let mut engine = Engine::new();
    engine
        .scheduler
        .enqueue(Request::new(ReqId(1), vec![TokenId(0)], 1).unwrap())
        .unwrap();
    assert!(engine.step_launch().is_err());
    assert_eq!(engine.scheduler.request(ReqId(1)).unwrap().state, ReqState::Queued);
}

#[test]
fn successful_collect_commits_after_execution() {
    let mut engine = Engine::with_executor(ImmediateExecutor);
    engine
        .scheduler
        .enqueue(Request::new(ReqId(1), vec![TokenId(0)], 1).unwrap())
        .unwrap();
    assert!(engine.step_launch().unwrap().collect().unwrap().is_empty());
    let output = engine.step_launch().unwrap().collect().unwrap();
    assert_eq!(output.len(), 1);
    assert_eq!(output[0].new_token, TokenId(42));
    assert!(output[0].finished);
}

#[test]
fn an_engine_whose_steps_succeed_comes_to_rest() {
    let mut engine = Engine::with_executor(ImmediateExecutor);
    engine.scheduler.enqueue(request(1, 2)).unwrap();
    engine.scheduler.enqueue(request(2, 3)).unwrap();
    let mut steps = 0;
    let mut tokens = Vec::new();
    while engine.has_pending_work() {
        for out in engine.step_launch().unwrap().collect().unwrap() {
            tokens.push((out.req_id.0, out.finished));
        }
        steps += 1;
    }
    assert_eq!(steps, 4);
    assert_eq!(tokens, vec![(1, false), (2, false), (1, true), (2, false), (2, true)]);
    assert!(engine.step_launch().unwrap().plan().is_some());
}

#[test]
fn a_step_can_be_cancelled_and_planned_again() {
    let mut engine = Engine::with_executor(ImmediateExecutor);
    engine.scheduler.enqueue(request(7, 1)).unwrap();
    let pending = engine.step_launch().unwrap();
    assert!(matches!(pending.plan(), Some(BatchPlan::Prefill { .. })));
    assert!(pending.cancel().is_ok());
    assert_eq!(state(&engine, 7), ReqState::Queued);
    let again = engine.step_launch().unwrap();
    assert!(matches!(again.plan(), Some(BatchPlan::Prefill { req_ids }) if req_ids[0] == ReqId(7)));
    assert!(again.collect().unwrap().is_empty());
    assert_eq!(state(&engine, 7), ReqState::Decoding);
}

#[test]
fn wrong_output_is_refused_and_commits_nothing() {
    let mut engine = Engine::with_executor(FixedExecutor(vec![(ReqId(1), TokenId(5))]));
    engine.scheduler.enqueue(request(1, 4)).unwrap();
    let fault = engine.step_launch().unwrap().collect().unwrap_err();
    assert!(matches!(fault, EngineFault::Output(OutputFault::PrefillReturnedTokens)));
    assert_eq!(state(&engine, 1), ReqState::Queued);

    let mut engine = Engine::with_executor(FixedExecutor(Vec::new()));
    engine.scheduler.enqueue(request(1, 4)).unwrap();
    assert!(engine.step_launch().unwrap().collect().unwrap().is_empty());
    let fault = engine.step_launch().unwrap().collect().unwrap_err();
    assert!(matches!(fault, EngineFault::Output(OutputFault::DecodeMismatch)));
    assert!(engine.scheduler.request(ReqId(1)).unwrap().output_tokens.is_empty());

    let mut engine = Engine::new();
    let fault = engine.settle(&BatchPlan::Idle, vec![(ReqId(1), TokenId(5))]).unwrap_err();
    assert!(matches!(fault, EngineFault::Output(OutputFault::IdleReturnedTokens)));
    let fault = engine
        .settle(&BatchPlan::Prefill { req_ids: vec![ReqId(9)] }, Vec::new())
        .unwrap_err();
    assert!(matches!(fault, EngineFault::Scheduler(SchedulerFault::UnknownRequest(ReqId(9)))));
}

#[test]
fn launch_failures_are_told_apart() {
    let mut engine = Engine::new();
    engine.scheduler.enqueue(request(1, 1)).unwrap();
    assert!(matches!(engine.step_launch(), Err(EngineFault::ExecutorMissing)));
    let mut engine = Engine::with_executor(BrokenExecutor);
    engine.scheduler.enqueue(request(1, 1)).unwrap();
    assert!(matches!(engine.step_launch(), Err(EngineFault::Executor(_))));
    assert_eq!(state(&engine, 1), ReqState::Queued);
    let drained = PendingStep { engine: &mut engine, plan: None, ticket: None };
    assert!(matches!(drained.collect(), Err(EngineFault::AlreadyDrained)));
    let lost = PendingStep {
        engine: &mut engine,
        plan: Some(BatchPlan::Decode { req_ids: Vec::new() }),
        ticket: None,
    };
    assert!(matches!(lost.collect(), Err(EngineFault::AlreadyDrained)));
}

#[test]
fn the_scheduler_tells_its_faults_apart() {
    let mut s = Scheduler::new();
    assert_eq!(s.num_alive(), 0);
    s.enqueue(request(1, 2)).unwrap();
    s.enqueue(request(2, 2)).unwrap();
    assert_eq!(s.num_alive(), 2);
    assert_eq!(s.enqueue(request(1, 2)), Err(SchedulerFault::KnownRequest(ReqId(1))));
    let mut served = request(3, 2);
    served.state = ReqState::Decoding;
    assert_eq!(s.enqueue(served), Err(SchedulerFault::AlreadyServed(ReqId(3))));
    assert_eq!(
        s.commit_prefill(&[ReqId(1), ReqId(1)]),
        Err(SchedulerFault::NamedTwice(ReqId(1)))
    );
    assert_eq!(
        s.commit_decode(&[(ReqId(1), TokenId(3))]),
        Err(SchedulerFault::WrongState(ReqId(1)))
    );
    assert!(matches!(s.schedule(), BatchPlan::Prefill { req_ids } if req_ids.len() == 2));
    s.commit_prefill(&[ReqId(2)]).unwrap();
    assert!(matches!(s.schedule(), BatchPlan::Prefill { req_ids } if req_ids == vec![ReqId(1)]));
    s.commit_prefill(&[ReqId(1)]).unwrap();
    assert!(
        matches!(s.schedule(), BatchPlan::Decode { req_ids } if req_ids == vec![ReqId(1), ReqId(2)])
    );
    s.commit_decode(&[(ReqId(2), TokenId(8)), (ReqId(1), TokenId(9))]).unwrap();
    assert_eq!(s.request(ReqId(2)).unwrap().output_tokens, vec![TokenId(8)]);
    assert_eq!(s.request(ReqId(1)).unwrap().output_tokens, vec![TokenId(9)]);
    assert!(s.request(ReqId(5)).is_none());
}

#[test]
fn a_default_engine_is_idle_and_has_no_backend() {
    let engine = Engine::default();
    assert!(!engine.has_pending_work());
    assert!(engine.executor.is_none());
}

struct StuckExecutor;
struct StuckTicket;

impl StepExecutor for StuckExecutor {
    fn launch(&mut self, _plan: &BatchPlan) -> Result<Box<dyn StepTicket>, StepFault> {
        Ok(Box::new(StuckTicket))
    }
}

impl StepTicket for StuckTicket {
    fn collect(self: Box<Self>) -> Result<Vec<(ReqId, TokenId)>, StepFault> {
        Ok(Vec::new())
    }

    fn cancel(self: Box<Self>) -> Result<(), StepFault> {
        Err(StepFault { reason: "stuck".to_string() })
    }
}

#[test]
fn a_failed_cancellation_is_reported_and_changes_no_request() {
    let mut engine = Engine::with_executor(StuckExecutor);
    engine.scheduler.enqueue(Request::new(ReqId(1), vec![TokenId(0)], 1).unwrap()).unwrap();
    match engine.step_launch().unwrap().cancel() {
        Err(EngineFault::Executor(fault)) => assert_eq!(fault.reason, "stuck"),
        other => panic!("{other:?}"),
    }
    assert_eq!(engine.scheduler.request(ReqId(1)).unwrap().state, ReqState::Queued);
    assert!(settle_cancel(Ok(())).is_ok());
}

#[test]
fn an_idle_step_has_nothing_to_cancel() {
    let mut engine = Engine::with_executor(StuckExecutor);
    assert!(engine.step_launch().unwrap().cancel().is_ok());
}

struct LateExecutor;
struct LateTicket;

impl StepExecutor for LateExecutor {
    fn launch(&mut self, _plan: &BatchPlan) -> Result<Box<dyn StepTicket>, StepFault> {
        Ok(Box::new(LateTicket))
    }
}

impl StepTicket for LateTicket {
    fn collect(self: Box<Self>) -> Result<Vec<(ReqId, TokenId)>, StepFault> {
        Err(StepFault { reason: "device lost".to_string() })
    }

    fn cancel(self: Box<Self>) -> Result<(), StepFault> {
        Ok(())
    }
}

#[test]
fn a_step_that_fails_commits_nothing_and_is_reported() {
    let mut engine = Engine::with_executor(LateExecutor);
    engine.scheduler.enqueue(request(4, 2)).unwrap();
    let fault = engine.step_launch().unwrap().collect().unwrap_err();
    assert!(matches!(fault, EngineFault::Executor(f) if f.reason == "device lost"));
    assert_eq!(state(&engine, 4), ReqState::Queued);
    assert!(engine.has_pending_work());
}

/// Counts its launches.
struct CountingExecutor(Arc<AtomicUsize>);

impl StepExecutor for CountingExecutor {
    fn launch(&mut self, plan: &BatchPlan) -> Result<Box<dyn StepTicket>, StepFault> {
        self.0.fetch_add(1, Ordering::SeqCst);
        ImmediateExecutor.launch(plan)
    }
}

#[test]
fn the_backend_is_called_once_for_work_and_never_without() {
    let calls = Arc::new(AtomicUsize::new(0));
    let mut engine = Engine::with_executor(CountingExecutor(calls.clone()));
    assert!(engine.step_launch().unwrap().collect().unwrap().is_empty());
    assert_eq!(calls.load(Ordering::SeqCst), 0);
    engine.scheduler.enqueue(request(1, 1)).unwrap();
    assert!(engine.step_launch().unwrap().collect().unwrap().is_empty());
    assert_eq!(calls.load(Ordering::SeqCst), 1);
    assert_eq!(engine.step_launch().unwrap().collect().unwrap()[0].new_token, TokenId(42));
    assert_eq!(calls.load(Ordering::SeqCst), 2);
    assert!(engine.step_launch().unwrap().collect().unwrap().is_empty());
    assert_eq!(calls.load(Ordering::SeqCst), 2);
}

fn is_send<T: Send>(_: &T) -> bool {
    true
}

#[test]
fn engines_can_be_sent() {
    let mut engine = Engine::with_executor(ImmediateExecutor);
    assert!(is_send(&engine));
    assert!(is_send(&engine.step_launch().unwrap()));
}

#[test]
fn a_request_gives_its_memory_back() {
    assert!(Arena::new(u64::MAX, 1).is_none());
    let mut arena = Arena::new(1000, 100).unwrap();
    assert_eq!(arena.region(10, 16), Ok(1008));
    assert_eq!(arena.checkpoint(), 18);
    let before = arena;
    assert_eq!(arena.region(3, 1), Ok(1018));
    assert_eq!(arena.region(90, 256), Err(ArenaFull { bytes: 90 }));
    assert_eq!(arena.region(0, 2), Ok(1022));
    let failed: Result<u8, &str> = arena.end_request(18, Ok(()), Err("no"));
    assert_eq!((failed, arena), (Err("no"), before));
    assert_eq!(arena.region(82, 1), Ok(1018));
    let stuck: Result<u8, &str> = arena.end_request(18, Err("stuck"), Ok(3));
    assert_eq!((stuck, arena), (Err("stuck"), before));
    let good: Result<u8, &str> = arena.end_request(18, Ok(()), Ok(3));
    assert_eq!((good, arena), (Ok(3), before));
}
