//! The intake queue: command handlers submit newly created tasks here,
//! and the scheduler drains it at the start of every tick, so task
//! creation never contends for the store's write lock.

use vstd::prelude::*;
use crate::store::all_wf;
use crate::tasks::TaskType;

verus! {

#[verifier::external_type_specification]
#[verifier::external_body]
#[verifier::reject_recursive_types(T)]
pub struct ExSender<T>(crossbeam_channel::Sender<T>);

#[verifier::external_type_specification]
#[verifier::external_body]
#[verifier::reject_recursive_types(T)]
pub struct ExReceiver<T>(crossbeam_channel::Receiver<T>);

/// What one non-blocking receive found.
pub enum RecvOutcome {
    /// A task was waiting and is handed over.
    Got(TaskType),
    /// Nothing is queued right now.
    Empty,
    /// Every sender is gone; nothing will ever arrive again.
    Closed,
}

/// Relies on `Sender::send`: the message is queued unless every receiver
/// is gone, in which case the very same message comes back inside the
/// error.
#[verifier::external_body]
fn send_task(s: &crossbeam_channel::Sender<TaskType>, t: TaskType) -> (r: Option<TaskType>)
    ensures
        match r {
            Some(back) => back == t,
            None => true,
        },
{
    match s.send(t) {
        Ok(()) => None,
        Err(crossbeam_channel::SendError(back)) => Some(back),
    }
}

/// Relies on `Receiver::try_recv`: it returns a queued message when one
/// is immediately available, reports an empty queue, or reports that all
/// senders are gone. Which of the three happens depends on what other
/// threads did, so nothing more can be promised of the outcome.
#[verifier::external_body]
fn try_recv_task(r: &crossbeam_channel::Receiver<TaskType>) -> (o: RecvOutcome)
{
    match r.try_recv() {
        Ok(t) => RecvOutcome::Got(t),
        Err(crossbeam_channel::TryRecvError::Empty) => RecvOutcome::Empty,
        Err(crossbeam_channel::TryRecvError::Disconnected) => RecvOutcome::Closed,
    }
}

/// Submit one newly created task, without blocking and without touching
/// the store. `Err` hands the task back: it means the scheduler side of
/// the queue is gone, which only happens at shutdown or under
/// misconfiguration.
pub fn submit_task(s: &crossbeam_channel::Sender<TaskType>, t: TaskType) -> (r: Result<
    (),
    TaskType,
>)
    ensures
        match r {
            Ok(_) => true,
            Err(back) => back == t,
        },
{
    match send_task(s, t) {
        None => Ok(()),
        Some(back) => Err(back),
    }
}

/// What one drain of the intake queue found.
pub struct DrainOutcome {
    /// The submitted tasks, in the order received.
    pub tasks: Vec<TaskType>,
    /// Whether every sender is gone — the shutdown signal.
    pub closed: bool,
    /// How many received tasks were discarded because they broke a task
    /// invariant a queue crossing cannot be trusted to keep.
    pub rejected: usize,
}

/// Drain every task currently waiting in the intake queue, up to `cap`
/// in one pass. Every task handed back satisfies its own invariant, so
/// the scheduler can merge it straight into the working list; a task
/// that arrives without it — a recurring task with a non-positive
/// interval, which could never be re-armed — is counted and dropped.
pub fn drain_tasks(r: &crossbeam_channel::Receiver<TaskType>, cap: usize) -> (out: DrainOutcome)
    ensures
        all_wf(out.tasks@),
        out.tasks@.len() <= cap,
{
    let mut tasks: Vec<TaskType> = Vec::new();
    let mut closed = false;
    let mut rejected: usize = 0;
    let mut k: usize = 0;
    let mut done = false;
    while k < cap && !done
        invariant
            all_wf(tasks@),
            tasks@.len() + rejected <= k,
            k <= cap,
        decreases cap - k,
    {
        match try_recv_task(r) {
            RecvOutcome::Got(t) => {
                let ok = match &t {
                    TaskType::PeriodicTask(p) => p.diff > 0,
                    _ => true,
                };
                if ok {
                    tasks.push(t);
                } else {
                    rejected = rejected + 1;
                }
            },
            RecvOutcome::Empty => {
                done = true;
            },
            RecvOutcome::Closed => {
                closed = true;
                done = true;
            },
        }
        k = k + 1;
    }
    DrainOutcome { tasks, closed, rejected }
}

} // verus!
