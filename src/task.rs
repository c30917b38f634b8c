//! The per-job task: one attempt loop that waits, asks for a worker,
//! dispatches, and waits for the result, retrying with back-off.
//!
//! [`Task::step`] takes the task from one suspension point to the next: the
//! caller performs the returned [`TaskAction`] (a sleep, a request to the
//! executor, a send to a worker) and feeds back what came of it as a
//! [`TaskEvent`].
use vstd::prelude::*;

use crate::chance::random_below;
use crate::job::{
    calc_wait_dur, expand_delay, wait_nanos, with_backoff, ExecutionTime, Job, Timestamp,
    BACKOFF_JITTER_BOUND,
};

verus! {

/// Control messages that an executor sends to a task.
#[derive(Clone, Copy, Debug, PartialEq, Eq, Structural)]
pub enum TaskCtl {
    /// The consumer reported a failure: back off and try again.
    Retry,
    /// The consumer reported success: stop.
    Terminate,
}

/// Why a job was given up.
#[derive(Clone, Copy, Debug, PartialEq, Eq, Structural)]
pub enum FailReason {
    MaxRetryReached,
}

/// Where the attempt loop stands.
#[derive(Clone, Debug)]
pub enum TaskPhase {
    /// At the top of the loop, before the retry cap is checked.
    Idle,
    /// Sleeping through the pre-attempt wait.
    Waiting,
    /// Waiting for the executor to provide a worker.
    Acquiring,
    /// The job has been handed to the send of this worker.
    Dispatching(String),
    /// Waiting for the consumer's result within the reservation window.
    Reserved,
    /// Done: the job succeeded or was not waited for.
    Finished,
    /// Given up: the job goes to the dead jobs.
    Dead,
}

/// What happened since the last step.
#[derive(Clone, Debug)]
pub enum TaskEvent {
    /// The loop is (re)entered at this wall-clock instant.
    Begin(Timestamp),
    /// The pre-attempt wait is over.
    WaitElapsed,
    /// A control message arrived on the task's mailbox.
    Message(TaskCtl),
    /// The executor provided the worker with this id.
    WorkerProvided(String),
    /// The send to the worker succeeded (`true`) or found its stream closed.
    Dispatched(bool),
    /// The reservation window passed without a result.
    ReservationElapsed,
}

/// What the caller is to do next.
#[derive(Clone, Debug)]
pub enum TaskAction {
    /// Sleep this many nanoseconds, then report [`TaskEvent::WaitElapsed`].
    Sleep(u128),
    /// Ask the executor for a worker.
    RequestWorker,
    /// Send the job to the worker with this id.
    Dispatch(String, Job),
    /// Tell the executor to drop the worker with this id, then begin again.
    RemoveWorker(String),
    /// Wait up to this many nanoseconds for a control message.
    AwaitResult(u128),
    /// Begin the next attempt.
    NextAttempt,
    /// The task is done.
    Complete,
    /// Hand the job to the executor as dead, then stop.
    Dying(Job, FailReason),
    /// Nothing to do; keep waiting.
    Nothing,
}

/// The state of one task.
#[derive(Debug)]
pub struct Task {
    pub job: Job,
    /// Attempts in which the job reached a worker.
    pub try_count: u8,
    /// Attempts allowed before the job is given up.
    pub max_retry: u8,
    pub phase: TaskPhase,
}

impl Task {
    /// The task's invariant: the count never passes the cap, and a task that
    /// is in the middle of an attempt is still under it.
    pub open spec fn wf(&self) -> bool {
        &&& self.try_count <= self.max_retry
        &&& (self.phase is Waiting || self.phase is Acquiring || self.phase is Dispatching)
            ==> self.try_count < self.max_retry
    }

    /// The task has stopped for good.
    pub open spec fn is_terminal(&self) -> bool {
        self.phase is Finished || self.phase is Dead
    }

    /// `post` is `pre` in another phase.
    pub open spec fn moved_to(pre: Task, post: Task, phase: TaskPhase) -> bool {
        post == Task { phase, ..pre }
    }

    /// One step of the attempt loop: `pre` receives `ev`, becomes `post`,
    /// and asks for `act`.  An event that the phase does not expect leaves
    /// the task as it is and asks for nothing.
    pub open spec fn next(pre: Task, ev: TaskEvent, post: Task, act: TaskAction) -> bool {
        if pre.phase is Idle && ev is Begin {
            if pre.try_count == pre.max_retry {
                &&& Task::moved_to(pre, post, TaskPhase::Dead)
                &&& act matches TaskAction::Dying(j, reason)
                &&& j@ == pre.job@
                &&& reason == FailReason::MaxRetryReached
            } else {
                &&& Task::moved_to(pre, post, TaskPhase::Waiting)
                &&& act == TaskAction::Sleep(wait_nanos(pre.job.execution_time, ev->Begin_0) as u128)
            }
        } else if pre.phase is Waiting && ev is WaitElapsed {
            Task::moved_to(pre, post, TaskPhase::Acquiring) && act == TaskAction::RequestWorker
        } else if pre.phase is Acquiring && ev is WorkerProvided {
            &&& Task::moved_to(pre, post, TaskPhase::Dispatching(ev->WorkerProvided_0))
            &&& act matches TaskAction::Dispatch(w, j)
            &&& w == ev->WorkerProvided_0
            &&& j@ == pre.job@
        } else if pre.phase is Dispatching && ev == TaskEvent::Dispatched(false) {
            &&& post == Task {
                job: Job { execution_time: Some(ExecutionTime::Immediate), ..pre.job },
                phase: TaskPhase::Idle,
                ..pre
            }
            &&& act == TaskAction::RemoveWorker(pre.phase->Dispatching_0)
        } else if pre.phase is Dispatching && ev == TaskEvent::Dispatched(true) {
            &&& post.job == pre.job
            &&& post.max_retry == pre.max_retry
            &&& post.try_count == pre.try_count + 1
            &&& match pre.job.reservation_time {
                None => post.phase is Finished && act == TaskAction::Complete,
                Some(d) => post.phase is Reserved && act == TaskAction::AwaitResult(
                    d.wait_nanos() as u128,
                ),
            }
        } else if pre.phase is Reserved && ev == TaskEvent::Message(TaskCtl::Terminate) {
            Task::moved_to(pre, post, TaskPhase::Finished) && act == TaskAction::Complete
        } else if pre.phase is Reserved && (ev == TaskEvent::Message(TaskCtl::Retry)
            || ev is ReservationElapsed) {
            &&& post.phase is Idle
            &&& post.try_count == pre.try_count
            &&& post.max_retry == pre.max_retry
            &&& exists|jitter: u8|
                jitter < BACKOFF_JITTER_BOUND && post.job == #[trigger] with_backoff(
                    pre.job,
                    pre.try_count,
                    jitter,
                )
            &&& act == TaskAction::NextAttempt
        } else {
            post == pre && act == TaskAction::Nothing
        }
    }

    /// A task for `job`, at the top of its loop, with no attempt made.
    pub fn new(job: Job, max_retry: u8) -> (r: Task)
        ensures
            r.job == job,
            r.try_count == 0,
            r.max_retry == max_retry,
            r.phase is Idle,
            r.wf(),
    {
        Task { job, try_count: 0, max_retry, phase: TaskPhase::Idle }
    }

    /// Takes one step of the attempt loop (see [`Task::next`]).
    pub fn step(&mut self, ev: TaskEvent) -> (act: TaskAction)
        requires
            old(self).wf(),
        ensures
            final(self).wf(),
            Task::next(*old(self), ev, *final(self), act),
    {
        match (&self.phase, ev) {
            (TaskPhase::Idle, TaskEvent::Begin(now)) => {
                if self.try_count == self.max_retry {
                    self.phase = TaskPhase::Dead;
                    TaskAction::Dying(self.job.duplicate(), FailReason::MaxRetryReached)
                } else {
                    self.phase = TaskPhase::Waiting;
                    TaskAction::Sleep(calc_wait_dur(&self.job.execution_time, now))
                }
            },
            (TaskPhase::Waiting, TaskEvent::WaitElapsed) => {
                self.phase = TaskPhase::Acquiring;
                TaskAction::RequestWorker
            },
            (TaskPhase::Acquiring, TaskEvent::WorkerProvided(w)) => {
                let id = w.clone();
                self.phase = TaskPhase::Dispatching(w);
                TaskAction::Dispatch(id, self.job.duplicate())
            },
            (TaskPhase::Dispatching(w), TaskEvent::Dispatched(sent)) => {
                if !sent {
                    // the worker's stream is closed: drop it and try again
                    // at once, without counting the attempt
                    let id = w.clone();
                    self.job.execution_time = Some(ExecutionTime::Immediate);
                    self.phase = TaskPhase::Idle;
                    TaskAction::RemoveWorker(id)
                } else {
                    self.try_count = self.try_count + 1;
                    match self.job.reservation_time {
                        None => {
                            self.phase = TaskPhase::Finished;
                            TaskAction::Complete
                        },
                        Some(d) => {
                            self.phase = TaskPhase::Reserved;
                            TaskAction::AwaitResult(d.to_wait_nanos())
                        },
                    }
                }
            },
            (TaskPhase::Reserved, TaskEvent::Message(TaskCtl::Terminate)) => {
                self.phase = TaskPhase::Finished;
                TaskAction::Complete
            },
            (TaskPhase::Reserved, TaskEvent::Message(TaskCtl::Retry))
            | (TaskPhase::Reserved, TaskEvent::ReservationElapsed) => {
                let jitter = random_below(BACKOFF_JITTER_BOUND);
                expand_delay(&mut self.job, self.try_count, jitter);
                self.phase = TaskPhase::Idle;
                TaskAction::NextAttempt
            },
            _ => TaskAction::Nothing,
        }
    }
}

/// A step keeps the task well formed: in particular the attempt count never
/// exceeds the retry cap.
pub proof fn lemma_try_count_within_cap(pre: Task, ev: TaskEvent, post: Task, act: TaskAction)
    requires
        pre.wf(),
        Task::next(pre, ev, post, act),
    ensures
        post.wf(),
        post.try_count <= post.max_retry,
{
}

/// A send that finds the worker gone makes the task drop that worker and
/// start over at once, without counting the attempt.
pub proof fn lemma_lost_worker_keeps_count(pre: Task, post: Task, act: TaskAction)
    requires
        pre.phase is Dispatching,
        Task::next(pre, TaskEvent::Dispatched(false), post, act),
    ensures
        post.try_count == pre.try_count,
        post.phase is Idle,
        post.job.execution_time == Some(ExecutionTime::Immediate),
        act == TaskAction::RemoveWorker(pre.phase->Dispatching_0),
{
}

/// A stopped task stays stopped, whatever arrives: a task that finished
/// never becomes dead, and a dead one never finishes.
pub proof fn lemma_terminal_absorbs(pre: Task, ev: TaskEvent, post: Task, act: TaskAction)
    requires
        pre.is_terminal(),
        Task::next(pre, ev, post, act),
    ensures
        post == pre,
        act is Nothing,
{
}

/// A task stops in exactly one way: it finishes and asks to complete, or
/// it dies and hands its job over as dead.
pub proof fn lemma_single_way_out(pre: Task, ev: TaskEvent, post: Task, act: TaskAction)
    requires
        !pre.is_terminal(),
        post.is_terminal(),
        Task::next(pre, ev, post, act),
    ensures
        (post.phase is Finished && act is Complete) || (post.phase is Dead && act is Dying),
{
}

/// A job without a reservation completes with its first successful send,
/// and nothing the consumer does afterwards brings it back.
pub proof fn lemma_fire_and_forget(
    pre: Task,
    post: Task,
    act: TaskAction,
    ev: TaskEvent,
    later: Task,
    later_act: TaskAction,
)
    requires
        pre.phase is Dispatching,
        pre.job.reservation_time is None,
        Task::next(pre, TaskEvent::Dispatched(true), post, act),
        Task::next(post, ev, later, later_act),
    ensures
        post.phase is Finished,
        act is Complete,
        later == post,
        later_act is Nothing,
{
}

/// `tasks` goes through `events`, asking for `actions`, one step at a time.
pub open spec fn is_run(tasks: Seq<Task>, events: Seq<TaskEvent>, actions: Seq<TaskAction>) -> bool {
    &&& tasks.len() == events.len() + 1
    &&& actions.len() == events.len()
    &&& forall|i: int|
        0 <= i < events.len() ==> Task::next(
            #[trigger] tasks[i],
            events[i],
            tasks[i + 1],
            actions[i],
        )
}

/// `events` is `rounds` attempts in each of which the job reaches a worker
/// and the consumer reports a failure, followed by the start of one more
/// attempt.
pub open spec fn failing_rounds(events: Seq<TaskEvent>, rounds: nat) -> bool {
    &&& events.len() == 5 * rounds + 1
    &&& events[5 * rounds as int] is Begin
    &&& forall|k: int|
        0 <= k < rounds ==> {
            &&& (#[trigger] events[5 * k]) is Begin
            &&& events[5 * k + 1] == TaskEvent::WaitElapsed
            &&& events[5 * k + 2] is WorkerProvided
            &&& events[5 * k + 3] == TaskEvent::Dispatched(true)
            &&& events[5 * k + 4] == TaskEvent::Message(TaskCtl::Retry)
        }
}

proof fn lemma_failing_prefix(
    tasks: Seq<Task>,
    events: Seq<TaskEvent>,
    actions: Seq<TaskAction>,
    rounds: nat,
    k: nat,
)
    requires
        is_run(tasks, events, actions),
        failing_rounds(events, rounds),
        tasks[0].wf(),
        tasks[0].phase is Idle,
        tasks[0].try_count == 0,
        tasks[0].job.reservation_time is Some,
        rounds == tasks[0].max_retry,
        k <= rounds,
    ensures
        tasks[5 * k as int].phase is Idle,
        tasks[5 * k as int].try_count == k,
        tasks[5 * k as int].max_retry == tasks[0].max_retry,
        tasks[5 * k as int].job.reservation_time == tasks[0].job.reservation_time,
    decreases k,
{
    if k > 0 {
        let j = k - 1;
        lemma_failing_prefix(tasks, events, actions, rounds, j as nat);
        let b = 5 * j;
        assert(events[b] is Begin);
        assert(Task::next(tasks[b], events[b], tasks[b + 1], actions[b]));
        assert(Task::next(tasks[b + 1], events[b + 1], tasks[b + 2], actions[b + 1]));
        assert(Task::next(tasks[b + 2], events[b + 2], tasks[b + 3], actions[b + 2]));
        assert(Task::next(tasks[b + 3], events[b + 3], tasks[b + 4], actions[b + 3]));
        assert(Task::next(tasks[b + 4], events[b + 4], tasks[b + 5], actions[b + 4]));
        let jitter = choose|jitter: u8|
            jitter < BACKOFF_JITTER_BOUND && tasks[b + 5].job == #[trigger] with_backoff(
                tasks[b + 4].job,
                tasks[b + 4].try_count,
                jitter,
            );
        assert(5 * k == b + 5);
    }
}

/// A consumer that reports a failure on every attempt makes the job dead:
/// after as many failed attempts as the retry cap allows, the next attempt
/// gives the job up.
pub proof fn lemma_failures_exhaust_retries(
    tasks: Seq<Task>,
    events: Seq<TaskEvent>,
    actions: Seq<TaskAction>,
)
    requires
        is_run(tasks, events, actions),
        failing_rounds(events, tasks[0].max_retry as nat),
        tasks[0].wf(),
        tasks[0].phase is Idle,
        tasks[0].try_count == 0,
        tasks[0].job.reservation_time is Some,
    ensures
        tasks.last().phase is Dead,
        tasks.last().try_count == tasks[0].max_retry,
        actions.last() matches TaskAction::Dying(_, reason) && reason
            == FailReason::MaxRetryReached,
{
    let rounds = tasks[0].max_retry as nat;
    lemma_failing_prefix(tasks, events, actions, rounds, rounds);
    let b = 5 * rounds as int;
    assert(Task::next(tasks[b], events[b], tasks[b + 1], actions[b]));
}

} // verus!
