//! The per-job-name executor: owns the workers that can run its jobs, the
//! tasks in flight and the dead jobs, and arbitrates which task gets which
//! worker.
//!
//! [`ExecutorState::handle`] processes one mailbox message and says what the
//! caller is to do: start a task, answer a request, signal a task.
use vstd::prelude::*;

use crate::chance::choose_index;
use crate::job::{Job, JobResult, JobStatus, JobView};
use crate::queue::FifoQueue;
use crate::task::{FailReason, Task, TaskCtl};
use crate::worker::{contains_id, id_seq, lemma_filter_keeps_distinct, other_than, without_id};

verus! {

/// Stagger between the replies to tasks that starved for a worker, in ms.
pub const FEED_STAGGER_MS: u128 = 100;

/// Makes the executors of a broker; all share the retry cap.
#[derive(Clone, Copy, Debug)]
pub struct Executor {
    pub max_retry: u8,
}

/// Messages of an executor's mailbox.  Requests that expect an answer carry
/// a ticket, which the answer repeats.
#[derive(Clone, Debug)]
pub enum ExecutorCtl {
    /// A producer submitted this job.
    WorkOn(Job),
    /// A consumer advertising this job name joined, under this worker id.
    AddWorker(String),
    /// The worker with this id is gone.
    RemoveWorker(String),
    /// A task asks for a worker.
    ProvideWorker(u64),
    /// A consumer reported on a job.
    HandleJobResult(JobResult),
    /// A task gave its job up.
    HandleDyingJob(Job, FailReason),
    /// An operator asks for the dead jobs.
    ReportDeadJobs(u64),
}

/// One delayed answer to a task that starved for a worker.
#[derive(Clone, Debug)]
pub struct Feeding {
    pub ticket: u64,
    pub worker: String,
    /// How long to hold the answer back, in milliseconds.
    pub delay_ms: u128,
}

/// What the caller is to do after a message.
#[derive(Debug)]
pub enum ExecutorAction {
    /// Run this new task.
    Spawn(Task),
    /// Answer the request with this ticket with the worker with this id.
    Provide(u64, String),
    /// No worker is there: keep the request with this ticket waiting.
    Starve(u64),
    /// The first worker arrived: answer the waiting requests, each after
    /// its delay.
    Feed(Vec<Feeding>),
    /// Send this control message to the task of the job with this id.
    Signal(String, TaskCtl),
    /// Answer the request with this ticket with these dead jobs.
    Report(u64, Vec<Job>),
    /// Nothing to do.
    Nothing,
}

/// The state of the executor of one job name.
#[derive(Debug)]
pub struct ExecutorState {
    pub job_name: String,
    pub max_retry: u8,
    /// Ids of the workers that advertise this job name.
    pub workers: Vec<String>,
    /// Ids of the jobs whose task is in flight.
    pub tasks: Vec<String>,
    /// Jobs that exhausted their retries, oldest first.
    pub dead_jobs: FifoQueue,
    /// Tickets of the requests waiting for a first worker, oldest first.
    pub starving: Vec<u64>,
}

/// `list` answers the requests `starving` in their order with `worker`, the
/// `k`-th one after `k` staggers.
pub open spec fn feeds(list: Seq<Feeding>, starving: Seq<u64>, worker: Seq<char>) -> bool {
    &&& list.len() == starving.len()
    &&& forall|k: int|
        0 <= k < list.len() ==> {
            &&& (#[trigger] list[k]).ticket == starving[k]
            &&& list[k].worker@ == worker
            &&& list[k].delay_ms == FEED_STAGGER_MS * k
        }
}

/// The ids of `ids` with `id` added, unless it is there already.
pub open spec fn with_id(ids: Seq<Seq<char>>, id: Seq<char>) -> Seq<Seq<char>> {
    if ids.contains(id) {
        ids
    } else {
        ids.push(id)
    }
}

/// The views of a list of jobs.
pub open spec fn job_views(jobs: Seq<Job>) -> Seq<JobView> {
    jobs.map_values(|j: Job| j@)
}

impl Executor {
    pub fn new(max_retry: u8) -> (r: Executor)
        ensures
            r.max_retry == max_retry,
    {
        Executor { max_retry }
    }

    /// The initial state of the executor of `job_name`: no workers, no
    /// tasks, no dead jobs.
    pub fn spawn(&self, job_name: String) -> (r: ExecutorState)
        ensures
            r.job_name == job_name,
            r.max_retry == self.max_retry,
            r.workers@.len() == 0,
            r.tasks@.len() == 0,
            r.dead_jobs@.len() == 0,
            r.starving@.len() == 0,
            r.wf(),
    {
        ExecutorState {
            job_name,
            max_retry: self.max_retry,
            workers: Vec::new(),
            tasks: Vec::new(),
            dead_jobs: FifoQueue::new(),
            starving: Vec::new(),
        }
    }
}

impl ExecutorState {
    /// Requests wait only while there is no worker, and no worker or task
    /// is held twice.
    pub open spec fn wf(&self) -> bool {
        &&& self.starving@.len() > 0 ==> self.workers@.len() == 0
        &&& id_seq(self.workers@).no_duplicates()
        &&& id_seq(self.tasks@).no_duplicates()
    }

    /// `post` has the workers, tasks, dead jobs and waiting requests of `pre`.
    pub open spec fn same_sets(pre: ExecutorState, post: ExecutorState) -> bool {
        &&& post.workers == pre.workers
        &&& post.tasks == pre.tasks
        &&& post.dead_jobs == pre.dead_jobs
        &&& post.starving == pre.starving
    }

    /// One message: `pre` receives `msg`, becomes `post`, and asks for `act`.
    pub open spec fn next(
        pre: ExecutorState,
        msg: ExecutorCtl,
        post: ExecutorState,
        act: ExecutorAction,
    ) -> bool {
        &&& post.job_name == pre.job_name
        &&& post.max_retry == pre.max_retry
        &&& match msg {
            ExecutorCtl::WorkOn(j) => {
                &&& post.workers == pre.workers
                &&& post.dead_jobs == pre.dead_jobs
                &&& post.starving == pre.starving
                &&& id_seq(post.tasks@) == with_id(id_seq(pre.tasks@), j.id@)
                &&& act matches ExecutorAction::Spawn(t)
                &&& t.job@ == j@
                &&& t.try_count == 0
                &&& t.max_retry == pre.max_retry
                &&& t.phase is Idle
            },
            ExecutorCtl::AddWorker(w) => {
                &&& post.tasks == pre.tasks
                &&& post.dead_jobs == pre.dead_jobs
                &&& id_seq(post.workers@) == with_id(id_seq(pre.workers@), w@)
                &&& if pre.workers@.len() == 0 {
                    &&& post.starving@.len() == 0
                    &&& act matches ExecutorAction::Feed(list)
                    &&& feeds(list@, pre.starving@, w@)
                } else {
                    post.starving == pre.starving && act is Nothing
                }
            },
            ExecutorCtl::RemoveWorker(w) => {
                &&& post.tasks == pre.tasks
                &&& post.dead_jobs == pre.dead_jobs
                &&& post.starving == pre.starving
                &&& id_seq(post.workers@) == id_seq(pre.workers@).filter(other_than(w@))
                &&& act is Nothing
            },
            ExecutorCtl::ProvideWorker(ticket) => {
                if pre.workers@.len() > 0 {
                    &&& ExecutorState::same_sets(pre, post)
                    &&& act matches ExecutorAction::Provide(t, w)
                    &&& t == ticket
                    &&& id_seq(pre.workers@).contains(w@)
                } else {
                    &&& post.workers == pre.workers
                    &&& post.tasks == pre.tasks
                    &&& post.dead_jobs == pre.dead_jobs
                    &&& post.starving@ == pre.starving@.push(ticket)
                    &&& act == ExecutorAction::Starve(ticket)
                }
            },
            ExecutorCtl::HandleJobResult(r) => {
                &&& post.workers == pre.workers
                &&& post.dead_jobs == pre.dead_jobs
                &&& post.starving == pre.starving
                &&& if !id_seq(pre.tasks@).contains(r.job_id@) {
                    post.tasks == pre.tasks && act is Nothing
                } else if r.status == JobStatus::Succeeded {
                    &&& id_seq(post.tasks@) == id_seq(pre.tasks@).filter(other_than(r.job_id@))
                    &&& act == ExecutorAction::Signal(r.job_id, TaskCtl::Terminate)
                } else {
                    &&& post.tasks == pre.tasks
                    &&& act == ExecutorAction::Signal(r.job_id, TaskCtl::Retry)
                }
            },
            ExecutorCtl::HandleDyingJob(j, _) => {
                &&& post.workers == pre.workers
                &&& post.starving == pre.starving
                &&& id_seq(post.tasks@) == id_seq(pre.tasks@).filter(other_than(j.id@))
                &&& post.dead_jobs@ == pre.dead_jobs@.push(j@)
                &&& act is Nothing
            },
            ExecutorCtl::ReportDeadJobs(ticket) => {
                &&& ExecutorState::same_sets(pre, post)
                &&& act matches ExecutorAction::Report(t, jobs)
                &&& t == ticket
                &&& job_views(jobs@) == pre.dead_jobs@
            },
        }
    }

    /// Processes one message (see [`ExecutorState::next`]).
    pub fn handle(&mut self, msg: ExecutorCtl) -> (act: ExecutorAction)
        requires
            old(self).wf(),
        ensures
            final(self).wf(),
            ExecutorState::next(*old(self), msg, *final(self), act),
    {
        match msg {
            ExecutorCtl::WorkOn(j) => {
                if !contains_id(&self.tasks, &j.id) {
                    let id = j.id.clone();
                    self.tasks.push(id);
                    assert(id_seq(self.tasks@) =~= id_seq(old(self).tasks@).push(j.id@));
                }
                ExecutorAction::Spawn(Task::new(j, self.max_retry))
            },
            ExecutorCtl::AddWorker(w) => {
                let was_empty = self.workers.len() == 0;
                if !contains_id(&self.workers, &w) {
                    let id = w.clone();
                    self.workers.push(id);
                    assert(id_seq(self.workers@) =~= id_seq(old(self).workers@).push(w@));
                }
                if was_empty {
                    // the first worker: answer every starved request, each
                    // one stagger later than the one before
                    let list = self.feed_all(&w);
                    ExecutorAction::Feed(list)
                } else {
                    ExecutorAction::Nothing
                }
            },
            ExecutorCtl::RemoveWorker(w) => {
                self.workers = without_id(&self.workers, &w);
                proof {
                    lemma_filter_keeps_distinct(id_seq(old(self).workers@), other_than(w@));
                }
                ExecutorAction::Nothing
            },
            ExecutorCtl::ProvideWorker(ticket) => {
                match choose_index(self.workers.len()) {
                    Some(i) => {
                        let w = self.workers[i].clone();
                        assert(id_seq(self.workers@)[i as int] == w@);
                        ExecutorAction::Provide(ticket, w)
                    },
                    None => {
                        self.starving.push(ticket);
                        ExecutorAction::Starve(ticket)
                    },
                }
            },
            ExecutorCtl::HandleJobResult(r) => {
                if !contains_id(&self.tasks, &r.job_id) {
                    ExecutorAction::Nothing
                } else {
                    match r.status {
                        JobStatus::Succeeded => {
                            self.tasks = without_id(&self.tasks, &r.job_id);
                            proof {
                                lemma_filter_keeps_distinct(
                                    id_seq(old(self).tasks@),
                                    other_than(r.job_id@),
                                );
                            }
                            ExecutorAction::Signal(r.job_id, TaskCtl::Terminate)
                        },
                        JobStatus::Failed => ExecutorAction::Signal(r.job_id, TaskCtl::Retry),
                    }
                }
            },
            ExecutorCtl::HandleDyingJob(j, _) => {
                self.tasks = without_id(&self.tasks, &j.id);
                proof {
                    lemma_filter_keeps_distinct(id_seq(old(self).tasks@), other_than(j.id@));
                }
                self.dead_jobs.enque(j);
                ExecutorAction::Nothing
            },
            ExecutorCtl::ReportDeadJobs(ticket) => {
                ExecutorAction::Report(ticket, self.dead_jobs.snapshot())
            },
        }
    }

    /// Answers every waiting request with `worker`, in order, and empties
    /// the waiting list.
    fn feed_all(&mut self, worker: &String) -> (list: Vec<Feeding>)
        ensures
            final(self).workers == old(self).workers,
            final(self).tasks == old(self).tasks,
            final(self).dead_jobs == old(self).dead_jobs,
            final(self).job_name == old(self).job_name,
            final(self).max_retry == old(self).max_retry,
            final(self).starving@.len() == 0,
            feeds(list@, old(self).starving@, worker@),
    {
        let mut list: Vec<Feeding> = Vec::new();
        let mut k: usize = 0;
        while k < self.starving.len()
            invariant
                k <= self.starving@.len(),
                feeds(list@, self.starving@.take(k as int), worker@),
            decreases self.starving@.len() - k,
        {
            let f = Feeding {
                ticket: self.starving[k],
                worker: worker.clone(),
                delay_ms: FEED_STAGGER_MS * k as u128,
            };
            list.push(f);
            k += 1;
        }
        assert(self.starving@.take(self.starving@.len() as int) =~= self.starving@);
        self.starving = Vec::new();
        list
    }
}

/// A dying job goes to the end of the dead jobs, and its task leaves the
/// tasks in flight: no job is in both.
pub proof fn lemma_dead_job_leaves_tasks(
    pre: ExecutorState,
    job: Job,
    reason: FailReason,
    post: ExecutorState,
    act: ExecutorAction,
)
    requires
        ExecutorState::next(pre, ExecutorCtl::HandleDyingJob(job, reason), post, act),
    ensures
        !id_seq(post.tasks@).contains(job.id@),
        post.dead_jobs@.last() == job@,
        post.dead_jobs@.len() == pre.dead_jobs@.len() + 1,
{
    let others = other_than(job.id@);
    if id_seq(post.tasks@).contains(job.id@) {
        let i = choose|i: int| 0 <= i < id_seq(post.tasks@).len() && id_seq(post.tasks@)[i] == job.id@;
        id_seq(pre.tasks@).lemma_filter_pred(others, i);
    }
}

/// The first worker of an executor answers every starved request: the
/// oldest at once, each later one a stagger after the one before.
pub proof fn lemma_first_worker_feeds_in_turn(
    pre: ExecutorState,
    worker: String,
    post: ExecutorState,
    act: ExecutorAction,
)
    requires
        pre.workers@.len() == 0,
        ExecutorState::next(pre, ExecutorCtl::AddWorker(worker), post, act),
    ensures
        act matches ExecutorAction::Feed(list) && {
            &&& list@.len() == pre.starving@.len()
            &&& forall|k: int|
                0 <= k < list@.len() ==> (#[trigger] list@[k]).ticket == pre.starving@[k]
                    && list@[k].worker@ == worker@ && list@[k].delay_ms == FEED_STAGGER_MS * k
        },
        post.starving@.len() == 0,
        id_seq(post.workers@) == seq![worker@],
{
}

/// Requests made while an executor has no worker wait; the first worker to
/// join then answers them all, the latest one included.
pub proof fn lemma_starved_until_first_worker(
    pre: ExecutorState,
    ticket: u64,
    mid: ExecutorState,
    starve: ExecutorAction,
    worker: String,
    post: ExecutorState,
    feed: ExecutorAction,
)
    requires
        pre.wf(),
        pre.workers@.len() == 0,
        ExecutorState::next(pre, ExecutorCtl::ProvideWorker(ticket), mid, starve),
        ExecutorState::next(mid, ExecutorCtl::AddWorker(worker), post, feed),
    ensures
        starve == ExecutorAction::Starve(ticket),
        feed matches ExecutorAction::Feed(list) && {
            &&& list@.len() == pre.starving@.len() + 1
            &&& forall|k: int| 0 <= k < pre.starving@.len() ==> (#[trigger] list@[k]).ticket
                == pre.starving@[k]
            &&& list@.last().ticket == ticket
            &&& forall|k: int| 0 <= k < list@.len() ==> (#[trigger] list@[k]).worker@ == worker@
        },
        post.starving@.len() == 0,
{
    if let ExecutorAction::Feed(list) = feed {
        assert(list@[list@.len() - 1].ticket == mid.starving@[pre.starving@.len() as int]);
    }
}

/// Only a dying job changes the dead jobs.
pub proof fn lemma_dead_jobs_change_only_by_dying(
    pre: ExecutorState,
    msg: ExecutorCtl,
    post: ExecutorState,
    act: ExecutorAction,
)
    requires
        !(msg is HandleDyingJob),
        ExecutorState::next(pre, msg, post, act),
    ensures
        post.dead_jobs@ == pre.dead_jobs@,
{
}

/// Reporting the dead jobs changes nothing, so two reports in a row give the
/// same jobs.
pub proof fn lemma_report_idempotent(
    pre: ExecutorState,
    first: u64,
    mid: ExecutorState,
    first_act: ExecutorAction,
    second: u64,
    post: ExecutorState,
    second_act: ExecutorAction,
)
    requires
        ExecutorState::next(pre, ExecutorCtl::ReportDeadJobs(first), mid, first_act),
        ExecutorState::next(mid, ExecutorCtl::ReportDeadJobs(second), post, second_act),
    ensures
        first_act matches ExecutorAction::Report(_, a) && second_act matches ExecutorAction::Report(
            _,
            b,
        ) && job_views(a@) == job_views(b@),
        post.dead_jobs@ == pre.dead_jobs@,
{
}

/// A job whose consumer reports success leaves the tasks in flight again,
/// its task is told to stop, and no job becomes dead on the way.
pub proof fn lemma_success_round_trip(
    pre: ExecutorState,
    job: Job,
    mid: ExecutorState,
    spawn: ExecutorAction,
    result: JobResult,
    post: ExecutorState,
    signal: ExecutorAction,
)
    requires
        !id_seq(pre.tasks@).contains(job.id@),
        result.job_id@ == job.id@,
        result.status == JobStatus::Succeeded,
        ExecutorState::next(pre, ExecutorCtl::WorkOn(job), mid, spawn),
        ExecutorState::next(mid, ExecutorCtl::HandleJobResult(result), post, signal),
    ensures
        spawn matches ExecutorAction::Spawn(t) && t.job@ == job@,
        signal == ExecutorAction::Signal(result.job_id, TaskCtl::Terminate),
        id_seq(post.tasks@) == id_seq(pre.tasks@),
        post.dead_jobs@ == pre.dead_jobs@,
{
    let ids = id_seq(pre.tasks@);
    let others = other_than(job.id@);
    assert(id_seq(mid.tasks@) == ids.push(job.id@));
    assert(ids.push(job.id@).contains(job.id@)) by {
        assert(ids.push(job.id@)[ids.len() as int] == job.id@);
    }
    ids.lemma_filter_push(job.id@, others);
    assert(ids.filter(others) == ids) by {
        assert forall|i: int| 0 <= i < ids.len() implies others(#[trigger] ids[i]) by {
            assert(ids.contains(ids[i]));
        }
        lemma_filter_all_kept(ids, others);
    }
}

/// Filtering by a predicate that holds of every element keeps the sequence.
proof fn lemma_filter_all_kept(s: Seq<Seq<char>>, p: spec_fn(Seq<char>) -> bool)
    requires
        forall|i: int| 0 <= i < s.len() ==> p(#[trigger] s[i]),
    ensures
        s.filter(p) == s,
    decreases s.len(),
{
    reveal(Seq::filter);
    if s.len() > 0 {
        lemma_filter_all_kept(s.drop_last(), p);
        assert(s.drop_last().push(s.last()) =~= s);
    } else {
        assert(s.filter(p) =~= s);
    }
}

/// `states` goes through `msgs`, asking for `acts`, one message at a time.
pub open spec fn is_exec_run(
    states: Seq<ExecutorState>,
    msgs: Seq<ExecutorCtl>,
    acts: Seq<ExecutorAction>,
) -> bool {
    &&& states.len() == msgs.len() + 1
    &&& acts.len() == msgs.len()
    &&& forall|i: int|
        0 <= i < msgs.len() ==> ExecutorState::next(
            #[trigger] states[i],
            msgs[i],
            states[i + 1],
            acts[i],
        )
}

/// `msgs` submits `jobs` one after another, then reports each of them, in
/// the same order, as succeeded.
pub open spec fn submit_then_succeed(msgs: Seq<ExecutorCtl>, jobs: Seq<Job>) -> bool {
    &&& msgs.len() == 2 * jobs.len()
    &&& forall|i: int| 0 <= i < jobs.len() ==> #[trigger] msgs[i] == ExecutorCtl::WorkOn(jobs[i])
    &&& forall|i: int|
        0 <= i < jobs.len() ==> reports_success(#[trigger] msgs[jobs.len() + i], jobs[i].id@)
}

/// `msg` reports the job with id `id` as succeeded.
pub open spec fn reports_success(msg: ExecutorCtl, id: Seq<char>) -> bool {
    msg matches ExecutorCtl::HandleJobResult(r) && r.job_id@ == id && r.status
        == JobStatus::Succeeded
}

/// `act` tells the task of the job with id `id` to stop.
pub open spec fn terminates(act: ExecutorAction, id: Seq<char>) -> bool {
    act matches ExecutorAction::Signal(i, ctl) && i@ == id && ctl == TaskCtl::Terminate
}

/// `act` starts a task for `job`.
pub open spec fn spawns(act: ExecutorAction, job: JobView) -> bool {
    act matches ExecutorAction::Spawn(t) && t.job@ == job
}

proof fn lemma_submitted_are_held(
    states: Seq<ExecutorState>,
    msgs: Seq<ExecutorCtl>,
    acts: Seq<ExecutorAction>,
    jobs: Seq<Job>,
    k: int,
)
    requires
        is_exec_run(states, msgs, acts),
        submit_then_succeed(msgs, jobs),
        0 <= k <= jobs.len(),
    ensures
        forall|i: int| 0 <= i < k ==> id_seq(states[k].tasks@).contains(#[trigger] jobs[i].id@),
        states[k].dead_jobs@ == states[0].dead_jobs@,
    decreases k,
{
    if k > 0 {
        lemma_submitted_are_held(states, msgs, acts, jobs, k - 1);
        let pre = id_seq(states[k - 1].tasks@);
        assert(msgs[k - 1] == ExecutorCtl::WorkOn(jobs[k - 1]));
        assert(ExecutorState::next(states[k - 1], msgs[k - 1], states[k], acts[k - 1]));
        assert forall|i: int| 0 <= i < k implies id_seq(states[k].tasks@).contains(
            #[trigger] jobs[i].id@,
        ) by {
            if !pre.contains(jobs[k - 1].id@) {
                assert(pre.push(jobs[k - 1].id@)[pre.len() as int] == jobs[k - 1].id@);
                if i < k - 1 {
                    let x = choose|x: int| 0 <= x < pre.len() && pre[x] == jobs[i].id@;
                    assert(pre.push(jobs[k - 1].id@)[x] == jobs[i].id@);
                }
            }
        }
    }
}

proof fn lemma_unacknowledged_are_held(
    states: Seq<ExecutorState>,
    msgs: Seq<ExecutorCtl>,
    acts: Seq<ExecutorAction>,
    jobs: Seq<Job>,
    k: int,
)
    requires
        is_exec_run(states, msgs, acts),
        submit_then_succeed(msgs, jobs),
        forall|i: int, j: int| 0 <= i < j < jobs.len() ==> jobs[i].id@ != jobs[j].id@,
        0 <= k <= jobs.len(),
    ensures
        forall|i: int|
            k <= i < jobs.len() ==> id_seq(states[jobs.len() + k].tasks@).contains(
                #[trigger] jobs[i].id@,
            ),
        forall|i: int| 0 <= i < k ==> terminates(#[trigger] acts[jobs.len() + i], jobs[i].id@),
        states[jobs.len() + k].dead_jobs@ == states[0].dead_jobs@,
    decreases k,
{
    let n = jobs.len() as int;
    if k == 0 {
        lemma_submitted_are_held(states, msgs, acts, jobs, n);
    } else {
        lemma_unacknowledged_are_held(states, msgs, acts, jobs, k - 1);
        let m = n + k - 1;
        assert(ExecutorState::next(states[m], msgs[m], states[m + 1], acts[m]));
        let done = jobs[k - 1].id@;
        assert(reports_success(msgs[n + (k - 1)], done));
        let pre = id_seq(states[m].tasks@);
        assert(pre.contains(done));
        assert forall|i: int| k <= i < n implies id_seq(states[n + k].tasks@).contains(
            #[trigger] jobs[i].id@,
        ) by {
            assert(pre.contains(jobs[i].id@));
            let x = choose|x: int| 0 <= x < pre.len() && pre[x] == jobs[i].id@;
            assert(other_than(done)(pre[x]));
            pre.lemma_filter_contains(other_than(done), x);
        }
        assert(n + k == m + 1);
    }
}

/// Jobs with distinct ids, each submitted and then reported as succeeded,
/// each get a task of their own, each task is told to stop, and no job
/// becomes dead.
pub proof fn lemma_all_succeed_none_dead(
    states: Seq<ExecutorState>,
    msgs: Seq<ExecutorCtl>,
    acts: Seq<ExecutorAction>,
    jobs: Seq<Job>,
)
    requires
        is_exec_run(states, msgs, acts),
        submit_then_succeed(msgs, jobs),
        forall|i: int, j: int| 0 <= i < j < jobs.len() ==> jobs[i].id@ != jobs[j].id@,
    ensures
        forall|i: int| 0 <= i < jobs.len() ==> spawns(#[trigger] acts[i], jobs[i]@),
        forall|i: int| 0 <= i < jobs.len() ==> terminates(#[trigger] acts[jobs.len() + i], jobs[i].id@),
        states.last().dead_jobs@ == states[0].dead_jobs@,
{
    let n = jobs.len() as int;
    lemma_unacknowledged_are_held(states, msgs, acts, jobs, n);
    assert forall|i: int| 0 <= i < n implies spawns(#[trigger] acts[i], jobs[i]@) by {
        assert(msgs[i] == ExecutorCtl::WorkOn(jobs[i]));
        assert(ExecutorState::next(states[i], msgs[i], states[i + 1], acts[i]));
    }
    assert(states.len() - 1 == n + n);
}

} // verus!
