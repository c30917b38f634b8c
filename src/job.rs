//! Jobs, job results and the time values they carry.
use vstd::prelude::*;

verus! {

/// Nanoseconds in one second.
pub const NANOS_PER_SEC: i128 = 1_000_000_000;

/// A point in wall-clock time: seconds and nanoseconds since the Unix epoch.
#[derive(Clone, Copy, Debug, PartialEq, Eq, Structural)]
pub struct Timestamp {
    pub seconds: i64,
    pub nanos: i32,
}

/// A signed span of time: seconds and nanoseconds.
#[derive(Clone, Copy, Debug, PartialEq, Eq, Structural)]
pub struct Duration {
    pub seconds: i64,
    pub nanos: i32,
}

impl Timestamp {
    /// The instant as a number of nanoseconds since the epoch.
    pub open spec fn total_nanos(self) -> int {
        self.seconds * 1_000_000_000 + self.nanos
    }
}

impl Duration {
    /// The span as a number of nanoseconds.
    pub open spec fn total_nanos(self) -> int {
        self.seconds * 1_000_000_000 + self.nanos
    }

    /// The span as a sleep length: negative spans count as zero.
    pub open spec fn wait_nanos(self) -> int {
        if self.total_nanos() < 0 { 0 } else { self.total_nanos() }
    }

    /// A span of whole seconds.
    pub fn from_secs(seconds: i64) -> (r: Duration)
        ensures
            r.seconds == seconds,
            r.nanos == 0,
    {
        Duration { seconds, nanos: 0 }
    }

    /// The span as a sleep length in nanoseconds; negative spans give zero.
    pub fn to_wait_nanos(&self) -> (r: u128)
        ensures
            r == self.wait_nanos(),
    {
        let total: i128 = self.seconds as i128 * NANOS_PER_SEC + self.nanos as i128;
        if total < 0 {
            0
        } else {
            total as u128
        }
    }
}

/// When a job becomes due.
#[derive(Clone, Copy, Debug, PartialEq, Eq, Structural)]
pub enum ExecutionTime {
    /// As soon as possible.
    Immediate,
    /// At an absolute wall-clock instant.
    Scheduled(Timestamp),
    /// After a span measured from the start of the attempt.
    Delayed(Duration),
}

/// A unit of work submitted by a producer.
#[derive(Clone, Debug)]
pub struct Job {
    pub id: String,
    pub name: String,
    pub args: Vec<String>,
    pub execution_time: Option<ExecutionTime>,
    /// How long to wait for a result before the attempt counts as failed;
    /// `None` means the job is not waited for at all.
    pub reservation_time: Option<Duration>,
}

/// The content of a [`Job`], with strings as character sequences.
pub struct JobView {
    pub id: Seq<char>,
    pub name: Seq<char>,
    pub args: Seq<Seq<char>>,
    pub execution_time: Option<ExecutionTime>,
    pub reservation_time: Option<Duration>,
}

impl View for Job {
    type V = JobView;

    open spec fn view(&self) -> JobView {
        JobView {
            id: self.id@,
            name: self.name@,
            args: self.args@.map_values(|a: String| a@),
            execution_time: self.execution_time,
            reservation_time: self.reservation_time,
        }
    }
}

/// What a consumer reports of one attempt.
#[derive(Clone, Copy, Debug, PartialEq, Eq, Structural)]
pub enum JobStatus {
    Succeeded,
    Failed,
}

/// A consumer's report on a job it received.
#[derive(Clone, Debug)]
pub struct JobResult {
    pub job_id: String,
    pub job_name: String,
    pub status: JobStatus,
    pub job: Option<Job>,
}

/// The pre-attempt wait, in nanoseconds, that an execution-time policy asks
/// for when the attempt starts at `now`.
pub open spec fn wait_nanos(exec_time: Option<ExecutionTime>, now: Timestamp) -> int {
    match exec_time {
        None => 0,
        Some(ExecutionTime::Immediate) => 0,
        Some(ExecutionTime::Scheduled(t)) => {
            let d = t.total_nanos() - now.total_nanos();
            if d < 0 { 0 } else { d }
        },
        Some(ExecutionTime::Delayed(d)) => d.wait_nanos(),
    }
}

/// The pre-attempt wait in nanoseconds: zero for an immediate job (or one
/// without a policy), the span for a delayed one, and the time left until
/// the instant for a scheduled one; a negative wait collapses to zero.
pub fn calc_wait_dur(exec_time: &Option<ExecutionTime>, now: Timestamp) -> (r: u128)
    ensures
        r == wait_nanos(*exec_time, now),
{
    match exec_time {
        None => 0,
        Some(ExecutionTime::Immediate) => 0,
        Some(ExecutionTime::Scheduled(t)) => {
            let due: i128 = t.seconds as i128 * NANOS_PER_SEC + t.nanos as i128;
            let current: i128 = now.seconds as i128 * NANOS_PER_SEC + now.nanos as i128;
            let d: i128 = due - current;
            if d < 0 {
                0
            } else {
                d as u128
            }
        },
        Some(ExecutionTime::Delayed(d)) => d.to_wait_nanos(),
    }
}

/// Smallest back-off, in seconds.
pub const BACKOFF_BASE_SECS: u64 = 15;

/// Upper bound (exclusive) of the random factor of the back-off.
pub const BACKOFF_JITTER_BOUND: u8 = 30;

/// The back-off after the `try_count`-th attempt, in seconds, for the random
/// factor `jitter`: `15 + (try_count XOR 4) + jitter * (try_count + 1)`.
pub open spec fn backoff_secs(try_count: u8, jitter: u8) -> int {
    15 + (try_count ^ 4u8) + jitter * (try_count + 1)
}

/// Computes [`backoff_secs`].
pub fn backoff_seconds(try_count: u8, jitter: u8) -> (r: u64)
    ensures
        r == backoff_secs(try_count, jitter),
{
    assert(jitter * (try_count + 1) <= 255 * 256) by (nonlinear_arith)
        requires
            jitter <= 255,
            try_count <= 255,
    ;
    let spread: u64 = jitter as u64 * (try_count as u64 + 1);
    BACKOFF_BASE_SECS + (try_count ^ 4u8) as u64 + spread
}

/// The job with its policy replaced by the back-off delay for `try_count`
/// and `jitter`; all other fields unchanged.
pub open spec fn with_backoff(job: Job, try_count: u8, jitter: u8) -> Job {
    Job {
        execution_time: Some(ExecutionTime::Delayed(
            Duration { seconds: backoff_secs(try_count, jitter) as i64, nanos: 0 },
        )),
        ..job
    }
}

/// Sets the job's policy to the back-off delay for `try_count` and `jitter`.
pub fn expand_delay(job: &mut Job, try_count: u8, jitter: u8)
    ensures
        *final(job) == with_backoff(*old(job), try_count, jitter),
{
    let seconds = backoff_seconds(try_count, jitter);
    job.execution_time = Some(ExecutionTime::Delayed(Duration::from_secs(seconds as i64)));
}

impl Job {
    /// A copy of the job, field for field.
    pub fn duplicate(&self) -> (r: Job)
        ensures
            r@ == self@,
    {
        let mut args: Vec<String> = Vec::new();
        let mut i: usize = 0;
        while i < self.args.len()
            invariant
                i <= self.args@.len(),
                args@ == self.args@.subrange(0, i as int),
            decreases self.args@.len() - i,
        {
            args.push(self.args[i].clone());
            i += 1;
        }
        assert(args@ == self.args@);
        assert(args@.map_values(|a: String| a@) == self.args@.map_values(|a: String| a@));
        Job {
            id: self.id.clone(),
            name: self.name.clone(),
            args,
            execution_time: self.execution_time,
            reservation_time: self.reservation_time,
        }
    }
}

/// A job scheduled for an instant that has already passed starts without
/// waiting.
pub proof fn lemma_past_schedule_no_wait(at: Timestamp, now: Timestamp)
    requires
        at.total_nanos() <= now.total_nanos(),
    ensures
        wait_nanos(Some(ExecutionTime::Scheduled(at)), now) == 0,
{
}

} // verus!
