use lakh::executor::{Executor, ExecutorAction, ExecutorCtl, ExecutorState};
use lakh::job::{
    backoff_seconds, calc_wait_dur, expand_delay, Duration, ExecutionTime, Job, JobResult,
    JobStatus, Timestamp,
};
use lakh::manager::{collect_dead_jobs, parse_job_names, Config, Manager, RequestError};
use lakh::queue::FifoQueue;
use lakh::task::{FailReason, Task, TaskAction, TaskCtl, TaskEvent, TaskPhase};
use lakh::worker::{contains_id, without_id, Worker};

const SEC: u128 = 1_000_000_000;

fn job(id: &str, name: &str, exec: ExecutionTime, reservation: Option<Duration>) -> Job {
    Job {
        id: id.to_string(),
        name: name.to_string(),
        args: vec!["2".to_string(), "3".to_string()],
        execution_time: Some(exec),
        reservation_time: reservation,
    }
}

fn result(id: &str, name: &str, status: JobStatus) -> JobResult {
    JobResult { job_id: id.to_string(), job_name: name.to_string(), status, job: None }
}

fn now() -> Timestamp {
    Timestamp { seconds: 1_700_000_000, nanos: 0 }
}

fn executor(max_retry: u8, name: &str) -> ExecutorState {
    Executor::new(max_retry).spawn(name.to_string())
}

fn spawn(ex: &mut ExecutorState, j: Job) -> Task {
    match ex.handle(ExecutorCtl::WorkOn(j)) {
        ExecutorAction::Spawn(t) => t,
        other => panic!("expected a task, got {:?}", other),
    }
}

/// Runs a task from the top of its loop to its dispatch, with the worker
/// that the executor provides; returns the worker id and the job sent.
fn attempt(task: &mut Task, ex: &mut ExecutorState, ticket: u64) -> (String, Job) {
    assert!(matches!(task.step(TaskEvent::Begin(now())), TaskAction::Sleep(_)));
    assert!(matches!(task.step(TaskEvent::WaitElapsed), TaskAction::RequestWorker));
    let w = match ex.handle(ExecutorCtl::ProvideWorker(ticket)) {
        ExecutorAction::Provide(t, w) => {
            assert_eq!(t, ticket);
            w
        }
        other => panic!("expected a worker, got {:?}", other),
    };
    match task.step(TaskEvent::WorkerProvided(w.clone())) {
        TaskAction::Dispatch(to, sent) => {
            assert_eq!(to, w);
            (to, sent)
        }
        other => panic!("expected a dispatch, got {:?}", other),
    }
}

fn dead_ids(ex: &mut ExecutorState) -> Vec<String> {
    match ex.handle(ExecutorCtl::ReportDeadJobs(99)) {
        ExecutorAction::Report(99, jobs) => jobs.into_iter().map(|j| j.id).collect(),
        other => panic!("expected a report, got {:?}", other),
    }
}

#[test]
fn happy_path() {
    let names = parse_job_names(Some(b"add")).unwrap();
    assert_eq!(names, vec!["add".to_string()]);
    let mut ex = executor(30, "add");
    assert!(matches!(ex.handle(ExecutorCtl::AddWorker("w1".into())), ExecutorAction::Feed(v) if v.is_empty()));
    let j1 = job("j1", "add", ExecutionTime::Immediate, Some(Duration::from_secs(1)));
    let mut task = spawn(&mut ex, j1);
    let (w, sent) = attempt(&mut task, &mut ex, 1);
    assert_eq!(w, "w1");
    assert_eq!(sent.id, "j1");
    assert_eq!(sent.args, vec!["2".to_string(), "3".to_string()]);
    assert!(matches!(task.step(TaskEvent::Dispatched(true)), TaskAction::AwaitResult(n) if n == SEC));
    match ex.handle(ExecutorCtl::HandleJobResult(result("j1", "add", JobStatus::Succeeded))) {
        ExecutorAction::Signal(id, TaskCtl::Terminate) => assert_eq!(id, "j1"),
        other => panic!("unexpected {:?}", other),
    }
    assert!(matches!(task.step(TaskEvent::Message(TaskCtl::Terminate)), TaskAction::Complete));
    assert!(matches!(task.phase, TaskPhase::Finished));
    assert!(ex.tasks.is_empty());
    assert!(dead_ids(&mut ex).is_empty());
}

#[test]
fn retry_then_success() {
    let mut ex = executor(30, "add");
    ex.handle(ExecutorCtl::AddWorker("w1".into()));
    let j1 = job("j1", "add", ExecutionTime::Immediate, Some(Duration::from_secs(1)));
    let mut task = spawn(&mut ex, j1);
    attempt(&mut task, &mut ex, 1);
    task.step(TaskEvent::Dispatched(true));
    match ex.handle(ExecutorCtl::HandleJobResult(result("j1", "add", JobStatus::Failed))) {
        ExecutorAction::Signal(id, TaskCtl::Retry) => assert_eq!(id, "j1"),
        other => panic!("unexpected {:?}", other),
    }
    assert!(matches!(task.step(TaskEvent::Message(TaskCtl::Retry)), TaskAction::NextAttempt));
    assert_eq!(task.try_count, 1);
    // second delivery comes at least 15 s after the first
    match task.step(TaskEvent::Begin(now())) {
        TaskAction::Sleep(n) => assert!(n >= 15 * SEC),
        other => panic!("unexpected {:?}", other),
    }
    task.step(TaskEvent::WaitElapsed);
    let w = match ex.handle(ExecutorCtl::ProvideWorker(2)) {
        ExecutorAction::Provide(_, w) => w,
        other => panic!("unexpected {:?}", other),
    };
    assert!(matches!(task.step(TaskEvent::WorkerProvided(w)), TaskAction::Dispatch(_, ref j) if j.id == "j1"));
    task.step(TaskEvent::Dispatched(true));
    assert_eq!(task.try_count, 2);
    ex.handle(ExecutorCtl::HandleJobResult(result("j1", "add", JobStatus::Succeeded)));
    assert!(matches!(task.step(TaskEvent::Message(TaskCtl::Terminate)), TaskAction::Complete));
    assert!(dead_ids(&mut ex).is_empty());
}

#[test]
fn starvation_stagger() {
    let mut ex = executor(30, "add");
    for id in ["j1", "j2", "j3"] {
        spawn(&mut ex, job(id, "add", ExecutionTime::Immediate, None));
    }
    for ticket in 1..=3u64 {
        assert!(matches!(ex.handle(ExecutorCtl::ProvideWorker(ticket)), ExecutorAction::Starve(t) if t == ticket));
    }
    match ex.handle(ExecutorCtl::AddWorker("w1".into())) {
        ExecutorAction::Feed(list) => {
            let got: Vec<(u64, String, u128)> =
                list.into_iter().map(|f| (f.ticket, f.worker, f.delay_ms)).collect();
            assert_eq!(
                got,
                vec![(1, "w1".to_string(), 0), (2, "w1".to_string(), 100), (3, "w1".to_string(), 200)]
            );
        }
        other => panic!("unexpected {:?}", other),
    }
    assert!(ex.starving.is_empty());
    // a second worker wakes nobody
    assert!(matches!(ex.handle(ExecutorCtl::AddWorker("w2".into())), ExecutorAction::Nothing));
}

#[test]
fn dead_letter() {
    let mut ex = executor(2, "add");
    ex.handle(ExecutorCtl::AddWorker("w1".into()));
    let mut task = spawn(&mut ex, job("j1", "add", ExecutionTime::Immediate, Some(Duration::from_secs(1))));
    let mut dispatches = 0;
    for ticket in 1..=2u64 {
        attempt(&mut task, &mut ex, ticket);
        dispatches += 1;
        task.step(TaskEvent::Dispatched(true));
        ex.handle(ExecutorCtl::HandleJobResult(result("j1", "add", JobStatus::Failed)));
        task.step(TaskEvent::Message(TaskCtl::Retry));
    }
    assert_eq!(dispatches, 2);
    let dying = match task.step(TaskEvent::Begin(now())) {
        TaskAction::Dying(j, FailReason::MaxRetryReached) => j,
        other => panic!("unexpected {:?}", other),
    };
    assert!(matches!(task.phase, TaskPhase::Dead));
    assert_eq!(dying.id, "j1");
    ex.handle(ExecutorCtl::HandleDyingJob(dying, FailReason::MaxRetryReached));
    assert!(!contains_id(&ex.tasks, &"j1".to_string()));
    assert_eq!(dead_ids(&mut ex), vec!["j1".to_string()]);
    // idempotent until a new failure
    assert_eq!(dead_ids(&mut ex), vec!["j1".to_string()]);
}

#[test]
fn fire_and_forget() {
    let mut ex = executor(30, "add");
    ex.handle(ExecutorCtl::AddWorker("w1".into()));
    let mut task = spawn(&mut ex, job("j1", "add", ExecutionTime::Immediate, None));
    attempt(&mut task, &mut ex, 1);
    assert!(matches!(task.step(TaskEvent::Dispatched(true)), TaskAction::Complete));
    assert!(matches!(task.phase, TaskPhase::Finished));
    assert!(matches!(task.step(TaskEvent::Message(TaskCtl::Retry)), TaskAction::Nothing));
    assert!(matches!(task.step(TaskEvent::ReservationElapsed), TaskAction::Nothing));
    assert_eq!(task.try_count, 1);
    assert!(dead_ids(&mut ex).is_empty());
}

#[test]
fn worker_churn() {
    let mut ex = executor(30, "add");
    ex.handle(ExecutorCtl::AddWorker("wa".into()));
    ex.handle(ExecutorCtl::AddWorker("wb".into()));
    let mut task = spawn(&mut ex, job("j1", "add", ExecutionTime::Immediate, Some(Duration::from_secs(5))));
    assert!(matches!(task.step(TaskEvent::Begin(now())), TaskAction::Sleep(0)));
    task.step(TaskEvent::WaitElapsed);
    task.step(TaskEvent::WorkerProvided("wa".into()));
    match task.step(TaskEvent::Dispatched(false)) {
        TaskAction::RemoveWorker(w) => assert_eq!(w, "wa"),
        other => panic!("unexpected {:?}", other),
    }
    assert_eq!(task.try_count, 0);
    ex.handle(ExecutorCtl::RemoveWorker("wa".into()));
    let (w, _) = attempt(&mut task, &mut ex, 2);
    assert_eq!(w, "wb");
    task.step(TaskEvent::Dispatched(true));
    assert_eq!(task.try_count, 1);
}

#[test]
fn lost_worker_resets_policy_to_immediate() {
    let delayed = ExecutionTime::Delayed(Duration::from_secs(40));
    let mut task = Task::new(job("j1", "add", delayed, Some(Duration::from_secs(5))), 30);
    assert!(matches!(task.step(TaskEvent::Begin(now())), TaskAction::Sleep(n) if n == 40 * SEC));
    task.step(TaskEvent::WaitElapsed);
    task.step(TaskEvent::WorkerProvided("wa".into()));
    task.step(TaskEvent::Dispatched(false));
    assert_eq!(task.job.execution_time, Some(ExecutionTime::Immediate));
    assert!(matches!(task.step(TaskEvent::Begin(now())), TaskAction::Sleep(0)));
}

#[test]
fn control_messages_during_wait_are_drained() {
    let mut task = Task::new(job("j1", "add", ExecutionTime::Immediate, Some(Duration::from_secs(5))), 30);
    task.step(TaskEvent::Begin(now()));
    assert!(matches!(task.step(TaskEvent::Message(TaskCtl::Terminate)), TaskAction::Nothing));
    assert!(matches!(task.phase, TaskPhase::Waiting));
    assert!(matches!(task.step(TaskEvent::WaitElapsed), TaskAction::RequestWorker));
}

#[test]
fn reservation_timeout_backs_off() {
    let mut task = Task::new(job("j1", "add", ExecutionTime::Immediate, Some(Duration::from_secs(5))), 30);
    task.step(TaskEvent::Begin(now()));
    task.step(TaskEvent::WaitElapsed);
    task.step(TaskEvent::WorkerProvided("w".into()));
    assert!(matches!(task.step(TaskEvent::Dispatched(true)), TaskAction::AwaitResult(n) if n == 5 * SEC));
    assert!(matches!(task.step(TaskEvent::ReservationElapsed), TaskAction::NextAttempt));
    // try_count 1: 15 + (1 ^ 4) + r * 2 with r in [0, 30)
    match task.job.execution_time {
        Some(ExecutionTime::Delayed(d)) => {
            assert!(d.seconds >= 20 && d.seconds <= 20 + 29 * 2 && (d.seconds - 20) % 2 == 0);
            assert_eq!(d.nanos, 0);
        }
        other => panic!("unexpected {:?}", other),
    }
}

#[test]
fn zero_retry_cap_gives_up_at_once() {
    let mut task = Task::new(job("j1", "add", ExecutionTime::Immediate, None), 0);
    assert!(matches!(task.step(TaskEvent::Begin(now())), TaskAction::Dying(ref j, FailReason::MaxRetryReached) if j.id == "j1"));
}

#[test]
fn scheduled_in_the_past_waits_zero() {
    let past = ExecutionTime::Scheduled(Timestamp { seconds: 1_600_000_000, nanos: 5 });
    assert_eq!(calc_wait_dur(&Some(past), now()), 0);
}

#[test]
fn wait_durations() {
    let soon = ExecutionTime::Scheduled(Timestamp { seconds: 1_700_000_010, nanos: 500 });
    assert_eq!(calc_wait_dur(&Some(soon), now()), 10 * SEC + 500);
    assert_eq!(calc_wait_dur(&Some(ExecutionTime::Immediate), now()), 0);
    assert_eq!(calc_wait_dur(&None, now()), 0);
    let d = ExecutionTime::Delayed(Duration { seconds: 3, nanos: 250 });
    assert_eq!(calc_wait_dur(&Some(d), now()), 3 * SEC + 250);
    let negative = ExecutionTime::Delayed(Duration { seconds: -3, nanos: 0 });
    assert_eq!(calc_wait_dur(&Some(negative), now()), 0);
    let extreme = ExecutionTime::Scheduled(Timestamp { seconds: i64::MAX, nanos: i32::MAX });
    let from = Timestamp { seconds: i64::MIN, nanos: i32::MIN };
    let expected = (i64::MAX as i128 - i64::MIN as i128) as u128 * SEC
        + (i32::MAX as i128 - i32::MIN as i128) as u128;
    assert_eq!(calc_wait_dur(&Some(extreme), from), expected);
}

#[test]
fn backoff_formula() {
    assert_eq!(backoff_seconds(0, 0), 19);
    assert_eq!(backoff_seconds(1, 2), 15 + 5 + 4);
    assert_eq!(backoff_seconds(4, 0), 15);
    assert_eq!(backoff_seconds(29, 29), 15 + 25 + 29 * 30);
    assert_eq!(backoff_seconds(255, 255), 15 + 251 + 255 * 256);
    let mut j = job("j1", "add", ExecutionTime::Immediate, None);
    expand_delay(&mut j, 3, 10);
    assert_eq!(j.execution_time, Some(ExecutionTime::Delayed(Duration { seconds: 15 + 7 + 40, nanos: 0 })));
    assert_eq!(j.id, "j1");
}

#[test]
fn job_names_missing_is_invalid_argument() {
    assert_eq!(parse_job_names(None).unwrap_err(), RequestError::MissingJobNames);
}

#[test]
fn job_names_parsing() {
    assert_eq!(parse_job_names(Some(b"add;sub")).unwrap(), vec!["add".to_string(), "sub".to_string()]);
    assert_eq!(parse_job_names(Some(b"")).unwrap(), vec!["".to_string()]);
    assert_eq!(parse_job_names(Some(b"a;")).unwrap(), vec!["a".to_string(), "".to_string()]);
    assert_eq!(parse_job_names(Some(b"a b\t;c")).unwrap(), vec!["a b\t".to_string(), "c".to_string()]);
    assert_eq!(parse_job_names(Some(b"add\n")).unwrap_err(), RequestError::InvalidJobNames);
    assert_eq!(parse_job_names(Some(&[0x61, 0xc3, 0xa9])).unwrap_err(), RequestError::InvalidJobNames);
}

#[test]
fn registry_grows_once_per_name() {
    let mut m = Manager::new(Config::new("[::1]:50051".into(), 30));
    assert_eq!(m.exec_spawner.max_retry, 30);
    let first = m.open_executors(&vec!["add".into(), "sub".into(), "add".into()]);
    assert_eq!(first, vec!["add".to_string(), "sub".to_string()]);
    let second = m.open_executors(&vec!["sub".into(), "mul".into()]);
    assert_eq!(second, vec!["mul".to_string()]);
    assert_eq!(m.job_names, vec!["add".to_string(), "sub".to_string(), "mul".to_string()]);
}

#[test]
fn dead_jobs_are_concatenated() {
    let a = job("a", "add", ExecutionTime::Immediate, None);
    let b = job("b", "sub", ExecutionTime::Immediate, None);
    let c = job("c", "sub", ExecutionTime::Immediate, None);
    let all = collect_dead_jobs(vec![vec![a], vec![], vec![b, c]]);
    let ids: Vec<String> = all.into_iter().map(|j| j.id).collect();
    assert_eq!(ids, vec!["a".to_string(), "b".to_string(), "c".to_string()]);
}

#[test]
fn fifo_queue_keeps_order() {
    let mut q = FifoQueue::new();
    assert_eq!(q.len(), 0);
    q.enque(job("a", "add", ExecutionTime::Immediate, None));
    q.enque(job("b", "add", ExecutionTime::Immediate, None));
    let ids: Vec<String> = q.snapshot().into_iter().map(|j| j.id).collect();
    assert_eq!(ids, vec!["a".to_string(), "b".to_string()]);
    assert_eq!(q.len(), 2);
}

#[test]
fn hired_worker_gets_fresh_id() {
    let a = Worker::hire(7u32);
    let b = Worker::hire(8u32);
    assert_eq!(a.id.len(), 21);
    assert!(a.id.chars().all(|c| c.is_ascii_alphanumeric() || c == '_' || c == '-'));
    assert_ne!(a.id, b.id);
    assert_eq!(b.endpoint, 8);
    let w = Worker::new("w".to_string(), ());
    assert_eq!(w.id, "w");
}

#[test]
fn worker_removal_and_random_choice() {
    let mut ex = executor(30, "add");
    for w in ["w1", "w2", "w3"] {
        ex.handle(ExecutorCtl::AddWorker(w.into()));
    }
    ex.handle(ExecutorCtl::AddWorker("w2".into()));
    assert_eq!(ex.workers.len(), 3);
    ex.handle(ExecutorCtl::RemoveWorker("w2".into()));
    assert_eq!(ex.workers, vec!["w1".to_string(), "w3".to_string()]);
    for t in 0..20u64 {
        match ex.handle(ExecutorCtl::ProvideWorker(t)) {
            ExecutorAction::Provide(_, w) => assert!(w == "w1" || w == "w3"),
            other => panic!("unexpected {:?}", other),
        }
    }
    assert_eq!(without_id(&vec!["x".into(), "y".into(), "x".into()], &"x".into()), vec!["y".to_string()]);
}

#[test]
fn results_for_unknown_jobs_are_ignored() {
    let mut ex = executor(30, "add");
    assert!(matches!(ex.handle(ExecutorCtl::HandleJobResult(result("nope", "add", JobStatus::Succeeded))), ExecutorAction::Nothing));
    spawn(&mut ex, job("j1", "add", ExecutionTime::Immediate, None));
    spawn(&mut ex, job("j1", "add", ExecutionTime::Immediate, None));
    assert_eq!(ex.tasks.len(), 1);
    assert!(matches!(ex.handle(ExecutorCtl::HandleJobResult(result("j1", "add", JobStatus::Failed))), ExecutorAction::Signal(_, TaskCtl::Retry)));
    assert_eq!(ex.tasks.len(), 1);
}

#[test]
fn job_copy_is_field_for_field() {
    let j = job("j1", "add", ExecutionTime::Delayed(Duration::from_secs(2)), Some(Duration::from_secs(1)));
    let c = j.duplicate();
    assert_eq!((c.id, c.name, c.args, c.execution_time, c.reservation_time), (j.id, j.name, j.args, j.execution_time, j.reservation_time));
}

#[test]
fn all_succeed_no_dead_jobs() {
    let mut ex = executor(30, "add");
    ex.handle(ExecutorCtl::AddWorker("w1".into()));
    let mut tasks = Vec::new();
    for id in ["a", "b", "c"] {
        tasks.push(spawn(&mut ex, job(id, "add", ExecutionTime::Immediate, Some(Duration::from_secs(1)))));
    }
    let mut delivered = Vec::new();
    for (ticket, task) in tasks.iter_mut().enumerate() {
        let (_, sent) = attempt(task, &mut ex, ticket as u64);
        delivered.push(sent.id);
        task.step(TaskEvent::Dispatched(true));
    }
    assert_eq!(delivered, vec!["a".to_string(), "b".to_string(), "c".to_string()]);
    for (id, task) in ["a", "b", "c"].iter().zip(tasks.iter_mut()) {
        match ex.handle(ExecutorCtl::HandleJobResult(result(id, "add", JobStatus::Succeeded))) {
            ExecutorAction::Signal(got, TaskCtl::Terminate) => assert_eq!(got, *id),
            other => panic!("unexpected {:?}", other),
        }
        assert!(matches!(task.step(TaskEvent::Message(TaskCtl::Terminate)), TaskAction::Complete));
    }
    assert!(ex.tasks.is_empty());
    assert!(dead_ids(&mut ex).is_empty());
}
