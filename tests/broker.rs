use symbolicator::broker::{Job, JobBroker, JobKind, JobResult, PollOutcome, PollStep, RequestId};
use symbolicator::types::{ErrorKind, RequestOptions, Scope};

fn stacktrace_job() -> Job {
    Job {
        kind: JobKind::RawStacktrace,
        scope: Scope::Global,
        sources: vec!["microsoft".to_string()],
        options: RequestOptions { dif_candidates: false },
        payload: b"{\"stacktraces\":[]}".to_vec(),
    }
}

fn ready_bytes(step: PollStep) -> Vec<u8> {
    match step {
        PollStep::Done(PollOutcome::Ready(JobResult::Completed(b))) => b,
        _ => panic!("expected a completed result"),
    }
}

#[test]
fn submit_poll_complete_evict() {
    let mut broker = JobBroker::new(60, 30);
    let id = broker.submit(stacktrace_job()).unwrap();
    assert_eq!(id.value, 0);

    // Timeout 0: the deadline is now, so the poll answers at once.
    let deadline = broker.deadline(100, Some(0));
    assert_eq!(deadline, 100);
    assert!(matches!(broker.poll_step(id, deadline, 100), PollStep::Done(PollOutcome::StillRunning)));

    // A longer wait keeps waiting until the engine finishes.
    let deadline = broker.deadline(100, Some(10));
    assert!(matches!(broker.poll_step(id, deadline, 101), PollStep::Wait));

    let (taken, job) = broker.start_next().unwrap();
    assert_eq!(taken, id);
    assert_eq!(job.kind, JobKind::RawStacktrace);
    assert!(broker.complete(id, JobResult::Completed(b"{\"frames\":[\"main\"]}".to_vec()), 105));
    assert_eq!(ready_bytes(broker.poll_step(id, deadline, 105)), b"{\"frames\":[\"main\"]}".to_vec());

    // Still retained just before the window ends.
    broker.evict(164);
    assert!(matches!(broker.poll_step(id, 0, 164), PollStep::Done(PollOutcome::Ready(_))));
    broker.evict(165);
    assert!(matches!(broker.poll_step(id, 0, 165), PollStep::Done(PollOutcome::Unknown)));
}

#[test]
fn never_issued_id_is_unknown() {
    let mut broker = JobBroker::new(60, 30);
    broker.submit(stacktrace_job()).unwrap();
    for deadline in [0u64, 50, u64::MAX] {
        assert!(matches!(
            broker.poll_step(RequestId { value: 7 }, deadline, 0),
            PollStep::Done(PollOutcome::Unknown)
        ));
    }
}

#[test]
fn concurrent_pollers_see_same_result() {
    let mut broker = JobBroker::new(60, 30);
    let id = broker.submit(stacktrace_job()).unwrap();
    broker.start_next().unwrap();
    assert!(broker.complete(id, JobResult::Completed(vec![1, 2, 3]), 10));
    let a = ready_bytes(broker.poll_step(id, 5, 10));
    let b = ready_bytes(broker.poll_step(id, 1000, 10));
    let c = ready_bytes(broker.poll_step(id, 0, 11));
    assert_eq!(a, vec![1, 2, 3]);
    assert_eq!(a, b);
    assert_eq!(b, c);
}

#[test]
fn failure_is_a_ready_payload() {
    let mut broker = JobBroker::new(60, 30);
    let id = broker.submit(stacktrace_job()).unwrap();
    broker.start_next().unwrap();
    assert!(broker.complete(id, JobResult::Failed(ErrorKind::MalformedInput), 3));
    assert!(matches!(
        broker.poll_step(id, 0, 3),
        PollStep::Done(PollOutcome::Ready(JobResult::Failed(ErrorKind::MalformedInput)))
    ));
}

#[test]
fn complete_requires_running_job() {
    let mut broker = JobBroker::new(60, 30);
    let id = broker.submit(stacktrace_job()).unwrap();
    assert!(!broker.complete(id, JobResult::Completed(vec![]), 1));
    assert!(!broker.complete(RequestId { value: 9 }, JobResult::Completed(vec![]), 1));
    broker.start_next().unwrap();
    assert!(broker.complete(id, JobResult::Completed(vec![4]), 2));
    // Terminal states are never left.
    assert!(!broker.complete(id, JobResult::Completed(vec![5]), 3));
    assert_eq!(ready_bytes(broker.poll_step(id, 0, 3)), vec![4]);
}

#[test]
fn jobs_start_in_submission_order() {
    let mut broker = JobBroker::new(60, 30);
    let a = broker.submit(stacktrace_job()).unwrap();
    let b = broker.submit(stacktrace_job()).unwrap();
    assert_eq!(b.value, a.value + 1);
    assert_eq!(broker.start_next().unwrap().0, a);
    assert_eq!(broker.start_next().unwrap().0, b);
    assert!(broker.start_next().is_none());
}

#[test]
fn missing_timeout_waits_the_maximum() {
    let broker = JobBroker::new(60, 30);
    assert_eq!(broker.deadline(100, None), 130);
    assert_eq!(broker.deadline(u64::MAX - 1, Some(5)), u64::MAX);
}

#[test]
fn eviction_keeps_running_jobs() {
    let mut broker = JobBroker::new(1, 30);
    let id = broker.submit(stacktrace_job()).unwrap();
    broker.start_next().unwrap();
    broker.evict(1_000);
    assert!(matches!(broker.poll_step(id, 0, 1_000), PollStep::Done(PollOutcome::StillRunning)));
}
