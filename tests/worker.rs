use edge_workers::supervisor::TerminationReason;
use edge_workers::worker::{RequestFailure, WorkerLifecycle, WorkerPhase};

#[test]
fn boot_success_makes_worker_ready() {
    let mut w = WorkerLifecycle::new();
    assert!(w.boot_finished(true).is_empty());
    assert_eq!(w.phase, WorkerPhase::Ready);
}

#[test]
fn boot_failure_fails_held_requests() {
    let mut w = WorkerLifecycle::new();
    w.submit(3).unwrap();
    assert_eq!(w.boot_finished(false), vec![3]);
    assert_eq!(w.ended_by, Some(RequestFailure::BootFailed));
    assert_eq!(w.submit(4), Err(RequestFailure::BootFailed));
}

#[test]
fn termination_fails_pending_requests() {
    let mut w = WorkerLifecycle::new();
    w.boot_finished(true);
    w.submit(1).unwrap();
    w.submit(2).unwrap();
    w.submit(3).unwrap();
    assert!(w.complete(2));
    assert!(!w.complete(2));
    let cause = RequestFailure::Terminated(TerminationReason::WallClockTimeLimit);
    assert_eq!(w.end(cause), vec![1, 3]);
    assert_eq!(w.phase, WorkerPhase::Terminated);
    assert!(w.pending.is_empty());
    assert_eq!(w.submit(9), Err(cause));
}

#[test]
fn shutdown_twice_fails_nothing_twice() {
    let mut w = WorkerLifecycle::new();
    w.boot_finished(true);
    w.submit(5).unwrap();
    assert_eq!(w.end(RequestFailure::ShutDown), vec![5]);
    assert!(w.end(RequestFailure::ShutDown).is_empty());
    assert_eq!(w.ended_by, Some(RequestFailure::ShutDown));
}
