//! Controller lifecycle: progress accounting and cancellation.

use quer::controller::{SearchController, SearchPhase};

#[test]
fn full_run_counts_every_task_once() {
    let mut c = SearchController::new();
    assert_eq!(c.phase, SearchPhase::Idle);
    c.start_enumeration();
    assert_eq!(c.phase, SearchPhase::Enumerating);
    c.finish_enumeration(3);
    assert_eq!(c.phase, SearchPhase::Running);
    for _ in 0..3 {
        assert!(c.begin_task());
        c.finish_task();
    }
    assert!(c.all_tasks_done());
    assert_eq!(c.progress(), (3, 3));
    c.observe_completion();
    assert_eq!(c.phase, SearchPhase::Completed);
}

#[test]
fn zero_candidates_complete_at_once() {
    let mut c = SearchController::new();
    c.start_enumeration();
    c.finish_enumeration(0);
    assert_eq!(c.phase, SearchPhase::Completed);
    assert!(c.all_tasks_done());
    assert_eq!(c.progress(), (0, 0));
}

#[test]
fn cancellation_drains_the_queue_and_keeps_counts_exact() {
    let mut c = SearchController::new();
    c.start_enumeration();
    c.finish_enumeration(3);
    assert!(c.begin_task());
    c.cancel();
    assert_eq!(c.phase, SearchPhase::Cancelled);
    assert_eq!(c.pending, 0);
    // The two leftover tasks still run, find nothing to pop, and still
    // signal completion exactly once each.
    assert!(!c.begin_task());
    assert!(!c.begin_task());
    c.finish_task();
    c.finish_task();
    c.finish_task();
    assert_eq!(c.progress(), (3, 3));
    assert!(c.all_tasks_done());
    assert_eq!(c.phase, SearchPhase::Cancelled);
    assert_eq!(c.pending, 0);
}

#[test]
fn stray_events_never_corrupt_the_counters() {
    let mut c = SearchController::new();
    c.start_enumeration();
    c.finish_enumeration(1);
    // A stray finish before any task began changes nothing.
    c.finish_task();
    assert_eq!(c.progress(), (0, 1));
    assert!(c.begin_task());
    c.finish_task();
    // Extra finishes after every task is done change nothing.
    c.finish_task();
    c.finish_task();
    assert_eq!(c.progress(), (1, 1));
    // A task beyond the submitted count neither starts nor pops.
    assert!(!c.begin_task());
    assert_eq!(c.progress(), (1, 1));
}

#[test]
fn cancel_outside_running_is_ignored() {
    let mut c = SearchController::new();
    c.cancel();
    assert_eq!(c.phase, SearchPhase::Idle);
    c.start_enumeration();
    c.cancel();
    assert_eq!(c.phase, SearchPhase::Enumerating);
    c.finish_enumeration(0);
    c.cancel();
    assert_eq!(c.phase, SearchPhase::Completed);
}
