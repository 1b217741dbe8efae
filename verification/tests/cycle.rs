use startup_millenium::cycle::{AfterCycle, CycleTracker, MAX_CONSECUTIVE_FAILURES, SUCCESS_TARGET};

#[test]
fn test_attempts_are_numbered_from_one() {
    let mut tracker = CycleTracker::new();
    assert_eq!(tracker.next_attempt(), Some(1));
    assert_eq!(tracker.record(false), AfterCycle::RetryAfterDelay);
    assert_eq!(tracker.next_attempt(), Some(2));
    assert_eq!(tracker.record(true), AfterCycle::Proceed);
    assert_eq!(tracker.next_attempt(), Some(3));
    assert_eq!(tracker.successes(), 1);
}

#[test]
fn test_three_failures_in_a_row_abort() {
    let mut tracker = CycleTracker::new();
    assert_eq!(tracker.record(false), AfterCycle::RetryAfterDelay);
    assert_eq!(tracker.record(false), AfterCycle::RetryAfterDelay);
    assert_eq!(tracker.record(false), AfterCycle::Abort);
    assert_eq!(tracker.next_attempt(), None);
    assert_eq!(MAX_CONSECUTIVE_FAILURES, 3);
}

#[test]
fn test_success_clears_failures() {
    let mut tracker = CycleTracker::new();
    assert_eq!(tracker.record(false), AfterCycle::RetryAfterDelay);
    assert_eq!(tracker.record(false), AfterCycle::RetryAfterDelay);
    assert_eq!(tracker.record(true), AfterCycle::Proceed);
    assert_eq!(tracker.record(false), AfterCycle::RetryAfterDelay);
    assert_eq!(tracker.record(false), AfterCycle::RetryAfterDelay);
    assert_eq!(tracker.record(false), AfterCycle::Abort);
}

#[test]
fn test_finishes_after_target_successes() {
    let mut tracker = CycleTracker::new();
    let mut attempts = 0;
    while let Some(attempt) = tracker.next_attempt() {
        attempts += 1;
        assert_eq!(attempt, attempts);
        // Fail every other attempt: never three failures in a row.
        let completed = attempt % 2 == 0;
        assert_ne!(tracker.record(completed), AfterCycle::Abort);
    }
    assert_eq!(tracker.successes(), SUCCESS_TARGET);
    assert_eq!(attempts, 2 * SUCCESS_TARGET);
}
