//! The outer loop: launch and close the game again and again until it has
//! been opened enough times, giving up after too many failures in a row.

use vstd::prelude::*;

verus! {

/// Completed open/close cycles that the achievement requires.
pub const SUCCESS_TARGET: u32 = 1000;

/// Consecutive failed attempts after which the run is given up.
pub const MAX_CONSECUTIVE_FAILURES: u32 = 3;

/// Seconds to wait before retrying after a failed attempt.
pub const RETRY_DELAY_SECS: u64 = 5;

/// What follows a recorded cycle.
#[derive(Clone, Copy, Debug, PartialEq, Eq, Structural)]
pub enum AfterCycle {
    /// The cycle completed: go on to the next attempt at once.
    Proceed,
    /// The cycle failed: wait [`RETRY_DELAY_SECS`], then retry.
    RetryAfterDelay,
    /// Too many consecutive failures: give up.
    Abort,
}

/// Counts completed cycles, consecutive failures and attempts.
pub struct CycleTracker {
    successes: u32,
    failures: u32,
    attempt: u32,
}

/// What a [`CycleTracker`] holds.
pub struct CycleTrackerView {
    /// Cycles completed so far.
    pub successes: nat,
    /// Failed attempts since the last completed cycle.
    pub failures: nat,
    /// Attempts made so far.
    pub attempt: nat,
}

impl View for CycleTracker {
    type V = CycleTrackerView;

    closed spec fn view(&self) -> CycleTrackerView {
        CycleTrackerView {
            successes: self.successes as nat,
            failures: self.failures as nat,
            attempt: self.attempt as nat,
        }
    }
}

/// The counts that a run can reach: at most the target of completed cycles,
/// at most the limit of consecutive failures, and no more attempts than each
/// completed cycle with the failures that may precede it, plus the current
/// failures.
pub open spec fn reachable(t: CycleTrackerView) -> bool {
    &&& t.successes <= SUCCESS_TARGET
    &&& t.failures <= MAX_CONSECUTIVE_FAILURES
    &&& t.attempt <= MAX_CONSECUTIVE_FAILURES * t.successes + t.failures
}

/// The run goes on: the target is not reached and it has not been given up.
pub open spec fn running(t: CycleTrackerView) -> bool {
    t.successes < SUCCESS_TARGET && t.failures < MAX_CONSECUTIVE_FAILURES
}

/// The counts after recording one attempt that did or did not complete, and
/// what follows: a completed cycle counts and clears the failures; a failure
/// counts, and the run is given up on the failure that reaches the limit.
pub open spec fn record_step(t: CycleTrackerView, completed: bool) -> (CycleTrackerView, AfterCycle) {
    let attempt = t.attempt + 1;
    if completed {
        (CycleTrackerView { successes: t.successes + 1, failures: 0, attempt }, AfterCycle::Proceed)
    } else if t.failures + 1 >= MAX_CONSECUTIVE_FAILURES {
        (CycleTrackerView { failures: t.failures + 1, attempt, ..t }, AfterCycle::Abort)
    } else {
        (CycleTrackerView { failures: t.failures + 1, attempt, ..t }, AfterCycle::RetryAfterDelay)
    }
}

impl CycleTracker {
    #[verifier::type_invariant]
    spec fn counts_reachable(self) -> bool {
        reachable(self@)
    }

    /// A tracker before the first attempt.
    pub fn new() -> (tracker: CycleTracker)
        ensures
            tracker@ == (CycleTrackerView { successes: 0, failures: 0, attempt: 0 }),
    {
        CycleTracker { successes: 0, failures: 0, attempt: 0 }
    }

    /// Cycles completed so far.
    pub fn successes(&self) -> (successes: u32)
        ensures
            successes == self@.successes,
    {
        self.successes
    }

    /// The number of the next attempt, counting from 1, or `None` when the run
    /// is over: the target of completed cycles is reached, or it was given up.
    pub fn next_attempt(&self) -> (attempt: Option<u32>)
        ensures
            match attempt {
                Some(n) => running(self@) && n == self@.attempt + 1,
                None => !running(self@),
            },
            reachable(self@),
    {
        proof {
            use_type_invariant(self);
        }
        if self.successes < SUCCESS_TARGET && self.failures < MAX_CONSECUTIVE_FAILURES {
            Some(self.attempt + 1)
        } else {
            None
        }
    }

    /// Records the attempt just made, which did or did not complete an
    /// open/close cycle, and says what follows.
    pub fn record(&mut self, completed: bool) -> (after: AfterCycle)
        requires
            running(old(self)@),
        ensures
            (final(self)@, after) == record_step(old(self)@, completed),
            final(self)@.successes == old(self)@.successes + if completed {
                1int
            } else {
                0int
            },
            final(self)@.attempt == old(self)@.attempt + 1,
            completed ==> final(self)@.failures == 0,
            !completed ==> final(self)@.failures == old(self)@.failures + 1,
    {
        proof {
            use_type_invariant(&*self);
        }
        let attempt = self.attempt + 1;
        if completed {
            *self = CycleTracker { successes: self.successes + 1, failures: 0, attempt };
            AfterCycle::Proceed
        } else {
            let failures = self.failures + 1;
            *self = CycleTracker { successes: self.successes, failures, attempt };
            if failures >= MAX_CONSECUTIVE_FAILURES {
                AfterCycle::Abort
            } else {
                AfterCycle::RetryAfterDelay
            }
        }
    }
}

/// Recording an attempt of a running run keeps the counts reachable; in
/// particular no more than [`SUCCESS_TARGET`] cycles are ever counted and a
/// run makes at most `MAX_CONSECUTIVE_FAILURES * SUCCESS_TARGET +
/// MAX_CONSECUTIVE_FAILURES` attempts.
pub proof fn lemma_record_keeps_counts_reachable(t: CycleTrackerView, completed: bool)
    requires
        reachable(t),
        running(t),
    ensures
        reachable(record_step(t, completed).0),
        record_step(t, completed).0.attempt <= MAX_CONSECUTIVE_FAILURES * SUCCESS_TARGET
            + MAX_CONSECUTIVE_FAILURES,
{
    let n = record_step(t, completed).0;
    assert(n.attempt <= MAX_CONSECUTIVE_FAILURES * n.successes + n.failures);
    assert(MAX_CONSECUTIVE_FAILURES * n.successes <= MAX_CONSECUTIVE_FAILURES * SUCCESS_TARGET);
}

/// Each recorded attempt counts once: a completed cycle adds exactly one to
/// the completed cycles and clears the failures, a failed one adds exactly
/// one to the failures and leaves the completed cycles as they were; either
/// way the attempt count grows by one. So a run in which every cycle
/// completes finishes after exactly [`SUCCESS_TARGET`] attempts.
pub proof fn lemma_each_attempt_counts_once(t: CycleTrackerView, completed: bool)
    ensures
        record_step(t, completed).0.successes == t.successes + if completed {
            1int
        } else {
            0int
        },
        record_step(t, completed).0.failures == if completed {
            0
        } else {
            t.failures + 1
        },
        record_step(t, completed).0.attempt == t.attempt + 1,
{
}

/// Starting from a fresh tracker, `n` completed cycles in a row count `n`
/// successes after `n` attempts.
pub proof fn lemma_all_successes_count(n: nat)
    ensures
        successes_after_completed(n).successes == n,
        successes_after_completed(n).attempt == n,
        successes_after_completed(n).failures == 0,
    decreases n,
{
    if n > 0 {
        lemma_all_successes_count((n - 1) as nat);
    }
}

/// The counts after `n` completed cycles recorded on a fresh tracker.
pub open spec fn successes_after_completed(n: nat) -> CycleTrackerView
    decreases n,
{
    if n == 0 {
        CycleTrackerView { successes: 0, failures: 0, attempt: 0 }
    } else {
        record_step(successes_after_completed((n - 1) as nat), true).0
    }
}

/// A completed cycle clears the failures, so only failures in a row count
/// towards giving up.
pub proof fn lemma_success_clears_failures(t: CycleTrackerView)
    ensures
        record_step(t, true).0.failures == 0,
        record_step(t, true).1 == AfterCycle::Proceed,
{
}

/// The run is given up exactly on the failure that makes
/// [`MAX_CONSECUTIVE_FAILURES`] in a row.
pub proof fn lemma_abort_on_limit(t: CycleTrackerView)
    requires
        running(t),
    ensures
        (record_step(t, false).1 == AfterCycle::Abort) <==> (t.failures + 1
            == MAX_CONSECUTIVE_FAILURES),
{
}

/// The run ends, as finished, exactly when the completed cycle that reaches
/// [`SUCCESS_TARGET`] is recorded.
pub proof fn lemma_finishes_at_target(t: CycleTrackerView)
    requires
        running(t),
    ensures
        !running(record_step(t, true).0) <==> t.successes + 1 == SUCCESS_TARGET,
{
}

} // verus!
