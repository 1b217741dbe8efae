//! The decisions taken while waiting for the game: for its process to appear
//! after launch, then for it to finish loading.
//!
//! Times are microseconds since the start of the wait in question, as
//! measured by the caller at each poll.

use vstd::prelude::*;
use crate::process::{
    Process, IDLE_LOW_SAMPLES, IDLE_STARTUP_GRACE_SECS, IDLE_TIMEOUT_SECS, NONLINUX_SETTLE_SECS,
    STARTUP_TIMEOUT_SECS,
};
use crate::threshold::{rate_below, read_rate_below};

verus! {

/// Microseconds in a second.
pub const MICROS_PER_SEC: u64 = 1_000_000;

/// What to do after one poll for the game process after launch.
#[derive(Clone, Copy, Debug, PartialEq, Eq, Structural)]
pub enum StartupDecision {
    /// The game process is running: go on to wait for it to load.
    Appeared,
    /// The game process did not appear within the startup timeout: the
    /// attempt failed.
    NeverAppeared,
    /// Poll again after the poll interval.
    KeepWaiting,
}

/// The decision after a poll at `now_us` that did or did not find the game:
/// found wins; otherwise the wait ends once the startup timeout has passed.
pub open spec fn startup_decision(game_found: bool, now_us: u64) -> StartupDecision {
    if game_found {
        StartupDecision::Appeared
    } else if now_us >= STARTUP_TIMEOUT_SECS * MICROS_PER_SEC {
        StartupDecision::NeverAppeared
    } else {
        StartupDecision::KeepWaiting
    }
}

/// Decides what follows a poll for the game process after launch.
pub fn startup_step(game_found: bool, now_us: u64) -> (decision: StartupDecision)
    ensures
        decision == startup_decision(game_found, now_us),
        game_found ==> decision == StartupDecision::Appeared,
        !game_found && now_us < 120_000_000 ==> decision == StartupDecision::KeepWaiting,
        !game_found && now_us >= 120_000_000 ==> decision == StartupDecision::NeverAppeared,
{
    if game_found {
        StartupDecision::Appeared
    } else if now_us >= STARTUP_TIMEOUT_SECS * MICROS_PER_SEC {
        StartupDecision::NeverAppeared
    } else {
        StartupDecision::KeepWaiting
    }
}

/// What to do after one poll while waiting a fixed time for the game to load
/// (where read activity cannot be measured).
#[derive(Clone, Copy, Debug, PartialEq, Eq, Structural)]
pub enum SettleDecision {
    /// The game exited on its own.
    Exited,
    /// The settle period is over: the game counts as loaded.
    Settled,
    /// Poll again after the poll interval.
    KeepWaiting,
}

/// The decision after a poll at `now_us` during the fixed settle wait.
pub open spec fn settle_decision(game_running: bool, now_us: u64) -> SettleDecision {
    if !game_running {
        SettleDecision::Exited
    } else if now_us >= NONLINUX_SETTLE_SECS * MICROS_PER_SEC {
        SettleDecision::Settled
    } else {
        SettleDecision::KeepWaiting
    }
}

/// Decides what follows a poll during the fixed settle wait.
pub fn settle_step(game_running: bool, now_us: u64) -> (decision: SettleDecision)
    ensures
        decision == settle_decision(game_running, now_us),
        !game_running ==> decision == SettleDecision::Exited,
        game_running && now_us < 60_000_000 ==> decision == SettleDecision::KeepWaiting,
        game_running && now_us >= 60_000_000 ==> decision == SettleDecision::Settled,
{
    if !game_running {
        SettleDecision::Exited
    } else if now_us >= NONLINUX_SETTLE_SECS * MICROS_PER_SEC {
        SettleDecision::Settled
    } else {
        SettleDecision::KeepWaiting
    }
}

/// How waiting for the game to load ended.
#[derive(Clone, Copy, Debug, PartialEq, Eq, Structural)]
pub enum LoadOutcome {
    /// Read throughput stayed below the threshold for enough samples.
    Loaded,
    /// No thread-group leader of the game is left: it exited on its own.
    Exited,
    /// The safety cap on the wait was reached.
    TimedOut,
}

/// Watches the game's read throughput while it loads.
pub struct IdleMonitor {
    threshold_bits: u64,
    prev_read: u64,
    prev_at_us: u64,
    low_streak: u32,
}

/// What an [`IdleMonitor`] holds.
pub struct IdleMonitorView {
    /// The threshold in MB/s, as the bits of a double.
    pub threshold_bits: u64,
    /// The read total of the previous sample.
    pub prev_read: u64,
    /// The time of the previous sample.
    pub prev_at_us: u64,
    /// Consecutive samples, past the grace period, whose rate was below the
    /// threshold.
    pub low_streak: nat,
}

impl View for IdleMonitor {
    type V = IdleMonitorView;

    closed spec fn view(&self) -> IdleMonitorView {
        IdleMonitorView {
            threshold_bits: self.threshold_bits,
            prev_read: self.prev_read,
            prev_at_us: self.prev_at_us,
            low_streak: self.low_streak as nat,
        }
    }
}

/// One step of waiting for the game to load.
pub enum LoadStep {
    /// Keep watching, with this monitor, after the poll interval.
    Continue(IdleMonitor),
    /// The wait is over.
    Done(LoadOutcome),
}

/// What a [`LoadStep`] holds.
pub enum LoadStepView {
    Continue(IdleMonitorView),
    Done(LoadOutcome),
}

/// The view of a step.
pub open spec fn load_step_view(step: LoadStep) -> LoadStepView {
    match step {
        LoadStep::Continue(monitor) => LoadStepView::Continue(monitor@),
        LoadStep::Done(outcome) => LoadStepView::Done(outcome),
    }
}

/// `b - a`, or zero when `b < a`.
pub open spec fn gap(a: u64, b: u64) -> nat {
    if b >= a {
        (b - a) as nat
    } else {
        0
    }
}

/// The step after a sample taken at `now_us`, in which `read_total` is the
/// summed read counter of the game's leaders (`None` when none is left).
///
/// The rate is the bytes read since the previous sample over the time since
/// it. Samples in the grace period are only recorded. After it, a rate below
/// the threshold extends the streak of low samples and ends the wait as
/// loaded once the streak reaches [`IDLE_LOW_SAMPLES`]; any other rate resets
/// the streak. A wait not ended so is ended once the safety cap is reached.
pub open spec fn monitor_step(m: IdleMonitorView, read_total: Option<u64>, now_us: u64) -> LoadStepView {
    match read_total {
        None => LoadStepView::Done(LoadOutcome::Exited),
        Some(current) => {
            let moved = IdleMonitorView { prev_read: current, prev_at_us: now_us, ..m };
            if now_us < IDLE_STARTUP_GRACE_SECS * MICROS_PER_SEC {
                LoadStepView::Continue(moved)
            } else if rate_below(gap(m.prev_read, current), gap(m.prev_at_us, now_us), m.threshold_bits) {
                if m.low_streak + 1 >= IDLE_LOW_SAMPLES {
                    LoadStepView::Done(LoadOutcome::Loaded)
                } else if now_us >= IDLE_TIMEOUT_SECS * MICROS_PER_SEC {
                    LoadStepView::Done(LoadOutcome::TimedOut)
                } else {
                    LoadStepView::Continue(IdleMonitorView { low_streak: m.low_streak + 1, ..moved })
                }
            } else if now_us >= IDLE_TIMEOUT_SECS * MICROS_PER_SEC {
                LoadStepView::Done(LoadOutcome::TimedOut)
            } else {
                LoadStepView::Continue(IdleMonitorView { low_streak: 0, ..moved })
            }
        },
    }
}

impl IdleMonitor {
    #[verifier::type_invariant]
    spec fn streak_below_limit(self) -> bool {
        self.low_streak < IDLE_LOW_SAMPLES
    }

    /// Takes the sample `read_total` at `now_us` and decides what follows.
    pub fn observe(self, read_total: Option<u64>, now_us: u64) -> (step: LoadStep)
        ensures
            load_step_view(step) == monitor_step(self@, read_total, now_us),
            step matches LoadStep::Continue(next) ==> next@.low_streak < IDLE_LOW_SAMPLES,
    {
        proof {
            use_type_invariant(&self);
        }
        let current = match read_total {
            Some(current) => current,
            None => {
                return LoadStep::Done(LoadOutcome::Exited);
            },
        };
        let delta: u64 = if current >= self.prev_read {
            current - self.prev_read
        } else {
            0
        };
        let elapsed_us: u64 = if now_us >= self.prev_at_us {
            now_us - self.prev_at_us
        } else {
            0
        };
        if now_us < IDLE_STARTUP_GRACE_SECS * MICROS_PER_SEC {
            return LoadStep::Continue(
                IdleMonitor { prev_read: current, prev_at_us: now_us, ..self },
            );
        }
        let low_streak: u32 = if read_rate_below(delta, elapsed_us, self.threshold_bits) {
            self.low_streak + 1
        } else {
            0
        };
        if low_streak >= IDLE_LOW_SAMPLES {
            return LoadStep::Done(LoadOutcome::Loaded);
        }
        if now_us >= IDLE_TIMEOUT_SECS * MICROS_PER_SEC {
            return LoadStep::Done(LoadOutcome::TimedOut);
        }
        LoadStep::Continue(
            IdleMonitor { threshold_bits: self.threshold_bits, prev_read: current, prev_at_us: now_us, low_streak },
        )
    }
}

/// Waiting for the game process after launch: a poll that finds it ends the
/// wait as appeared, whenever it comes; a poll that does not find it keeps
/// the wait going for the first 120 seconds and ends it as a failure from
/// then on. So a later poll can only end a wait that an earlier poll ended.
pub proof fn lemma_startup_waits_for_timeout(game_found: bool, now_us: u64, later_us: u64)
    requires
        now_us <= later_us,
    ensures
        game_found ==> startup_decision(game_found, now_us) == StartupDecision::Appeared,
        !game_found ==> (startup_decision(game_found, now_us) == StartupDecision::NeverAppeared
            <==> now_us >= 120_000_000),
        !game_found ==> (startup_decision(game_found, now_us) == StartupDecision::KeepWaiting
            <==> now_us < 120_000_000),
        startup_decision(game_found, now_us) != StartupDecision::KeepWaiting ==> startup_decision(
            game_found,
            later_us,
        ) == startup_decision(game_found, now_us),
{
}

/// The fixed settle wait: while the game runs it lasts exactly 60 seconds
/// (no running poll before then ends it, every one from then on does), and
/// it ends as exited whenever the game is gone.
pub proof fn lemma_settle_lasts_sixty_seconds(game_running: bool, now_us: u64, later_us: u64)
    requires
        now_us <= later_us,
    ensures
        !game_running ==> settle_decision(game_running, now_us) == SettleDecision::Exited,
        game_running ==> (settle_decision(game_running, now_us) == SettleDecision::Settled
            <==> now_us >= 60_000_000),
        game_running ==> (settle_decision(game_running, now_us) == SettleDecision::KeepWaiting
            <==> now_us < 60_000_000),
        settle_decision(game_running, now_us) == SettleDecision::Settled ==> settle_decision(
            game_running,
            later_us,
        ) == SettleDecision::Settled,
{
}

/// During the grace period a sample is only recorded: the wait goes on
/// whatever the rate, unless the game has exited.
pub proof fn lemma_grace_period_only_records(m: IdleMonitorView, current: u64, now_us: u64)
    requires
        now_us < IDLE_STARTUP_GRACE_SECS * MICROS_PER_SEC,
    ensures
        monitor_step(m, Some(current), now_us) == LoadStepView::Continue(
            IdleMonitorView { prev_read: current, prev_at_us: now_us, ..m },
        ),
{
}

/// The game counts as loaded only on a sample past the grace period whose
/// rate is below the threshold and which completes a streak of
/// [`IDLE_LOW_SAMPLES`] such samples.
pub proof fn lemma_loaded_needs_low_streak(m: IdleMonitorView, read_total: Option<u64>, now_us: u64)
    requires
        m.low_streak < IDLE_LOW_SAMPLES,
        monitor_step(m, read_total, now_us) == LoadStepView::Done(LoadOutcome::Loaded),
    ensures
        read_total is Some,
        now_us >= IDLE_STARTUP_GRACE_SECS * MICROS_PER_SEC,
        rate_below(gap(m.prev_read, read_total->0), gap(m.prev_at_us, now_us), m.threshold_bits),
        m.low_streak + 1 == IDLE_LOW_SAMPLES,
{
}

/// From an empty streak, two consecutive samples past the grace period whose
/// rates are below the threshold end the wait as loaded.
pub proof fn lemma_two_low_samples_load(
    m: IdleMonitorView,
    first: u64,
    first_at_us: u64,
    second: u64,
    second_at_us: u64,
)
    requires
        m.low_streak == 0,
        IDLE_STARTUP_GRACE_SECS * MICROS_PER_SEC <= first_at_us <= second_at_us,
        first_at_us < IDLE_TIMEOUT_SECS * MICROS_PER_SEC,
        rate_below(gap(m.prev_read, first), gap(m.prev_at_us, first_at_us), m.threshold_bits),
        rate_below(gap(first, second), gap(first_at_us, second_at_us), m.threshold_bits),
    ensures
        monitor_step(m, Some(first), first_at_us) matches LoadStepView::Continue(next)
            && monitor_step(next, Some(second), second_at_us) == LoadStepView::Done(
            LoadOutcome::Loaded,
        ),
{
}

/// Past the grace period and before the safety cap, a sample whose rate is
/// not below the threshold resets the streak of low samples.
pub proof fn lemma_high_rate_resets_streak(m: IdleMonitorView, current: u64, now_us: u64)
    requires
        IDLE_STARTUP_GRACE_SECS * MICROS_PER_SEC <= now_us < IDLE_TIMEOUT_SECS * MICROS_PER_SEC,
        !rate_below(gap(m.prev_read, current), gap(m.prev_at_us, now_us), m.threshold_bits),
    ensures
        monitor_step(m, Some(current), now_us) == LoadStepView::Continue(
            IdleMonitorView { prev_read: current, prev_at_us: now_us, low_streak: 0, ..m },
        ),
{
}

/// Once the safety cap is reached, every sample ends the wait.
pub proof fn lemma_safety_cap_ends_wait(m: IdleMonitorView, read_total: Option<u64>, now_us: u64)
    requires
        now_us >= IDLE_TIMEOUT_SECS * MICROS_PER_SEC,
    ensures
        monitor_step(m, read_total, now_us) matches LoadStepView::Done(_),
{
}

/// The wait ends as exited exactly when no leader of the game is left.
pub proof fn lemma_exited_iff_gone(m: IdleMonitorView, read_total: Option<u64>, now_us: u64)
    ensures
        (monitor_step(m, read_total, now_us) == LoadStepView::Done(LoadOutcome::Exited)) <==> (
        read_total is None),
{
}

impl Process {
    /// A monitor for the game's loading, started now with the read total
    /// `initial_read` of its leaders (zero when none could be read).
    pub fn idle_monitor(&self, initial_read: Option<u64>) -> (monitor: IdleMonitor)
        ensures
            monitor@ == (IdleMonitorView {
                threshold_bits: self@.idle_read_threshold_mb_s_bits,
                prev_read: match initial_read {
                    Some(v) => v,
                    None => 0,
                },
                prev_at_us: 0,
                low_streak: 0,
            }),
    {
        IdleMonitor {
            threshold_bits: self.idle_read_threshold_bits(),
            prev_read: match initial_read {
                Some(v) => v,
                None => 0,
            },
            prev_at_us: 0,
            low_streak: 0,
        }
    }
}

} // verus!
