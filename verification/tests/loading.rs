use startup_millenium::config::Settings;
use startup_millenium::loading::{
    settle_step, startup_step, LoadOutcome, LoadStep, SettleDecision, StartupDecision,
};
use startup_millenium::process::Process;

const SEC: u64 = 1_000_000;

fn process() -> Process {
    Process::new(&Settings {
        steam_app_id: 4000,
        process_names: vec!["gmod".to_string()],
        idle_read_threshold_mb_s_bits: 10.0f64.to_bits(),
    })
}

#[test]
fn test_startup_step() {
    assert_eq!(startup_step(true, 0), StartupDecision::Appeared);
    assert_eq!(startup_step(true, 500 * SEC), StartupDecision::Appeared);
    assert_eq!(startup_step(false, 119 * SEC), StartupDecision::KeepWaiting);
    assert_eq!(startup_step(false, 120 * SEC), StartupDecision::NeverAppeared);
}

#[test]
fn test_settle_step() {
    assert_eq!(settle_step(false, 0), SettleDecision::Exited);
    assert_eq!(settle_step(true, 59 * SEC), SettleDecision::KeepWaiting);
    assert_eq!(settle_step(true, 60 * SEC), SettleDecision::Settled);
}

fn expect_continue(step: LoadStep) -> startup_millenium::loading::IdleMonitor {
    match step {
        LoadStep::Continue(monitor) => monitor,
        LoadStep::Done(outcome) => panic!("unexpected end: {:?}", outcome),
    }
}

fn expect_done(step: LoadStep) -> LoadOutcome {
    match step {
        LoadStep::Continue(_) => panic!("the wait should have ended"),
        LoadStep::Done(outcome) => outcome,
    }
}

#[test]
fn test_two_quiet_samples_mean_loaded() {
    let p = process();
    let mut monitor = p.idle_monitor(Some(0));
    // Heavy reads during and after the grace period.
    monitor = expect_continue(monitor.observe(Some(400_000_000), 2 * SEC));
    monitor = expect_continue(monitor.observe(Some(800_000_000), 4 * SEC));
    monitor = expect_continue(monitor.observe(Some(1_200_000_000), 6 * SEC));
    // First quiet sample: 1 MB in 2 s.
    monitor = expect_continue(monitor.observe(Some(1_201_000_000), 8 * SEC));
    // Second quiet sample: loaded.
    assert_eq!(expect_done(monitor.observe(Some(1_201_500_000), 10 * SEC)), LoadOutcome::Loaded);
}

#[test]
fn test_quiet_samples_in_grace_period_do_not_count() {
    let p = process();
    let mut monitor = p.idle_monitor(None);
    monitor = expect_continue(monitor.observe(Some(0), 2 * SEC));
    monitor = expect_continue(monitor.observe(Some(0), 4 * SEC));
    monitor = expect_continue(monitor.observe(Some(0), 6 * SEC));
    assert_eq!(expect_done(monitor.observe(Some(0), 8 * SEC)), LoadOutcome::Loaded);
}

#[test]
fn test_busy_sample_resets_streak() {
    let p = process();
    let mut monitor = p.idle_monitor(Some(0));
    monitor = expect_continue(monitor.observe(Some(0), 6 * SEC));
    monitor = expect_continue(monitor.observe(Some(100_000_000), 8 * SEC));
    monitor = expect_continue(monitor.observe(Some(100_000_000), 10 * SEC));
    assert_eq!(expect_done(monitor.observe(Some(100_000_000), 12 * SEC)), LoadOutcome::Loaded);
}

#[test]
fn test_exit_and_timeout() {
    let p = process();
    let monitor = p.idle_monitor(Some(0));
    assert_eq!(expect_done(monitor.observe(None, 2 * SEC)), LoadOutcome::Exited);
    let monitor = p.idle_monitor(Some(0));
    let monitor = expect_continue(monitor.observe(Some(500_000_000), 298 * SEC));
    assert_eq!(expect_done(monitor.observe(Some(1_000_000_000), 300 * SEC)), LoadOutcome::TimedOut);
}

#[test]
fn test_zero_elapsed_sample_is_not_quiet() {
    let p = process();
    let mut monitor = p.idle_monitor(Some(0));
    monitor = expect_continue(monitor.observe(Some(0), 6 * SEC));
    // Same instant again: an infinite rate, which resets the streak.
    monitor = expect_continue(monitor.observe(Some(0), 6 * SEC));
    monitor = expect_continue(monitor.observe(Some(0), 8 * SEC));
    assert_eq!(expect_done(monitor.observe(Some(0), 10 * SEC)), LoadOutcome::Loaded);
}
