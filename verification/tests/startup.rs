use rustquit::startup::{
    is_own_log, lock_outcome, lock_path, log_dir, watchdog_step, LockOutcome, WatchdogStep,
};

#[test]
fn the_lock_tells_whether_another_instance_runs() {
    assert_eq!(lock_outcome(0, false), LockOutcome::Acquired);
    assert_eq!(lock_outcome(0, true), LockOutcome::Acquired);
    assert_eq!(lock_outcome(-1, true), LockOutcome::AlreadyRunning);
    assert_eq!(lock_outcome(-1, false), LockOutcome::Failed);
    assert_eq!(lock_path("/x"), "/x/instance.lock");
}

#[test]
fn the_engine_follows_the_permission() {
    assert_eq!(watchdog_step(true, false), WatchdogStep::StartEngine);
    assert_eq!(watchdog_step(false, true), WatchdogStep::StopEngine);
    assert_eq!(watchdog_step(true, true), WatchdogStep::Nothing);
    assert_eq!(watchdog_step(false, false), WatchdogStep::Nothing);
}

#[test]
fn only_own_logs_are_narrowed() {
    assert!(is_own_log(true, Some("rustquit.log")));
    assert!(is_own_log(true, Some("rustquit.log.2024-01-01")));
    assert!(!is_own_log(true, Some("other.log")));
    assert!(!is_own_log(false, Some("rustquit.log")));
    assert!(!is_own_log(true, None));
    assert_eq!(log_dir("/Users/me"), "/Users/me/Library/Logs/rustquit");
}
