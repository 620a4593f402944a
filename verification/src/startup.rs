//! Decisions at startup and about the permission.
use vstd::prelude::*;

use crate::paths::{join, joined};
use crate::text::{begins_with, chars_of};

verus! {

/// What came of trying to lock the instance file.
#[derive(Clone, Copy, Debug, PartialEq, Eq, Structural)]
pub enum LockOutcome {
    /// This is the only instance.
    Acquired,
    /// Another instance holds the lock.
    AlreadyRunning,
    /// The lock could not be tried.
    Failed,
}

/// What came of trying to lock the instance file: what the lock call returned,
/// and whether it failed because it would have had to wait.
pub fn lock_outcome(result: i32, would_block: bool) -> (r: LockOutcome)
    ensures
        r == if result == 0 {
            LockOutcome::Acquired
        } else if would_block {
            LockOutcome::AlreadyRunning
        } else {
            LockOutcome::Failed
        },
{
    if result == 0 {
        LockOutcome::Acquired
    } else if would_block {
        LockOutcome::AlreadyRunning
    } else {
        LockOutcome::Failed
    }
}

/// The file that is locked by the only instance.
pub fn lock_path(support_dir: &str) -> (r: String)
    ensures
        r@ == joined(support_dir@, "instance.lock"@),
{
    join(support_dir, "instance.lock")
}

/// What the permission watchdog does.
#[derive(Clone, Copy, Debug, PartialEq, Eq, Structural)]
pub enum WatchdogStep {
    Nothing,
    StartEngine,
    /// Drops all observers right away.
    StopEngine,
}

/// What the permission watchdog does: the engine runs exactly while the
/// permission is there.
pub fn watchdog_step(trusted: bool, running: bool) -> (r: WatchdogStep)
    ensures
        r == if trusted && !running {
            WatchdogStep::StartEngine
        } else if !trusted && running {
            WatchdogStep::StopEngine
        } else {
            WatchdogStep::Nothing
        },
{
    if trusted == running {
        WatchdogStep::Nothing
    } else if trusted {
        WatchdogStep::StartEngine
    } else {
        WatchdogStep::StopEngine
    }
}

/// The directory of the log files below the home directory.
pub fn log_dir(home: &str) -> (r: String)
    ensures
        r@ == joined(home@, "Library/Logs/rustquit"@),
{
    join(home, "Library/Logs/rustquit")
}

/// Whether a file in that directory is one of the log files, whose permissions
/// are narrowed to their owner: a regular file whose name begins as theirs do.
pub fn is_own_log(regular: bool, name: Option<&str>) -> (r: bool)
    ensures
        r == (regular && name is Some && "rustquit.log"@.is_prefix_of(name->0@)),
{
    match name {
        Some(name) => regular && begins_with(&chars_of(name), &chars_of("rustquit.log")),
        None => false,
    }
}

} // verus!
