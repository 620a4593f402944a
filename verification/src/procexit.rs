//! Exit statuses: the one race-free way to tell a crash from a normal quit.
//!
//! For every watched process its wait status on exit is delivered. A status that
//! ends in a signal means the app crashed or was killed; a plain exit means the
//! app chose to quit. Keep-alive uses this to respect deliberate quits unless
//! always-running behavior is enabled.
use std::collections::HashMap;
use vstd::prelude::*;

verus! {

broadcast use vstd::std_specs::hash::group_hash_axioms;

/// How a process ended.
#[derive(Clone, Copy, PartialEq, Eq, Debug, Structural)]
pub enum ExitKind {
    /// The process ended via a signal (crash, force quit, kill).
    Crashed,
    /// The process exited on its own.
    Clean,
}

/// The wait status names a signal that ended the process: its low seven bits
/// hold one, and are not all set, which would mean that the process is only
/// stopped.
pub open spec fn ended_by_signal(status: i32) -> bool {
    let low = status as int % 128;
    low != 0 && low != 127
}

/// `libc::WIFSIGNALED` looks at the low seven bits of a wait status, on macOS
/// and on Linux: they are neither all clear nor all set where a signal ended the
/// process.
pub assume_specification[ libc::WIFSIGNALED ](status: libc::c_int) -> (r: bool)
    ensures
        r == ended_by_signal(status),
;

/// How a process with this wait status ended.
pub open spec fn kind_of(status: i32) -> ExitKind {
    if ended_by_signal(status) {
        ExitKind::Crashed
    } else {
        ExitKind::Clean
    }
}

/// How a process with this wait status ended.
pub fn exit_kind(status: i32) -> (r: ExitKind)
    ensures
        r == kind_of(status),
{
    if libc::WIFSIGNALED(status) {
        ExitKind::Crashed
    } else {
        ExitKind::Clean
    }
}

/// What to do after waiting for the next event.
#[derive(Clone, Copy, PartialEq, Eq, Debug, Structural)]
pub enum WaitStep {
    /// Wait again.
    Again,
    /// Record the exit that was reported, then wait again.
    Record,
    /// Stop waiting: the queue failed.
    Stop,
}

/// What to do after waiting for the next event: how many events came (negative
/// if waiting failed), whether a failure was just an interruption, and whether
/// the event is about a process.
pub fn after_wait(events: i32, interrupted: bool, about_process: bool) -> (r: WaitStep)
    ensures
        r == if events < 0 && !interrupted {
            WaitStep::Stop
        } else if events > 0 && about_process {
            WaitStep::Record
        } else {
            WaitStep::Again
        },
{
    if events < 0 {
        if interrupted {
            WaitStep::Again
        } else {
            WaitStep::Stop
        }
    } else if events == 0 || !about_process {
        WaitStep::Again
    } else {
        WaitStep::Record
    }
}

/// The exits that were seen and not asked for yet.
#[derive(Debug)]
pub struct ProcExitWatcher {
    exits: HashMap<i32, ExitKind>,
}

impl View for ProcExitWatcher {
    type V = Map<i32, ExitKind>;

    closed spec fn view(&self) -> Map<i32, ExitKind> {
        self.exits@
    }
}

impl ProcExitWatcher {
    /// No exit was seen yet.
    pub fn new() -> (r: ProcExitWatcher)
        ensures
            r@ == Map::<i32, ExitKind>::empty(),
    {
        ProcExitWatcher { exits: HashMap::new() }
    }

    /// A process ended with this wait status.
    pub fn record(&mut self, pid: i32, status: i32)
        ensures
            final(self)@ == old(self)@.insert(pid, kind_of(status)),
    {
        self.exits.insert(pid, exit_kind(status));
    }

    /// Consumes the recorded exit kind for a process, if its exit was seen.
    pub fn take_exit_kind(&mut self, pid: i32) -> (r: Option<ExitKind>)
        ensures
            final(self)@ == old(self)@.remove(pid),
            r == if old(self)@.contains_key(pid) {
                Some(old(self)@[pid])
            } else {
                None
            },
    {
        let r = self.exits.remove(&pid);
        assert(self@ =~= old(self)@.remove(pid));
        r
    }
}

/// A recorded exit is handed out once, whatever happened to other processes in
/// between.
pub proof fn an_exit_is_handed_out_once(
    exits: Map<i32, ExitKind>,
    pid: i32,
    status: i32,
    other: i32,
    other_status: i32,
)
    requires
        other != pid,
    ensures
        exits.insert(pid, kind_of(status)).insert(other, kind_of(other_status))[pid] == kind_of(
            status,
        ),
        !exits.insert(pid, kind_of(status)).remove(pid).contains_key(pid),
{
}

} // verus!
