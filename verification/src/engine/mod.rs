//! The engine: keeps one watcher per running app and reacts to window events.
//! Central rule: notifications are only triggers. For every decision the window
//! count is queried fresh, so cached counts cannot go stale.
//!
//! The engine decides; the caller carries out what it decides (timers, recounts
//! on the worker, termination requests) and reports what came of it. Moments are
//! nanoseconds of a clock that never goes back.
use std::collections::HashMap;
use vstd::prelude::*;

pub mod counter;
pub mod laws;
pub mod policy;
pub mod recent;
pub mod watcher;

use crate::clock::told_now;
use crate::config::{Config, ConfigView};
use crate::delay::MIN_QUIT_DELAY_BITS;
use crate::double::Double;
use crate::engine::counter::WindowCount;
use crate::engine::policy::{
    hidden_blocks_quit, hidden_by_user, may_quit, should_quit, AppFacts, FactsView,
};
use crate::engine::recent::{pushed, RecentQuit, RecentQuits, RecentReason};
use crate::engine::watcher::{watched, without_window, Watcher, WatcherView};
use crate::text::{opt_text, same};

verus! {

broadcast use vstd::std_specs::hash::group_hash_axioms;

/// Window events around a Space switch are noisy; quits are deferred this long
/// after the active Space changed: 3 s in nanoseconds.
pub const SPACE_CHANGE_GRACE_NANOS: u64 = 3_000_000_000;

/// The same grace, in seconds: the bit pattern of 3.0.
pub const SPACE_CHANGE_GRACE_BITS: u64 = 0x4008_0000_0000_0000;

/// How long a termination request is remembered: 30 s in nanoseconds.
pub const PENDING_TERMINATION_TIMEOUT_NANOS: u64 = 30_000_000_000;

/// The same timeout, in seconds: the bit pattern of 30.0.
pub const PENDING_TERMINATION_TIMEOUT_BITS: u64 = 0x403E_0000_0000_0000;

/// Why windows are recounted.
#[derive(Clone, Copy, Debug, PartialEq, Eq, Structural)]
pub enum RecountPhase {
    /// A window was destroyed.
    WindowDestroyed,
    /// The user switched away from the app.
    AppDeactivated,
    /// The last check before the app is quit.
    FinalCheck,
}

/// A recount to be made by the worker.
#[derive(Clone, Copy, Debug, PartialEq, Eq, Structural)]
pub struct RecountRequest {
    pub pid: i32,
    pub generation: u64,
    pub phase: RecountPhase,
}

/// What the worker found.
#[derive(Clone, Copy, Debug)]
pub struct RecountResult {
    pub request: RecountRequest,
    /// The accessibility count; `None` if it failed.
    pub count: Option<WindowCount>,
    /// Visible normal windows per the window server; `None` if its list was
    /// unavailable.
    pub cg_count: Option<usize>,
}

/// What the caller has to do next.
#[derive(Clone, Copy, Debug, PartialEq, Eq, Structural)]
pub enum Action {
    Nothing,
    /// Hand a recount to the worker, and report what came of that.
    Recount(RecountRequest),
    /// Come back to `finish_quit` after a delay in seconds.
    ScheduleQuit { pid: i32, generation: u64, delay: Double },
    /// Ask the app to terminate, and report what it answered.
    Terminate { pid: i32, generation: u64 },
    /// Come back to `expire_pending_termination` after a delay in seconds.
    ScheduleExpiry { pid: i32, generation: u64, delay: Double },
    /// Watch the window that was reported.
    WatchWindow { pid: i32 },
}

/// What came of handing a recount to the worker.
#[derive(Clone, Copy, Debug, PartialEq, Eq, Structural)]
pub enum SendOutcome {
    Sent,
    /// The queue is full: the trigger is dropped.
    Full,
    /// The worker is gone.
    Disconnected,
}

/// What is to be tried again, once, 2 s after an app was first observed.
#[derive(Clone, Copy, Debug, PartialEq, Eq, Structural)]
pub enum Retry {
    Nothing,
    /// The app could not be observed.
    Watcher,
    /// The app's windows could not be read.
    Windows,
}

/// A termination that was requested.
#[derive(Debug)]
pub struct PendingTermination {
    pub bundle_id: String,
    pub name: String,
    pub generation: u64,
    pub requested_at: u64,
}

/// The contents of a requested termination.
pub ghost struct PendingView {
    pub bundle_id: Seq<char>,
    pub name: Seq<char>,
    pub generation: u64,
    pub requested_at: u64,
}

impl View for PendingTermination {
    type V = PendingView;

    open spec fn view(&self) -> PendingView {
        PendingView {
            bundle_id: self.bundle_id@,
            name: self.name@,
            generation: self.generation,
            requested_at: self.requested_at,
        }
    }
}

/// The engine's state.
#[derive(Debug)]
pub struct Engine {
    watchers: HashMap<i32, Watcher>,
    pending_terminations: HashMap<i32, PendingTermination>,
    /// Requests sent to the worker whose results have not been drained yet.
    outstanding_recounts: usize,
    /// The drain timer runs. It does so only while results are outstanding, so
    /// an idle engine causes no periodic wake-ups at all.
    recount_timer: bool,
    generation_nonce: u64,
    own_pid: i32,
    last_space_change: Option<u64>,
}

/// The contents of the engine's state.
#[verifier::ext_equal]
pub ghost struct EngineView {
    pub watchers: Map<i32, WatcherView>,
    pub pending: Map<i32, PendingView>,
    pub outstanding: usize,
    pub timer: bool,
    pub nonce: u64,
    pub own_pid: i32,
    pub last_space_change: Option<u64>,
}

/// The contents of a map of watchers.
pub open spec fn watcher_views(watchers: Map<i32, Watcher>) -> Map<i32, WatcherView> {
    watchers.map_values(|w: Watcher| w@)
}

/// The contents of a map of requested terminations.
pub open spec fn pending_views(pending: Map<i32, PendingTermination>) -> Map<i32, PendingView> {
    pending.map_values(|p: PendingTermination| p@)
}

impl View for Engine {
    type V = EngineView;

    closed spec fn view(&self) -> EngineView {
        EngineView {
            watchers: watcher_views(self.watchers@),
            pending: pending_views(self.pending_terminations@),
            outstanding: self.outstanding_recounts,
            timer: self.recount_timer,
            nonce: self.generation_nonce,
            own_pid: self.own_pid,
            last_space_change: self.last_space_change,
        }
    }
}

/// The generation that follows: never zero.
pub open spec fn generation_after(nonce: u64) -> u64 {
    if nonce == u64::MAX {
        1
    } else {
        (nonce + 1) as u64
    }
}

/// The engine after an app's generation was renewed.
pub open spec fn bumped(engine: EngineView, pid: i32) -> EngineView {
    let generation = generation_after(engine.nonce);
    EngineView {
        nonce: generation,
        watchers: engine.watchers.insert(
            pid,
            WatcherView { generation, ..engine.watchers[pid] },
        ),
        ..engine
    }
}

/// The engine with another watcher for an app.
pub open spec fn with_watcher(engine: EngineView, pid: i32, watcher: WatcherView) -> EngineView {
    EngineView { watchers: engine.watchers.insert(pid, watcher), ..engine }
}

/// The app is not watched yet, and is not this one.
pub open spec fn can_watch(engine: EngineView, pid: i32) -> bool {
    pid != engine.own_pid && !engine.watchers.contains_key(pid)
}

/// The active Space changed less than the grace ago.
pub open spec fn space_change_recent(engine: EngineView, now: u64) -> bool {
    engine.last_space_change is Some && now - engine.last_space_change->0
        < SPACE_CHANGE_GRACE_NANOS
}

/// What follows when an app is deactivated.
pub open spec fn on_deactivated(
    engine: EngineView,
    pid: i32,
    config: ConfigView,
    app: FactsView,
) -> Action {
    if engine.watchers.contains_key(pid) && engine.watchers[pid].had_window && may_quit(
        config,
        app,
    ) {
        Action::Recount(
            RecountRequest {
                pid,
                generation: engine.watchers[pid].generation,
                phase: RecountPhase::AppDeactivated,
            },
        )
    } else {
        Action::Nothing
    }
}

/// The engine after a window event, and what follows.
pub open spec fn on_window_event(
    engine: EngineView,
    pid: i32,
    notification: Seq<char>,
    window: u64,
) -> (EngineView, Action) {
    if !engine.watchers.contains_key(pid) {
        (engine, Action::Nothing)
    } else if notification == "AXWindowCreated"@ {
        let next = bumped(engine, pid);
        (
            EngineView { pending: next.pending.remove(pid), ..next },
            Action::WatchWindow { pid },
        )
    } else if notification == "AXUIElementDestroyed"@ {
        let next = bumped(
            with_watcher(engine, pid, without_window(engine.watchers[pid], window)),
            pid,
        );
        (
            next,
            Action::Recount(
                RecountRequest {
                    pid,
                    generation: next.watchers[pid].generation,
                    phase: RecountPhase::WindowDestroyed,
                },
            ),
        )
    } else {
        (engine, Action::Nothing)
    }
}

/// A quit that was decided for this generation may still go ahead.
pub open spec fn quit_still_due(
    engine: EngineView,
    pid: i32,
    generation: u64,
    config: ConfigView,
    app: FactsView,
) -> bool {
    &&& engine.watchers.contains_key(pid)
    &&& engine.watchers[pid].generation == generation
    &&& may_quit(config, app)
    &&& !app.terminated
    &&& app.finished_launching
    &&& !hidden_by_user(engine.watchers[pid].last_ordered_out, app)
}

/// Try the quit again when the Space switch is over.
pub open spec fn deferred(pid: i32, generation: u64) -> Action {
    Action::ScheduleQuit { pid, generation, delay: Double { bits: SPACE_CHANGE_GRACE_BITS } }
}

/// What follows when the quit delay is over.
pub open spec fn on_quit_due(
    engine: EngineView,
    pid: i32,
    generation: u64,
    config: ConfigView,
    app: FactsView,
    now: u64,
) -> Action {
    if !quit_still_due(engine, pid, generation, config, app) {
        Action::Nothing
    } else if space_change_recent(engine, now) {
        deferred(pid, generation)
    } else if engine.pending.contains_key(pid) {
        Action::Nothing
    } else {
        Action::Recount(RecountRequest { pid, generation, phase: RecountPhase::FinalCheck })
    }
}

/// The engine after the final check found no window, and what follows.
pub open spec fn on_final_check(
    engine: EngineView,
    pid: i32,
    generation: u64,
    cg_count: Option<usize>,
    config: ConfigView,
    app: FactsView,
    now: u64,
) -> (EngineView, Action) {
    if !quit_still_due(engine, pid, generation, config, app) || engine.pending.contains_key(pid) {
        (engine, Action::Nothing)
    } else if space_change_recent(engine, now) {
        (engine, deferred(pid, generation))
    } else if cg_count != Some(0usize) {
        (engine, Action::Nothing)
    } else {
        (
            bumped(engine, pid),
            Action::Terminate { pid, generation: generation_after(engine.nonce) },
        )
    }
}

/// The engine after a recount, and what follows.
pub open spec fn on_recount(
    engine: EngineView,
    result: RecountResult,
    config: ConfigView,
    app: FactsView,
    now: u64,
) -> (EngineView, Action) {
    let pid = result.request.pid;
    let generation = result.request.generation;
    if !engine.watchers.contains_key(pid) || engine.watchers[pid].generation != generation
        || result.count is None {
        (engine, Action::Nothing)
    } else {
        let count = result.count->0;
        let next = with_watcher(
            engine,
            pid,
            WatcherView { last_ordered_out: count.ordered_out, ..engine.watchers[pid] },
        );
        if count.effective != 0 {
            (next, Action::Nothing)
        } else if result.request.phase == RecountPhase::FinalCheck {
            on_final_check(next, pid, generation, result.cg_count, config, app, now)
        } else if !engine.watchers[pid].had_window || !may_quit(config, app) {
            (next, Action::Nothing)
        } else {
            let floor = Double { bits: MIN_QUIT_DELAY_BITS };
            (
                next,
                Action::ScheduleQuit {
                    pid,
                    generation,
                    delay: config.quit_delay_secs.at_least(floor),
                },
            )
        }
    }
}

/// The engine after a termination request was answered, and what follows.
pub open spec fn on_termination_answered(
    engine: EngineView,
    pid: i32,
    generation: u64,
    accepted: bool,
    bundle_id: Option<Seq<char>>,
    name: Seq<char>,
    now: u64,
) -> (EngineView, Action) {
    if accepted && bundle_id is Some {
        (
            EngineView {
                pending: engine.pending.insert(
                    pid,
                    PendingView { bundle_id: bundle_id->0, name, generation, requested_at: now },
                ),
                ..engine
            },
            Action::ScheduleExpiry {
                pid,
                generation,
                delay: Double { bits: PENDING_TERMINATION_TIMEOUT_BITS },
            },
        )
    } else {
        (engine, Action::Nothing)
    }
}

/// The app terminated because it was asked to, and not too long after that.
pub open spec fn quit_by_engine(engine: EngineView, pid: i32, now: u64) -> bool {
    engine.pending.contains_key(pid) && now - engine.pending[pid].requested_at
        <= PENDING_TERMINATION_TIMEOUT_NANOS
}

/// The engine after an app terminated.
pub open spec fn on_terminated(engine: EngineView, pid: i32) -> EngineView {
    EngineView {
        watchers: engine.watchers.remove(pid),
        pending: engine.pending.remove(pid),
        ..engine
    }
}

/// The engine after a requested termination was given up.
pub open spec fn on_expiry(engine: EngineView, pid: i32, generation: u64) -> EngineView {
    if engine.pending.contains_key(pid) && engine.pending[pid].generation == generation {
        EngineView { pending: engine.pending.remove(pid), ..engine }
    } else {
        engine
    }
}

/// The engine after a recount was handed to the worker, or was not.
pub open spec fn on_sent(engine: EngineView, outcome: SendOutcome) -> EngineView {
    if outcome == SendOutcome::Sent {
        EngineView { outstanding: (engine.outstanding + 1) as usize, timer: true, ..engine }
    } else {
        engine
    }
}

/// The engine after one result was taken from the worker.
pub open spec fn on_received(engine: EngineView) -> EngineView {
    EngineView {
        outstanding: if engine.outstanding == 0 {
            0
        } else {
            (engine.outstanding - 1) as usize
        },
        ..engine
    }
}

/// The engine after no more results could be taken from the worker.
pub open spec fn on_drained(engine: EngineView, disconnected: bool) -> EngineView {
    let outstanding = if disconnected {
        0
    } else {
        engine.outstanding
    };
    EngineView { outstanding, timer: engine.timer && outstanding != 0, ..engine }
}

impl Engine {
    /// An engine that watches nothing yet.
    pub fn new(own_pid: i32) -> (r: Engine)
        ensures
            r@ == (EngineView {
                watchers: Map::empty(),
                pending: Map::empty(),
                outstanding: 0,
                timer: false,
                nonce: 0,
                own_pid,
                last_space_change: None,
            }),
    {
        let r = Engine {
            watchers: HashMap::new(),
            pending_terminations: HashMap::new(),
            outstanding_recounts: 0,
            recount_timer: false,
            generation_nonce: 0,
            own_pid,
            last_space_change: None,
        };
        assert(r@.watchers =~= Map::empty());
        assert(r@.pending =~= Map::empty());
        r
    }

    /// Whether the drain timer has to run.
    pub fn timer_running(&self) -> (r: bool)
        ensures
            r == self@.timer,
    {
        self.recount_timer
    }

    /// How many recounts are under way.
    pub fn outstanding(&self) -> (r: usize)
        ensures
            r == self@.outstanding,
    {
        self.outstanding_recounts
    }

    /// Whether the app is watched.
    pub fn watches(&self, pid: i32) -> (r: bool)
        ensures
            r == self@.watchers.contains_key(pid),
    {
        self.watchers.contains_key(&pid)
    }

    /// Hands out a generation: never zero, and never the one before it.
    pub fn next_generation(&mut self) -> (r: u64)
        ensures
            r == generation_after(old(self)@.nonce),
            r != 0,
            r != old(self)@.nonce,
            final(self)@ == (EngineView { nonce: r, ..old(self)@ }),
    {
        let next: u64 = if self.generation_nonce == u64::MAX {
            1
        } else {
            self.generation_nonce + 1
        };
        self.generation_nonce = next;
        next
    }

    /// Puts a watcher in place.
    fn set_watcher(&mut self, pid: i32, watcher: Watcher)
        ensures
            final(self)@ == with_watcher(old(self)@, pid, watcher@),
    {
        self.watchers.insert(pid, watcher);
        assert(self@ =~= with_watcher(old(self)@, pid, watcher@));
    }

    fn bump_generation(&mut self, pid: i32) -> (r: u64)
        requires
            old(self)@.watchers.contains_key(pid),
        ensures
            final(self)@ == bumped(old(self)@, pid),
            r == generation_after(old(self)@.nonce),
    {
        let generation = self.next_generation();
        if let Some(mut watcher) = self.watchers.remove(&pid) {
            watcher.generation = generation;
            self.watchers.insert(pid, watcher);
        }
        assert(self@ =~= bumped(old(self)@, pid));
        generation
    }

    /// Starts to watch an app that is neither this one nor watched already:
    /// `create` observes it under a new generation and tells, besides the
    /// watcher, whether the app's windows could be read. What could not be done
    /// may be tried again once.
    pub fn add_watcher_inner<C>(&mut self, pid: i32, may_retry: bool, create: C) -> (r:
        Retry) where C: FnOnce(u64) -> Option<(Watcher, bool)>
        requires
            forall|generation: u64| create.requires((generation,)),
        ensures
            !can_watch(old(self)@, pid) ==> r == Retry::Nothing && final(self)@ == old(self)@,
            can_watch(old(self)@, pid) ==> exists|created: Option<(Watcher, bool)>| #[trigger]
                create.ensures((generation_after(old(self)@.nonce),), created) && (
                final(self)@,
                r,
            ) == watcher_added(old(self)@, pid, may_retry, created),
    {
        if pid == self.own_pid || self.watchers.contains_key(&pid) {
            return Retry::Nothing;
        }
        let generation = self.next_generation();
        let created = create(generation);
        self.watcher_created(pid, may_retry, created)
    }

    /// Notes what came of observing an app.
    fn watcher_created(
        &mut self,
        pid: i32,
        may_retry: bool,
        created: Option<(Watcher, bool)>,
    ) -> (r: Retry)
        ensures
            final(self)@ == match created {
                Some((watcher, _)) => with_watcher(old(self)@, pid, watcher@),
                None => old(self)@,
            },
            r == retry_after(may_retry, created),
    {
        match created {
            Some((watcher, windows_ready)) => {
                self.set_watcher(pid, watcher);
                if may_retry && !windows_ready {
                    Retry::Windows
                } else {
                    Retry::Nothing
                }
            },
            None => if may_retry {
                Retry::Watcher
            } else {
                Retry::Nothing
            },
        }
    }

    /// Starts to watch an app; what cannot be done right after its launch is
    /// tried once more.
    pub fn add_watcher<C>(&mut self, pid: i32, create: C) -> (r: Retry) where
        C: FnOnce(u64) -> Option<(Watcher, bool)>,

        requires
            forall|generation: u64| create.requires((generation,)),
        ensures
            !can_watch(old(self)@, pid) ==> r == Retry::Nothing && final(self)@ == old(self)@,
            can_watch(old(self)@, pid) ==> exists|created: Option<(Watcher, bool)>| #[trigger]
                create.ensures((generation_after(old(self)@.nonce),), created) && (
                final(self)@,
                r,
            ) == watcher_added(old(self)@, pid, true, created),
    {
        self.add_watcher_inner(pid, true, create)
    }

    /// An app was launched: a regular one is watched.
    pub fn on_app_launched<C>(&mut self, pid: i32, regular: bool, create: C) -> (r: Retry) where
        C: FnOnce(u64) -> Option<(Watcher, bool)>,

        requires
            forall|generation: u64| create.requires((generation,)),
        ensures
            !(regular && can_watch(old(self)@, pid)) ==> r == Retry::Nothing && final(self)@ == old(self)@,
            regular && can_watch(old(self)@, pid) ==> exists|created: Option<(Watcher, bool)>|
                #[trigger] create.ensures((generation_after(old(self)@.nonce),), created) && (
                final(self)@,
                r,
            ) == watcher_added(old(self)@, pid, true, created),
    {
        if !regular {
            return Retry::Nothing;
        }
        self.add_watcher(pid, create)
    }

    /// The time for the second try has come: what is to be done, unless the app
    /// has terminated.
    pub fn retry_step(&self, pid: i32, retry: Retry, terminated: bool) -> (r: Retry)
        ensures
            r == if terminated {
                Retry::Nothing
            } else if retry == Retry::Watcher && can_watch(self@, pid) {
                Retry::Watcher
            } else if retry == Retry::Windows && self@.watchers.contains_key(pid) {
                Retry::Windows
            } else {
                Retry::Nothing
            },
    {
        if terminated {
            return Retry::Nothing;
        }
        let known = self.watchers.contains_key(&pid);
        match retry {
            Retry::Watcher => if !known && pid != self.own_pid {
                Retry::Watcher
            } else {
                Retry::Nothing
            },
            Retry::Windows => if known {
                Retry::Windows
            } else {
                Retry::Nothing
            },
            Retry::Nothing => Retry::Nothing,
        }
    }

    /// Watches a window of an app that is watched.
    pub fn watch_window<S, R>(&mut self, pid: i32, window: u64, standard: S, register: R) where
        S: Fn(u64) -> bool,
        R: Fn(u64) -> bool,

        requires
            forall|w: u64| standard.requires((w,)),
            forall|w: u64| register.requires((w,)),
        ensures
            !old(self)@.watchers.contains_key(pid) ==> final(self)@ == old(self)@,
            old(self)@.watchers.contains_key(pid) ==> exists|watcher: WatcherView|
                {
                    &&& #[trigger] watched(
                        old(self)@.watchers[pid],
                        window,
                        standard,
                        register,
                        watcher,
                    )
                    &&& final(self)@ == with_watcher(old(self)@, pid, watcher)
                },
    {
        if let Some(mut watcher) = self.watchers.remove(&pid) {
            let ghost before = watcher@;
            assert(before == old(self)@.watchers[pid]);
            watcher.watch_window(window, standard, register);
            let ghost after = watcher@;
            self.watchers.insert(pid, watcher);
            assert(watched(before, window, standard, register, after));
            assert(self@ =~= with_watcher(old(self)@, pid, after));
        }
        assert(!old(self)@.watchers.contains_key(pid) ==> self@ =~= old(self)@);
    }

    /// An app terminated. It is remembered as quit by the engine if it was asked
    /// to terminate, and not too long ago.
    pub fn on_app_terminated(&mut self, pid: i32, recents: &mut RecentQuits, now: u64)
        ensures
            final(self)@ == on_terminated(old(self)@, pid),
            !quit_by_engine(old(self)@, pid, now) ==> final(recents)@ == old(recents)@,
            quit_by_engine(old(self)@, pid, now) ==> exists|entry: RecentQuit|
                {
                    &&& entry.bundle_id@ == old(self)@.pending[pid].bundle_id
                    &&& entry.name@ == old(self)@.pending[pid].name
                    &&& entry.reason == RecentReason::AutoQuit
                    &&& told_now(entry.when)
                    &&& final(recents)@ == #[trigger] pushed(old(recents)@, entry)
                },
    {
        self.watchers.remove(&pid);
        let pending = self.pending_terminations.remove(&pid);
        assert(self@ =~= on_terminated(old(self)@, pid));
        if let Some(pending) = pending {
            assert(old(self)@.pending[pid] == pending@);
            if now.saturating_sub(pending.requested_at) <= PENDING_TERMINATION_TIMEOUT_NANOS {
                recents.push_auto_quit(pending.bundle_id, pending.name);
            }
        }
    }

    /// Rescue path for apps whose windows are destroyed without a report: when
    /// the user switches away from an app, its windows are recounted.
    pub fn on_app_deactivated(&self, pid: i32, config: &Config, app: &AppFacts) -> (r: Action)
        ensures
            r == on_deactivated(self@, pid, config@, app@),
    {
        match self.watchers.get(&pid) {
            Some(watcher) => if watcher.had_window && should_quit(config, app) {
                Action::Recount(
                    RecountRequest {
                        pid,
                        generation: watcher.generation,
                        phase: RecountPhase::AppDeactivated,
                    },
                )
            } else {
                Action::Nothing
            },
            None => Action::Nothing,
        }
    }

    /// The active Space changed.
    pub fn on_space_changed(&mut self, now: u64)
        ensures
            final(self)@ == (EngineView { last_space_change: Some(now), ..old(self)@ }),
    {
        self.last_space_change = Some(now);
    }

    fn is_space_change_recent(&self, now: u64) -> (r: bool)
        ensures
            r == space_change_recent(self@, now),
    {
        match self.last_space_change {
            Some(changed) => now.saturating_sub(changed) < SPACE_CHANGE_GRACE_NANOS,
            None => false,
        }
    }

    /// A window event of an app was reported.
    pub fn on_ax_event(&mut self, pid: i32, notification: &str, window: u64) -> (r: Action)
        ensures
            (final(self)@, r) == on_window_event(old(self)@, pid, notification@, window),
    {
        if !self.watchers.contains_key(&pid) {
            return Action::Nothing;
        }
        if same(notification, "AXWindowCreated") {
            self.bump_generation(pid);
            let ghost between = self@;
            self.pending_terminations.remove(&pid);
            assert(self@ =~= EngineView { pending: between.pending.remove(pid), ..between });
            Action::WatchWindow { pid }
        } else if same(notification, "AXUIElementDestroyed") {
            if let Some(mut watcher) = self.watchers.remove(&pid) {
                watcher.forget_window(window);
                self.watchers.insert(pid, watcher);
                assert(self@ =~= with_watcher(
                    old(self)@,
                    pid,
                    without_window(old(self)@.watchers[pid], window),
                ));
            }
            let generation = self.bump_generation(pid);
            Action::Recount(
                RecountRequest { pid, generation, phase: RecountPhase::WindowDestroyed },
            )
        } else {
            Action::Nothing
        }
    }

    fn is_quit_still_due(&self, pid: i32, generation: u64, config: &Config, app: &AppFacts) -> (r:
        bool)
        ensures
            r == quit_still_due(self@, pid, generation, config@, app@),
    {
        match self.watchers.get(&pid) {
            Some(watcher) => watcher.generation == generation && should_quit(config, app)
                && !app.terminated && app.finished_launching && !hidden_blocks_quit(
                watcher.last_ordered_out,
                app,
            ),
            None => false,
        }
    }

    /// Second half of the quit path, when the delay has elapsed.
    pub fn finish_quit(
        &self,
        pid: i32,
        generation: u64,
        config: &Config,
        app: &AppFacts,
        now: u64,
    ) -> (r: Action)
        ensures
            r == on_quit_due(self@, pid, generation, config@, app@, now),
    {
        if !self.is_quit_still_due(pid, generation, config, app) {
            return Action::Nothing;
        }
        // Window events around Space switches are unreliable: defer, check again
        // later.
        if self.is_space_change_recent(now) {
            return Action::ScheduleQuit {
                pid,
                generation,
                delay: Double { bits: SPACE_CHANGE_GRACE_BITS },
            };
        }
        if self.pending_terminations.contains_key(&pid) {
            return Action::Nothing;
        }
        Action::Recount(RecountRequest { pid, generation, phase: RecountPhase::FinalCheck })
    }

    /// A recount was handed to the worker, or was not.
    pub fn recount_sent(&mut self, outcome: SendOutcome)
        requires
            old(self)@.outstanding < usize::MAX,
        ensures
            final(self)@ == on_sent(old(self)@, outcome),
    {
        match outcome {
            SendOutcome::Sent => {
                self.outstanding_recounts = self.outstanding_recounts + 1;
                self.recount_timer = true;
            },
            SendOutcome::Full => {},
            SendOutcome::Disconnected => {},
        }
    }

    /// A result was taken from the worker.
    pub fn recount_received(
        &mut self,
        result: RecountResult,
        config: &Config,
        app: &AppFacts,
        now: u64,
    ) -> (r: Action)
        ensures
            (final(self)@, r) == on_recount(on_received(old(self)@), result, config@, app@, now),
    {
        self.outstanding_recounts = self.outstanding_recounts.saturating_sub(1);
        self.handle_recount_result(result, config, app, now)
    }

    /// No more results can be taken from the worker for now, or at all. The
    /// drain timer stops once nothing is outstanding.
    pub fn recounts_drained(&mut self, disconnected: bool)
        ensures
            final(self)@ == on_drained(old(self)@, disconnected),
    {
        if disconnected {
            self.outstanding_recounts = 0;
        }
        if self.outstanding_recounts == 0 {
            self.recount_timer = false;
        }
    }

    fn handle_recount_result(
        &mut self,
        result: RecountResult,
        config: &Config,
        app: &AppFacts,
        now: u64,
    ) -> (r: Action)
        ensures
            (final(self)@, r) == on_recount(old(self)@, result, config@, app@, now),
    {
        let pid: i32 = result.request.pid;
        let generation: u64 = result.request.generation;
        let had_window = match self.watchers.get(&pid) {
            Some(watcher) => {
                if watcher.generation != generation {
                    return Action::Nothing;
                }
                watcher.had_window
            },
            None => {
                return Action::Nothing;
            },
        };
        let Some(count) = result.count else {
            return Action::Nothing;
        };
        // Remembered for hidden apps: an app that closes to the background and
        // whose last recount saw a window ordered out closed that window; it was
        // not hidden by the user.
        if let Some(mut watcher) = self.watchers.remove(&pid) {
            watcher.last_ordered_out = count.ordered_out;
            self.watchers.insert(pid, watcher);
        }
        assert(self@ =~= with_watcher(
            old(self)@,
            pid,
            WatcherView { last_ordered_out: count.ordered_out, ..old(self)@.watchers[pid] },
        ));
        if count.effective != 0 {
            return Action::Nothing;
        }
        match result.request.phase {
            RecountPhase::FinalCheck => self.finish_quit_after_recount(
                pid,
                generation,
                result.cg_count,
                config,
                app,
                now,
            ),
            _ => {
                if !had_window || !should_quit(config, app) {
                    return Action::Nothing;
                }
                let delay = config.quit_delay_secs.max_with(Double { bits: MIN_QUIT_DELAY_BITS });
                Action::ScheduleQuit { pid, generation, delay }
            },
        }
    }

    fn finish_quit_after_recount(
        &mut self,
        pid: i32,
        generation: u64,
        cg_count: Option<usize>,
        config: &Config,
        app: &AppFacts,
        now: u64,
    ) -> (r: Action)
        ensures
            (final(self)@, r) == on_final_check(
                old(self)@,
                pid,
                generation,
                cg_count,
                config@,
                app@,
                now,
            ),
    {
        if !self.is_quit_still_due(pid, generation, config, app)
            || self.pending_terminations.contains_key(&pid) {
            return Action::Nothing;
        }
        if self.is_space_change_recent(now) {
            return Action::ScheduleQuit {
                pid,
                generation,
                delay: Double { bits: SPACE_CHANGE_GRACE_BITS },
            };
        }
        match cg_count {
            Some(n) => {
                // E.g. a full-screen window on another Space: do not quit.
                if n != 0 {
                    return Action::Nothing;
                }
            },
            None => {
                return Action::Nothing;
            },
        }
        let pending_generation = self.bump_generation(pid);
        Action::Terminate { pid, generation: pending_generation }
    }

    /// The app answered the request to terminate. If it accepted, the request is
    /// remembered until the app terminates or the request expires.
    pub fn termination_answered(
        &mut self,
        pid: i32,
        generation: u64,
        accepted: bool,
        bundle_id: Option<String>,
        name: String,
        now: u64,
    ) -> (r: Action)
        ensures
            (final(self)@, r) == on_termination_answered(
                old(self)@,
                pid,
                generation,
                accepted,
                opt_text(bundle_id),
                name@,
                now,
            ),
    {
        if !accepted {
            return Action::Nothing;
        }
        match bundle_id {
            Some(bundle_id) => {
                let pending = PendingTermination { bundle_id, name, generation, requested_at: now };
                let ghost pending_view = pending@;
                self.pending_terminations.insert(pid, pending);
                assert(self@ =~= EngineView {
                    pending: old(self)@.pending.insert(pid, pending_view),
                    ..old(self)@
                });
                Action::ScheduleExpiry {
                    pid,
                    generation,
                    delay: Double { bits: PENDING_TERMINATION_TIMEOUT_BITS },
                }
            },
            None => Action::Nothing,
        }
    }

    /// A requested termination is given up, unless a later one took its place.
    pub fn expire_pending_termination(&mut self, pid: i32, generation: u64)
        ensures
            final(self)@ == on_expiry(old(self)@, pid, generation),
    {
        let expired = match self.pending_terminations.get(&pid) {
            Some(pending) => pending.generation == generation,
            None => false,
        };
        if expired {
            self.pending_terminations.remove(&pid);
            assert(self@ =~= EngineView {
                pending: old(self)@.pending.remove(pid),
                ..old(self)@
            });
        }
    }
}

/// What is to be tried again after an app was observed.
pub open spec fn retry_after(may_retry: bool, created: Option<(Watcher, bool)>) -> Retry {
    if !may_retry {
        Retry::Nothing
    } else {
        match created {
            Some((_, true)) => Retry::Nothing,
            Some((_, false)) => Retry::Windows,
            None => Retry::Watcher,
        }
    }
}

/// The engine after it was tried to observe an app, and what is to be tried
/// again.
pub open spec fn watcher_added(
    engine: EngineView,
    pid: i32,
    may_retry: bool,
    created: Option<(Watcher, bool)>,
) -> (EngineView, Retry) {
    let next = EngineView { nonce: generation_after(engine.nonce), ..engine };
    (
        match created {
            Some((watcher, _)) => with_watcher(next, pid, watcher@),
            None => next,
        },
        retry_after(may_retry, created),
    )
}

} // verus!
