//! Keep-alive: relaunches selected apps when they terminate, while treating
//! related external background helpers as satisfying Keep.
//!
//! Deliberately independent of the quit engine: it keeps working while the
//! Accessibility permission is missing or the engine is restarting. The engine
//! never quits an app on the keep-alive list, so RustQuit cannot fight itself.
//!
//! Loop protection (optional): after `LOOP_LIMIT` automatic restarts within
//! the window, keep-alive for that app pauses for a day: an app that crashes
//! right back at launch, or one the user is actively trying to get rid of, stops
//! being resurrected.
//!
//! Moments are nanoseconds of a clock that never goes back (`now`), or seconds
//! since the epoch (`unix_now`).
use vstd::prelude::*;

use crate::bundle_ids::{is_listed, names, names_is_case_blind};
use crate::clock::{told_now, told_since};
use crate::config::{
    normal_settings, saved_or_kept, with_ignored_until, Config, ConfigStore, ConfigView,
};
use crate::double::Double;
use crate::engine::policy::quit_allowed;
use crate::engine::recent::{
    pushed, quit_moment, quits_stay_known, RecentQuit, RecentQuits, RecentReason, RecentsView,
};
use crate::name_map::{ascending, NameMap};
use crate::procexit::{ExitKind, ProcExitWatcher};
use crate::suite::{
    background_suite_running, running_views, suite_running, RunningApp, RunningView,
};
use crate::text::{before, lower, opt_text, order_is_total, same_text, texts, to_lower};

verus! {

/// Restarts within this window count toward the loop-protection limit: an hour
/// in nanoseconds.
pub const LOOP_WINDOW_NANOS: u64 = 3_600_000_000_000;

/// Automatic restarts allowed per window before keep-alive pauses.
pub const LOOP_LIMIT: usize = 2;

/// How long a loop-protected app stays paused: a day in nanoseconds.
pub const PAUSE_NANOS: u64 = 86_400_000_000_000;

/// How long an app is ignored: a day in seconds.
pub const PAUSE_SECS: u64 = 86_400;

/// An app that RustQuit itself quit this recently is never restarted: a minute
/// in nanoseconds.
pub const RECENT_QUIT_GRACE_NANOS: u128 = 60_000_000_000;

/// What keep-alive remembers.
#[derive(Debug)]
pub struct KeepAlive {
    /// The moments of automatic restarts, per lower-case bundle ID.
    restarts: NameMap<Vec<u64>>,
    /// Since when loop protection pauses an app, per lower-case bundle ID.
    paused_since: NameMap<u64>,
}

/// The contents of what keep-alive remembers.
#[verifier::ext_equal]
pub ghost struct KeepAliveView {
    pub restarts: Map<Seq<char>, Seq<u64>>,
    pub paused_since: Map<Seq<char>, u64>,
}

/// The contents of a map of moments.
pub open spec fn moments(restarts: Map<Seq<char>, Vec<u64>>) -> Map<Seq<char>, Seq<u64>> {
    restarts.map_values(|list: Vec<u64>| list@)
}

impl View for KeepAlive {
    type V = KeepAliveView;

    closed spec fn view(&self) -> KeepAliveView {
        KeepAliveView { restarts: moments(self.restarts@), paused_since: self.paused_since@ }
    }
}

/// What has to be known of the system before an app is launched.
#[derive(Debug)]
pub struct LaunchFacts {
    /// The app runs already.
    pub running: bool,
    /// Where the app is; `None` if it was not found.
    pub path: Option<String>,
    /// The running apps.
    pub apps: Vec<RunningApp>,
}

/// The contents of the facts.
pub ghost struct LaunchView {
    pub running: bool,
    pub path: Option<Seq<char>>,
    pub apps: Seq<RunningView>,
}

impl View for LaunchFacts {
    type V = LaunchView;

    open spec fn view(&self) -> LaunchView {
        LaunchView {
            running: self.running,
            path: opt_text(self.path),
            apps: running_views(self.apps@),
        }
    }
}

/// For how many seconds an app is still ignored.
pub open spec fn ignored_for(config: ConfigView, bundle_id: Seq<char>, unix_now: u64) -> Option<u64> {
    let key = lower(bundle_id);
    if config.keep_alive_ignored_until.contains_key(key)
        && config.keep_alive_ignored_until[key] > unix_now {
        Some((config.keep_alive_ignored_until[key] - unix_now) as u64)
    } else {
        None
    }
}

/// Keep-alive is on for the app, and it is not ignored.
pub open spec fn launch_permitted(
    config: ConfigView,
    bundle_id: Seq<char>,
    unix_now: u64,
) -> bool {
    &&& config.keep_alive_enabled
    &&& names(config.keep_alive_apps, bundle_id)
    &&& ignored_for(config, bundle_id, unix_now) is None
}

/// The app is to be launched: that is permitted, the app can be found, and
/// neither it nor a helper that stands for it runs.
pub open spec fn launch_due(
    config: ConfigView,
    bundle_id: Seq<char>,
    unix_now: u64,
    facts: LaunchView,
) -> bool {
    &&& launch_permitted(config, bundle_id, unix_now)
    &&& !facts.running
    &&& facts.path is Some
    &&& !suite_running(facts.apps, bundle_id, facts.path->0)
}

/// Loop protection pauses the app.
pub open spec fn loop_paused(state: KeepAliveView, bundle_id: Seq<char>, now: u64) -> bool {
    let key = lower(bundle_id);
    state.paused_since.contains_key(key) && now - state.paused_since[key] < PAUSE_NANOS
}

/// The app is left alone: it is ignored, or loop protection pauses it.
pub open spec fn left_alone(
    state: KeepAliveView,
    config: ConfigView,
    bundle_id: Seq<char>,
    now: u64,
    unix_now: u64,
) -> bool {
    ignored_for(config, bundle_id, unix_now) is Some || loop_paused(state, bundle_id, now)
}

/// What is remembered after it was looked up whether the app is left alone: a
/// pause that is over is forgotten.
pub open spec fn after_pause_check(
    state: KeepAliveView,
    config: ConfigView,
    bundle_id: Seq<char>,
    now: u64,
    unix_now: u64,
) -> KeepAliveView {
    if left_alone(state, config, bundle_id, now, unix_now) {
        state
    } else {
        KeepAliveView { paused_since: state.paused_since.remove(lower(bundle_id)), ..state }
    }
}

/// The moments that lie in the loop-protection window.
pub open spec fn in_window(list: Seq<u64>, now: u64) -> Seq<u64> {
    list.filter(|t: u64| now - t < LOOP_WINDOW_NANOS)
}

/// The remembered restarts of an app.
pub open spec fn restarts_of(state: KeepAliveView, bundle_id: Seq<char>) -> Seq<u64> {
    if state.restarts.contains_key(lower(bundle_id)) {
        state.restarts[lower(bundle_id)]
    } else {
        Seq::empty()
    }
}

/// A regular app that quit on its own stays quit, and so does one whose exit was
/// not seen. Menu bar apps are always restored, and so is every app while
/// always-running behavior is enabled.
pub open spec fn stays_quit(config: ConfigView, menu_bar: bool, exit: Option<ExitKind>) -> bool {
    !menu_bar && !config.keep_alive_auto_start_missing && exit != Some(ExitKind::Crashed)
}

/// What is remembered after a restart was considered for an app that RustQuit
/// did not quit itself, and whether a launch is wanted.
pub open spec fn restart_considered(
    state: KeepAliveView,
    config: ConfigView,
    bundle_id: Seq<char>,
    menu_bar: bool,
    exit: Option<ExitKind>,
    now: u64,
    unix_now: u64,
) -> (KeepAliveView, bool) {
    if stays_quit(config, menu_bar, exit) || left_alone(state, config, bundle_id, now, unix_now) {
        (state, false)
    } else {
        let checked = after_pause_check(state, config, bundle_id, now, unix_now);
        if config.keep_alive_loop_protection {
            let key = lower(bundle_id);
            let recent = in_window(restarts_of(checked, bundle_id), now);
            let pruned = KeepAliveView { restarts: checked.restarts.insert(key, recent), ..checked };
            if recent.len() >= LOOP_LIMIT {
                (
                    KeepAliveView { paused_since: pruned.paused_since.insert(key, now), ..pruned },
                    false,
                )
            } else {
                (pruned, true)
            }
        } else {
            (checked, true)
        }
    }
}

/// What is remembered after an app was restarted.
pub open spec fn restart_noted(state: KeepAliveView, bundle_id: Seq<char>, now: u64) -> KeepAliveView {
    KeepAliveView {
        restarts: state.restarts.insert(
            lower(bundle_id),
            restarts_of(state, bundle_id).push(now),
        ),
        ..state
    }
}

/// What is remembered after the restarts and the pause of an app were forgotten.
pub open spec fn cleared(state: KeepAliveView, bundle_id: Seq<char>) -> KeepAliveView {
    KeepAliveView {
        restarts: state.restarts.remove(lower(bundle_id)),
        paused_since: state.paused_since.remove(lower(bundle_id)),
    }
}

/// For how many seconds an app is still ignored, if it is.
pub fn ignore_left(config: &Config, bundle_id: &str, unix_now: u64) -> (r: Option<u64>)
    ensures
        r == ignored_for(config@, bundle_id@, unix_now),
{
    let key = to_lower(bundle_id);
    match config.keep_alive_ignored_until.get(key.as_str()) {
        Some(until) => if *until > unix_now {
            Some(*until - unix_now)
        } else {
            None
        },
        None => None,
    }
}

/// Whether a running app's exit has to be watched.
pub fn watch_if_listed(config: &Config, bundle_id: &str) -> (r: bool)
    ensures
        r == names(config@.keep_alive_apps, bundle_id@),
{
    is_listed(&config.keep_alive_apps, bundle_id)
}

/// Whether keep-alive is on for the app and it is not ignored.
pub fn launch_allowed(config: &Config, bundle_id: &str, unix_now: u64) -> (r: bool)
    ensures
        r == launch_permitted(config@, bundle_id@, unix_now),
{
    config.keep_alive_enabled && is_listed(&config.keep_alive_apps, bundle_id)
        && ignore_left(config, bundle_id, unix_now).is_none()
}

/// Whether the app is to be launched now. It is launched hidden and without
/// stealing focus: the process comes back, but no window pops up. Updaters
/// usually relaunch an app themselves, so a second instance is never started.
pub fn launch_if_needed(
    config: &Config,
    bundle_id: &str,
    unix_now: u64,
    facts: &LaunchFacts,
) -> (r: bool)
    ensures
        r == launch_due(config@, bundle_id@, unix_now, facts@),
{
    if !launch_allowed(config, bundle_id, unix_now) {
        return false;
    }
    if facts.running {
        return false;
    }
    match &facts.path {
        Some(path) => !background_suite_running(bundle_id, path.as_str(), &facts.apps),
        None => false,
    }
}

/// After how many seconds an ignore has to be looked at again: when it is over,
/// but not right away.
pub fn ignore_timer_secs(until: u64, unix_now: u64) -> (r: u64)
    ensures
        r == if until > unix_now {
            (until - unix_now) as u64
        } else {
            1
        },
{
    let left: u64 = until.saturating_sub(unix_now);
    if left > 1 {
        left
    } else {
        1
    }
}

/// The app terminated: a listed one is remembered as such, and while keep-alive
/// is on, a restart is considered after the delay that is returned.
pub fn on_terminated(
    config: &Config,
    recents: &mut RecentQuits,
    bundle_id: String,
    name: String,
) -> (r: Option<Double>)
    ensures
        r == if names(config@.keep_alive_apps, bundle_id@) && config@.keep_alive_enabled {
            Some(config@.keep_alive_delay_secs)
        } else {
            None
        },
        !names(config@.keep_alive_apps, bundle_id@) ==> final(recents)@ == old(recents)@,
        names(config@.keep_alive_apps, bundle_id@) ==> exists|entry: RecentQuit|
            {
                &&& entry.bundle_id == bundle_id
                &&& entry.name == name
                &&& entry.reason == RecentReason::KeepTermination
                &&& told_now(entry.when)
                &&& final(recents)@ == #[trigger] pushed(old(recents)@, entry)
            },
{
    if !is_listed(&config.keep_alive_apps, bundle_id.as_str()) {
        return None;
    }
    recents.push_keep_termination(bundle_id, name);
    if config.keep_alive_enabled {
        Some(config.keep_alive_delay_secs)
    } else {
        None
    }
}

impl KeepAlive {
    /// Nothing is remembered yet.
    pub fn new() -> (r: KeepAlive)
        ensures
            r@ == (KeepAliveView { restarts: Map::empty(), paused_since: Map::empty() }),
    {
        let r = KeepAlive { restarts: NameMap::new(), paused_since: NameMap::new() };
        assert(r@.restarts =~= Map::empty());
        r
    }

    /// For how many seconds an app is still ignored, or `None` when launch is
    /// allowed. That depends on the settings alone.
    pub fn ignore_remaining(&self, config: &Config, bundle_id: &str, unix_now: u64) -> (r: Option<
        u64,
    >)
        ensures
            r == ignored_for(config@, bundle_id@, unix_now),
    {
        ignore_left(config, bundle_id, unix_now)
    }

    /// Whether the app is left alone: it is ignored, or loop protection pauses
    /// it. A pause that is over is forgotten.
    pub fn is_paused(
        &mut self,
        config: &Config,
        bundle_id: &str,
        now: u64,
        unix_now: u64,
    ) -> (r: bool)
        ensures
            r == left_alone(old(self)@, config@, bundle_id@, now, unix_now),
            final(self)@ == after_pause_check(old(self)@, config@, bundle_id@, now, unix_now),
    {
        if ignore_left(config, bundle_id, unix_now).is_some() {
            return true;
        }
        let key = to_lower(bundle_id);
        let paused = match self.paused_since.get(key.as_str()) {
            Some(since) => now.saturating_sub(*since) < PAUSE_NANOS,
            None => false,
        };
        if !paused {
            self.paused_since.remove(key.as_str());
        }
        paused
    }

    /// The restarts of an app that lie in the loop-protection window.
    fn recent_restarts(&self, key: &str, now: u64) -> (r: Vec<u64>)
        ensures
            r@ == in_window(
                if self@.restarts.contains_key(key@) {
                    self@.restarts[key@]
                } else {
                    Seq::empty()
                },
                now,
            ),
    {
        let mut r: Vec<u64> = Vec::new();
        match self.restarts.get(key) {
            Some(list) => {
                let ghost keep = |t: u64| now - t < LOOP_WINDOW_NANOS;
                assert(list@.take(0).filter(keep) =~= Seq::empty()) by {
                    reveal(Seq::filter);
                }
                for i in 0..list.len()
                    invariant
                        keep == (|t: u64| now - t < LOOP_WINDOW_NANOS),
                        r@ == list@.take(i as int).filter(keep),
                {
                    let t: u64 = list[i];
                    proof {
                        assert(list@.take(i + 1) =~= list@.take(i as int).push(t));
                        list@.take(i as int).lemma_filter_push(t, keep);
                    }
                    if now.saturating_sub(t) < LOOP_WINDOW_NANOS {
                        r.push(t);
                    }
                }
                assert(list@.take(list@.len() as int) =~= list@);
            },
            None => {
                assert(r@ =~= in_window(Seq::empty(), now)) by {
                    reveal(Seq::filter);
                }
            },
        }
        r
    }

    /// Considers to restart an app that RustQuit did not quit itself, given how
    /// its process ended. Everything is checked at this time, after the delay.
    /// Tells whether a launch is wanted. This is the only path that counts
    /// toward loop protection.
    pub fn consider_restart(
        &mut self,
        config: &Config,
        bundle_id: &str,
        menu_bar: bool,
        exit: Option<ExitKind>,
        now: u64,
        unix_now: u64,
    ) -> (r: bool)
        ensures
            (final(self)@, r) == restart_considered(
                old(self)@,
                config@,
                bundle_id@,
                menu_bar,
                exit,
                now,
                unix_now,
            ),
    {
        // Without the always-running option, regular apps are only restored
        // after crashes.
        if !menu_bar && !config.keep_alive_auto_start_missing {
            match exit {
                Some(ExitKind::Crashed) => {},
                _ => {
                    return false;
                },
            }
        }
        if self.is_paused(config, bundle_id, now, unix_now) {
            return false;
        }
        if config.keep_alive_loop_protection {
            let ghost checked = self@;
            let key = to_lower(bundle_id);
            let recent = self.recent_restarts(key.as_str(), now);
            let many = recent.len() >= LOOP_LIMIT;
            let ghost recent_view = recent@;
            self.restarts.insert(key, recent);
            assert(self@ =~= KeepAliveView {
                restarts: checked.restarts.insert(lower(bundle_id@), recent_view),
                ..checked
            });
            if many {
                self.paused_since.insert(to_lower(bundle_id), now);
                return false;
            }
        }
        true
    }

    /// Notes that an app was restarted.
    pub fn note_restart(&mut self, bundle_id: &str, now: u64)
        ensures
            final(self)@ == restart_noted(old(self)@, bundle_id@, now),
    {
        let key = to_lower(bundle_id);
        let mut list: Vec<u64> = Vec::new();
        if let Some(known) = self.restarts.get(key.as_str()) {
            for i in 0..known.len()
                invariant
                    list@ == known@.take(i as int),
            {
                list.push(known[i]);
                assert(list@ =~= known@.take(i + 1));
            }
            assert(list@ =~= known@);
        }
        assert(list@ =~= restarts_of(self@, bundle_id@));
        list.push(now);
        let ghost list_view = list@;
        self.restarts.insert(key, list);
        assert(self@.restarts =~= old(self)@.restarts.insert(lower(bundle_id@), list_view));
    }

    /// The restart check of an app, after the delay. RustQuit never resurrects
    /// an app that it quit itself less than a minute ago (which cannot happen
    /// while the app is listed, but the lists may have changed in between). The
    /// exit that was seen is used up, unless that is why nothing happens.
    /// `facts` is asked only where a launch is wanted. Tells whether the app is
    /// to be launched; if so, the restart is counted.
    pub fn restart<F: FnOnce() -> LaunchFacts>(
        &mut self,
        config: &Config,
        recents: &RecentQuits,
        exits: &mut Option<ProcExitWatcher>,
        bundle_id: &str,
        pid: i32,
        menu_bar: bool,
        now: u64,
        unix_now: u64,
        facts: F,
    ) -> (r: bool)
        requires
            facts.requires(()),
        ensures
            exists|age: Option<u128>| #[trigger]
                age_told(recents@, bundle_id@, age) && restarted(
                    old(self)@,
                    config@,
                    age,
                    exits_view(*old(exits)),
                    (bundle_id@, pid, menu_bar),
                    (now, unix_now),
                    facts,
                    r,
                    final(self)@,
                    exits_view(*final(exits)),
                ),
    {
        let age = recents.auto_quit_age(bundle_id);
        assert(age_told(recents@, bundle_id@, age));
        self.restart_given_age(config, age, exits, bundle_id, pid, menu_bar, now, unix_now, facts)
    }

    /// The restart check of an app that RustQuit last quit so many nanoseconds
    /// ago, if it did.
    pub fn restart_given_age<F: FnOnce() -> LaunchFacts>(
        &mut self,
        config: &Config,
        self_quit_age: Option<u128>,
        exits: &mut Option<ProcExitWatcher>,
        bundle_id: &str,
        pid: i32,
        menu_bar: bool,
        now: u64,
        unix_now: u64,
        facts: F,
    ) -> (r: bool)
        requires
            facts.requires(()),
        ensures
            restarted(
                old(self)@,
                config@,
                self_quit_age,
                exits_view(*old(exits)),
                (bundle_id@, pid, menu_bar),
                (now, unix_now),
                facts,
                r,
                final(self)@,
                exits_view(*final(exits)),
            ),
    {
        if let Some(age) = self_quit_age {
            if age < RECENT_QUIT_GRACE_NANOS {
                return false;
            }
        }
        let mut exit: Option<ExitKind> = None;
        let mut watcher: Option<ProcExitWatcher> = None;
        std::mem::swap(exits, &mut watcher);
        if let Some(mut seen) = watcher {
            exit = seen.take_exit_kind(pid);
            *exits = Some(seen);
        }
        if !self.consider_restart(config, bundle_id, menu_bar, exit, now, unix_now) {
            return false;
        }
        let found = facts();
        let launch = launch_if_needed(config, bundle_id, unix_now, &found);
        if launch {
            self.note_restart(bundle_id, now);
        }
        launch
    }

    /// The user just checked the Keep box: that explicit intent overrides loop
    /// protection, but respects a separately requested ignore. Tells whether the
    /// app is to be launched right away, so that failures surface while Keep is
    /// being configured rather than at the first crash.
    pub fn keep_checked(
        &mut self,
        config: &Config,
        bundle_id: &str,
        unix_now: u64,
        facts: &LaunchFacts,
    ) -> (r: bool)
        ensures
            final(self)@ == cleared(old(self)@, bundle_id@),
            r == launch_due(config@, bundle_id@, unix_now, facts@),
    {
        self.clear(bundle_id);
        launch_if_needed(config, bundle_id, unix_now, facts)
    }

    /// Forgets the restarts and the pause of an app.
    fn clear(&mut self, bundle_id: &str)
        ensures
            final(self)@ == cleared(old(self)@, bundle_id@),
    {
        let key = to_lower(bundle_id);
        self.paused_since.remove(key.as_str());
        self.restarts.remove(key.as_str());
        assert(self@ =~= cleared(old(self)@, bundle_id@));
    }

    /// The keep-alive apps to be launched if they do not run: those that are not
    /// left alone.
    pub fn reconcile(&mut self, config: &Config, now: u64, unix_now: u64) -> (r: Vec<String>)
        ensures
            texts(r@) == not_left_alone(
                old(self)@,
                config@,
                config@.keep_alive_apps,
                now,
                unix_now,
            ),
            final(self)@ == after_pause_checks(
                old(self)@,
                config@,
                config@.keep_alive_apps,
                now,
                unix_now,
            ),
    {
        let ghost listed = config@.keep_alive_apps;
        let ghost start = self@;
        let mut r: Vec<String> = Vec::new();
        let ghost free = |id: Seq<char>| !left_alone(start, config@, id, now, unix_now);
        proof {
            assert(listed.take(0).filter(free) =~= Seq::empty()) by {
                reveal(Seq::filter);
            }
            assert(texts(r@) =~= listed.take(0).filter(free));
            assert(start.paused_since.remove_keys(
                free_ids(start, config@, listed.take(0), now, unix_now),
            ) =~= start.paused_since);
        }
        for i in 0..config.keep_alive_apps.len()
            invariant
                listed == config@.keep_alive_apps,
                listed == texts(config.keep_alive_apps@),
                free == (|id: Seq<char>| !left_alone(start, config@, id, now, unix_now)),
                texts(r@) == listed.take(i as int).filter(free),
                self@ == after_pause_checks(start, config@, listed.take(i as int), now, unix_now),
        {
            let ghost id = listed[i as int];
            let ghost kept = texts(r@);
            proof {
                assert(listed.take(i + 1) =~= listed.take(i as int).push(id));
                listed.take(i as int).lemma_filter_push(id, free);
                next_pause_check(start, config@, listed.take(i as int), id, now, unix_now);
            }
            if !self.is_paused(config, config.keep_alive_apps[i].as_str(), now, unix_now) {
                r.push(config.keep_alive_apps[i].clone());
                assert(texts(r@) =~= kept.push(id));
            }
        }
        assert(listed.take(listed.len() as int) =~= listed);
        r
    }

    /// The keep-alive apps to be launched if they do not run, where missing apps
    /// are to be started at all.
    pub fn reconcile_missing_apps(&mut self, config: &Config, now: u64, unix_now: u64) -> (r:
        Vec<String>)
        ensures
            !config@.keep_alive_auto_start_missing ==> r@.len() == 0 && final(self)@ == old(self)@,
            config@.keep_alive_auto_start_missing ==> texts(r@) == not_left_alone(
                old(self)@,
                config@,
                config@.keep_alive_apps,
                now,
                unix_now,
            ) && final(self)@ == after_pause_checks(
                old(self)@,
                config@,
                config@.keep_alive_apps,
                now,
                unix_now,
            ),
    {
        if !config.keep_alive_auto_start_missing {
            return Vec::new();
        }
        self.reconcile(config, now, unix_now)
    }

    /// Suppresses every automatic launch of an app for a day. Saving the deadline
    /// means that restarting RustQuit cannot bypass the user's pause. Gives the
    /// deadline.
    pub fn ignore_for_24_hours<E, S: FnOnce(&Config) -> Result<(), E>>(
        &mut self,
        store: &mut ConfigStore,
        bundle_id: &str,
        unix_now: u64,
        save: S,
    ) -> (r: Result<u64, E>)
        requires
            forall|config: &Config| save.requires((config,)),
        ensures
            exists|saved: Result<(), E>|
                {
                    &&& #[trigger] saved_or_kept(
                        old(store).data@,
                        with_ignored_until(
                            old(store).data@,
                            bundle_id@,
                            Some(ignore_deadline(unix_now)),
                        ),
                        save,
                        saved,
                        final(store).data@,
                    )
                    &&& match saved {
                        Ok(_) => r == Ok::<u64, E>(ignore_deadline(unix_now)) && final(self)@
                            == restarts_cleared(old(self)@, bundle_id@),
                        Err(e) => r == Err::<u64, E>(e) && final(self)@ == old(self)@,
                    }
                },
    {
        let until: u64 = unix_now.saturating_add(PAUSE_SECS);
        let saved = store.set_keep_alive_ignored_until(bundle_id, Some(until), save);
        match saved {
            Ok(_) => {
                self.restarts.remove(to_lower(bundle_id).as_str());
                assert(self@ =~= restarts_cleared(old(self)@, bundle_id@));
                Ok(until)
            },
            Err(e) => Err(e),
        }
    }

    /// Removes an ignore and a loop-protection pause. Tells whether the app is to
    /// be launched right away.
    pub fn resume_now<E, S: FnOnce(&Config) -> Result<(), E>>(
        &mut self,
        store: &mut ConfigStore,
        bundle_id: &str,
        unix_now: u64,
        facts: &LaunchFacts,
        save: S,
    ) -> (r: Result<bool, E>)
        requires
            forall|config: &Config| save.requires((config,)),
        ensures
            exists|saved: Result<(), E>|
                {
                    &&& #[trigger] saved_or_kept(
                        old(store).data@,
                        with_ignored_until(old(store).data@, bundle_id@, None),
                        save,
                        saved,
                        final(store).data@,
                    )
                    &&& match saved {
                        Ok(_) => r == Ok::<bool, E>(
                            launch_due(final(store).data@, bundle_id@, unix_now, facts@),
                        ) && final(self)@ == cleared(old(self)@, bundle_id@),
                        Err(e) => r == Err::<bool, E>(e) && final(self)@ == old(self)@,
                    }
                },
    {
        let saved = store.set_keep_alive_ignored_until(bundle_id, None, save);
        match saved {
            Ok(_) => {
                self.clear(bundle_id);
                Ok(launch_if_needed(&store.data, bundle_id, unix_now, facts))
            },
            Err(e) => Err(e),
        }
    }
}

/// The listed apps that are not left alone.
pub open spec fn not_left_alone(
    state: KeepAliveView,
    config: ConfigView,
    listed: Seq<Seq<char>>,
    now: u64,
    unix_now: u64,
) -> Seq<Seq<char>> {
    listed.filter(|id: Seq<char>| !left_alone(state, config, id, now, unix_now))
}

/// The lower-case IDs of the listed apps that are not left alone.
pub open spec fn free_ids(
    state: KeepAliveView,
    config: ConfigView,
    listed: Seq<Seq<char>>,
    now: u64,
    unix_now: u64,
) -> Set<Seq<char>> {
    Set::new(
        |key: Seq<char>|
            exists|i: int|
                0 <= i < listed.len() && lower(#[trigger] listed[i]) == key && !left_alone(
                    state,
                    config,
                    listed[i],
                    now,
                    unix_now,
                ),
    )
}

/// What is remembered after it was looked up of each listed app whether it is
/// left alone: pauses that are over are forgotten.
pub open spec fn after_pause_checks(
    state: KeepAliveView,
    config: ConfigView,
    listed: Seq<Seq<char>>,
    now: u64,
    unix_now: u64,
) -> KeepAliveView {
    KeepAliveView {
        paused_since: state.paused_since.remove_keys(
            free_ids(state, config, listed, now, unix_now),
        ),
        ..state
    }
}

/// Looking one more app up gives what looking all of them up does, and earlier
/// look-ups do not change whether an app is left alone.
proof fn next_pause_check(
    state: KeepAliveView,
    config: ConfigView,
    listed: Seq<Seq<char>>,
    id: Seq<char>,
    now: u64,
    unix_now: u64,
)
    ensures
        ({
            let seen = after_pause_checks(state, config, listed, now, unix_now);
            &&& left_alone(seen, config, id, now, unix_now) == left_alone(
                state,
                config,
                id,
                now,
                unix_now,
            )
            &&& after_pause_check(seen, config, id, now, unix_now) == after_pause_checks(
                state,
                config,
                listed.push(id),
                now,
                unix_now,
            )
        }),
{
    let seen = after_pause_checks(state, config, listed, now, unix_now);
    let longer = listed.push(id);
    let fewer = free_ids(state, config, listed, now, unix_now);
    let more = free_ids(state, config, longer, now, unix_now);
    let freed = !left_alone(state, config, id, now, unix_now);
    if fewer.contains(lower(id)) {
        let i = choose|i: int|
            0 <= i < listed.len() && lower(#[trigger] listed[i]) == lower(id) && !left_alone(
                state,
                config,
                listed[i],
                now,
                unix_now,
            );
        assert(freed);
    }
    assert forall|key: Seq<char>|
        more.contains(key) == (fewer.contains(key) || (freed && key == lower(id))) by {
        if more.contains(key) {
            let i = choose|i: int|
                0 <= i < longer.len() && lower(#[trigger] longer[i]) == key && !left_alone(
                    state,
                    config,
                    longer[i],
                    now,
                    unix_now,
                );
            if i < listed.len() {
                assert(lower(listed[i]) == key);
            }
        }
        if fewer.contains(key) {
            let i = choose|i: int|
                0 <= i < listed.len() && lower(#[trigger] listed[i]) == key && !left_alone(
                    state,
                    config,
                    listed[i],
                    now,
                    unix_now,
                );
            assert(lower(longer[i]) == key);
        }
        if freed && key == lower(id) {
            assert(lower(longer[listed.len() as int]) == key);
        }
    }
    assert(after_pause_check(seen, config, id, now, unix_now).paused_since
        =~= after_pause_checks(state, config, longer, now, unix_now).paused_since);
}

/// The moment until which an app is ignored from now on, in seconds since the
/// epoch.
pub open spec fn ignore_deadline(unix_now: u64) -> u64 {
    if unix_now + PAUSE_SECS > u64::MAX {
        u64::MAX
    } else {
        (unix_now + PAUSE_SECS) as u64
    }
}

/// What is remembered after the restarts of an app were forgotten.
pub open spec fn restarts_cleared(state: KeepAliveView, bundle_id: Seq<char>) -> KeepAliveView {
    KeepAliveView { restarts: state.restarts.remove(lower(bundle_id)), ..state }
}

/// What follows when the timer of an ignore fires.
#[derive(Clone, Copy, Debug, PartialEq, Eq, Structural)]
pub enum IgnoreStep {
    /// Nothing: the ignore was removed or extended in the meantime.
    Nothing,
    /// The clock went back: look again after so many seconds.
    Again { secs: u64 },
    /// The ignore is over: remove it and see to it that the app runs.
    Over,
}

/// What follows when the timer of an ignore fires that was set up for
/// `expected_until`.
pub open spec fn ignore_step(
    config: ConfigView,
    bundle_id: Seq<char>,
    expected_until: u64,
    unix_now: u64,
) -> IgnoreStep {
    let key = lower(bundle_id);
    if !config.keep_alive_ignored_until.contains_key(key) {
        IgnoreStep::Nothing
    } else {
        let until = config.keep_alive_ignored_until[key];
        if until <= unix_now {
            IgnoreStep::Over
        } else if until == expected_until {
            IgnoreStep::Again { secs: (until - unix_now) as u64 }
        } else {
            IgnoreStep::Nothing
        }
    }
}

/// What follows when the timer of an ignore fires. A newly extended ignore has
/// its own timer, so only the timer that fired is set up again.
pub fn ignore_expiry_step(
    config: &Config,
    bundle_id: &str,
    expected_until: u64,
    unix_now: u64,
) -> (r: IgnoreStep)
    ensures
        r == ignore_step(config@, bundle_id@, expected_until, unix_now),
{
    let key = to_lower(bundle_id);
    match config.keep_alive_ignored_until.get(key.as_str()) {
        Some(until) => if *until <= unix_now {
            IgnoreStep::Over
        } else if *until == expected_until {
            IgnoreStep::Again { secs: ignore_timer_secs(*until, unix_now) }
        } else {
            IgnoreStep::Nothing
        },
        None => IgnoreStep::Nothing,
    }
}

/// The timer of an ignore fired. If the ignore is over, it is removed; whether
/// that could be saved or not, the app is seen to. Tells what follows, and
/// whether the app is to be launched.
pub fn on_ignore_expired<E, S: FnOnce(&Config) -> Result<(), E>>(
    store: &mut ConfigStore,
    bundle_id: &str,
    expected_until: u64,
    unix_now: u64,
    facts: &LaunchFacts,
    save: S,
) -> (r: (IgnoreStep, bool))
    requires
        forall|config: &Config| save.requires((config,)),
    ensures
        r.0 == ignore_step(old(store).data@, bundle_id@, expected_until, unix_now),
        r.0 != IgnoreStep::Over ==> !r.1 && final(store).data@ == old(store).data@,
        r.0 == IgnoreStep::Over ==> r.1 == launch_due(
            final(store).data@,
            bundle_id@,
            unix_now,
            facts@,
        ) && exists|saved: Result<(), E>| #[trigger]
            saved_or_kept(
                old(store).data@,
                with_ignored_until(old(store).data@, bundle_id@, None),
                save,
                saved,
                final(store).data@,
            ),
{
    let step = ignore_expiry_step(&store.data, bundle_id, expected_until, unix_now);
    match step {
        IgnoreStep::Over => {
            let _saved = store.set_keep_alive_ignored_until(bundle_id, None, save);
            (step, launch_if_needed(&store.data, bundle_id, unix_now, facts))
        },
        _ => (step, false),
    }
}

/// A timer that looks at an ignore when it is over.
#[derive(Debug)]
pub struct IgnoreTimer {
    pub bundle_id: String,
    pub until: u64,
    /// After how many seconds it fires.
    pub secs: u64,
}

/// The timers of all ignores. Ignores survive a restart of RustQuit, so they are
/// set up again then: a missing kept app is restored when its day is over.
pub fn ignore_timers(config: &Config, unix_now: u64) -> (r: Vec<IgnoreTimer>)
    ensures
        forall|key: Seq<char>| #[trigger]
            config@.keep_alive_ignored_until.contains_key(key) <==> has_timer(r@, key),
        forall|i: int, j: int|
            0 <= i < j < r@.len() ==> (#[trigger] r@[i]).bundle_id@ != (#[trigger] r@[j]).bundle_id@,
        forall|i: int|
            0 <= i < r@.len() ==> (#[trigger] r@[i]).until
                == config@.keep_alive_ignored_until[r@[i].bundle_id@] && r@[i].secs == (
            if r@[i].until > unix_now {
                (r@[i].until - unix_now) as u64
            } else {
                1
            }),
{
    let ignored = &config.keep_alive_ignored_until;
    let mut r: Vec<IgnoreTimer> = Vec::new();
    let count: usize = ignored.len();
    for i in 0..count
        invariant
            count == ignored.pairs().len(),
            ascending(ignored.pairs()),
            *ignored == config.keep_alive_ignored_until,
            r@.len() == i,
            forall|j: int|
                0 <= j < i ==> (#[trigger] r@[j]).bundle_id@ == ignored.pairs()[j].0@ && r@[j].until
                    == ignored@[r@[j].bundle_id@] && r@[j].secs == (if r@[j].until > unix_now {
                    (r@[j].until - unix_now) as u64
                } else {
                    1
                }),
    {
        let (key, until) = ignored.entry(i);
        r.push(
            IgnoreTimer {
                bundle_id: key.to_owned(),
                until: *until,
                secs: ignore_timer_secs(*until, unix_now),
            },
        );
    }
    assert forall|i: int, j: int| 0 <= i < j < r@.len() implies (#[trigger] r@[i]).bundle_id@ != (
    #[trigger] r@[j]).bundle_id@ by {
        assert(before(ignored.pairs()[i].0@, ignored.pairs()[j].0@));
        order_is_total(ignored.pairs()[i].0@, ignored.pairs()[j].0@);
    }
    assert forall|key: Seq<char>| #[trigger]
        config@.keep_alive_ignored_until.contains_key(key) <==> has_timer(r@, key) by {
        ignored.pairs_hold_the_keys(key);
        if ignored@.contains_key(key) {
            let i = choose|i: int|
                0 <= i < ignored.pairs().len() && #[trigger] ignored.pairs()[i].0@ == key;
            assert(r@[i].bundle_id@ == key);
        }
        if has_timer(r@, key) {
            let i = choose|i: int| 0 <= i < r@.len() && (#[trigger] r@[i]).bundle_id@ == key;
            assert(ignored.pairs()[i].0@ == key);
        }
    }
    r
}

/// Some timer is for the app.
pub open spec fn has_timer(timers: Seq<IgnoreTimer>, key: Seq<char>) -> bool {
    exists|i: int| 0 <= i < timers.len() && (#[trigger] timers[i]).bundle_id@ == key
}

/// The age is what the clock tells of RustQuit's last quit of the app; there is
/// none if RustQuit did not quit it.
pub open spec fn age_told(recents: RecentsView, bundle_id: Seq<char>, age: Option<u128>) -> bool {
    match quit_moment(recents, bundle_id) {
        Some(when) => age is Some && told_since(when, age->0),
        None => age is None,
    }
}

/// What is remembered after the restart check of an app, before its launch is
/// counted; the exits that are left; and whether a launch is wanted. Nothing
/// happens to an app that RustQuit quit itself less than a minute ago.
pub open spec fn restart_checked(
    state: KeepAliveView,
    config: ConfigView,
    self_quit_age: Option<u128>,
    exits: Option<Map<i32, ExitKind>>,
    app: (Seq<char>, i32, bool),
    moment: (u64, u64),
) -> (KeepAliveView, Option<Map<i32, ExitKind>>, bool) {
    let (bundle_id, pid, menu_bar) = app;
    if self_quit_recent(self_quit_age) {
        (state, exits, false)
    } else {
        let (after, wanted) = restart_considered(
            state,
            config,
            bundle_id,
            menu_bar,
            exit_seen(exits, pid),
            moment.0,
            moment.1,
        );
        (after, exit_taken(exits, pid), wanted)
    }
}

/// What came of the restart check of an app (its bundle ID, its process, and
/// whether it lives in the menu bar) at a moment (`now` and `unix_now`): if a
/// launch is wanted, the facts decide, and a launch is counted.
pub open spec fn restarted<F: FnOnce() -> LaunchFacts>(
    before: KeepAliveView,
    config: ConfigView,
    self_quit_age: Option<u128>,
    exits: Option<Map<i32, ExitKind>>,
    app: (Seq<char>, i32, bool),
    moment: (u64, u64),
    facts: F,
    launch: bool,
    after: KeepAliveView,
    exits_after: Option<Map<i32, ExitKind>>,
) -> bool {
    let (checked, left, wanted) = restart_checked(
        before,
        config,
        self_quit_age,
        exits,
        app,
        moment,
    );
    &&& exits_after == left
    &&& !wanted ==> !launch && after == checked
    &&& wanted ==> exists|found: LaunchFacts| #[trigger]
        facts.ensures((), found) && launch == launch_due(config, app.0, moment.1, found@) && after
            == if launch {
            restart_noted(checked, app.0, moment.0)
        } else {
            checked
        }
}

/// RustQuit quit the app itself less than a minute ago.
pub open spec fn self_quit_recent(age: Option<u128>) -> bool {
    age is Some && age->0 < RECENT_QUIT_GRACE_NANOS
}

/// The exits that were seen, if any can be.
pub open spec fn exits_view(exits: Option<ProcExitWatcher>) -> Option<Map<i32, ExitKind>> {
    match exits {
        Some(watcher) => Some(watcher@),
        None => None,
    }
}

/// How a process ended, if that was seen.
pub open spec fn exit_seen(exits: Option<Map<i32, ExitKind>>, pid: i32) -> Option<ExitKind> {
    if exits is Some && exits->0.contains_key(pid) {
        Some(exits->0[pid])
    } else {
        None
    }
}

/// The exits that were seen, after one was used up.
pub open spec fn exit_taken(exits: Option<Map<i32, ExitKind>>, pid: i32) -> Option<
    Map<i32, ExitKind>,
> {
    match exits {
        Some(map) => Some(map.remove(pid)),
        None => None,
    }
}

/// An app that is ignored from a moment on is ignored, however its ID is
/// capitalized, until the deadline and no longer: a day later, or the last moment
/// there is if that comes first. In that time keep-alive neither restarts nor
/// launches it, whatever else it remembers: also not after RustQuit was restarted.
pub proof fn an_ignore_lasts_exactly_a_day(
    config: ConfigView,
    bundle_id: Seq<char>,
    spelling: Seq<char>,
    start: u64,
    unix_now: u64,
    state: KeepAliveView,
    menu_bar: bool,
    exit: Option<ExitKind>,
    now: u64,
    facts: LaunchView,
)
    requires
        same_text(bundle_id, spelling),
    ensures
        ({
            let deadline = ignore_deadline(start);
            let ignoring = normal_settings(with_ignored_until(config, bundle_id, Some(deadline)));
            &&& start + PAUSE_SECS <= u64::MAX ==> deadline == start + PAUSE_SECS
            &&& start + PAUSE_SECS > u64::MAX ==> deadline == u64::MAX
            &&& ignored_for(ignoring, spelling, unix_now) == if unix_now < deadline {
                Some((deadline - unix_now) as u64)
            } else {
                None
            }
            &&& unix_now < deadline ==> {
                &&& !launch_due(ignoring, spelling, unix_now, facts)
                &&& left_alone(state, ignoring, spelling, now, unix_now)
                &&& restart_considered(
                    state,
                    ignoring,
                    spelling,
                    menu_bar,
                    exit,
                    now,
                    unix_now,
                ) == (state, false)
            }
        }),
{
}

/// Resuming lifts an ignore and a loop-protection pause, so that the app is left
/// alone no longer.
pub proof fn resuming_lifts_every_pause(
    state: KeepAliveView,
    config: ConfigView,
    bundle_id: Seq<char>,
    now: u64,
    unix_now: u64,
)
    ensures
        !left_alone(
            cleared(state, bundle_id),
            normal_settings(with_ignored_until(config, bundle_id, None)),
            bundle_id,
            now,
            unix_now,
        ),
        restarts_of(cleared(state, bundle_id), bundle_id).len() == 0,
{
}

/// Checking the Keep box lifts a loop-protection pause, but not an ignore.
pub proof fn checking_keep_lifts_only_loop_protection(
    state: KeepAliveView,
    config: ConfigView,
    bundle_id: Seq<char>,
    now: u64,
    unix_now: u64,
)
    ensures
        !loop_paused(cleared(state, bundle_id), bundle_id, now),
        left_alone(cleared(state, bundle_id), config, bundle_id, now, unix_now) <==> ignored_for(
            config,
            bundle_id,
            unix_now,
        ) is Some,
{
}

/// With loop protection, an app that was restarted as often as is allowed in the
/// last hour is not restarted again: keep-alive pauses for it for exactly a day.
pub proof fn loop_protection_pauses_for_a_day(
    state: KeepAliveView,
    config: ConfigView,
    bundle_id: Seq<char>,
    menu_bar: bool,
    exit: Option<ExitKind>,
    now: u64,
    unix_now: u64,
    later: u64,
)
    requires
        config.keep_alive_loop_protection,
        !stays_quit(config, menu_bar, exit),
        !left_alone(state, config, bundle_id, now, unix_now),
        in_window(restarts_of(state, bundle_id), now).len() >= LOOP_LIMIT,
    ensures
        ({
            let (after, wanted) = restart_considered(
                state,
                config,
                bundle_id,
                menu_bar,
                exit,
                now,
                unix_now,
            );
            &&& !wanted
            &&& loop_paused(after, bundle_id, later) <==> later < now + PAUSE_NANOS
        }),
{
}

/// With loop protection, a wanted restart keeps the restarts of the last hour
/// within the limit.
pub proof fn restarts_stay_within_the_limit(
    state: KeepAliveView,
    config: ConfigView,
    bundle_id: Seq<char>,
    menu_bar: bool,
    exit: Option<ExitKind>,
    now: u64,
    unix_now: u64,
)
    requires
        config.keep_alive_loop_protection,
        restart_considered(state, config, bundle_id, menu_bar, exit, now, unix_now).1,
    ensures
        restarts_of(
            restart_noted(
                restart_considered(state, config, bundle_id, menu_bar, exit, now, unix_now).0,
                bundle_id,
                now,
            ),
            bundle_id,
        ).len() <= LOOP_LIMIT,
{
}

/// A regular app that quit on its own is not restarted, unless missing apps are
/// to be started; a crashed one is, and so is a menu bar app, unless it is left
/// alone or loop protection steps in.
pub proof fn deliberate_quits_are_respected(
    state: KeepAliveView,
    config: ConfigView,
    bundle_id: Seq<char>,
    now: u64,
    unix_now: u64,
)
    ensures
        !config.keep_alive_auto_start_missing ==> !restart_considered(
            state,
            config,
            bundle_id,
            false,
            Some(ExitKind::Clean),
            now,
            unix_now,
        ).1 && !restart_considered(state, config, bundle_id, false, None, now, unix_now).1,
        !left_alone(state, config, bundle_id, now, unix_now) && (!config.keep_alive_loop_protection
            || in_window(restarts_of(state, bundle_id), now).len() < LOOP_LIMIT)
            ==> restart_considered(
            state,
            config,
            bundle_id,
            false,
            Some(ExitKind::Crashed),
            now,
            unix_now,
        ).1 && restart_considered(state, config, bundle_id, true, None, now, unix_now).1,
{
}

/// Nothing is launched while keep-alive is off, nor an app that is not listed,
/// runs already or is stood for by a helper.
pub proof fn only_missing_kept_apps_are_launched(
    config: ConfigView,
    bundle_id: Seq<char>,
    unix_now: u64,
    facts: LaunchView,
)
    requires
        !config.keep_alive_enabled || !names(config.keep_alive_apps, bundle_id) || facts.running
            || facts.path is None || suite_running(facts.apps, bundle_id, facts.path->0),
    ensures
        !launch_due(config, bundle_id, unix_now, facts),
{
}

/// An app that keep-alive may launch is never one that the engine may quit,
/// however its ID is capitalized: RustQuit cannot fight itself.
pub proof fn keep_alive_and_the_engine_never_fight(
    config: ConfigView,
    bundle_id: Seq<char>,
    spelling: Seq<char>,
    unix_now: u64,
)
    requires
        launch_permitted(config, bundle_id, unix_now),
        same_text(bundle_id, spelling),
    ensures
        !quit_allowed(config, Some(spelling)),
{
    names_is_case_blind(config.keep_alive_apps, bundle_id, spelling);
}

/// A kept app that crashed is launched again, and so is a menu bar app however it
/// ended, as long as it is missing, nothing pauses keep-alive for it, and it was
/// not restarted too often.
pub proof fn crashed_kept_apps_come_back(
    state: KeepAliveView,
    config: ConfigView,
    bundle_id: Seq<char>,
    exit: Option<ExitKind>,
    menu_bar: bool,
    now: u64,
    unix_now: u64,
    facts: LaunchView,
)
    requires
        config.keep_alive_enabled,
        names(config.keep_alive_apps, bundle_id),
        menu_bar || exit == Some(ExitKind::Crashed),
        !left_alone(state, config, bundle_id, now, unix_now),
        !config.keep_alive_loop_protection || in_window(restarts_of(state, bundle_id), now).len()
            < LOOP_LIMIT,
        !facts.running,
        facts.path is Some,
        !suite_running(facts.apps, bundle_id, facts.path->0),
    ensures
        restart_considered(state, config, bundle_id, menu_bar, exit, now, unix_now).1,
        launch_due(config, bundle_id, unix_now, facts),
{
}

/// After RustQuit quit an app and the termination of the app was noted as that of
/// a kept one, in either order, a restart check that comes less than a minute
/// after the quit launches nothing and changes nothing.
pub proof fn own_quits_are_not_undone<F: FnOnce() -> LaunchFacts>(
    recents: RecentsView,
    quit: RecentQuit,
    terminated: RecentQuit,
    bundle_id: Seq<char>,
    quit_first: bool,
    age: Option<u128>,
    before: KeepAliveView,
    config: ConfigView,
    exits: Option<Map<i32, ExitKind>>,
    pid: i32,
    menu_bar: bool,
    moment: (u64, u64),
    facts: F,
    launch: bool,
    after: KeepAliveView,
    exits_after: Option<Map<i32, ExitKind>>,
)
    requires
        quit.reason == RecentReason::AutoQuit,
        terminated.reason == RecentReason::KeepTermination,
        same_text(quit.bundle_id@, bundle_id),
        same_text(terminated.bundle_id@, bundle_id),
        age_told(
            if quit_first {
                pushed(pushed(recents, quit), terminated)
            } else {
                pushed(pushed(recents, terminated), quit)
            },
            bundle_id,
            age,
        ),
        age is Some ==> age->0 < RECENT_QUIT_GRACE_NANOS,
        restarted(
            before,
            config,
            age,
            exits,
            (bundle_id, pid, menu_bar),
            moment,
            facts,
            launch,
            after,
            exits_after,
        ),
    ensures
        age is Some && told_since(quit.when, age->0),
        !launch,
        after == before,
        exits_after == exits,
{
    quits_stay_known(recents, quit, terminated, bundle_id);
}

} // verus!
