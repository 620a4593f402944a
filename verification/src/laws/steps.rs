//! Single decisions: laws on what each step leads to.
use std::time::Instant;

use vstd::prelude::*;

use crate::app_list::{entry_at, AppEntry};
use crate::bundle_ids::{names, relisted};
use crate::config::{
    normal_settings, with_apps, with_keep_alive_apps, Config, ConfigStore, ConfigView, FilterMode,
};
use crate::delay::quit_delay_table;
use crate::double::Double;
use crate::engine::policy::{decide_quit, may_quit, AppFacts};
use crate::engine::recent::{
    bounded_and_distinct, quit_moment, RecentQuit, RecentQuits, RecentReason,
};
use crate::engine::watcher::Watcher;
use crate::engine::{Action, Engine, RecountPhase, RecountResult, Retry};
use crate::keepalive::{
    ignore_timer_secs, ignored_for, in_window, launch_due, left_alone, not_left_alone,
    on_terminated, restarts_of, KeepAlive, LaunchFacts,
};
use crate::laws::keep_alive::a_restart_check_forgets_no_recent_restart;
use crate::laws::recents::adding_an_entry_keeps_the_others;
use crate::laws::settings::a_picked_quit_delay_is_shown;
use crate::procexit::{after_wait, kind_of, ExitKind, ProcExitWatcher, WaitStep};
use crate::protected::protected_bundle_id;
use crate::settings_window::{
    add_step, controls_for, on_change, AddStep, Change, FollowUp, Poll, SettingsController,
    ToggleOutcome,
};
use crate::startup::{lock_outcome, watchdog_step, LockOutcome, WatchdogStep};
use crate::text::{lower, opt_str, same_text, texts};
use crate::tray::TrayTarget;

verus! {

/// After each step of the watchdog the engine runs exactly if the permission is
/// there, and nothing is done that is not needed for that.
pub proof fn the_engine_runs_with_the_permission(trusted: bool, running: bool, step: WatchdogStep)
    requires
        call_ensures(watchdog_step, (trusted, running), step),
    ensures
        trusted == match step {
            WatchdogStep::StartEngine => true,
            WatchdogStep::StopEngine => false,
            WatchdogStep::Nothing => running,
        },
        step == WatchdogStep::Nothing <==> trusted == running,
{
}

/// Only an instance that got the lock runs; one that did not tells another
/// instance from a failure by whether the lock is held.
pub proof fn only_one_instance_runs(result: i32, would_block: bool, outcome: LockOutcome)
    requires
        call_ensures(lock_outcome, (result, would_block), outcome),
    ensures
        outcome == LockOutcome::Acquired <==> result == 0,
        outcome == LockOutcome::AlreadyRunning <==> result != 0 && would_block,
{
}

/// Waiting for exits ends only when it fails, an interruption is no failure, and
/// an exit is recorded exactly if one was reported.
pub proof fn waiting_ends_only_when_it_fails(
    events: i32,
    interrupted: bool,
    about_process: bool,
    step: WaitStep,
)
    requires
        call_ensures(after_wait, (events, interrupted, about_process), step),
    ensures
        step == WaitStep::Stop <==> events < 0 && !interrupted,
        step == WaitStep::Record <==> events > 0 && about_process,
{
}

/// A bundle that the user picks can be added exactly if the list of apps would
/// offer it, and is refused with a warning exactly if it has an ID but would not be
/// offered.
pub proof fn what_can_be_added_is_what_is_offered(
    bundle_id: Option<&str>,
    path: &str,
    resolved: Option<&str>,
    name: Seq<char>,
    step: AddStep,
)
    requires
        call_ensures(add_step, (bundle_id, path, resolved), step),
    ensures
        step == AddStep::Add <==> entry_at(path@, opt_str(resolved), opt_str(bundle_id), name)
            is Some,
        step == AddStep::NoBundleId <==> bundle_id is None,
{
}

/// The timer of an ignore runs out when the ignore does, or in a second if it is
/// over already.
pub proof fn a_timer_runs_out_with_its_ignore(until: u64, unix_now: u64, secs: u64)
    requires
        call_ensures(ignore_timer_secs, (until, unix_now), secs),
    ensures
        until > unix_now ==> unix_now + secs == until,
        until <= unix_now ==> secs == 1,
{
}

/// What could not be observed is tried again while the app runs: the watcher while
/// there is none, the windows while there is one.
pub proof fn retries_wait_for_the_app(
    engine: Engine,
    pid: i32,
    retry: Retry,
    terminated: bool,
    step: Retry,
)
    requires
        call_ensures(Engine::retry_step, (&engine, pid, retry, terminated), step),
    ensures
        step == Retry::Watcher <==> !terminated && retry == Retry::Watcher && pid
            != engine@.own_pid && !engine@.watchers.contains_key(pid),
        step == Retry::Windows <==> !terminated && retry == Retry::Windows
            && engine@.watchers.contains_key(pid),
{
}

/// When an app terminates, a restart check is due after the restart delay exactly
/// if the app is kept and keep-alive is on. The termination of a kept app is noted,
/// also while keep-alive is off, and nothing is noted of any other.
pub proof fn kept_apps_are_checked_after_a_delay(config: &Config, bundle_id: String, name: String)
    ensures
        forall|recents: &mut RecentQuits, r: Option<Double>| #[trigger]
            call_ensures(on_terminated, (config, recents, bundle_id, name), r) ==> {
                let kept = names(config@.keep_alive_apps, bundle_id@);
                &&& r is Some <==> kept && config@.keep_alive_enabled
                &&& r is Some ==> r->0 == config@.keep_alive_delay_secs
                &&& !kept ==> final(recents)@ == recents@
                &&& kept ==> final(recents)@.entries[0].bundle_id == bundle_id
                    && final(recents)@.entries[0].name == name
                    && final(recents)@.entries[0].reason == RecentReason::KeepTermination
                    && final(recents)@.auto_quits == recents@.auto_quits
            },
{
}

/// The result of a scan is taken if the window still waits for it, and the wait is
/// over once there is a result or none can come.
pub proof fn a_scan_is_waited_for<K>(poll: Poll)
    ensures
        forall|window: &mut SettingsController<K>, r: Option<Vec<AppEntry>>| #[trigger]
            call_ensures(SettingsController::<K>::poll_refresh, (window, poll), r) ==> {
                &&& r is Some <==> poll is Found && window@.scanning
                &&& r is Some ==> r->0 == poll->Found_0
                &&& final(window)@.scanning <==> window@.scanning && poll is Empty
                &&& final(window)@.entries == window@.entries
                &&& final(window)@.all_entries == window@.all_entries
                &&& final(window)@.query == window@.query
                &&& final(window)@.only_selected == window@.only_selected
                &&& final(window)@.keep_alive == window@.keep_alive
            },
{
}

/// When an app terminates, the engine forgets it. If it was asked to quit at most
/// 30 s before, it heads the list of recently quit apps, as one that RustQuit quit,
/// under the ID and name that the request was noted with; else nothing is noted.
pub proof fn quit_apps_are_noted(pid: i32, now: u64)
    ensures
        forall|engine: &mut Engine, recents: &mut RecentQuits| #[trigger]
            call_ensures(Engine::on_app_terminated, (engine, pid, recents, now), ()) ==> {
                let asked = engine@.pending.contains_key(pid) && now
                    <= engine@.pending[pid].requested_at + 30_000_000_000;
                let entry = final(recents)@.entries[0];
                &&& !final(engine)@.watchers.contains_key(pid)
                &&& !final(engine)@.pending.contains_key(pid)
                &&& !asked ==> final(recents)@ == recents@
                &&& asked ==> entry.bundle_id@ == engine@.pending[pid].bundle_id && entry.name@
                    == engine@.pending[pid].name && entry.reason == RecentReason::AutoQuit
                &&& asked ==> quit_moment(final(recents)@, engine@.pending[pid].bundle_id) == Some(
                    entry.when,
                )
            },
{
}

/// A Space switch is noted with its moment, and only apps of the Dock are observed
/// when they launch.
pub proof fn switches_and_launches_are_noted<C: FnOnce(u64) -> Option<(Watcher, bool)>>(
    pid: i32,
    now: u64,
    create: C,
)
    ensures
        forall|engine: &mut Engine| #[trigger]
            call_ensures(Engine::on_space_changed, (engine, now), ()) ==> {
                &&& final(engine)@.last_space_change == Some(now)
                &&& final(engine)@.watchers == engine@.watchers
                &&& final(engine)@.pending == engine@.pending
                &&& final(engine)@.nonce == engine@.nonce
                &&& final(engine)@.outstanding == engine@.outstanding
                &&& final(engine)@.timer == engine@.timer
                &&& final(engine)@.own_pid == engine@.own_pid
            },
        forall|engine: &mut Engine, r: Retry| #[trigger]
            call_ensures(Engine::on_app_launched::<C>, (engine, pid, false, create), r) ==> {
                &&& r == Retry::Nothing
                &&& final(engine)@ == engine@
            },
{
}

/// Missing kept apps are looked for only if that is switched on, and what is found
/// is on the list of kept apps and neither ignored nor paused.
pub proof fn missing_apps_are_looked_for_on_request(config: &Config, now: u64, unix_now: u64)
    ensures
        forall|state: &mut KeepAlive, r: Vec<String>| #[trigger]
            call_ensures(
                KeepAlive::reconcile_missing_apps,
                (state, config, now, unix_now),
                r,
            ) ==> {
                &&& !config@.keep_alive_auto_start_missing ==> r@.len() == 0 && final(state)@
                    == state@
                &&& config@.keep_alive_auto_start_missing ==> texts(r@) == not_left_alone(
                    state@,
                    config@,
                    config@.keep_alive_apps,
                    now,
                    unix_now,
                )
            },
{
}

/// To ignore an app for a day stores the deadline and tells it, or fails and
/// changes nothing; to resume it lifts the ignore and every pause, or fails and
/// changes nothing.
pub proof fn ignoring_is_stored_or_fails<E, S: FnOnce(&Config) -> Result<(), E>>(
    bundle_id: &str,
    unix_now: u64,
    facts: &LaunchFacts,
    save: S,
    now: u64,
)
    ensures
        forall|state: &mut KeepAlive, store: &mut ConfigStore, r: Result<u64, E>| #[trigger]
            call_ensures(
                KeepAlive::ignore_for_24_hours::<E, S>,
                (state, store, bundle_id, unix_now, save),
                r,
            ) ==> {
                let deadline = if unix_now > u64::MAX - 86_400 {
                    u64::MAX
                } else {
                    (unix_now + 86_400) as u64
                };
                &&& r is Err ==> final(store).data@ == store.data@ && final(state)@ == state@
                &&& r is Ok ==> r->Ok_0 == deadline && (unix_now < u64::MAX ==> ignored_for(
                    final(store).data@,
                    bundle_id@,
                    unix_now,
                ) == Some((deadline - unix_now) as u64))
            },
        forall|state: &mut KeepAlive, store: &mut ConfigStore, r: Result<bool, E>| #[trigger]
            call_ensures(
                KeepAlive::resume_now::<E, S>,
                (state, store, bundle_id, unix_now, facts, save),
                r,
            ) ==> {
                &&& r is Err ==> final(store).data@ == store.data@ && final(state)@ == state@
                &&& r is Ok ==> !left_alone(
                    final(state)@,
                    final(store).data@,
                    bundle_id@,
                    now,
                    unix_now,
                ) && r->Ok_0 == launch_due(final(store).data@, bundle_id@, unix_now, facts@)
            },
{
}

/// Switching auto-quit or keep-alive in the menu turns the stored setting over, or
/// fails and leaves it; the menu bar shows what is stored either way.
pub proof fn a_menu_switch_is_stored_or_fails<E, S: FnOnce(&Config) -> Result<(), E>>(save: S)
    ensures
        forall|tray: &mut TrayTarget, store: &mut ConfigStore, r: Result<(), E>| #[trigger]
            call_ensures(TrayTarget::on_toggle_enabled::<E, S>, (tray, store, save), r) ==> {
                &&& r is Ok ==> final(store).data@.enabled == !store.data@.enabled
                    && final(store).data@.keep_alive_enabled == store.data@.keep_alive_enabled
                &&& r is Err ==> final(store).data@ == store.data@
                &&& final(tray).enabled == final(store).data@.enabled
                &&& final(tray).keep_alive == final(store).data@.keep_alive_enabled
                &&& final(tray).dimmed == !final(store).data@.enabled
            },
        forall|tray: &mut TrayTarget, store: &mut ConfigStore, r: Result<(), E>| #[trigger]
            call_ensures(TrayTarget::on_toggle_keep_alive::<E, S>, (tray, store, save), r) ==> {
                &&& r is Ok ==> final(store).data@.keep_alive_enabled
                    == !store.data@.keep_alive_enabled && final(store).data@.enabled
                    == store.data@.enabled
                &&& r is Err ==> final(store).data@ == store.data@
                &&& final(tray).enabled == final(store).data@.enabled
                &&& final(tray).keep_alive == final(store).data@.keep_alive_enabled
                &&& final(tray).dimmed == !final(store).data@.enabled
            },
{
}

/// How a process ended is recorded for it and handed out once.
pub proof fn an_exit_is_recorded_and_taken(pid: i32, status: i32, other: i32)
    ensures
        forall|exits: &mut ProcExitWatcher| #[trigger]
            call_ensures(ProcExitWatcher::record, (exits, pid, status), ()) ==> {
                &&& final(exits)@.contains_key(pid)
                &&& final(exits)@[pid] == kind_of(status)
                &&& other != pid ==> final(exits)@.contains_key(other) == exits@.contains_key(other)
                    && final(exits)@[other] == exits@[other]
            },
        forall|exits: &mut ProcExitWatcher, r: Option<ExitKind>| #[trigger]
            call_ensures(ProcExitWatcher::take_exit_kind, (exits, pid), r) ==> {
                &&& r is Some <==> exits@.contains_key(pid)
                &&& r is Some ==> r->0 == exits@[pid]
                &&& !final(exits)@.contains_key(pid)
                &&& other != pid ==> final(exits)@.contains_key(other) == exits@.contains_key(other)
                    && final(exits)@[other] == exits@[other]
            },
{
}

/// The decision on an app goes by its own place in the settings: it is quit exactly
/// if quitting is on, it has an ID that is neither protected nor kept, and the list
/// of apps names it where it lists apps to quit, or does not where it lists apps to
/// spare.
pub proof fn the_decision_goes_by_the_lists(config: &Config, bundle_id: Option<&str>, r: bool)
    requires
        call_ensures(decide_quit, (config, bundle_id), r),
    ensures
        r <==> config@.enabled && bundle_id is Some && !protected_bundle_id(bundle_id->0@) && !names(
            config@.keep_alive_apps,
            bundle_id->0@,
        ) && (names(config@.apps, bundle_id->0@) <==> config@.mode == FilterMode::Whitelist),
{
}

/// A box that is toggled in a row is stored for the app of that row, or fails and
/// changes nothing; without such a row nothing happens. Keep-alive is called in
/// exactly if its box was checked and stored, and there is a way to it.
pub proof fn a_toggled_box_is_stored_or_fails<K, E, S: FnOnce(&Config) -> Result<(), E>>(
    row: usize,
    listed: bool,
    save: S,
)
    ensures
        forall|
            window: &mut SettingsController<K>,
            store: &mut ConfigStore,
            r: ToggleOutcome,
        | #[trigger]
            call_ensures(
                SettingsController::<K>::on_toggle_app::<E, S>,
                (window, store, row, listed, save),
                r,
            ) ==> {
                let id = window@.entries[row as int].bundle_id;
                &&& r == ToggleOutcome::NoRow <==> row >= window@.entries.len()
                &&& r == ToggleOutcome::NoRow || r == ToggleOutcome::Reverted
                    ==> final(store).data@ == store.data@ && final(window)@ == window@
                &&& r == ToggleOutcome::Stored ==> final(store).data@ == normal_settings(
                    with_apps(store.data@, relisted(store.data@.apps, id, listed)),
                )
                &&& r != ToggleOutcome::StoredAndKept
                &&& !final(window)@.only_selected && r == ToggleOutcome::Stored ==> final(window)@
                    == window@
            },
        forall|
            window: &mut SettingsController<K>,
            store: &mut ConfigStore,
            r: ToggleOutcome,
        | #[trigger]
            call_ensures(
                SettingsController::<K>::on_toggle_keep_app::<E, S>,
                (window, store, row, listed, save),
                r,
            ) ==> {
                let id = window@.entries[row as int].bundle_id;
                &&& r == ToggleOutcome::NoRow <==> row >= window@.entries.len()
                &&& r == ToggleOutcome::NoRow || r == ToggleOutcome::Reverted
                    ==> final(store).data@ == store.data@ && final(window)@ == window@
                &&& r == ToggleOutcome::Stored || r == ToggleOutcome::StoredAndKept
                    ==> final(store).data@ == normal_settings(
                    with_keep_alive_apps(
                        store.data@,
                        relisted(store.data@.keep_alive_apps, id, listed),
                    ),
                )
                &&& r == ToggleOutcome::StoredAndKept ==> listed && window@.keep_alive is Some
                &&& r == ToggleOutcome::Stored ==> !(listed && window@.keep_alive is Some)
                &&& !final(window)@.only_selected && r != ToggleOutcome::NoRow ==> final(window)@
                    == window@
            },
{
}

/// A quit delay that the user picks in the list is in force and shown once it is
/// stored, and if it cannot be stored the settings are as before and the controls
/// are set back.
pub proof fn a_picked_delay_is_stored_or_fails<E, S: FnOnce(&Config) -> Result<(), E>>(
    index: usize,
    autostart: bool,
    save: S,
)
    requires
        index < quit_delay_table().len(),
    ensures
        forall|store: &mut ConfigStore, r: FollowUp| #[trigger]
            call_ensures(on_change::<E, S>, (store, Change::QuitDelay(index), save), r) ==> {
                ||| r.sync_controls && final(store).data@ == store.data@
                ||| !r.sync_controls && controls_for(final(store).data@, autostart).delay_index
                    == index && final(store).data@ == normal_settings(
                    ConfigView {
                        quit_delay_secs: quit_delay_table()[index as int].0,
                        ..store.data@
                    },
                )
            },
{
    assert forall|store: &mut ConfigStore, r: FollowUp| #[trigger]
        call_ensures(on_change::<E, S>, (store, Change::QuitDelay(index), save), r) implies {
        ||| r.sync_controls && final(store).data@ == store.data@
        ||| !r.sync_controls && controls_for(final(store).data@, autostart).delay_index == index
            && final(store).data@ == normal_settings(
            ConfigView { quit_delay_secs: quit_delay_table()[index as int].0, ..store.data@ },
        )
    } by {
        a_picked_quit_delay_is_shown(store.data@, index, autostart);
    }
}

/// An entry that is added heads the list with everything that it was given, and
/// what was in the list follows, unless it is of the same app or the list is full.
pub proof fn an_added_entry_heads_the_list(
    bundle_id: String,
    name: String,
    when: Instant,
    reason: RecentReason,
)
    ensures
        forall|recents: &mut RecentQuits| #[trigger]
            call_ensures(RecentQuits::push, (recents, bundle_id, name, when, reason), ()) ==> {
                let entry = final(recents)@.entries[0];
                &&& entry.bundle_id == bundle_id
                &&& entry.name == name
                &&& entry.when == when
                &&& entry.reason == reason
                &&& bounded_and_distinct(recents@.entries) && recents@.entries.len() < 8 && (
                forall|i: int|
                    0 <= i < recents@.entries.len() ==> !same_text(
                        (#[trigger] recents@.entries[i]).bundle_id@,
                        bundle_id@,
                    )) ==> final(recents)@.entries.skip(1) == recents@.entries
            },
{
    assert forall|recents: &mut RecentQuits| #[trigger]
        call_ensures(RecentQuits::push, (recents, bundle_id, name, when, reason), ()) implies {
        let entry = final(recents)@.entries[0];
        &&& entry.bundle_id == bundle_id
        &&& entry.name == name
        &&& entry.when == when
        &&& entry.reason == reason
        &&& bounded_and_distinct(recents@.entries) && recents@.entries.len() < 8 && (forall|i: int|
            0 <= i < recents@.entries.len() ==> !same_text(
                (#[trigger] recents@.entries[i]).bundle_id@,
                bundle_id@,
            )) ==> final(recents)@.entries.skip(1) == recents@.entries
    } by {
        let entry = RecentQuit { bundle_id, name, when, reason };
        if bounded_and_distinct(recents@.entries) {
            adding_an_entry_keeps_the_others(recents@, entry, 0);
        }
    }
}

/// A recount that is received is no longer under way. One that finds no window of
/// an app that has had one and may be quit schedules the quit of that app, unless
/// it is the final check or is outdated.
pub proof fn a_received_recount_schedules_the_quit(
    result: RecountResult,
    config: &Config,
    app: &AppFacts,
    now: u64,
)
    requires
        result.request.phase != RecountPhase::FinalCheck,
        may_quit(config@, app@),
        result.count is Some,
        result.count->0.effective == 0,
    ensures
        forall|engine: &mut Engine, r: Action| #[trigger]
            call_ensures(Engine::recount_received, (engine, result, config, app, now), r) ==> {
                let pid = result.request.pid;
                let due = engine@.watchers.contains_key(pid) && engine@.watchers[pid].generation
                    == result.request.generation && engine@.watchers[pid].had_window;
                &&& due <==> r is ScheduleQuit
                &&& due ==> r->ScheduleQuit_pid == pid && r->ScheduleQuit_generation
                    == result.request.generation
                &&& engine@.outstanding > 0 ==> final(engine)@.outstanding == engine@.outstanding
                    - 1
            },
{
}

/// A restart check of an app that is neither ignored nor paused wants a launch,
/// unless the app may stay quit or was restarted twice within the hour; and it
/// forgets no restart that still counts.
pub proof fn a_restart_check_goes_by_the_last_hour(
    config: &Config,
    bundle_id: &str,
    menu_bar: bool,
    exit: Option<ExitKind>,
    now: u64,
    unix_now: u64,
)
    ensures
        forall|state: &mut KeepAlive, r: bool| #[trigger]
            call_ensures(
                KeepAlive::consider_restart,
                (state, config, bundle_id, menu_bar, exit, now, unix_now),
                r,
            ) ==> {
                let recent = in_window(restarts_of(state@, bundle_id@), now);
                &&& r <==> !left_alone(state@, config@, bundle_id@, now, unix_now) && (menu_bar
                    || config@.keep_alive_auto_start_missing || exit == Some(ExitKind::Crashed))
                    && (!config@.keep_alive_loop_protection || recent.len() < 2)
                &&& in_window(restarts_of(final(state)@, bundle_id@), now) == recent
            },
{
    assert forall|state: &mut KeepAlive, r: bool| #[trigger]
        call_ensures(
            KeepAlive::consider_restart,
            (state, config, bundle_id, menu_bar, exit, now, unix_now),
            r,
        ) implies {
        let recent = in_window(restarts_of(state@, bundle_id@), now);
        &&& r <==> !left_alone(state@, config@, bundle_id@, now, unix_now) && (menu_bar
            || config@.keep_alive_auto_start_missing || exit == Some(ExitKind::Crashed)) && (
        !config@.keep_alive_loop_protection || recent.len() < 2)
        &&& in_window(restarts_of(final(state)@, bundle_id@), now) == recent
    } by {
        let other = bundle_id@.push('.');
        assert(lower(other).len() != lower(bundle_id@).len());
        a_restart_check_forgets_no_recent_restart(
            state@,
            config@,
            bundle_id@,
            menu_bar,
            exit,
            now,
            unix_now,
            now,
            other,
        );
    }
}

} // verus!
