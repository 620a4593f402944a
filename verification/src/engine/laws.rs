//! What the engine guarantees over all its steps.
use vstd::prelude::*;

use crate::bundle_ids::names;
use crate::config::ConfigView;
use crate::double::magnitude;
use crate::engine::policy::{hidden_by_user, may_quit, FactsView};
use crate::engine::watcher::{
    forgetting_drops_one_window, without_window, Watcher, WatcherView,
};
use crate::engine::{
    bumped, can_watch, generation_after, on_deactivated, on_drained, on_expiry, on_final_check,
    on_quit_due, on_received, on_recount, on_sent, on_termination_answered, on_terminated,
    on_window_event, quit_by_engine, space_change_recent, watcher_added, with_watcher, Action,
    EngineView, RecountPhase, RecountRequest, RecountResult, Retry, SendOutcome,
};
use crate::protected::{protected_bundle_id, protected_path};

verus! {

/// Closing the last window of an app that may be quit quits it: the window event
/// leads to a recount, that to a delayed check, that to a final recount, and that
/// to a termination request, as long as nothing else happens in between and both
/// counts find no window.
pub proof fn closing_the_last_window_quits_the_app(
    engine: EngineView,
    pid: i32,
    window: u64,
    config: ConfigView,
    app: FactsView,
    first: RecountResult,
    last: RecountResult,
    counted_at: u64,
    due_at: u64,
    checked_at: u64,
)
    requires
        engine.watchers.contains_key(pid),
        engine.watchers[pid].had_window,
        !engine.pending.contains_key(pid),
        may_quit(config, app),
        !app.terminated,
        app.finished_launching,
        !app.hidden,
        !space_change_recent(engine, due_at),
        !space_change_recent(engine, checked_at),
        first.count is Some,
        first.count->0.effective == 0,
        last.count is Some,
        last.count->0.effective == 0,
        last.cg_count == Some(0usize),
    ensures
        ({
            let generation = generation_after(engine.nonce);
            let recount = RecountRequest {
                pid,
                generation,
                phase: RecountPhase::WindowDestroyed,
            };
            let check = RecountRequest { pid, generation, phase: RecountPhase::FinalCheck };
            let (closed, closing) = on_window_event(
                engine,
                pid,
                "AXUIElementDestroyed"@,
                window,
            );
            let (counted, counting) = on_recount(
                closed,
                RecountResult { request: recount, ..first },
                config,
                app,
                counted_at,
            );
            let due = on_quit_due(counted, pid, generation, config, app, due_at);
            let (asked, asking) = on_recount(
                counted,
                RecountResult { request: check, ..last },
                config,
                app,
                checked_at,
            );
            &&& closing == Action::Recount(recount)
            &&& counting is ScheduleQuit
            &&& counting->ScheduleQuit_pid == pid
            &&& counting->ScheduleQuit_generation == generation
            &&& due == Action::Recount(check)
            &&& asking is Terminate
            &&& asking->Terminate_pid == pid
        }),
{
    reveal_strlit("AXUIElementDestroyed");
    reveal_strlit("AXWindowCreated");
    assert("AXUIElementDestroyed"@[2] != "AXWindowCreated"@[2]);
}

/// Asking an app to quit voids the checks that were scheduled for it before. (The
/// numbers that tell generations apart have to have a next one.)
pub proof fn asking_voids_earlier_decisions(
    engine: EngineView,
    result: RecountResult,
    config: ConfigView,
    app: FactsView,
    now: u64,
    generation: u64,
    later: u64,
)
    requires
        on_recount(engine, result, config, app, now).1 is Terminate,
        generation <= engine.nonce < u64::MAX,
    ensures
        on_quit_due(
            on_recount(engine, result, config, app, now).0,
            result.request.pid,
            generation,
            config,
            app,
            later,
        ) == Action::Nothing,
{
}

/// Only a result of the final check leads to a termination request, and only if
/// both counts found no window, the app may be quit as it and the settings are
/// now, the user has not hidden it, nothing happened to its windows since the check was decided, no request
/// is pending and no Space switch is going on.
pub proof fn an_app_is_asked_to_quit_only_without_windows(
    engine: EngineView,
    result: RecountResult,
    config: ConfigView,
    app: FactsView,
    now: u64,
)
    ensures
        on_recount(engine, result, config, app, now).1 is Terminate ==> {
            let pid = result.request.pid;
            &&& on_recount(engine, result, config, app, now).1->Terminate_pid == pid
            &&& result.request.phase == RecountPhase::FinalCheck
            &&& result.count is Some
            &&& result.count->0.effective == 0
            &&& result.cg_count == Some(0usize)
            &&& may_quit(config, app)
            &&& !app.terminated
            &&& app.finished_launching
            &&& !hidden_by_user(result.count->0.ordered_out, app)
            &&& engine.watchers.contains_key(pid)
            &&& engine.watchers[pid].generation == result.request.generation
            &&& !engine.pending.contains_key(pid)
            &&& !space_change_recent(engine, now)
        },
{
}

/// No app is asked to quit that is disabled for quitting, has no bundle ID, is
/// protected by its ID or its place, is kept running, or is no regular app.
pub proof fn excluded_apps_are_never_asked_to_quit(
    engine: EngineView,
    result: RecountResult,
    config: ConfigView,
    app: FactsView,
    now: u64,
)
    requires
        !config.enabled || app.bundle_id is None || protected_bundle_id(app.bundle_id->0) || names(
            config.keep_alive_apps,
            app.bundle_id->0,
        ) || !app.regular || (app.path is Some && protected_path(app.path->0, app.resolved_path)),
    ensures
        !(on_recount(engine, result, config, app, now).1 is Terminate),
        !(on_recount(engine, result, config, app, now).1 is ScheduleQuit),
        on_quit_due(engine, result.request.pid, result.request.generation, config, app, now)
            == Action::Nothing,
        on_deactivated(engine, result.request.pid, config, app) == Action::Nothing,
{
}

/// The steps before a recount never ask an app to quit.
pub proof fn every_quit_goes_through_a_recount(
    engine: EngineView,
    pid: i32,
    generation: u64,
    notification: Seq<char>,
    window: u64,
    config: ConfigView,
    app: FactsView,
    now: u64,
)
    ensures
        !(on_quit_due(engine, pid, generation, config, app, now) is Terminate),
        !(on_deactivated(engine, pid, config, app) is Terminate),
        !(on_window_event(engine, pid, notification, window).1 is Terminate),
{
}

/// A quit is only ever begun for an app that has shown a standard window.
pub proof fn a_quit_is_begun_only_after_a_window_was_shown(
    engine: EngineView,
    result: RecountResult,
    config: ConfigView,
    app: FactsView,
    now: u64,
)
    ensures
        result.request.phase != RecountPhase::FinalCheck && on_recount(
            engine,
            result,
            config,
            app,
            now,
        ).1 is ScheduleQuit ==> engine.watchers[result.request.pid].had_window && result.count
            is Some && result.count->0.effective == 0,
        on_deactivated(engine, result.request.pid, config, app) != Action::Nothing
            ==> engine.watchers[result.request.pid].had_window,
{
}

/// A window that comes up or goes voids every quit that was decided before: its
/// delayed check and its recounts lead to nothing. (The numbers that tell
/// generations apart have to have a next one.)
pub proof fn window_events_void_earlier_decisions(
    engine: EngineView,
    pid: i32,
    notification: Seq<char>,
    window: u64,
    generation: u64,
    result: RecountResult,
    config: ConfigView,
    app: FactsView,
    now: u64,
)
    requires
        engine.watchers.contains_key(pid),
        notification == "AXWindowCreated"@ || notification == "AXUIElementDestroyed"@,
        generation <= engine.nonce < u64::MAX,
        result.request.pid == pid,
        result.request.generation == generation,
    ensures
        ({
            let after = on_window_event(engine, pid, notification, window).0;
            &&& on_quit_due(after, pid, generation, config, app, now) == Action::Nothing
            &&& on_recount(after, result, config, app, now) == (after, Action::Nothing)
        }),
{
}

/// A window that comes up also withdraws a termination request, so that the app
/// is not taken for quit by the engine when it terminates later.
pub proof fn a_new_window_withdraws_a_request(engine: EngineView, pid: i32, window: u64)
    requires
        engine.watchers.contains_key(pid),
    ensures
        !on_window_event(engine, pid, "AXWindowCreated"@, window).0.pending.contains_key(pid),
{
}

/// While a termination request is pending, no second one is made and no recount
/// for one is begun.
pub proof fn a_pending_request_blocks_a_second_one(
    engine: EngineView,
    pid: i32,
    generation: u64,
    result: RecountResult,
    config: ConfigView,
    app: FactsView,
    now: u64,
)
    requires
        engine.pending.contains_key(pid),
        result.request.pid == pid,
    ensures
        !(on_recount(engine, result, config, app, now).1 is Terminate),
        !(on_quit_due(engine, pid, generation, config, app, now) is Recount),
{
}

/// An accepted request of an app with a bundle ID is pending afterwards, until
/// the app terminates, the request expires or a window comes up; a request that
/// is not accepted leaves no trace.
pub proof fn accepted_requests_are_pending(
    engine: EngineView,
    pid: i32,
    generation: u64,
    bundle_id: Option<Seq<char>>,
    name: Seq<char>,
    now: u64,
)
    ensures
        ({
            let (after, action) = on_termination_answered(
                engine,
                pid,
                generation,
                true,
                bundle_id,
                name,
                now,
            );
            bundle_id is Some ==> after.pending.contains_key(pid) && action is ScheduleExpiry
                && !on_expiry(after, pid, generation).pending.contains_key(pid) && !on_terminated(
                after,
                pid,
            ).pending.contains_key(pid)
        }),
        on_termination_answered(engine, pid, generation, false, bundle_id, name, now) == (
            engine,
            Action::Nothing,
        ),
{
}

/// A request that is given up late leaves a newer request of the same app
/// alone.
pub proof fn expiry_spares_newer_requests(engine: EngineView, pid: i32, generation: u64)
    requires
        engine.pending.contains_key(pid),
        engine.pending[pid].generation != generation,
    ensures
        on_expiry(engine, pid, generation) == engine,
{
}

/// A new generation is never zero and never the one before it.
pub proof fn a_new_generation_is_new(nonce: u64)
    ensures
        generation_after(nonce) != 0,
        generation_after(nonce) != nonce,
        generation_after(nonce) == if nonce == u64::MAX {
            1
        } else {
            nonce + 1
        },
{
}

/// Renewing an app's generation hands out a new one, and remembers it as the last
/// one.
pub proof fn renewing_hands_out_a_new_generation(engine: EngineView, pid: i32)
    ensures
        bumped(engine, pid).nonce == generation_after(engine.nonce),
        bumped(engine, pid).nonce != 0,
        bumped(engine, pid).nonce != engine.nonce,
        bumped(engine, pid).watchers[pid].generation == bumped(engine, pid).nonce,
{
}

/// What holds of the engine at all times: it does not watch itself, it drains
/// results while any are outstanding, and has handed out every generation in
/// use.
pub open spec fn well_formed(engine: EngineView) -> bool {
    &&& !engine.watchers.contains_key(engine.own_pid)
    &&& engine.outstanding > 0 ==> engine.timer
    &&& forall|pid: i32| #[trigger]
        engine.watchers.contains_key(pid) ==> engine.watchers[pid].generation <= engine.nonce
}

/// A new engine is well-formed.
pub proof fn a_new_engine_is_well_formed(engine: EngineView)
    requires
        engine.watchers == Map::<i32, WatcherView>::empty(),
        engine.outstanding == 0,
    ensures
        well_formed(engine),
{
}

proof fn bumped_is_well_formed(engine: EngineView, pid: i32)
    requires
        well_formed(engine),
        engine.watchers.contains_key(pid),
        engine.nonce < u64::MAX,
    ensures
        well_formed(bumped(engine, pid)),
{
    let next = bumped(engine, pid);
    assert forall|p: i32| #[trigger] next.watchers.contains_key(p) implies next.watchers[p].generation
        <= next.nonce by {
        if p != pid {
            assert(engine.watchers.contains_key(p));
        }
    }
}

/// Every step keeps the engine well-formed. (The numbers that tell generations
/// apart, and the count of recounts under way, have to have a next one.)
pub proof fn every_step_keeps_the_engine_well_formed(
    engine: EngineView,
    pid: i32,
    notification: Seq<char>,
    window: u64,
    result: RecountResult,
    config: ConfigView,
    app: FactsView,
    now: u64,
)
    requires
        well_formed(engine),
        engine.nonce < u64::MAX,
    ensures
        well_formed(on_window_event(engine, pid, notification, window).0),
        well_formed(on_recount(engine, result, config, app, now).0),
        well_formed(on_terminated(engine, pid)),
        well_formed(on_expiry(engine, pid, result.request.generation)),
        well_formed(on_received(engine)),
        well_formed(EngineView { last_space_change: Some(now), ..engine }),
        forall|accepted: bool, bundle_id: Option<Seq<char>>, name: Seq<char>|
            well_formed(
                (#[trigger] on_termination_answered(
                    engine,
                    pid,
                    result.request.generation,
                    accepted,
                    bundle_id,
                    name,
                    now,
                )).0,
            ),
        forall|watcher: WatcherView|
            engine.watchers.contains_key(pid) && watcher.generation
                == engine.watchers[pid].generation ==> well_formed(
                #[trigger] with_watcher(engine, pid, watcher),
            ),
        forall|disconnected: bool| well_formed(#[trigger] on_drained(engine, disconnected)),
        forall|outcome: SendOutcome|
            engine.outstanding < usize::MAX ==> well_formed(#[trigger] on_sent(engine, outcome)),
{
    let after = on_window_event(engine, pid, notification, window).0;
    if engine.watchers.contains_key(pid) {
        bumped_is_well_formed(engine, pid);
        let forgotten = with_watcher(
            engine,
            pid,
            without_window(engine.watchers[pid], window),
        );
        replaced_is_well_formed(engine, pid, forgotten.watchers[pid]);
        bumped_is_well_formed(forgotten, pid);
    }
    assert(well_formed(after));
    let p = result.request.pid;
    if engine.watchers.contains_key(p) && result.count is Some {
        let remembered = WatcherView {
            last_ordered_out: result.count->0.ordered_out,
            ..engine.watchers[p]
        };
        replaced_is_well_formed(engine, p, remembered);
        bumped_is_well_formed(with_watcher(engine, p, remembered), p);
    }
    assert forall|watcher: WatcherView|
        engine.watchers.contains_key(pid) && watcher.generation
            == engine.watchers[pid].generation implies well_formed(
        #[trigger] with_watcher(engine, pid, watcher),
    ) by {
        replaced_is_well_formed(engine, pid, watcher);
    }
    let gone = on_terminated(engine, pid);
    assert forall|q: i32| #[trigger] gone.watchers.contains_key(q) implies gone.watchers[q].generation
        <= gone.nonce by {
        assert(engine.watchers.contains_key(q));
    }
}

proof fn replaced_is_well_formed(engine: EngineView, pid: i32, watcher: WatcherView)
    requires
        well_formed(engine),
        pid != engine.own_pid,
        watcher.generation <= engine.nonce,
    ensures
        well_formed(with_watcher(engine, pid, watcher)),
{
    let next = with_watcher(engine, pid, watcher);
    assert forall|p: i32| #[trigger] next.watchers.contains_key(p) implies next.watchers[p].generation
        <= next.nonce by {
        if p != pid {
            assert(engine.watchers.contains_key(p));
        }
    }
}

/// Watching another app keeps the engine well-formed, as long as its watcher
/// carries the generation that it was given.
pub proof fn a_new_watcher_keeps_the_engine_well_formed(
    engine: EngineView,
    pid: i32,
    may_retry: bool,
    created: Option<(Watcher, bool)>,
)
    requires
        well_formed(engine),
        engine.nonce < u64::MAX,
        pid != engine.own_pid,
        created is Some ==> (created->0).0@.generation == generation_after(engine.nonce),
    ensures
        well_formed(watcher_added(engine, pid, may_retry, created).0),
{
    let next = EngineView { nonce: generation_after(engine.nonce), ..engine };
    assert(well_formed(next)) by {
        assert forall|p: i32| #[trigger]
            next.watchers.contains_key(p) implies next.watchers[p].generation <= next.nonce by {
            assert(engine.watchers.contains_key(p));
        }
    }
    if created is Some {
        replaced_is_well_formed(next, pid, (created->0).0@);
    }
}

/// Once all results are in, the drain timer stops: an idle engine causes no
/// wake-ups.
pub proof fn an_idle_engine_has_no_timer(engine: EngineView, disconnected: bool)
    ensures
        on_drained(engine, disconnected).outstanding == 0 ==> !on_drained(
            engine,
            disconnected,
        ).timer,
        on_drained(engine, true).outstanding == 0,
{
}

/// A Space switch puts every quit off: while it is recent, no app is asked to
/// quit, and a quit that is due is tried again later.
pub proof fn a_space_switch_defers_quits(
    engine: EngineView,
    pid: i32,
    generation: u64,
    cg_count: Option<usize>,
    config: ConfigView,
    app: FactsView,
    now: u64,
)
    requires
        space_change_recent(engine, now),
    ensures
        on_quit_due(engine, pid, generation, config, app, now) is ScheduleQuit || on_quit_due(
            engine,
            pid,
            generation,
            config,
            app,
            now,
        ) == Action::Nothing,
        !(on_final_check(engine, pid, generation, cg_count, config, app, now).1 is Terminate),
{
}

/// Every recount that is not yet the final check and finds no window leads on to
/// the quit, whatever made it: it schedules the next step for the app and the
/// generation that it was made for, after the quit delay of the settings, but no
/// sooner than after 0.05 s.
pub proof fn recounts_without_windows_schedule_the_quit(
    engine: EngineView,
    result: RecountResult,
    config: ConfigView,
    app: FactsView,
    now: u64,
)
    requires
        result.request.phase != RecountPhase::FinalCheck,
        engine.watchers.contains_key(result.request.pid),
        engine.watchers[result.request.pid].generation == result.request.generation,
        engine.watchers[result.request.pid].had_window,
        may_quit(config, app),
        result.count is Some,
        result.count->0.effective == 0,
    ensures
        ({
            let action = on_recount(engine, result, config, app, now).1;
            let delay = action->ScheduleQuit_delay;
            &&& action is ScheduleQuit
            &&& action->ScheduleQuit_pid == result.request.pid
            &&& action->ScheduleQuit_generation == result.request.generation
            &&& delay.bits == config.quit_delay_secs.bits || delay.bits == 0x3FA9_9999_9999_999A
            &&& config.quit_delay_secs.finite() && config.quit_delay_secs.units() >= magnitude(
                0x3FA9_9999_9999_999A,
            ) ==> delay == config.quit_delay_secs
            &&& config.quit_delay_secs.finite() && config.quit_delay_secs.units() < magnitude(
                0x3FA9_9999_9999_999A,
            ) ==> delay.bits == 0x3FA9_9999_9999_999A
        }),
{
}

/// Switching away from an app that has no window left quits it, as closing its
/// last window does: the deactivation leads to a recount, that to a delayed check,
/// that to a final recount, and that to a termination request, as long as nothing
/// else happens in between and both counts find no window.
pub proof fn switching_away_without_windows_quits_the_app(
    engine: EngineView,
    pid: i32,
    config: ConfigView,
    app: FactsView,
    first: RecountResult,
    last: RecountResult,
    counted_at: u64,
    due_at: u64,
    checked_at: u64,
)
    requires
        engine.watchers.contains_key(pid),
        engine.watchers[pid].had_window,
        !engine.pending.contains_key(pid),
        may_quit(config, app),
        !app.terminated,
        app.finished_launching,
        !app.hidden,
        !space_change_recent(engine, due_at),
        !space_change_recent(engine, checked_at),
        first.count is Some,
        first.count->0.effective == 0,
        last.count is Some,
        last.count->0.effective == 0,
        last.cg_count == Some(0usize),
    ensures
        ({
            let generation = engine.watchers[pid].generation;
            let recount = RecountRequest { pid, generation, phase: RecountPhase::AppDeactivated };
            let check = RecountRequest { pid, generation, phase: RecountPhase::FinalCheck };
            let (counted, counting) = on_recount(
                engine,
                RecountResult { request: recount, ..first },
                config,
                app,
                counted_at,
            );
            let due = on_quit_due(counted, pid, generation, config, app, due_at);
            let (asked, asking) = on_recount(
                counted,
                RecountResult { request: check, ..last },
                config,
                app,
                checked_at,
            );
            &&& on_deactivated(engine, pid, config, app) == Action::Recount(recount)
            &&& counting is ScheduleQuit
            &&& counting->ScheduleQuit_pid == pid
            &&& counting->ScheduleQuit_generation == generation
            &&& due == Action::Recount(check)
            &&& asking is Terminate
            &&& asking->Terminate_pid == pid
        }),
{
}

/// What a recount leads to, and when exactly. A termination request comes of a
/// final check of a quit that is still due, with no window in either count, no
/// request pending and no Space switch going on. A check is scheduled by the other
/// recounts of an app that has had a window and may be quit, and by a final check
/// that a Space switch puts off. Nothing else comes of a recount.
pub proof fn what_a_recount_leads_to(
    engine: EngineView,
    result: RecountResult,
    config: ConfigView,
    app: FactsView,
    now: u64,
)
    ensures
        ({
            let pid = result.request.pid;
            let watcher = engine.watchers[pid];
            let last = result.request.phase == RecountPhase::FinalCheck;
            let action = on_recount(engine, result, config, app, now).1;
            let empty = engine.watchers.contains_key(pid) && watcher.generation
                == result.request.generation && result.count is Some && result.count->0.effective
                == 0 && may_quit(config, app);
            let ready = !app.terminated && app.finished_launching && !hidden_by_user(
                result.count->0.ordered_out,
                app,
            ) && !engine.pending.contains_key(pid);
            &&& action is Terminate <==> empty && last && ready && !space_change_recent(engine, now)
                && result.cg_count == Some(0usize)
            &&& action is ScheduleQuit <==> empty && if last {
                ready && space_change_recent(engine, now)
            } else {
                watcher.had_window
            }
            &&& action is Terminate || action is ScheduleQuit || action == Action::Nothing
            &&& action is ScheduleQuit ==> action->ScheduleQuit_pid == pid
                && action->ScheduleQuit_generation == result.request.generation
            &&& action is ScheduleQuit && last ==> action->ScheduleQuit_delay.bits
                == 0x4008_0000_0000_0000
            &&& action is Terminate ==> action->Terminate_pid == pid
        }),
{
}

/// What a recount changes: of a watched app whose generation it was made for, how
/// many windows were ordered out, and its generation if it is asked to quit.
/// Everything else stays as it is.
pub proof fn what_a_recount_changes(
    engine: EngineView,
    result: RecountResult,
    config: ConfigView,
    app: FactsView,
    now: u64,
    other: i32,
)
    requires
        other != result.request.pid,
    ensures
        ({
            let pid = result.request.pid;
            let (after, action) = on_recount(engine, result, config, app, now);
            let (before_it, after_it) = (engine.watchers[pid], after.watchers[pid]);
            &&& after.pending == engine.pending
            &&& after.outstanding == engine.outstanding
            &&& after.timer == engine.timer
            &&& after.own_pid == engine.own_pid
            &&& after.last_space_change == engine.last_space_change
            &&& after.watchers.contains_key(other) == engine.watchers.contains_key(other)
            &&& after.watchers[other] == engine.watchers[other]
            &&& after.watchers.contains_key(pid) == engine.watchers.contains_key(pid)
            &&& !engine.watchers.contains_key(pid) ==> after == engine
            &&& engine.watchers.contains_key(pid) ==> {
                &&& after_it.watched_windows == before_it.watched_windows
                &&& after_it.had_window == before_it.had_window
                &&& after_it.last_ordered_out == if before_it.generation
                    == result.request.generation && result.count is Some {
                    result.count->0.ordered_out
                } else {
                    before_it.last_ordered_out
                }
                &&& action is Terminate ==> after_it.generation
                    == action->Terminate_generation && after.nonce == after_it.generation
                    && after.nonce != engine.nonce
                &&& !(action is Terminate) ==> after_it.generation == before_it.generation
                    && after.nonce == engine.nonce
            }
        }),
{
}

/// What a quit whose delay is over leads to, and when exactly: the final recount
/// if nothing speaks against the quit any more, another delay if only a Space
/// switch does, and nothing in every other case.
pub proof fn what_a_due_quit_leads_to(
    engine: EngineView,
    pid: i32,
    generation: u64,
    config: ConfigView,
    app: FactsView,
    now: u64,
)
    ensures
        ({
            let action = on_quit_due(engine, pid, generation, config, app, now);
            let due = engine.watchers.contains_key(pid) && engine.watchers[pid].generation
                == generation && may_quit(config, app) && !app.terminated
                && app.finished_launching && !hidden_by_user(
                engine.watchers[pid].last_ordered_out,
                app,
            );
            &&& action is Recount <==> due && !space_change_recent(engine, now)
                && !engine.pending.contains_key(pid)
            &&& action is ScheduleQuit <==> due && space_change_recent(engine, now)
            &&& action is Recount || action is ScheduleQuit || action == Action::Nothing
            &&& action is Recount ==> action->Recount_0.pid == pid && action->Recount_0.generation
                == generation && action->Recount_0.phase == RecountPhase::FinalCheck
            &&& action is ScheduleQuit ==> action->ScheduleQuit_pid == pid
                && action->ScheduleQuit_generation == generation
                && action->ScheduleQuit_delay.bits == 0x4008_0000_0000_0000
        }),
{
}

/// When exactly switching away from an app leads to a recount: if it is watched,
/// has had a window and may be quit.
pub proof fn what_a_deactivation_leads_to(
    engine: EngineView,
    pid: i32,
    config: ConfigView,
    app: FactsView,
)
    ensures
        ({
            let action = on_deactivated(engine, pid, config, app);
            &&& action is Recount <==> engine.watchers.contains_key(pid)
                && engine.watchers[pid].had_window && may_quit(config, app)
            &&& action is Recount || action == Action::Nothing
            &&& action is Recount ==> action->Recount_0.pid == pid && action->Recount_0.generation
                == engine.watchers[pid].generation && action->Recount_0.phase
                == RecountPhase::AppDeactivated
        }),
{
}

/// What a window event changes. Of the app whose window it is, the generation is
/// renewed; a created window withdraws its termination request, a destroyed one is
/// no longer watched. Other windows, other apps and everything else stay as they
/// are, and so does everything at any other event.
pub proof fn what_a_window_event_changes(
    engine: EngineView,
    pid: i32,
    notification: Seq<char>,
    window: u64,
    other: i32,
    other_window: u64,
)
    requires
        other != pid,
        other_window != window,
    ensures
        ({
            let (after, action) = on_window_event(engine, pid, notification, window);
            let (before_it, after_it) = (engine.watchers[pid], after.watchers[pid]);
            let created = notification == "AXWindowCreated"@;
            let destroyed = notification == "AXUIElementDestroyed"@;
            let known = engine.watchers.contains_key(pid);
            &&& after.outstanding == engine.outstanding
            &&& after.timer == engine.timer
            &&& after.own_pid == engine.own_pid
            &&& after.last_space_change == engine.last_space_change
            &&& after.watchers.contains_key(other) == engine.watchers.contains_key(other)
            &&& after.watchers[other] == engine.watchers[other]
            &&& after.pending.contains_key(other) == engine.pending.contains_key(other)
            &&& after.pending[other] == engine.pending[other]
            &&& after.watchers.contains_key(pid) == known
            &&& !known || (!created && !destroyed) ==> after == engine && action == Action::Nothing
            &&& known && (created || destroyed) ==> {
                &&& after_it.had_window == before_it.had_window
                &&& after_it.last_ordered_out == before_it.last_ordered_out
                &&& after_it.generation == after.nonce
                &&& after.nonce != engine.nonce
                &&& after_it.watched_windows.contains(other_window)
                    == before_it.watched_windows.contains(other_window)
                &&& after_it.watched_windows.contains(window) == (created
                    && before_it.watched_windows.contains(window))
                &&& after.pending.contains_key(pid) == (destroyed && engine.pending.contains_key(
                    pid,
                ))
                &&& destroyed ==> after.pending == engine.pending
                &&& created ==> action == (Action::WatchWindow { pid })
                &&& destroyed ==> action is Recount && action->Recount_0.pid == pid
                    && action->Recount_0.generation == after.nonce && action->Recount_0.phase
                    == RecountPhase::WindowDestroyed
            }
        }),
{
    reveal_strlit("AXUIElementDestroyed");
    reveal_strlit("AXWindowCreated");
    assert("AXUIElementDestroyed"@[2] != "AXWindowCreated"@[2]);
    forgetting_drops_one_window(engine.watchers[pid], window, window);
    forgetting_drops_one_window(engine.watchers[pid], window, other_window);
}

/// What the answer to a termination request changes: if the app accepted and has a
/// bundle ID, its request is pending with what was given, and expires after 30 s;
/// else nothing changes. Other apps' requests stay as they are.
pub proof fn what_an_answered_request_changes(
    engine: EngineView,
    pid: i32,
    generation: u64,
    accepted: bool,
    bundle_id: Option<Seq<char>>,
    name: Seq<char>,
    now: u64,
    other: i32,
)
    requires
        other != pid,
    ensures
        ({
            let (after, action) = on_termination_answered(
                engine,
                pid,
                generation,
                accepted,
                bundle_id,
                name,
                now,
            );
            &&& after.watchers == engine.watchers
            &&& after.outstanding == engine.outstanding
            &&& after.timer == engine.timer
            &&& after.nonce == engine.nonce
            &&& after.own_pid == engine.own_pid
            &&& after.last_space_change == engine.last_space_change
            &&& after.pending.contains_key(other) == engine.pending.contains_key(other)
            &&& after.pending[other] == engine.pending[other]
            &&& accepted && bundle_id is Some ==> {
                &&& after.pending.contains_key(pid)
                &&& after.pending[pid].bundle_id == bundle_id->0
                &&& after.pending[pid].name == name
                &&& after.pending[pid].generation == generation
                &&& after.pending[pid].requested_at == now
                &&& action is ScheduleExpiry
                &&& action->ScheduleExpiry_pid == pid
                &&& action->ScheduleExpiry_generation == generation
                &&& action->ScheduleExpiry_delay.bits == 0x403E_0000_0000_0000
            }
            &&& !(accepted && bundle_id is Some) ==> after == engine && action == Action::Nothing
        }),
{
}

/// What is forgotten when an app terminates or its request expires: what is known
/// of that app, and nothing of any other.
pub proof fn what_the_end_of_an_app_changes(
    engine: EngineView,
    pid: i32,
    generation: u64,
    other: i32,
)
    requires
        other != pid,
    ensures
        ({
            let gone = on_terminated(engine, pid);
            let expired = on_expiry(engine, pid, generation);
            &&& !gone.watchers.contains_key(pid)
            &&& !gone.pending.contains_key(pid)
            &&& gone.watchers.contains_key(other) == engine.watchers.contains_key(other)
            &&& gone.watchers[other] == engine.watchers[other]
            &&& gone.pending.contains_key(other) == engine.pending.contains_key(other)
            &&& gone.pending[other] == engine.pending[other]
            &&& gone.outstanding == engine.outstanding && gone.timer == engine.timer
            &&& gone.nonce == engine.nonce && gone.own_pid == engine.own_pid
            &&& gone.last_space_change == engine.last_space_change
            &&& expired.watchers == engine.watchers
            &&& expired.pending.contains_key(pid) == (engine.pending.contains_key(pid)
                && engine.pending[pid].generation != generation)
            &&& expired.pending.contains_key(pid) ==> expired.pending[pid] == engine.pending[pid]
            &&& expired.pending.contains_key(other) == engine.pending.contains_key(other)
            &&& expired.pending[other] == engine.pending[other]
            &&& expired.outstanding == engine.outstanding && expired.timer == engine.timer
            &&& expired.nonce == engine.nonce && expired.own_pid == engine.own_pid
            &&& expired.last_space_change == engine.last_space_change
        }),
{
}

/// An app counts as quit by the engine if and only if it was asked to quit at most
/// 30 s before it terminated: the answer to the request decides, and what happens
/// to the request.
pub proof fn an_app_counts_as_quit_within_thirty_seconds(
    engine: EngineView,
    pid: i32,
    generation: u64,
    bundle_id: Seq<char>,
    name: Seq<char>,
    asked_at: u64,
    now: u64,
)
    ensures
        ({
            let asked = on_termination_answered(
                engine,
                pid,
                generation,
                true,
                Some(bundle_id),
                name,
                asked_at,
            ).0;
            &&& quit_by_engine(asked, pid, now) <==> now <= asked_at + 30_000_000_000
            &&& asked.pending[pid].bundle_id == bundle_id
            &&& asked.pending[pid].name == name
            &&& !quit_by_engine(on_expiry(asked, pid, generation), pid, now)
            &&& !quit_by_engine(on_terminated(asked, pid), pid, now)
        }),
        !engine.pending.contains_key(pid) ==> !quit_by_engine(engine, pid, now),
{
}

/// A Space switch is recent for 3 s, and without one none is.
pub proof fn a_space_switch_is_recent_for_three_seconds(
    engine: EngineView,
    changed_at: u64,
    now: u64,
)
    ensures
        space_change_recent(
            EngineView { last_space_change: Some(changed_at), ..engine },
            now,
        ) <==> now < changed_at + 3_000_000_000,
        !space_change_recent(EngineView { last_space_change: None, ..engine }, now),
{
}

/// Recounts are counted: one that is sent is under way until its result was
/// received, one that was not sent changes nothing, and the drain timer runs from
/// the first that is sent until all are received or the worker is gone.
pub proof fn recounts_under_way_are_counted(engine: EngineView)
    requires
        engine.outstanding < usize::MAX,
    ensures
        ({
            let sent = on_sent(engine, SendOutcome::Sent);
            &&& sent.outstanding == engine.outstanding + 1
            &&& sent.timer
            &&& on_received(sent).outstanding == engine.outstanding
            &&& on_received(sent).timer
            &&& on_sent(engine, SendOutcome::Full) == engine
            &&& on_sent(engine, SendOutcome::Disconnected) == engine
            &&& on_drained(sent, false) == sent
            &&& on_drained(sent, true).outstanding == 0 && !on_drained(sent, true).timer
            &&& on_drained(engine, false).outstanding == engine.outstanding
            &&& on_drained(engine, false).timer == (engine.timer && engine.outstanding > 0)
            &&& on_drained(engine, false).watchers == engine.watchers
            &&& on_drained(engine, false).pending == engine.pending
            &&& on_drained(engine, false).nonce == engine.nonce
            &&& on_drained(engine, false).own_pid == engine.own_pid
            &&& on_drained(engine, false).last_space_change == engine.last_space_change
            &&& engine.outstanding == 0 ==> on_received(engine).outstanding == 0
            &&& sent.watchers == engine.watchers && sent.pending == engine.pending
            &&& sent.nonce == engine.nonce && sent.own_pid == engine.own_pid
            &&& sent.last_space_change == engine.last_space_change
            &&& on_received(engine).watchers == engine.watchers
            &&& on_received(engine).pending == engine.pending
            &&& on_received(engine).nonce == engine.nonce
            &&& on_received(engine).timer == engine.timer
            &&& on_received(engine).own_pid == engine.own_pid
            &&& on_received(engine).last_space_change == engine.last_space_change
            &&& on_drained(engine, true).watchers == engine.watchers
            &&& on_drained(engine, true).pending == engine.pending
            &&& on_drained(engine, true).nonce == engine.nonce
            &&& on_drained(engine, true).own_pid == engine.own_pid
            &&& on_drained(engine, true).last_space_change == engine.last_space_change
        }),
{
}

/// What observing an app changes: it gets the watcher that was made for it under a
/// new generation, and nothing else changes. A failed try may be made once more:
/// for the watcher if there is none, for the windows if they could not be read.
pub proof fn what_observing_an_app_changes(
    engine: EngineView,
    pid: i32,
    may_retry: bool,
    created: Option<(Watcher, bool)>,
    other: i32,
)
    requires
        other != pid,
    ensures
        ({
            let (after, retry) = watcher_added(engine, pid, may_retry, created);
            &&& after.nonce != engine.nonce && after.nonce != 0
            &&& created is Some ==> after.watchers.contains_key(pid) && after.watchers[pid] == (
            created->0).0@
            &&& created is None ==> after.watchers == engine.watchers
            &&& after.watchers.contains_key(other) == engine.watchers.contains_key(other)
            &&& after.watchers[other] == engine.watchers[other]
            &&& after.pending == engine.pending
            &&& after.outstanding == engine.outstanding && after.timer == engine.timer
            &&& after.own_pid == engine.own_pid
            &&& after.last_space_change == engine.last_space_change
            &&& retry == Retry::Watcher <==> may_retry && created is None
            &&& retry == Retry::Windows <==> may_retry && created is Some && !(created->0).1
        }),
        can_watch(engine, pid) <==> pid != engine.own_pid && !engine.watchers.contains_key(pid),
{
}

} // verus!
