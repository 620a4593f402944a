//! What keep-alive remembers and decides: laws on restarts, pauses and ignores.
use vstd::prelude::*;

use crate::bundle_ids::{names, names_is_case_blind};
use crate::config::{normal_settings, with_ignored_until, ConfigView};
use crate::keepalive::{
    after_pause_check, after_pause_checks, cleared, exit_seen, exit_taken, free_ids,
    ignore_deadline, ignore_step, ignored_for, in_window, launch_due, launch_permitted, left_alone, loop_paused,
    not_left_alone, restart_checked, restart_considered, restart_noted, restarted,
    restarts_cleared, restarts_of, IgnoreStep, KeepAliveView, LaunchFacts, LaunchView,
};
use crate::procexit::ExitKind;
use crate::suite::suite_running;
use crate::text::{lower, same_text};

verus! {

proof fn filter_then_stricter_filter(list: Seq<u64>, loose: spec_fn(u64) -> bool, strict: spec_fn(
    u64,
) -> bool)
    requires
        forall|t: u64| #[trigger] strict(t) ==> loose(t),
    ensures
        list.filter(loose).filter(strict) =~= list.filter(strict),
    decreases list.len(),
{
    reveal(Seq::filter);
    if list.len() > 0 {
        let front = list.drop_last();
        filter_then_stricter_filter(front, loose, strict);
        let kept = front.filter(loose);
        assert(list =~= front.push(list.last()));
        front.lemma_filter_push(list.last(), loose);
        front.lemma_filter_push(list.last(), strict);
        kept.lemma_filter_push(list.last(), strict);
    }
}

proof fn later_window_of_window(list: Seq<u64>, now: u64, later: u64)
    requires
        now <= later,
    ensures
        in_window(in_window(list, now), later) == in_window(list, later),
{
    filter_then_stricter_filter(
        list,
        |t: u64| now - t < 3_600_000_000_000,
        |t: u64| later - t < 3_600_000_000_000,
    );
}

/// A restart counts for exactly an hour: of the moments in a list, those of the
/// hour up to now are counted, each as often as it is there.
pub proof fn a_restart_counts_for_an_hour(list: Seq<u64>, moment: u64, now: u64)
    ensures
        in_window(Seq::empty(), now).len() == 0,
        in_window(list.push(moment), now) == if now < moment + 3_600_000_000_000 {
            in_window(list, now).push(moment)
        } else {
            in_window(list, now)
        },
{
    reveal(Seq::filter);
    list.lemma_filter_push(moment, |t: u64| now - t < 3_600_000_000_000);
}

/// A restart check forgets no restart that still counts, now or at any later
/// moment, whatever comes of it and whatever kind of app it is about; and it
/// touches nothing that is remembered of another app.
pub proof fn a_restart_check_forgets_no_recent_restart(
    state: KeepAliveView,
    config: ConfigView,
    bundle_id: Seq<char>,
    menu_bar: bool,
    exit: Option<ExitKind>,
    now: u64,
    unix_now: u64,
    later: u64,
    other: Seq<char>,
)
    requires
        now <= later,
        !same_text(bundle_id, other),
    ensures
        ({
            let after = restart_considered(
                state,
                config,
                bundle_id,
                menu_bar,
                exit,
                now,
                unix_now,
            ).0;
            &&& in_window(restarts_of(after, bundle_id), later) == in_window(
                restarts_of(state, bundle_id),
                later,
            )
            &&& restarts_of(after, other) == restarts_of(state, other)
            &&& loop_paused(after, other, later) == loop_paused(state, other, later)
        }),
{
    later_window_of_window(restarts_of(state, bundle_id), now, later);
}

/// Loop protection catches an app that keeps ending: once it was restarted twice,
/// each time by a check that was followed by a launch, no check within an hour of
/// the first of the two wants it launched again, whatever the app and its exits
/// were like and however its ID was capitalized.
pub proof fn two_restarts_an_hour_are_enough(
    state: KeepAliveView,
    configs: (ConfigView, ConfigView, ConfigView),
    ids: (Seq<char>, Seq<char>, Seq<char>),
    menu_bar: (bool, bool, bool),
    exits: (Option<ExitKind>, Option<ExitKind>, Option<ExitKind>),
    now: (u64, u64, u64),
    unix_now: (u64, u64, u64),
)
    requires
        same_text(ids.0, ids.1),
        same_text(ids.1, ids.2),
        now.0 <= now.1 <= now.2 < now.0 + 3_600_000_000_000,
        configs.2.keep_alive_loop_protection,
    ensures
        ({
            let first = restart_considered(
                state,
                configs.0,
                ids.0,
                menu_bar.0,
                exits.0,
                now.0,
                unix_now.0,
            );
            let once = restart_noted(first.0, ids.0, now.0);
            let second = restart_considered(
                once,
                configs.1,
                ids.1,
                menu_bar.1,
                exits.1,
                now.1,
                unix_now.1,
            );
            let twice = restart_noted(second.0, ids.1, now.1);
            !restart_considered(
                twice,
                configs.2,
                ids.2,
                menu_bar.2,
                exits.2,
                now.2,
                unix_now.2,
            ).1
        }),
{
    let first = restart_considered(
        state,
        configs.0,
        ids.0,
        menu_bar.0,
        exits.0,
        now.0,
        unix_now.0,
    );
    let once = restart_noted(first.0, ids.0, now.0);
    let second = restart_considered(
        once,
        configs.1,
        ids.1,
        menu_bar.1,
        exits.1,
        now.1,
        unix_now.1,
    );
    let twice = restart_noted(second.0, ids.1, now.1);
    later_window_of_window(restarts_of(once, ids.1), now.1, now.2);
    a_restart_counts_for_an_hour(restarts_of(first.0, ids.0), now.0, now.2);
    a_restart_counts_for_an_hour(restarts_of(second.0, ids.1), now.1, now.2);
    assert(restarts_of(once, ids.1) == restarts_of(first.0, ids.0).push(now.0));
    assert(restarts_of(twice, ids.2) == restarts_of(second.0, ids.1).push(now.1));
    assert(in_window(restarts_of(twice, ids.2), now.2).len() >= 2);
}

/// When exactly a restart check wants a launch: the app is not one that ended in
/// order and may stay so, it is neither ignored nor paused, and it was restarted
/// at most once in the last hour if loop protection is on. It then is not paused
/// afterwards; where only loop protection speaks against it, it is.
pub proof fn when_a_restart_is_wanted(
    state: KeepAliveView,
    config: ConfigView,
    bundle_id: Seq<char>,
    menu_bar: bool,
    exit: Option<ExitKind>,
    now: u64,
    unix_now: u64,
    later: u64,
)
    requires
        now <= later,
    ensures
        ({
            let (after, wanted) = restart_considered(
                state,
                config,
                bundle_id,
                menu_bar,
                exit,
                now,
                unix_now,
            );
            let to_come_back = menu_bar || config.keep_alive_auto_start_missing || exit == Some(
                ExitKind::Crashed,
            );
            let free = ignored_for(config, bundle_id, unix_now) is None && !loop_paused(
                state,
                bundle_id,
                now,
            );
            let often = config.keep_alive_loop_protection && in_window(
                restarts_of(state, bundle_id),
                now,
            ).len() >= 2;
            &&& wanted <==> to_come_back && free && !often
            &&& wanted ==> !loop_paused(after, bundle_id, later)
            &&& to_come_back && free && often ==> (loop_paused(after, bundle_id, later) <==> later
                < now + 86_400_000_000_000)
            &&& !to_come_back || !free ==> after == state
        }),
{
}

/// However an app's ID is capitalized, it is the same app to keep-alive.
pub proof fn keep_alive_is_case_blind(
    state: KeepAliveView,
    config: ConfigView,
    bundle_id: Seq<char>,
    spelling: Seq<char>,
    menu_bar: bool,
    exit: Option<ExitKind>,
    now: u64,
    unix_now: u64,
)
    requires
        same_text(bundle_id, spelling),
    ensures
        restart_considered(state, config, bundle_id, menu_bar, exit, now, unix_now)
            == restart_considered(state, config, spelling, menu_bar, exit, now, unix_now),
        restart_noted(state, bundle_id, now) == restart_noted(state, spelling, now),
        restarts_of(state, bundle_id) == restarts_of(state, spelling),
        cleared(state, bundle_id) == cleared(state, spelling),
        left_alone(state, config, bundle_id, now, unix_now) == left_alone(
            state,
            config,
            spelling,
            now,
            unix_now,
        ),
        ignored_for(config, bundle_id, unix_now) == ignored_for(config, spelling, unix_now),
{
}

/// Noting a restart adds it to those of the app and changes nothing else.
pub proof fn a_noted_restart_is_remembered(
    state: KeepAliveView,
    bundle_id: Seq<char>,
    other: Seq<char>,
    now: u64,
    later: u64,
)
    requires
        !same_text(bundle_id, other),
    ensures
        ({
            let after = restart_noted(state, bundle_id, now);
            &&& restarts_of(after, bundle_id).len() == restarts_of(state, bundle_id).len() + 1
            &&& restarts_of(after, bundle_id).last() == now
            &&& restarts_of(after, bundle_id).drop_last() == restarts_of(state, bundle_id)
            &&& restarts_of(after, other) == restarts_of(state, other)
            &&& loop_paused(after, bundle_id, later) == loop_paused(state, bundle_id, later)
            &&& loop_paused(after, other, later) == loop_paused(state, other, later)
        }),
{
    let after = restart_noted(state, bundle_id, now);
    assert(restarts_of(after, bundle_id).drop_last() =~= restarts_of(state, bundle_id));
}

/// What is forgotten of an app, when its pause is lifted or it is ignored, is
/// forgotten of that app alone; being ignored leaves a pause as it is.
pub proof fn only_one_app_is_cleared(
    state: KeepAliveView,
    bundle_id: Seq<char>,
    other: Seq<char>,
    now: u64,
)
    requires
        !same_text(bundle_id, other),
    ensures
        restarts_of(cleared(state, bundle_id), other) == restarts_of(state, other),
        loop_paused(cleared(state, bundle_id), other, now) == loop_paused(state, other, now),
        !loop_paused(cleared(state, bundle_id), bundle_id, now),
        restarts_of(cleared(state, bundle_id), bundle_id).len() == 0,
        restarts_of(restarts_cleared(state, bundle_id), other) == restarts_of(state, other),
        restarts_of(restarts_cleared(state, bundle_id), bundle_id).len() == 0,
        loop_paused(restarts_cleared(state, bundle_id), other, now) == loop_paused(
            state,
            other,
            now,
        ),
        loop_paused(restarts_cleared(state, bundle_id), bundle_id, now) == loop_paused(
            state,
            bundle_id,
            now,
        ),
{
}

/// To ask whether apps are left alone changes nothing that any later question
/// could tell, of these apps or of others.
pub proof fn asking_about_pauses_changes_no_answer(
    state: KeepAliveView,
    config: ConfigView,
    bundle_id: Seq<char>,
    listed: Seq<Seq<char>>,
    now: u64,
    unix_now: u64,
    asked: Seq<char>,
    later: u64,
)
    requires
        now <= later,
    ensures
        loop_paused(after_pause_check(state, config, bundle_id, now, unix_now), asked, later)
            == loop_paused(state, asked, later),
        restarts_of(after_pause_check(state, config, bundle_id, now, unix_now), asked)
            == restarts_of(state, asked),
        loop_paused(after_pause_checks(state, config, listed, now, unix_now), asked, later)
            == loop_paused(state, asked, later),
        restarts_of(after_pause_checks(state, config, listed, now, unix_now), asked)
            == restarts_of(state, asked),
{
    if free_ids(state, config, listed, now, unix_now).contains(lower(asked)) {
        let i = choose|i: int|
            0 <= i < listed.len() && lower(#[trigger] listed[i]) == lower(asked) && !left_alone(
                state,
                config,
                listed[i],
                now,
                unix_now,
            );
        assert(!loop_paused(state, listed[i], now));
    }
}

/// An app is left alone exactly while it is ignored or paused by loop protection,
/// and looking for missing apps goes through all others of the list, each as often
/// as it is there and in their order.
pub proof fn the_others_are_looked_for(
    state: KeepAliveView,
    config: ConfigView,
    listed: Seq<Seq<char>>,
    bundle_id: Seq<char>,
    now: u64,
    unix_now: u64,
)
    ensures
        left_alone(state, config, bundle_id, now, unix_now) <==> ignored_for(
            config,
            bundle_id,
            unix_now,
        ) is Some || loop_paused(state, bundle_id, now),
        not_left_alone(state, config, Seq::empty(), now, unix_now).len() == 0,
        not_left_alone(state, config, listed.push(bundle_id), now, unix_now) == if ignored_for(
            config,
            bundle_id,
            unix_now,
        ) is Some || loop_paused(state, bundle_id, now) {
            not_left_alone(state, config, listed, now, unix_now)
        } else {
            not_left_alone(state, config, listed, now, unix_now).push(bundle_id)
        },
{
    reveal(Seq::filter);
    listed.lemma_filter_push(
        bundle_id,
        |id: Seq<char>| !left_alone(state, config, id, now, unix_now),
    );
}

/// A day after loop protection paused an app, it is restarted again, if it was not
/// restarted in the meantime.
pub proof fn a_pause_is_over_after_a_day(
    state: KeepAliveView,
    configs: (ConfigView, ConfigView),
    bundle_id: Seq<char>,
    menu_bar: bool,
    exit: Option<ExitKind>,
    now: u64,
    later: u64,
    unix_now: (u64, u64),
)
    requires
        forall|i: int|
            0 <= i < restarts_of(state, bundle_id).len() ==> #[trigger] restarts_of(
                state,
                bundle_id,
            )[i] <= now,
        later >= now + 86_400_000_000_000,
        !loop_paused(state, bundle_id, now),
        menu_bar || exit == Some(ExitKind::Crashed),
        ignored_for(configs.1, bundle_id, unix_now.1) is None,
    ensures
        restart_considered(
            restart_considered(
                state,
                configs.0,
                bundle_id,
                menu_bar,
                exit,
                now,
                unix_now.0,
            ).0,
            configs.1,
            bundle_id,
            menu_bar,
            exit,
            later,
            unix_now.1,
        ).1,
{
    let list = restarts_of(state, bundle_id);
    later_window_of_window(list, now, later);
    let counts = |t: u64| later - t < 3_600_000_000_000;
    let recent = list.filter(counts);
    if recent.len() > 0 {
        list.lemma_filter_pred(counts, 0);
        list.lemma_filter_contains_rev(counts, recent[0]);
    }
    assert(in_window(list, later) == recent);
}

/// Ignoring an app, or ending that, changes no other setting and no other app's
/// ignore. A deadline that is over ignores nothing; one to come does for as long
/// as it takes to reach it, which is a day from the start, or as long as the clock
/// can count.
pub proof fn only_one_app_is_ignored(
    config: ConfigView,
    bundle_id: Seq<char>,
    other: Seq<char>,
    until: Option<u64>,
    unix_now: u64,
)
    requires
        !same_text(bundle_id, other),
    ensures
        ({
            let after = with_ignored_until(config, bundle_id, until);
            &&& ignored_for(after, other, unix_now) == ignored_for(config, other, unix_now)
            &&& ignored_for(after, bundle_id, unix_now) is Some <==> until is Some && until->0
                > unix_now
            &&& ignored_for(after, bundle_id, unix_now) is Some ==> ignored_for(
                after,
                bundle_id,
                unix_now,
            )->0 + unix_now == until->0
            &&& after.keep_alive_ignored_until.contains_key(lower(other))
                == config.keep_alive_ignored_until.contains_key(lower(other))
            &&& after.keep_alive_ignored_until[lower(other)]
                == config.keep_alive_ignored_until[lower(other)]
            &&& after.mode == config.mode
            &&& after.quit_delay_secs == config.quit_delay_secs
            &&& after.enabled == config.enabled
            &&& after.apps == config.apps
            &&& after.keep_alive_enabled == config.keep_alive_enabled
            &&& after.keep_alive_delay_secs == config.keep_alive_delay_secs
            &&& after.keep_alive_loop_protection == config.keep_alive_loop_protection
            &&& after.keep_alive_apps == config.keep_alive_apps
            &&& after.keep_alive_auto_start_missing == config.keep_alive_auto_start_missing
        }),
        normal_settings(config).keep_alive_ignored_until == config.keep_alive_ignored_until,
        unix_now <= u64::MAX - 86_400 ==> ignore_deadline(unix_now) == unix_now + 86_400,
        unix_now > u64::MAX - 86_400 ==> ignore_deadline(unix_now) == u64::MAX,
{
}

/// When exactly an app is launched: keep-alive is on, the app is on its list and
/// not ignored, it does not run, it was found on disk, and no helper stands for it.
pub proof fn when_an_app_is_launched(
    config: ConfigView,
    bundle_id: Seq<char>,
    spelling: Seq<char>,
    unix_now: u64,
    facts: LaunchView,
)
    requires
        same_text(bundle_id, spelling),
    ensures
        launch_due(config, bundle_id, unix_now, facts) <==> config.keep_alive_enabled && names(
            config.keep_alive_apps,
            spelling,
        ) && ignored_for(config, spelling, unix_now) is None && !facts.running && facts.path is Some
            && !suite_running(facts.apps, bundle_id, facts.path->0),
        launch_permitted(config, bundle_id, unix_now) <==> config.keep_alive_enabled && names(
            config.keep_alive_apps,
            spelling,
        ) && ignored_for(config, spelling, unix_now) is None,
{
    names_is_case_blind(config.keep_alive_apps, bundle_id, spelling);
}

/// A timer that runs out finds an ignore over, or waits for exactly the time that
/// is left of the one it was set for; for any other it has nothing to do.
pub proof fn what_an_expiry_timer_finds(
    config: ConfigView,
    bundle_id: Seq<char>,
    expected_until: u64,
    unix_now: u64,
)
    ensures
        ({
            let step = ignore_step(config, bundle_id, expected_until, unix_now);
            let known = config.keep_alive_ignored_until.contains_key(lower(bundle_id));
            let left = ignored_for(config, bundle_id, unix_now);
            &&& step is Over <==> known && left is None
            &&& step is Again <==> left is Some && left->0 + unix_now == expected_until
            &&& step is Again ==> step->secs == left->0 && step->secs > 0
        }),
        ignore_step(
            with_ignored_until(config, bundle_id, None),
            bundle_id,
            expected_until,
            unix_now,
        ) == IgnoreStep::Nothing,
{
}

/// A restart check of an app that RustQuit did not quit in the last minute goes by
/// how the app ended, and uses that up; that of every other app is kept for its
/// own check. One of an app that it did quit changes nothing.
pub proof fn an_exit_is_used_for_one_check(
    state: KeepAliveView,
    config: ConfigView,
    age: Option<u128>,
    exits: Map<i32, ExitKind>,
    bundle_id: Seq<char>,
    pid: i32,
    menu_bar: bool,
    moment: (u64, u64),
    other: i32,
)
    requires
        other != pid,
    ensures
        ({
            let (after, left, wanted) = restart_checked(
                state,
                config,
                age,
                Some(exits),
                (bundle_id, pid, menu_bar),
                moment,
            );
            let exit = if exits.contains_key(pid) {
                Some(exits[pid])
            } else {
                None
            };
            let own = age is Some && age->0 < 60_000_000_000;
            &&& own ==> after == state && left == Some(exits) && !wanted
            &&& !own ==> (after, wanted) == restart_considered(
                state,
                config,
                bundle_id,
                menu_bar,
                exit,
                moment.0,
                moment.1,
            )
            &&& !own ==> left is Some && !left->0.contains_key(pid)
            &&& left->0.contains_key(other) == exits.contains_key(other)
            &&& left->0[other] == exits[other]
        }),
        exit_seen(None, pid) is None,
        exit_taken(None, pid) is None,
{
}

/// A launch is counted as a restart, and nothing but a launch is; there is one
/// only if the check wanted it and keep-alive may launch the app, and there is one
/// if every answer about the app, as far as it is asked for, allows it.
pub proof fn launches_are_counted<F: FnOnce() -> LaunchFacts>(
    before: KeepAliveView,
    config: ConfigView,
    age: Option<u128>,
    exits: Option<Map<i32, ExitKind>>,
    app: (Seq<char>, i32, bool),
    moment: (u64, u64),
    facts: F,
    launch: bool,
    after: KeepAliveView,
    exits_after: Option<Map<i32, ExitKind>>,
)
    requires
        restarted(before, config, age, exits, app, moment, facts, launch, after, exits_after),
    ensures
        in_window(restarts_of(after, app.0), moment.0).len() == in_window(
            restarts_of(before, app.0),
            moment.0,
        ).len() + if launch {
            1int
        } else {
            0int
        },
        launch ==> after == restart_noted(
            restart_checked(before, config, age, exits, app, moment).0,
            app.0,
            moment.0,
        ),
        !launch ==> after == restart_checked(before, config, age, exits, app, moment).0,
        launch ==> restart_checked(before, config, age, exits, app, moment).2,
        launch ==> config.keep_alive_enabled && names(config.keep_alive_apps, app.0) && ignored_for(
            config,
            app.0,
            moment.1,
        ) is None,
        restart_checked(before, config, age, exits, app, moment).2 && (forall|found: LaunchFacts|
         #[trigger]
            facts.ensures((), found) ==> launch_due(config, app.0, moment.1, found@)) ==> launch,
        exits_after == restart_checked(before, config, age, exits, app, moment).1,
{
    let checked = restart_checked(before, config, age, exits, app, moment).0;
    later_window_of_window(restarts_of(before, app.0), moment.0, moment.0);
    a_restart_counts_for_an_hour(restarts_of(checked, app.0), moment.0, moment.0);
    assert(in_window(restarts_of(checked, app.0), moment.0) == in_window(
        restarts_of(before, app.0),
        moment.0,
    ));
}

} // verus!
