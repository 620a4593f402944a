//! The settings: laws on what a change stores and what the window shows of it.
use vstd::prelude::*;

use crate::app_list::filtered;
use crate::bundle_ids::{
    names, relisted, relisting_changes_one_app, sorted_ids, stored_form,
    stored_form_names_every_valid_id, valid_id, without_all, without_all_names_the_rest,
};
use crate::config::{
    default_settings, loaded_settings, normal_settings, safe_file, saved_or_kept, with_apps,
    with_keep_alive_apps, Config, ConfigView, FileFacts, FilterMode,
};
use crate::delay::{
    close_to, first_choice, picked_delays_are_shown, quit_delay_table, restart_delay_table,
};
use crate::double::{magnitude, pattern_order_is_value_order, Double};
use crate::settings_window::{
    after_toggle, changed, closed_window, controls_for, follow_up, refiltered, Change,
    SettingsView,
};
use crate::text::{before, lower, same_text};

verus! {

/// Two settings differ at most in how long the engine and keep-alive wait, in the
/// mode and in the switches: the lists and the ignored apps are the same.
pub open spec fn same_lists(a: ConfigView, b: ConfigView) -> bool {
    &&& a.apps == b.apps
    &&& a.keep_alive_apps == b.keep_alive_apps
    &&& a.keep_alive_ignored_until == b.keep_alive_ignored_until
}

proof fn quit_choice_is_in_range(i: int)
    requires
        0 <= i < quit_delay_table().len(),
    ensures
        quit_delay_table()[i].0.finite(),
        magnitude(0x3FA9_9999_9999_999A) <= quit_delay_table()[i].0.units() <= magnitude(
            0x4024_0000_0000_0000,
        ),
{
    let bits = quit_delay_table()[i].0.bits as int;
    assert(i == 0 || i == 1 || i == 2 || i == 3 || i == 4 || i == 5 || i == 6);
    pattern_order_is_value_order(bits, 0x3FA9_9999_9999_999A);
    pattern_order_is_value_order(0x4024_0000_0000_0000, bits);
}

proof fn restart_choice_is_in_range(i: int)
    requires
        0 <= i < restart_delay_table().len(),
    ensures
        restart_delay_table()[i].0.finite(),
        magnitude(0x3FF0_0000_0000_0000) <= restart_delay_table()[i].0.units() <= magnitude(
            0x404E_0000_0000_0000,
        ),
{
    let bits = restart_delay_table()[i].0.bits as int;
    assert(i == 0 || i == 1 || i == 2 || i == 3);
    pattern_order_is_value_order(bits, 0x3FF0_0000_0000_0000);
    pattern_order_is_value_order(0x404E_0000_0000_0000, bits);
}

/// A quit delay that is picked in its list and saved is the one that the window
/// shows afterwards, and nothing else of the settings has changed. A pick that is
/// not in the list changes nothing.
pub proof fn a_picked_quit_delay_is_shown(config: ConfigView, index: usize, autostart: bool)
    ensures
        index >= quit_delay_table().len() ==> changed(config, Change::QuitDelay(index)) is None,
        index < quit_delay_table().len() ==> {
            let before = normal_settings(config);
            let after = normal_settings(changed(config, Change::QuitDelay(index))->0);
            &&& changed(config, Change::QuitDelay(index)) is Some
            &&& controls_for(after, autostart).delay_index == index
            &&& after.quit_delay_secs == quit_delay_table()[index as int].0
            &&& after.mode == before.mode
            &&& after.enabled == before.enabled
            &&& after.keep_alive_enabled == before.keep_alive_enabled
            &&& after.keep_alive_delay_secs == before.keep_alive_delay_secs
            &&& after.keep_alive_loop_protection == before.keep_alive_loop_protection
            &&& after.keep_alive_auto_start_missing == before.keep_alive_auto_start_missing
            &&& same_lists(after, before)
        },
{
    if index < quit_delay_table().len() {
        quit_choice_is_in_range(index as int);
        picked_delays_are_shown(index as int);
    }
}

/// A restart delay that is picked in its list and saved is the one that the window
/// shows afterwards, and nothing else of the settings has changed. A pick that is
/// not in the list changes nothing.
pub proof fn a_picked_restart_delay_is_shown(config: ConfigView, index: usize, autostart: bool)
    ensures
        index >= restart_delay_table().len() ==> changed(
            config,
            Change::RestartDelay(index),
        ) is None,
        index < restart_delay_table().len() ==> {
            let before = normal_settings(config);
            let after = normal_settings(changed(config, Change::RestartDelay(index))->0);
            &&& changed(config, Change::RestartDelay(index)) is Some
            &&& controls_for(after, autostart).restart_delay_index == index
            &&& after.keep_alive_delay_secs == restart_delay_table()[index as int].0
            &&& after.mode == before.mode
            &&& after.quit_delay_secs == before.quit_delay_secs
            &&& after.enabled == before.enabled
            &&& after.keep_alive_enabled == before.keep_alive_enabled
            &&& after.keep_alive_loop_protection == before.keep_alive_loop_protection
            &&& after.keep_alive_auto_start_missing == before.keep_alive_auto_start_missing
            &&& same_lists(after, before)
        },
{
    if index < restart_delay_table().len() {
        restart_choice_is_in_range(index as int);
        picked_delays_are_shown(index as int);
    }
}

/// A switch that is set and saved shows that, and changes nothing else.
pub proof fn a_set_switch_is_shown(config: ConfigView, change: Change, autostart: bool)
    requires
        change is Enabled || change is KeepAliveEnabled || change is AutoStartMissing
            || change is LoopProtection,
    ensures
        changed(config, change) is Some,
        ({
            let before = normal_settings(config);
            let after = normal_settings(changed(config, change)->0);
            let shown = controls_for(after, autostart);
            &&& shown.enabled == match change {
                Change::Enabled(on) => on,
                _ => config.enabled,
            }
            &&& shown.keep_alive == match change {
                Change::KeepAliveEnabled(on) => on,
                _ => config.keep_alive_enabled,
            }
            &&& shown.auto_start_missing == match change {
                Change::AutoStartMissing(on) => on,
                _ => config.keep_alive_auto_start_missing,
            }
            &&& shown.loop_protection == match change {
                Change::LoopProtection(on) => on,
                _ => config.keep_alive_loop_protection,
            }
            &&& after.enabled == shown.enabled
            &&& after.keep_alive_enabled == shown.keep_alive
            &&& after.keep_alive_auto_start_missing == shown.auto_start_missing
            &&& after.keep_alive_loop_protection == shown.loop_protection
            &&& after.mode == before.mode
            &&& after.quit_delay_secs == before.quit_delay_secs
            &&& after.keep_alive_delay_secs == before.keep_alive_delay_secs
            &&& same_lists(after, before)
        }),
{
}

/// The radio button that is picked is the one that is on afterwards, the other is
/// off, and nothing else of the settings has changed.
pub proof fn a_picked_mode_is_shown(config: ConfigView, tag: i64, autostart: bool)
    ensures
        changed(config, Change::Mode(tag)) is Some,
        ({
            let before = normal_settings(config);
            let after = normal_settings(changed(config, Change::Mode(tag))->0);
            let shown = controls_for(after, autostart);
            &&& shown.blacklist <==> tag == 1
            &&& shown.whitelist <==> tag != 1
            &&& after.mode == FilterMode::Blacklist <==> tag == 1
            &&& shown.column_title == if tag == 1 {
                "Protect"@
            } else {
                "Quit"@
            }
            &&& after.quit_delay_secs == before.quit_delay_secs
            &&& after.enabled == before.enabled
            &&& after.keep_alive_enabled == before.keep_alive_enabled
            &&& after.keep_alive_delay_secs == before.keep_alive_delay_secs
            &&& after.keep_alive_loop_protection == before.keep_alive_loop_protection
            &&& after.keep_alive_auto_start_missing == before.keep_alive_auto_start_missing
            &&& same_lists(after, before)
        }),
{
}

/// The controls show the settings as they are, and whether RustQuit starts at
/// login as it was found out.
pub proof fn the_controls_show_the_settings(config: ConfigView, autostart: bool)
    ensures
        ({
            let shown = controls_for(config, autostart);
            &&& shown.whitelist == (config.mode == FilterMode::Whitelist)
            &&& shown.blacklist == !shown.whitelist
            &&& shown.autostart == autostart
            &&& shown.enabled == config.enabled
            &&& shown.keep_alive == config.keep_alive_enabled
            &&& shown.auto_start_missing == config.keep_alive_auto_start_missing
            &&& shown.loop_protection == config.keep_alive_loop_protection
        }),
{
}

/// The delay that is shown is one of the list that is within the tolerance of
/// 0.01 s of the stored one, if there is such a one, and else the default choice,
/// 2 s for quitting and 10 s for restarting.
pub proof fn the_nearest_delay_is_shown(config: ConfigView, autostart: bool, i: int)
    ensures
        ({
            let shown = controls_for(config, autostart);
            let (quit, restart) = (shown.delay_index, shown.restart_delay_index);
            &&& 0 <= quit < quit_delay_table().len()
            &&& 0 <= restart < restart_delay_table().len()
            &&& 0 <= i < quit_delay_table().len() && close_to(
                config.quit_delay_secs,
                quit_delay_table()[i].0,
            ) ==> quit <= i && close_to(config.quit_delay_secs, quit_delay_table()[quit].0)
            &&& 0 <= i < restart_delay_table().len() && close_to(
                config.keep_alive_delay_secs,
                restart_delay_table()[i].0,
            ) ==> restart <= i && close_to(
                config.keep_alive_delay_secs,
                restart_delay_table()[restart].0,
            )
            &&& !close_to(config.quit_delay_secs, quit_delay_table()[quit].0)
                ==> quit_delay_table()[quit].0.bits == 0x4000_0000_0000_0000
            &&& !close_to(config.keep_alive_delay_secs, restart_delay_table()[restart].0)
                ==> restart_delay_table()[restart].0.bits == 0x4024_0000_0000_0000
        }),
{
    first_of_the_close(quit_delay_table(), config.quit_delay_secs, i);
    first_of_the_close(restart_delay_table(), config.keep_alive_delay_secs, i);
}

proof fn first_of_the_close(table: Seq<(Double, Seq<char>)>, delay: Double, i: int)
    ensures
        0 <= i < table.len() && close_to(delay, table[i].0) ==> exists|k: int|
            k <= i && #[trigger] first_choice(table, delay, k),
        forall|k: int, l: int| #[trigger]
            first_choice(table, delay, k) && #[trigger] first_choice(table, delay, l) ==> k == l,
    decreases i,
{
    if 0 <= i < table.len() && close_to(delay, table[i].0) {
        if exists|j: int| 0 <= j < i && close_to(delay, #[trigger] table[j].0) {
            let j = choose|j: int| 0 <= j < i && close_to(delay, #[trigger] table[j].0);
            first_of_the_close(table, delay, j);
        } else {
            assert(first_choice(table, delay, i));
        }
    }
}

/// Two delays are close to each other if they are less than 0.01 s apart, in
/// whichever order they are compared. What is no number is close to nothing.
pub proof fn closeness_is_mutual(a: Double, b: Double)
    ensures
        close_to(a, b) == close_to(b, a),
        close_to(a, b) ==> a.finite() && b.finite(),
        a.finite() && b.finite() ==> (close_to(a, b) <==> -magnitude(0x3F84_7AE1_47AE_147B)
            < a.units() - b.units() < magnitude(0x3F84_7AE1_47AE_147B)),
{
}

/// What is to be done after a change: the controls are set back if it could not be
/// stored; the menu bar follows its two switches; and missing apps are looked for
/// once that was switched on.
pub proof fn what_follows_a_change(change: Change, stored: bool)
    ensures
        follow_up(change, stored).sync_controls <==> !stored || change is Mode,
        follow_up(change, stored).notify_tray <==> change is Enabled || change is KeepAliveEnabled,
        follow_up(change, stored).reconcile <==> stored && change == Change::AutoStartMissing(true),
{
}

/// Settings are made safe by changing only what is not: the mode, the switches and
/// the ignored apps stay as they are, a delay does if it is in its range, and is
/// set to the nearer end of it if not; what is no delay at all becomes the default
/// of 2 s or 10 s. The ranges are 0.05 s to 10 s for quitting and 1 s to 60 s for
/// restarting.
pub proof fn only_what_is_unsafe_is_changed(config: ConfigView)
    ensures
        ({
            let normal = normal_settings(config);
            let (quit, restart) = (config.quit_delay_secs, config.keep_alive_delay_secs);
            &&& normal.mode == config.mode
            &&& normal.enabled == config.enabled
            &&& normal.keep_alive_enabled == config.keep_alive_enabled
            &&& normal.keep_alive_loop_protection == config.keep_alive_loop_protection
            &&& normal.keep_alive_auto_start_missing == config.keep_alive_auto_start_missing
            &&& normal.keep_alive_ignored_until == config.keep_alive_ignored_until
            &&& quit.finite() && magnitude(0x3FA9_9999_9999_999A) <= quit.units() <= magnitude(
                0x4024_0000_0000_0000,
            ) ==> normal.quit_delay_secs == quit
            &&& quit.finite() && quit.units() < magnitude(0x3FA9_9999_9999_999A)
                ==> normal.quit_delay_secs.bits == 0x3FA9_9999_9999_999A
            &&& quit.finite() && quit.units() > magnitude(0x4024_0000_0000_0000)
                ==> normal.quit_delay_secs.bits == 0x4024_0000_0000_0000
            &&& !quit.finite() ==> normal.quit_delay_secs.bits == 0x4000_0000_0000_0000
            &&& restart.finite() && magnitude(0x3FF0_0000_0000_0000) <= restart.units()
                <= magnitude(0x404E_0000_0000_0000) ==> normal.keep_alive_delay_secs == restart
            &&& restart.finite() && restart.units() < magnitude(0x3FF0_0000_0000_0000)
                ==> normal.keep_alive_delay_secs.bits == 0x3FF0_0000_0000_0000
            &&& restart.finite() && restart.units() > magnitude(0x404E_0000_0000_0000)
                ==> normal.keep_alive_delay_secs.bits == 0x404E_0000_0000_0000
            &&& !restart.finite() ==> normal.keep_alive_delay_secs.bits == 0x4024_0000_0000_0000
        }),
{
    pattern_order_is_value_order(0x3FA9_9999_9999_999A, 0x4000_0000_0000_0000);
    pattern_order_is_value_order(0x4000_0000_0000_0000, 0x4024_0000_0000_0000);
    pattern_order_is_value_order(0x3FA9_9999_9999_999A, 0x4024_0000_0000_0000);
    pattern_order_is_value_order(0x3FF0_0000_0000_0000, 0x4024_0000_0000_0000);
    pattern_order_is_value_order(0x4024_0000_0000_0000, 0x404E_0000_0000_0000);
    pattern_order_is_value_order(0x3FF0_0000_0000_0000, 0x404E_0000_0000_0000);
}

/// Which apps are on the lists of safe settings, as long as they are not too long:
/// every app that is kept under a valid ID is kept; every app that is listed under
/// a valid ID and not kept is listed.
pub proof fn every_valid_app_stays_listed(config: ConfigView, id: Seq<char>)
    requires
        sorted_ids(config.apps).len() <= 4096,
        sorted_ids(config.keep_alive_apps).len() <= 4096,
    ensures
        ({
            let normal = normal_settings(config);
            let kept = exists|i: int|
                0 <= i < config.keep_alive_apps.len() && valid_id(
                    #[trigger] config.keep_alive_apps[i],
                ) && same_text(config.keep_alive_apps[i], id);
            let listed = exists|i: int|
                0 <= i < config.apps.len() && valid_id(#[trigger] config.apps[i]) && same_text(
                    config.apps[i],
                    id,
                );
            &&& names(normal.keep_alive_apps, id) <==> kept
            &&& names(normal.apps, id) <==> listed && !kept
        }),
{
    stored_form_names_every_valid_id(config.apps, id);
    stored_form_names_every_valid_id(config.keep_alive_apps, id);
    without_all_names_the_rest(
        stored_form(config.apps),
        stored_form(config.keep_alive_apps),
        id,
    );
}

/// Toggling a box changes no other app's boxes, as long as the lists are not too
/// long, except that nothing but valid IDs is stored; and it changes no other
/// setting.
pub proof fn toggling_changes_one_app(
    config: ConfigView,
    id: Seq<char>,
    listed: bool,
    other: Seq<char>,
)
    requires
        !same_text(id, other),
        normal_settings(config) == config,
        sorted_ids(relisted(config.apps, id, listed)).len() <= 4096,
        sorted_ids(relisted(config.keep_alive_apps, id, listed)).len() <= 4096,
    ensures
        ({
            let quit = normal_settings(with_apps(config, relisted(config.apps, id, listed)));
            let keep = normal_settings(
                with_keep_alive_apps(config, relisted(config.keep_alive_apps, id, listed)),
            );
            &&& names(quit.apps, other) == names(config.apps, other)
            &&& quit.keep_alive_apps == config.keep_alive_apps
            &&& names(keep.keep_alive_apps, other) == names(config.keep_alive_apps, other)
            &&& names(keep.apps, other) == names(config.apps, other)
            &&& quit == (ConfigView { apps: quit.apps, ..config })
            &&& keep == (ConfigView {
                apps: keep.apps,
                keep_alive_apps: keep.keep_alive_apps,
                ..config
            })
        }),
{
    let kept = config.keep_alive_apps;
    crate::config::normal_settings_are_safe_and_stable(config, other);
    assert(stored_form(kept) == kept);
    assert(without_all(stored_form(config.apps), kept) == config.apps);
    relisting_changes_one_app(config.apps, id, listed, other);
    relisting_changes_one_app(kept, id, listed, other);
    stored_names(relisted(config.apps, id, listed), other);
    stored_names(relisted(kept, id, listed), other);
    relisted_validity(config.apps, id, listed, other);
    relisted_validity(kept, id, listed, other);
    without_all_names_the_rest(stored_form(relisted(config.apps, id, listed)), kept, other);
    without_all_names_the_rest(
        stored_form(config.apps),
        stored_form(relisted(kept, id, listed)),
        other,
    );
    without_all_names_the_rest(stored_form(config.apps), kept, other);
}

/// Whether a list names an app under a valid ID.
spec fn validly_names(list: Seq<Seq<char>>, id: Seq<char>) -> bool {
    exists|i: int| 0 <= i < list.len() && valid_id(#[trigger] list[i]) && same_text(list[i], id)
}

proof fn stored_names(list: Seq<Seq<char>>, id: Seq<char>)
    requires
        sorted_ids(list).len() <= 4096,
    ensures
        names(stored_form(list), id) == validly_names(list, id),
{
    stored_form_names_every_valid_id(list, id);
}

proof fn relisted_validity(list: Seq<Seq<char>>, id: Seq<char>, listed: bool, other: Seq<char>)
    requires
        !same_text(id, other),
        forall|i: int| 0 <= i < list.len() ==> valid_id(#[trigger] list[i]),
    ensures
        validly_names(relisted(list, id, listed), other) == names(list, other),
{
    let after = relisted(list, id, listed);
    let others = |entry: Seq<char>| !same_text(entry, id);
    if names(list, other) {
        let i = choose|i: int| 0 <= i < list.len() && same_text(#[trigger] list[i], other);
        if after == list {
            assert(valid_id(list[i]));
        } else if listed {
            assert(after[i] == list[i] && valid_id(list[i]));
        } else {
            assert(others(list[i]));
            list.lemma_filter_contains(others, i);
            let k = choose|k: int| 0 <= k < after.len() && after[k] == list[i];
            assert(valid_id(after[k]) && same_text(after[k], other));
        }
    }
    if validly_names(after, other) {
        let k = choose|k: int|
            0 <= k < after.len() && valid_id(#[trigger] after[k]) && same_text(after[k], other);
        if after != list && !listed {
            list.lemma_filter_contains_rev(others, after[k]);
            let i = choose|i: int| 0 <= i < list.len() && list[i] == after[k];
            assert(same_text(list[i], other));
        } else {
            assert(same_text(list[k], other));
        }
    }
}

/// A change that cannot be saved leaves the settings as they were, and one that
/// can is in force as it was saved. Settings that can be read are in force once
/// they are made safe, and else the defaults are. A file is read if it is a
/// regular one of at most a mebibyte.
pub proof fn settings_are_saved_or_kept<E, S: FnOnce(&Config) -> Result<(), E>>(
    before: ConfigView,
    changed: ConfigView,
    save: S,
    r: Result<(), E>,
    after: ConfigView,
    parsed: Config,
    file: FileFacts,
)
    requires
        saved_or_kept(before, changed, save, r, after),
    ensures
        r is Err ==> after == before,
        r is Ok ==> after == normal_settings(changed),
        exists|saved: &Config| #[trigger]
            save.ensures((saved,), r) && saved@ == normal_settings(changed),
        loaded_settings(Some(parsed)) == normal_settings(parsed@),
        loaded_settings(None) == default_settings(),
        safe_file(Some(file)) <==> file.regular && file.len <= 1_048_576,
        !safe_file(None),
{
}

/// What a toggled box or a closed window does to the window: with the filter for
/// selected apps, only what is shown is found anew; without it nothing changes.
/// A closed window is as a new one, except that it still knows its way to
/// keep-alive.
pub proof fn what_the_window_keeps<K>(window: SettingsView<K>, config: ConfigView)
    ensures
        !window.only_selected ==> after_toggle(window, config) == window,
        window.only_selected ==> after_toggle(window, config) == refiltered(window, config),
        refiltered(window, config).entries == filtered(
            window.all_entries,
            config,
            window.query,
            window.only_selected,
        ),
        refiltered(window, config).all_entries == window.all_entries,
        refiltered(window, config).query == window.query,
        refiltered(window, config).only_selected == window.only_selected,
        refiltered(window, config).scanning == window.scanning,
        refiltered(window, config).keep_alive == window.keep_alive,
        closed_window(window).entries.len() == 0,
        closed_window(window).all_entries.len() == 0,
        closed_window(window).query.len() == 0,
        !closed_window(window).only_selected,
        !closed_window(window).scanning,
        closed_window(window).keep_alive == window.keep_alive,
{
}

/// The delays that can be picked ascend. Those for quitting go from the shortest
/// that is allowed to the longest, those for restarting up to the longest, and the
/// default is one of them, in both lists.
pub proof fn the_delays_to_pick_ascend(i: int, j: int, autostart: bool)
    ensures
        0 <= i < j < quit_delay_table().len() ==> quit_delay_table()[i].0.units()
            < quit_delay_table()[j].0.units(),
        0 <= i < j < restart_delay_table().len() ==> restart_delay_table()[i].0.units()
            < restart_delay_table()[j].0.units(),
        quit_delay_table().len() == 7,
        quit_delay_table()[0].0.bits == 0x3FA9_9999_9999_999A,
        quit_delay_table()[6].0.bits == 0x4024_0000_0000_0000,
        restart_delay_table().len() == 4,
        restart_delay_table()[0].0.bits == 0x4014_0000_0000_0000,
        restart_delay_table()[3].0.bits == 0x404E_0000_0000_0000,
        default_settings().quit_delay_secs == quit_delay_table()[controls_for(
            default_settings(),
            autostart,
        ).delay_index].0,
        default_settings().keep_alive_delay_secs == restart_delay_table()[controls_for(
            default_settings(),
            autostart,
        ).restart_delay_index].0,
{
    if 0 <= i < j < quit_delay_table().len() {
        assert(i == 0 || i == 1 || i == 2 || i == 3 || i == 4 || i == 5);
        assert(j == 1 || j == 2 || j == 3 || j == 4 || j == 5 || j == 6);
        pattern_order_is_value_order(
            quit_delay_table()[i].0.bits as int,
            quit_delay_table()[j].0.bits as int,
        );
    }
    if 0 <= i < j < restart_delay_table().len() {
        assert(i == 0 || i == 1 || i == 2);
        assert(j == 1 || j == 2 || j == 3);
        pattern_order_is_value_order(
            restart_delay_table()[i].0.bits as int,
            restart_delay_table()[j].0.bits as int,
        );
    }
    picked_delays_are_shown(3);
    picked_delays_are_shown(1);
    assert(quit_delay_table()[3].0 == default_settings().quit_delay_secs);
    assert(restart_delay_table()[1].0 == default_settings().keep_alive_delay_secs);
}

/// The lists of safe settings hold entries as they were given, in dictionary order:
/// those of kept apps, and those of listed apps without the kept ones.
pub proof fn listed_apps_are_spelled_as_given(config: ConfigView, i: int, j: int)
    ensures
        ({
            let normal = normal_settings(config);
            &&& normal.keep_alive_apps == stored_form(config.keep_alive_apps)
            &&& 0 <= i < normal.apps.len() ==> config.apps.contains(normal.apps[i]) && stored_form(
                config.apps,
            ).contains(normal.apps[i])
            &&& 0 <= i < normal.keep_alive_apps.len() ==> config.keep_alive_apps.contains(
                normal.keep_alive_apps[i],
            )
            &&& 0 <= i < j < normal.apps.len() ==> before(
                lower(normal.apps[i]),
                lower(normal.apps[j]),
            )
            &&& 0 <= i < j < normal.keep_alive_apps.len() ==> before(
                lower(normal.keep_alive_apps[i]),
                lower(normal.keep_alive_apps[j]),
            )
        }),
{
    let normal = normal_settings(config);
    let (listed, kept) = (stored_form(config.apps), stored_form(config.keep_alive_apps));
    crate::config::normal_settings_are_safe_and_stable(config, Seq::empty());
    if 0 <= i < normal.apps.len() {
        let others = |entry: Seq<char>| !names(kept, entry);
        listed.lemma_filter_contains_rev(others, normal.apps[i]);
        let at = choose|at: int| 0 <= at < listed.len() && listed[at] == normal.apps[i];
        let given = crate::laws::ids::stored_ids_are_spelled_as_given(config.apps, at);
        assert(config.apps[given] == normal.apps[i]);
    }
    if 0 <= i < kept.len() {
        let given = crate::laws::ids::stored_ids_are_spelled_as_given(config.keep_alive_apps, i);
        assert(config.keep_alive_apps[given] == kept[i]);
    }
    if 0 <= i < j < kept.len() {
        crate::laws::ids::stored_ids_are_in_dictionary_order(config.keep_alive_apps, i, j);
    }
    if 0 <= i < j < normal.apps.len() {
        crate::bundle_ids::stored_form_is_sorted_valid_and_stable(config.apps);
        crate::bundle_ids::without_all_stays_stored(listed, kept);
        assert(stored_form(normal.apps) == normal.apps);
        crate::laws::ids::stored_ids_are_in_dictionary_order(normal.apps, i, j);
    }
}

/// The delays are offered under their number of seconds, or as a minute.
pub proof fn the_delays_are_named_after_their_length()
    ensures
        quit_delay_table()[0].1 == "0.05 seconds"@,
        quit_delay_table()[1] == (Double { bits: 0x3FE0_0000_0000_0000 }, "0.5 seconds"@),
        quit_delay_table()[2] == (Double { bits: 0x3FF0_0000_0000_0000 }, "1 second"@),
        quit_delay_table()[3] == (Double { bits: 0x4000_0000_0000_0000 }, "2 seconds"@),
        quit_delay_table()[4] == (Double { bits: 0x4008_0000_0000_0000 }, "3 seconds"@),
        quit_delay_table()[5] == (Double { bits: 0x4014_0000_0000_0000 }, "5 seconds"@),
        quit_delay_table()[6].1 == "10 seconds"@,
        restart_delay_table()[0].1 == "5 seconds"@,
        restart_delay_table()[1] == (Double { bits: 0x4024_0000_0000_0000 }, "10 seconds"@),
        restart_delay_table()[2] == (Double { bits: 0x403E_0000_0000_0000 }, "30 seconds"@),
        restart_delay_table()[3].1 == "1 minute"@,
{
}

/// The explanation of the list starts with the title of its first column, and then
/// goes on differently in each mode.
pub proof fn the_hint_explains_the_column(config: ConfigView, autostart: bool)
    ensures
        ({
            let shown = controls_for(config, autostart);
            (shown.column_title + ": "@).is_prefix_of(shown.hint)
        }),
{
    reveal_strlit("Quit");
    reveal_strlit("Protect");
    reveal_strlit(": ");
    reveal_strlit("Quit: close the app once its last window is closed. Keep: relaunch the app whenever it quits. An app can only use one of the two.");
    reveal_strlit("Protect: never quit this app; all unchecked apps are closed once their last window closes. Keep: additionally relaunch the app whenever it quits. An app can only use one of the two.");
    let shown = controls_for(config, autostart);
    let start = shown.column_title + ": "@;
    assert(shown.hint.subrange(0, start.len() as int) =~= start);
}

} // verus!
