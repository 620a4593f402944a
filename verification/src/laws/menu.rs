//! The menu bar: laws on what the menus show and offer.
use vstd::prelude::*;

use crate::bundle_ids::names;
use crate::config::{normal_settings, ConfigView};
use crate::engine::recent::{age_text, whole_secs, RecentQuit};
use crate::keepalive::ignored_for;
use crate::text::decimal;
use crate::tray::{
    duration_text, enabled_toggled, items_for, items_for_all, keep_alive_toggled, keep_option,
    main_menu, recent_items, synced, KeepAction, MenuAction, RecentItemView, TrayTarget,
};

verus! {

/// The main menu shows the state: its two switches are checked as they are set,
/// nothing else is checked, and exactly the section on the missing permission, up
/// to its separator, is hidden once the permission is there. Every action is
/// offered once, in the same place.
pub proof fn the_menu_shows_the_state(tray: TrayTarget, i: int)
    requires
        0 <= i < main_menu(tray).len(),
    ensures
        main_menu(tray).len() == 9,
        main_menu(tray)[i].hidden <==> tray.permission_hidden && i < 3,
        main_menu(tray)[i].checked <==> (main_menu(tray)[i].action == MenuAction::ToggleEnabled
            && tray.enabled) || (main_menu(tray)[i].action == MenuAction::ToggleKeepAlive
            && tray.keep_alive),
        main_menu(tray)[i].action == MenuAction::OpenAccessibilitySettings <==> i == 1,
        main_menu(tray)[i].action == MenuAction::Separator <==> i == 2 || i == 7,
        main_menu(tray)[i].action == MenuAction::ToggleEnabled <==> i == 3,
        main_menu(tray)[i].action == MenuAction::ToggleKeepAlive <==> i == 4,
        main_menu(tray)[i].action == MenuAction::RecentlyQuit <==> i == 5,
        main_menu(tray)[i].action == MenuAction::OpenSettings <==> i == 6,
        main_menu(tray)[i].action == MenuAction::Quit <==> i == 8,
{
    assert(i == 0 || i == 1 || i == 2 || i == 3 || i == 4 || i == 5 || i == 6 || i == 7 || i == 8);
}

/// Each switch of the menu turns its own setting over and nothing else, twice
/// changes nothing, and the menu bar shows what is stored.
pub proof fn a_switch_turns_one_setting_over(config: ConfigView, tray: TrayTarget)
    ensures
        enabled_toggled(config) == (ConfigView { enabled: !config.enabled, ..config }),
        keep_alive_toggled(config) == (ConfigView {
            keep_alive_enabled: !config.keep_alive_enabled,
            ..config
        }),
        enabled_toggled(enabled_toggled(config)) == config,
        keep_alive_toggled(keep_alive_toggled(config)) == config,
        normal_settings(enabled_toggled(config)) == enabled_toggled(normal_settings(config)),
        normal_settings(keep_alive_toggled(config)) == keep_alive_toggled(normal_settings(config)),
        synced(tray, config).enabled == config.enabled,
        synced(tray, config).keep_alive == config.keep_alive_enabled,
        synced(tray, config).dimmed == !config.enabled,
        synced(tray, config).permission_hidden == tray.permission_hidden,
{
}

/// A time that is left is told in the fewest whole minutes that cover it, up to
/// 59, and from there on in the fewest whole hours.
pub proof fn times_left_are_rounded_up(secs: nat, count: nat)
    ensures
        count < 60 && 60 * count - 60 < secs <= 60 * count ==> duration_text(secs) == decimal(count)
            + "m"@,
        count > 0 && secs > 3540 && 3600 * count - 3600 < secs <= 3600 * count ==> duration_text(
            secs,
        ) == decimal(count) + "h"@,
{
    let minutes = (secs + 59) / 60;
    if count < 60 && 60 * count - 60 < secs <= 60 * count {
        assert(minutes == count);
    }
    if count > 0 && secs > 3540 && 3600 * count - 3600 < secs <= 3600 * count {
        assert(minutes >= 60);
        assert((minutes + 59) / 60 == count);
    }
}

/// What the menu offers for a recently ended app: always to reopen it, and for a
/// kept app, and no other, to ignore it while it is not ignored and to resume
/// keeping it while it is, with the time that is left. Every item is about that
/// app and bears its name.
pub proof fn what_is_offered_for_an_app(
    entry: RecentQuit,
    age: u128,
    config: ConfigView,
    unix_now: u64,
)
    ensures
        ({
            let items = items_for(entry, age, config, unix_now);
            let left = ignored_for(config, entry.bundle_id@, unix_now);
            &&& items.len() == if names(config.keep_alive_apps, entry.bundle_id@) {
                2nat
            } else {
                1nat
            }
            &&& items[0] is Reopen
            &&& items[0]->Reopen_bundle_id == entry.bundle_id@
            &&& items[0]->Reopen_title == entry.name@ + " — "@ + age_text(whole_secs(age))
            &&& items.len() == 2 ==> {
                &&& items[1] is KeepOptions
                &&& items[1]->KeepOptions_bundle_id == entry.bundle_id@
                &&& items[1]->KeepOptions_title == "Keep Options — "@ + entry.name@
                &&& items[1]->KeepOptions_action == KeepAction::Resume <==> left is Some
                &&& left is Some ==> items[1]->KeepOptions_label == "Resume Keep Now ("@
                    + duration_text(left->0 as nat) + " remaining)"@
                &&& left is None ==> items[1]->KeepOptions_label == "Ignore Keep for 24 Hours"@
            }
        }),
{
    assert(keep_option(config, entry.bundle_id@, unix_now).1 == KeepAction::Resume <==> ignored_for(
        config,
        entry.bundle_id@,
        unix_now,
    ) is Some);
}

/// The menu of recently ended apps goes through the entries in their order, each
/// with its own age, and without any entry it only says so.
pub proof fn the_recent_menu_follows_the_list(
    entries: Seq<RecentQuit>,
    ages: Seq<u128>,
    entry: RecentQuit,
    age: u128,
    config: ConfigView,
    unix_now: u64,
)
    requires
        ages.len() == entries.len(),
    ensures
        recent_items(entries.push(entry), ages.push(age), config, unix_now) == if entries.len()
            == 0 {
            items_for(entry, age, config, unix_now)
        } else {
            recent_items(entries, ages, config, unix_now) + items_for(entry, age, config, unix_now)
        },
        recent_items(Seq::empty(), ages, config, unix_now) == seq![
            RecentItemView::Empty { title: "No apps quit yet"@ },
        ],
{
    assert(entries.push(entry).drop_last() =~= entries);
    ages_beyond_do_not_matter(entries, ages, ages.push(age), config, unix_now);
    if entries.len() == 0 {
        assert(items_for_all(entries.push(entry), ages.push(age), config, unix_now) =~= items_for(
            entry,
            age,
            config,
            unix_now,
        ));
    }
}

proof fn ages_beyond_do_not_matter(
    entries: Seq<RecentQuit>,
    ages: Seq<u128>,
    longer: Seq<u128>,
    config: ConfigView,
    unix_now: u64,
)
    requires
        forall|i: int| 0 <= i < entries.len() ==> #[trigger] ages[i] == longer[i],
    ensures
        items_for_all(entries, ages, config, unix_now) == items_for_all(
            entries,
            longer,
            config,
            unix_now,
        ),
    decreases entries.len(),
{
    if entries.len() > 0 {
        assert(ages[entries.len() - 1] == longer[entries.len() - 1]);
        ages_beyond_do_not_matter(entries.drop_last(), ages, longer, config, unix_now);
    }
}

/// The items of the main menu are named after what they do, and two have a key.
pub proof fn the_menu_items_have_their_names(tray: TrayTarget)
    ensures
        main_menu(tray)[1].title == "Open System Settings…"@,
        main_menu(tray)[3].title == "Auto-Quit"@,
        main_menu(tray)[4].title == "Keep Running"@,
        main_menu(tray)[5].title == "Recently Quit"@,
        main_menu(tray)[6].title == "Settings…"@,
        main_menu(tray)[6].key == ","@,
        main_menu(tray)[8].title == "Quit RustQuit"@,
        main_menu(tray)[8].key == "q"@,
        forall|i: int| 0 <= i < 9 && i != 6 && i != 8 ==> #[trigger] main_menu(tray)[i].key == ""@,
{
}

} // verus!
