//! What the values of the library stand for: laws on how they are read.
use std::collections::HashSet;

use vstd::prelude::*;

use crate::app_list::{entry_views, opt_entries, opt_entry, AppEntry, EntryView};
use crate::bundle_ids::names;
use crate::config::{Config, ConfigView};
use crate::engine::counter::{answers_fit, fate, ids_of, AxWindow, WindowFate};
use crate::engine::recent::{quit_moment, RecentQuit, RecentsView};
use crate::keepalive::{
    age_told, exits_view, has_timer, loop_paused, restarts_of, IgnoreTimer, KeepAliveView,
    LaunchFacts,
};
use crate::paths::pieces_view;
use crate::procexit::ProcExitWatcher;
use crate::running::{known_views, KnownApp};
use crate::settings_window::{cell_for, Cell, CellView, Controls};
use crate::suite::{running_views, RunningApp};
use crate::text::{opt_str, opt_text, texts};
use crate::tray::{ages_told, menu_views, recent_views, MenuItem, RecentItem};

verus! {

/// A list is read item by item, in its order.
pub proof fn lists_are_read_item_by_item(
    names: Seq<String>,
    pieces: Seq<Vec<char>>,
    entries: Seq<AppEntry>,
    found: Seq<Option<AppEntry>>,
    known: Seq<KnownApp>,
    running: Seq<RunningApp>,
    menu: Seq<MenuItem>,
    recent: Seq<RecentItem>,
    i: int,
)
    ensures
        texts(names).len() == names.len(),
        0 <= i < names.len() ==> texts(names)[i] == names[i]@,
        pieces_view(pieces).len() == pieces.len(),
        0 <= i < pieces.len() ==> pieces_view(pieces)[i] == pieces[i]@,
        entry_views(entries).len() == entries.len(),
        0 <= i < entries.len() ==> entry_views(entries)[i] == entries[i]@,
        opt_entries(found).len() == found.len(),
        0 <= i < found.len() ==> opt_entries(found)[i] is Some == found[i] is Some,
        0 <= i < found.len() && found[i] is Some ==> opt_entries(found)[i]->0 == found[i]->0@,
        known_views(known).len() == known.len(),
        0 <= i < known.len() ==> known_views(known)[i] == known[i]@,
        running_views(running).len() == running.len(),
        0 <= i < running.len() ==> running_views(running)[i] == running[i]@,
        menu_views(menu).len() == menu.len(),
        0 <= i < menu.len() ==> menu_views(menu)[i] == menu[i]@,
        recent_views(recent).len() == recent.len(),
        0 <= i < recent.len() ==> recent_views(recent)[i] == recent[i]@,
{
}

/// What may be missing is read as it is, or as missing.
pub proof fn what_may_be_missing_is_read(
    text: String,
    part: &str,
    entry: AppEntry,
    exits: ProcExitWatcher,
    ids: HashSet<u32>,
)
    ensures
        opt_text(Some(text)) == Some(text@),
        opt_text(None) is None,
        opt_str(Some(part)) == Some(part@),
        opt_str(None) is None,
        opt_entry(Some(entry)) == Some(entry@),
        opt_entry(None) is None,
        exits_view(Some(exits)) == Some(exits@),
        exits_view(None) is None,
        ids_of(Some(ids)) == Some(ids@),
        ids_of(None) is None,
{
}

/// Settings are read setting by setting.
pub proof fn settings_are_read_as_stored(config: Config)
    ensures
        config@.mode == config.mode,
        config@.quit_delay_secs == config.quit_delay_secs,
        config@.enabled == config.enabled,
        config@.apps == texts(config.apps@),
        config@.keep_alive_enabled == config.keep_alive_enabled,
        config@.keep_alive_delay_secs == config.keep_alive_delay_secs,
        config@.keep_alive_loop_protection == config.keep_alive_loop_protection,
        config@.keep_alive_apps == texts(config.keep_alive_apps@),
        config@.keep_alive_auto_start_missing == config.keep_alive_auto_start_missing,
        config@.keep_alive_ignored_until == config.keep_alive_ignored_until@,
{
}

/// What is known of apps and shown of them is read field by field.
pub proof fn apps_are_read_as_known(
    entry: AppEntry,
    known: KnownApp,
    running: RunningApp,
    launch: LaunchFacts,
    facts: crate::engine::policy::AppFacts,
    controls: Controls,
    cell: Cell,
    item: MenuItem,
)
    ensures
        entry@.bundle_id == entry.bundle_id@,
        entry@.name == entry.name@,
        entry@.icon_path == opt_text(entry.icon_path),
        known@.pid == known.pid,
        known@.bundle_id == known.bundle_id@,
        known@.name == known.name@,
        known@.menu_bar == known.menu_bar,
        running@.regular == running.regular,
        running@.path == opt_text(running.path),
        running@.bundle_id == opt_text(running.bundle_id),
        launch@.running == launch.running,
        launch@.path == opt_text(launch.path),
        launch@.apps == running_views(launch.apps@),
        facts@.regular == facts.regular,
        facts@.path == opt_text(facts.path),
        facts@.resolved_path == opt_text(facts.resolved_path),
        facts@.bundle_id == opt_text(facts.bundle_id),
        facts@.hidden == facts.hidden,
        facts@.terminated == facts.terminated,
        facts@.finished_launching == facts.finished_launching,
        controls@.whitelist == controls.whitelist,
        controls@.blacklist == controls.blacklist,
        controls@.delay_index == controls.delay_index,
        controls@.autostart == controls.autostart,
        controls@.enabled == controls.enabled,
        controls@.keep_alive == controls.keep_alive,
        controls@.auto_start_missing == controls.auto_start_missing,
        controls@.loop_protection == controls.loop_protection,
        controls@.restart_delay_index == controls.restart_delay_index,
        controls@.column_title == controls.column_title@,
        controls@.hint == controls.hint@,
        item@.title == item.title@,
        item@.action == item.action,
        item@.key == item.key@,
        item@.checked == item.checked,
        item@.hidden == item.hidden,
        cell@ is Quit <==> cell is Quit,
        cell@ is Keep <==> cell is Keep,
        cell is Quit ==> cell@->Quit_checked == cell->Quit_checked && cell@->Quit_enabled
            == cell->Quit_enabled,
        cell is Keep ==> cell@->Keep_checked == cell->Keep_checked && cell@->Keep_enabled
            == cell->Keep_enabled,
{
}

/// A row of the list shows in its first two columns whether the app is on each of
/// the two lists, and lets either be changed unless the app is on the other; any
/// other column shows the app.
pub proof fn what_a_row_shows(entry: EntryView, config: ConfigView, column: Seq<char>)
    ensures
        cell_for(entry, config, "quit"@) == (CellView::Quit {
            checked: names(config.apps, entry.bundle_id),
            enabled: !names(config.keep_alive_apps, entry.bundle_id),
        }),
        cell_for(entry, config, "keep"@) == (CellView::Keep {
            checked: names(config.keep_alive_apps, entry.bundle_id),
            enabled: !names(config.apps, entry.bundle_id),
        }),
        column != "quit"@ && column != "keep"@ ==> cell_for(entry, config, column) == (
        CellView::App {
            name: entry.name,
            icon_path: entry.icon_path,
            tooltip: entry.bundle_id,
        }),
{
    reveal_strlit("quit");
    reveal_strlit("keep");
    assert("quit"@[0] != "keep"@[0]);
}

/// At first keep-alive remembers no restart and pauses for no app.
pub proof fn nothing_is_remembered_at_first(bundle_id: Seq<char>, now: u64)
    ensures
        ({
            let fresh = KeepAliveView { restarts: Map::empty(), paused_since: Map::empty() };
            restarts_of(fresh, bundle_id).len() == 0 && !loop_paused(fresh, bundle_id, now)
        }),
{
}

/// The age of an entry is told for that entry, and how long ago an app was quit
/// for that app; where it was not, there is no such age.
pub proof fn ages_are_told_for_their_own_moment(
    entries: Seq<RecentQuit>,
    ages: Seq<u128>,
    i: int,
    recents: RecentsView,
    bundle_id: Seq<char>,
    age: Option<u128>,
)
    requires
        ages_told(entries, ages),
        0 <= i < entries.len(),
        age_told(recents, bundle_id, age),
    ensures
        ages.len() == entries.len(),
        crate::clock::told_since(entries[i].when, ages[i]),
        age is Some <==> quit_moment(recents, bundle_id) is Some,
        age is Some ==> crate::clock::told_since(quit_moment(recents, bundle_id)->0, age->0),
{
}

/// A timer stands for an ID if one in the list bears it.
pub proof fn a_timer_stands_for_its_app(timers: Seq<IgnoreTimer>, timer: IgnoreTimer, key: Seq<char>)
    ensures
        !has_timer(Seq::empty(), key),
        has_timer(timers.push(timer), key) <==> has_timer(timers, key) || timer.bundle_id@ == key,
{
    let longer = timers.push(timer);
    assert(longer[timers.len() as int] == timer);
    if has_timer(timers, key) {
        let i = choose|i: int| 0 <= i < timers.len() && (#[trigger] timers[i]).bundle_id@ == key;
        assert(longer[i] == timers[i]);
    }
    if has_timer(longer, key) {
        let i = choose|i: int| 0 <= i < longer.len() && (#[trigger] longer[i]).bundle_id@ == key;
        if i < timers.len() {
            assert(timers[i] == longer[i]);
        }
    }
}

/// A window that counts as ordered out is one of which the system said, when it
/// was asked about that window, that it is on the current Space, and which is not
/// among the visible ones that it listed. A standard window that is not minimized
/// counts as ordered out whenever the system is sure to say so.
pub proof fn ordered_out_windows_were_asked_about<L, S>(
    windows: Seq<AxWindow>,
    onscreen_window_ids: L,
    on_current_space: S,
    ids: Option<HashSet<u32>>,
    spaces: Seq<Option<bool>>,
    i: int,
) where L: FnOnce() -> Option<HashSet<u32>>, S: Fn(u32) -> Option<bool>
    requires
        answers_fit(windows, onscreen_window_ids, on_current_space, ids, spaces),
        0 <= i < windows.len(),
    ensures
        ({
            let window = windows[i];
            let out = fate(window, ids_of(ids), spaces[i]) == WindowFate::OrderedOut;
            &&& spaces.len() == windows.len()
            &&& out ==> {
                &&& window.window_id is Some
                &&& onscreen_window_ids.ensures((), ids)
                &&& ids is Some && !ids->0@.contains(window.window_id->0)
                &&& on_current_space.ensures((window.window_id->0,), Some(true))
            }
            &&& window.standard == Some(true) && window.minimized == Some(false)
                && window.window_id is Some && (forall|list: Option<HashSet<u32>>| #[trigger]
                onscreen_window_ids.ensures((), list) ==> list is Some && !list->0@.contains(
                    window.window_id->0,
                )) && (forall|answer: Option<bool>| #[trigger]
                on_current_space.ensures((window.window_id->0,), answer) ==> answer == Some(true))
                ==> out
        }),
{
}

} // verus!
