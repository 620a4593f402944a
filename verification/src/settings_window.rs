//! What the settings window shows, and what its controls do.
use vstd::prelude::*;

use crate::app_list::{
    collect_offered, entry_views, filter_entries, filtered, offered_as, selected, shown,
    sort_by_name, sorted_by_name, AppEntry, EntryView, RunningEntry,
};
use crate::bundle_ids::{
    is_listed, names, relisted, relisting_changes_one_app, sorted_ids, stored_form,
    stored_form_names_every_valid_id, stored_form_names_only_listed_apps, valid_id,
    validity_is_case_blind, without_all_names_the_rest, MAX_APPS,
};
use crate::config::{
    normal_settings, normal_settings_are_safe_and_stable, saved_or_kept, with_apps,
    with_keep_alive_apps, Config, ConfigStore, ConfigView, FilterMode,
};
use crate::delay::{
    choice_for, choices_of, quit_delay_choices, quit_delay_index, quit_delay_table,
    restart_delay_choices, restart_delay_index, restart_delay_table, DEFAULT_DELAY_INDEX,
    DEFAULT_RESTART_DELAY_INDEX,
};
use crate::protected::{
    is_protected_bundle_id, is_protected_path, protected_bundle_id, protected_path,
};
use crate::text::{opt_str, opt_text, same, same_text};

verus! {

/// The states of the window's controls.
#[derive(Debug)]
pub struct Controls {
    pub whitelist: bool,
    pub blacklist: bool,
    pub delay_index: usize,
    pub autostart: bool,
    pub enabled: bool,
    pub keep_alive: bool,
    pub auto_start_missing: bool,
    pub loop_protection: bool,
    pub restart_delay_index: usize,
    /// The title of the first column of the app list.
    pub column_title: String,
    /// The explanation above the app list.
    pub hint: String,
}

/// The contents of the controls.
pub ghost struct ControlsView {
    pub whitelist: bool,
    pub blacklist: bool,
    pub delay_index: int,
    pub autostart: bool,
    pub enabled: bool,
    pub keep_alive: bool,
    pub auto_start_missing: bool,
    pub loop_protection: bool,
    pub restart_delay_index: int,
    pub column_title: Seq<char>,
    pub hint: Seq<char>,
}

impl View for Controls {
    type V = ControlsView;

    open spec fn view(&self) -> ControlsView {
        ControlsView {
            whitelist: self.whitelist,
            blacklist: self.blacklist,
            delay_index: self.delay_index as int,
            autostart: self.autostart,
            enabled: self.enabled,
            keep_alive: self.keep_alive,
            auto_start_missing: self.auto_start_missing,
            loop_protection: self.loop_protection,
            restart_delay_index: self.restart_delay_index as int,
            column_title: self.column_title@,
            hint: self.hint@,
        }
    }
}

/// The title of the first column. With a blacklist the checkbox means the
/// opposite ("spare this app").
pub open spec fn column_title(mode: FilterMode) -> Seq<char> {
    match mode {
        FilterMode::Whitelist => "Quit"@,
        FilterMode::Blacklist => "Protect"@,
    }
}

/// The explanation above the app list.
pub open spec fn apps_hint(mode: FilterMode) -> Seq<char> {
    match mode {
        FilterMode::Whitelist => "Quit: close the app once its last window is closed. Keep: relaunch the app whenever it quits. An app can only use one of the two."@,
        FilterMode::Blacklist => "Protect: never quit this app; all unchecked apps are closed once their last window closes. Keep: additionally relaunch the app whenever it quits. An app can only use one of the two."@,
    }
}

/// What the controls show for the settings.
pub open spec fn controls_for(config: ConfigView, autostart: bool) -> ControlsView {
    ControlsView {
        whitelist: config.mode == FilterMode::Whitelist,
        blacklist: config.mode == FilterMode::Blacklist,
        delay_index: choice_for(
            quit_delay_table(),
            config.quit_delay_secs,
            DEFAULT_DELAY_INDEX as int,
        ),
        autostart,
        enabled: config.enabled,
        keep_alive: config.keep_alive_enabled,
        auto_start_missing: config.keep_alive_auto_start_missing,
        loop_protection: config.keep_alive_loop_protection,
        restart_delay_index: choice_for(
            restart_delay_table(),
            config.keep_alive_delay_secs,
            DEFAULT_RESTART_DELAY_INDEX as int,
        ),
        column_title: column_title(config.mode),
        hint: apps_hint(config.mode),
    }
}

/// What the controls show for the settings.
pub fn sync_controls(config: &Config, autostart: bool) -> (r: Controls)
    ensures
        r@ == controls_for(config@, autostart),
{
    let (title, hint) = match config.mode {
        FilterMode::Whitelist => (
            "Quit".to_owned(),
            "Quit: close the app once its last window is closed. Keep: relaunch the app whenever it quits. An app can only use one of the two.".to_owned(),
        ),
        FilterMode::Blacklist => (
            "Protect".to_owned(),
            "Protect: never quit this app; all unchecked apps are closed once their last window closes. Keep: additionally relaunch the app whenever it quits. An app can only use one of the two.".to_owned(),
        ),
    };
    let whitelist = match config.mode {
        FilterMode::Whitelist => true,
        FilterMode::Blacklist => false,
    };
    Controls {
        whitelist,
        blacklist: !whitelist,
        delay_index: quit_delay_index(config.quit_delay_secs),
        autostart,
        enabled: config.enabled,
        keep_alive: config.keep_alive_enabled,
        auto_start_missing: config.keep_alive_auto_start_missing,
        loop_protection: config.keep_alive_loop_protection,
        restart_delay_index: restart_delay_index(config.keep_alive_delay_secs),
        column_title: title,
        hint,
    }
}

/// A control that the user operated, with its new state.
#[derive(Clone, Copy, Debug, PartialEq, Eq, Structural)]
pub enum Change {
    Enabled(bool),
    KeepAliveEnabled(bool),
    AutoStartMissing(bool),
    LoopProtection(bool),
    /// A choice in the list of restart delays.
    RestartDelay(usize),
    /// The radio button with a tag: 1 is the blacklist.
    Mode(i64),
    /// A choice in the list of quit delays.
    QuitDelay(usize),
}

/// What a change needs besides being stored.
#[derive(Clone, Copy, Debug, PartialEq, Eq, Structural)]
pub struct FollowUp {
    /// The controls have to show the stored state again.
    pub sync_controls: bool,
    /// The menu bar has to show the stored state.
    pub notify_tray: bool,
    /// Missing kept apps have to be launched.
    pub reconcile: bool,
}

/// The settings after a change; `None` if it leads to nothing.
pub open spec fn changed(config: ConfigView, change: Change) -> Option<ConfigView> {
    match change {
        Change::Enabled(on) => Some(ConfigView { enabled: on, ..config }),
        Change::KeepAliveEnabled(on) => Some(ConfigView { keep_alive_enabled: on, ..config }),
        Change::AutoStartMissing(on) => Some(
            ConfigView { keep_alive_auto_start_missing: on, ..config },
        ),
        Change::LoopProtection(on) => Some(
            ConfigView { keep_alive_loop_protection: on, ..config },
        ),
        Change::RestartDelay(index) => if index < restart_delay_table().len() {
            Some(
                ConfigView {
                    keep_alive_delay_secs: restart_delay_table()[index as int].0,
                    ..config
                },
            )
        } else {
            None
        },
        Change::Mode(tag) => Some(
            ConfigView {
                mode: if tag == 1 {
                    FilterMode::Blacklist
                } else {
                    FilterMode::Whitelist
                },
                ..config
            },
        ),
        Change::QuitDelay(index) => if index < quit_delay_table().len() {
            Some(ConfigView { quit_delay_secs: quit_delay_table()[index as int].0, ..config })
        } else {
            None
        },
    }
}

/// What a change needs, given whether it could be stored.
pub open spec fn follow_up(change: Change, stored: bool) -> FollowUp {
    FollowUp {
        sync_controls: !stored || change is Mode,
        notify_tray: change is Enabled || change is KeepAliveEnabled,
        reconcile: stored && change == Change::AutoStartMissing(true),
    }
}

fn apply_change(config: &mut Config, change: Change)
    requires
        changed(old(config)@, change) is Some,
    ensures
        Some(final(config)@) == changed(old(config)@, change),
{
    match change {
        Change::Enabled(on) => config.enabled = on,
        Change::KeepAliveEnabled(on) => config.keep_alive_enabled = on,
        Change::AutoStartMissing(on) => config.keep_alive_auto_start_missing = on,
        Change::LoopProtection(on) => config.keep_alive_loop_protection = on,
        Change::RestartDelay(index) => {
            let choices = restart_delay_choices();
            assert(choices_of(choices@)[index as int] == restart_delay_table()[index as int]);
            config.keep_alive_delay_secs = choices[index].secs;
        },
        Change::Mode(tag) => config.mode = if tag == 1 {
            FilterMode::Blacklist
        } else {
            FilterMode::Whitelist
        },
        Change::QuitDelay(index) => {
            let choices = quit_delay_choices();
            assert(choices_of(choices@)[index as int] == quit_delay_table()[index as int]);
            config.quit_delay_secs = choices[index].secs;
        },
    }
}

/// The user operated a control: the change is stored, and what it needs besides
/// is told. A choice that is not in its list leads to nothing.
pub fn on_change<E, S: FnOnce(&Config) -> Result<(), E>>(
    store: &mut ConfigStore,
    change: Change,
    save: S,
) -> (r: FollowUp)
    requires
        forall|config: &Config| save.requires((config,)),
    ensures
        changed(old(store).data@, change) is None ==> final(store).data@ == old(store).data@ && r
            == (FollowUp { sync_controls: false, notify_tray: false, reconcile: false }),
        changed(old(store).data@, change) is Some ==> exists|saved: Result<(), E>| #[trigger]
            saved_or_kept(
                old(store).data@,
                changed(old(store).data@, change)->0,
                save,
                saved,
                final(store).data@,
            ) && r == follow_up(change, saved is Ok),
{
    let known = match change {
        Change::RestartDelay(index) => index < restart_delay_choices().len(),
        Change::QuitDelay(index) => index < quit_delay_choices().len(),
        _ => true,
    };
    if !known {
        return FollowUp { sync_controls: false, notify_tray: false, reconcile: false };
    }
    let ghost before = store.data@;
    assert(changed(before, change) is Some);
    let apply = |config: &mut Config| -> (u: ())
        requires
            changed(config@, change) is Some,
        ensures
            Some(final(config)@) == changed(old(config)@, change),
        { apply_change(config, change) };
    let saved = store.update(apply, save);
    assert(saved_or_kept(before, changed(before, change)->0, save, saved, store.data@));
    let stored = saved.is_ok();
    let mode = match change {
        Change::Mode(_) => true,
        _ => false,
    };
    let toggle = match change {
        Change::Enabled(_) => true,
        Change::KeepAliveEnabled(_) => true,
        _ => false,
    };
    let start = match change {
        Change::AutoStartMissing(on) => on,
        _ => false,
    };
    FollowUp { sync_controls: !stored || mode, notify_tray: toggle, reconcile: stored && start }
}

/// One cell of the app list.
#[derive(Debug)]
pub enum Cell {
    /// The checkbox for quitting (or protecting) the app.
    Quit { checked: bool, enabled: bool },
    /// The checkbox for keeping the app running.
    Keep { checked: bool, enabled: bool },
    /// The app itself. Its bundle ID is a tooltip, not visible noise.
    App { name: String, icon_path: Option<String>, tooltip: String },
}

/// The contents of a cell.
pub ghost enum CellView {
    Quit { checked: bool, enabled: bool },
    Keep { checked: bool, enabled: bool },
    App { name: Seq<char>, icon_path: Option<Seq<char>>, tooltip: Seq<char> },
}

impl View for Cell {
    type V = CellView;

    open spec fn view(&self) -> CellView {
        match *self {
            Cell::Quit { checked, enabled } => CellView::Quit { checked, enabled },
            Cell::Keep { checked, enabled } => CellView::Keep { checked, enabled },
            Cell::App { name, icon_path, tooltip } => CellView::App {
                name: name@,
                icon_path: opt_text(icon_path),
                tooltip: tooltip@,
            },
        }
    }
}

/// The cell of an app in a column. Quitting and keeping exclude each other:
/// whichever is checked greys the other out.
pub open spec fn cell_for(entry: EntryView, config: ConfigView, column: Seq<char>) -> CellView {
    let quit_listed = names(config.apps, entry.bundle_id);
    let keep_listed = names(config.keep_alive_apps, entry.bundle_id);
    if column == "quit"@ {
        CellView::Quit { checked: quit_listed, enabled: !keep_listed }
    } else if column == "keep"@ {
        CellView::Keep { checked: keep_listed, enabled: !quit_listed }
    } else {
        CellView::App {
            name: entry.name,
            icon_path: entry.icon_path,
            tooltip: entry.bundle_id,
        }
    }
}

/// What came of a checkbox in the app list.
#[derive(Clone, Copy, Debug, PartialEq, Eq, Structural)]
pub enum ToggleOutcome {
    /// There is no such row.
    NoRow,
    /// The change could not be stored: the checkbox shows the old state again.
    Reverted,
    /// The change is stored. The list was filtered anew, or has to be redrawn.
    Stored,
    /// The change is stored, and the app is kept running from now on: keep-alive
    /// has to see to it.
    StoredAndKept,
}

/// What polling a scan of the standard folders gave.
#[derive(Debug)]
pub enum Poll {
    /// The scan is done.
    Found(Vec<AppEntry>),
    /// The scan is not done yet.
    Empty,
    /// The scan is gone.
    Disconnected,
}

/// What to do with a bundle that the user picked.
#[derive(Clone, Copy, Debug, PartialEq, Eq, Structural)]
pub enum AddStep {
    /// It has no bundle ID: nothing to add.
    NoBundleId,
    /// It is a protected system app: warn the user.
    Protected,
    /// It can be added.
    Add,
}

/// What to do with a bundle that the user picked.
pub fn add_step(bundle_id: Option<&str>, path: &str, resolved: Option<&str>) -> (r: AddStep)
    ensures
        r == if bundle_id is None {
            AddStep::NoBundleId
        } else if protected_bundle_id(bundle_id->0@) || protected_path(path@, opt_str(resolved)) {
            AddStep::Protected
        } else {
            AddStep::Add
        },
{
    match bundle_id {
        None => AddStep::NoBundleId,
        Some(bundle_id) => if is_protected_bundle_id(bundle_id) || is_protected_path(
            path,
            resolved,
        ) {
            AddStep::Protected
        } else {
            AddStep::Add
        },
    }
}

/// The state of the settings window. `K` is the way to keep-alive.
#[derive(Debug)]
pub struct SettingsController<K> {
    entries: Vec<AppEntry>,
    all_entries: Vec<AppEntry>,
    query: String,
    only_selected: bool,
    scanning: bool,
    /// Checking a Keep box launches the app right away when it is not running,
    /// so launch failures surface while it is being configured.
    keep_alive: Option<K>,
}

/// The contents of the state of the settings window.
#[verifier::ext_equal]
pub ghost struct SettingsView<K> {
    /// The apps that are shown.
    pub entries: Seq<EntryView>,
    /// All apps that can be selected.
    pub all_entries: Seq<EntryView>,
    pub query: Seq<char>,
    pub only_selected: bool,
    pub scanning: bool,
    pub keep_alive: Option<K>,
}

impl<K> View for SettingsController<K> {
    type V = SettingsView<K>;

    closed spec fn view(&self) -> SettingsView<K> {
        SettingsView {
            entries: entry_views(self.entries@),
            all_entries: entry_views(self.all_entries@),
            query: self.query@,
            only_selected: self.only_selected,
            scanning: self.scanning,
            keep_alive: self.keep_alive,
        }
    }
}

/// The window after its list was filtered anew.
pub open spec fn refiltered<K>(window: SettingsView<K>, config: ConfigView) -> SettingsView<K> {
    SettingsView {
        entries: filtered(window.all_entries, config, window.query, window.only_selected),
        ..window
    }
}

/// The window after a checkbox was toggled: with the selected-only filter, an
/// unchecked app drops out of the list right away.
pub open spec fn after_toggle<K>(window: SettingsView<K>, config: ConfigView) -> SettingsView<K> {
    if window.only_selected {
        refiltered(window, config)
    } else {
        window
    }
}

/// The window after it was closed.
pub open spec fn closed_window<K>(window: SettingsView<K>) -> SettingsView<K> {
    SettingsView {
        entries: Seq::empty(),
        all_entries: Seq::empty(),
        query: Seq::empty(),
        only_selected: false,
        scanning: false,
        ..window
    }
}

impl<K> SettingsController<K> {
    /// A window that shows nothing yet.
    pub fn new() -> (r: SettingsController<K>)
        ensures
            r@ == (SettingsView::<K> {
                entries: Seq::empty(),
                all_entries: Seq::empty(),
                query: Seq::empty(),
                only_selected: false,
                scanning: false,
                keep_alive: None,
            }),
    {
        let r = SettingsController {
            entries: Vec::new(),
            all_entries: Vec::new(),
            query: String::new(),
            only_selected: false,
            scanning: false,
            keep_alive: None,
        };
        assert(r@.entries =~= Seq::empty());
        assert(r@.all_entries =~= Seq::empty());
        assert(r@.query =~= Seq::empty());
        r
    }

    /// Wires keep-alive, so that checking a Keep box launches the app.
    pub fn set_keep_alive(&mut self, keep_alive: K)
        ensures
            final(self)@ == (SettingsView { keep_alive: Some(keep_alive), ..old(self)@ }),
    {
        self.keep_alive = Some(keep_alive);
    }

    /// Keep-alive, once it is wired.
    pub fn keep_alive(&self) -> (r: Option<&K>)
        ensures
            match r {
                Some(keep_alive) => self@.keep_alive == Some(*keep_alive),
                None => self@.keep_alive is None,
            },
    {
        match &self.keep_alive {
            Some(keep_alive) => Some(keep_alive),
            None => None,
        }
    }

    /// The number of rows of the app list.
    pub fn number_of_rows(&self) -> (r: usize)
        ensures
            r == self@.entries.len(),
    {
        self.entries.len()
    }

    /// The bundle ID of the app in a row.
    pub fn bundle_id_at(&self, row: usize) -> (r: Option<String>)
        ensures
            opt_text(r) == if row < self@.entries.len() {
                Some(self@.entries[row as int].bundle_id)
            } else {
                None
            },
    {
        if row < self.entries.len() {
            Some(self.entries[row].bundle_id.clone())
        } else {
            None
        }
    }

    /// A cell of the app list; `None` if there is no such row.
    pub fn make_cell_view(&self, config: &Config, column: &str, row: usize) -> (r: Option<Cell>)
        ensures
            match r {
                Some(cell) => row < self@.entries.len() && cell@ == cell_for(
                    self@.entries[row as int],
                    config@,
                    column@,
                ),
                None => row >= self@.entries.len(),
            },
    {
        if row >= self.entries.len() {
            return None;
        }
        let entry = &self.entries[row];
        let quit_listed = is_listed(&config.apps, entry.bundle_id.as_str());
        let keep_listed = is_listed(&config.keep_alive_apps, entry.bundle_id.as_str());
        if same(column, "quit") {
            Some(Cell::Quit { checked: quit_listed, enabled: !keep_listed })
        } else if same(column, "keep") {
            Some(Cell::Keep { checked: keep_listed, enabled: !quit_listed })
        } else {
            let shown = entry.clone();
            Some(
                Cell::App {
                    name: shown.name,
                    icon_path: shown.icon_path,
                    tooltip: shown.bundle_id,
                },
            )
        }
    }

    /// Publishes the apps that match the search field and, when enabled, the
    /// selected-only toggle.
    pub fn apply_filter(&mut self, config: &Config)
        ensures
            final(self)@ == refiltered(old(self)@, config@),
    {
        self.entries =
        filter_entries(&self.all_entries, config, self.query.as_str(), self.only_selected);
    }

    /// The text of the search field changed.
    pub fn on_search_changed(&mut self, config: &Config, query: String)
        ensures
            final(self)@ == refiltered(
                SettingsView { query: query@, ..old(self)@ },
                config@,
            ),
    {
        self.query = query;
        self.apply_filter(config);
    }

    /// The selected-only toggle changed.
    pub fn on_only_selected_changed(&mut self, config: &Config, only_selected: bool)
        ensures
            final(self)@ == refiltered(SettingsView { only_selected, ..old(self)@ }, config@),
    {
        self.only_selected = only_selected;
        self.apply_filter(config);
    }

    /// Follows up on a checkbox: with the selected-only filter, an unchecked app
    /// must drop out of the list right away.
    pub fn refresh_after_toggle(&mut self, config: &Config)
        ensures
            final(self)@ == after_toggle(old(self)@, config@),
    {
        if self.only_selected {
            self.apply_filter(config);
        }
    }

    /// The quit checkbox of a row was toggled.
    pub fn on_toggle_app<E, S: FnOnce(&Config) -> Result<(), E>>(
        &mut self,
        store: &mut ConfigStore,
        row: usize,
        listed: bool,
        save: S,
    ) -> (r: ToggleOutcome)
        requires
            forall|config: &Config| save.requires((config,)),
        ensures
            row >= old(self)@.entries.len() ==> {
                &&& r == ToggleOutcome::NoRow
                &&& final(self)@ == old(self)@
                &&& final(store).data@ == old(store).data@
            },
            row < old(self)@.entries.len() ==> {
                let id = old(self)@.entries[row as int].bundle_id;
                exists|saved: Result<(), E>| #[trigger]
                    saved_or_kept(
                        old(store).data@,
                        with_apps(
                            old(store).data@,
                            relisted(old(store).data@.apps, id, listed),
                        ),
                        save,
                        saved,
                        final(store).data@,
                    ) && match saved {
                        Ok(_) => r == ToggleOutcome::Stored && final(self)@ == after_toggle(
                            old(self)@,
                            final(store).data@,
                        ),
                        Err(_) => r == ToggleOutcome::Reverted && final(self)@ == old(self)@,
                    }
            },
    {
        let Some(bundle_id) = self.bundle_id_at(row) else {
            return ToggleOutcome::NoRow;
        };
        let saved = store.set_app_listed(bundle_id.as_str(), listed, save);
        if saved.is_err() {
            return ToggleOutcome::Reverted;
        }
        self.refresh_after_toggle(&store.data);
        ToggleOutcome::Stored
    }

    /// The keep checkbox of a row was toggled. A kept app should be running:
    /// launching it now surfaces failures while it is being configured.
    pub fn on_toggle_keep_app<E, S: FnOnce(&Config) -> Result<(), E>>(
        &mut self,
        store: &mut ConfigStore,
        row: usize,
        listed: bool,
        save: S,
    ) -> (r: ToggleOutcome)
        requires
            forall|config: &Config| save.requires((config,)),
        ensures
            row >= old(self)@.entries.len() ==> {
                &&& r == ToggleOutcome::NoRow
                &&& final(self)@ == old(self)@
                &&& final(store).data@ == old(store).data@
            },
            row < old(self)@.entries.len() ==> {
                let id = old(self)@.entries[row as int].bundle_id;
                exists|saved: Result<(), E>| #[trigger]
                    saved_or_kept(
                        old(store).data@,
                        with_keep_alive_apps(
                            old(store).data@,
                            relisted(old(store).data@.keep_alive_apps, id, listed),
                        ),
                        save,
                        saved,
                        final(store).data@,
                    ) && match saved {
                        Ok(_) => final(self)@ == after_toggle(old(self)@, final(store).data@) && r
                            == if listed && old(self)@.keep_alive is Some {
                            ToggleOutcome::StoredAndKept
                        } else {
                            ToggleOutcome::Stored
                        },
                        Err(_) => r == ToggleOutcome::Reverted && final(self)@ == old(self)@,
                    }
            },
    {
        let Some(bundle_id) = self.bundle_id_at(row) else {
            return ToggleOutcome::NoRow;
        };
        let saved = store.set_keep_alive_listed(bundle_id.as_str(), listed, save);
        if saved.is_err() {
            return ToggleOutcome::Reverted;
        }
        self.refresh_after_toggle(&store.data);
        if listed && self.keep_alive.is_some() {
            ToggleOutcome::StoredAndKept
        } else {
            ToggleOutcome::Stored
        }
    }

    /// Whether showing the window has to start a scan: nothing is listed yet.
    pub fn needs_refresh(&self) -> (r: bool)
        ensures
            r == (self@.entries.len() == 0),
    {
        self.entries.len() == 0
    }

    /// Whether a scan of the standard folders has to be started; one is under
    /// way afterwards.
    pub fn refresh_entries(&mut self) -> (r: bool)
        ensures
            r == !old(self)@.scanning,
            final(self)@ == (SettingsView { scanning: true, ..old(self)@ }),
    {
        let idle = !self.scanning;
        self.scanning = true;
        idle
    }

    /// No scan is under way any more.
    pub fn finish_refresh(&mut self)
        ensures
            final(self)@ == (SettingsView { scanning: false, ..old(self)@ }),
    {
        self.scanning = false;
    }

    /// Looks at what polling the scan gave, where one is under way. Its result
    /// is for the caller to complete.
    pub fn poll_refresh(&mut self, poll: Poll) -> (r: Option<Vec<AppEntry>>)
        ensures
            r == match poll {
                Poll::Found(entries) => if old(self)@.scanning {
                    Some(entries)
                } else {
                    None
                },
                _ => None,
            },
            final(self)@ == (SettingsView {
                scanning: old(self)@.scanning && poll is Empty,
                ..old(self)@
            }),
    {
        if !self.scanning {
            return None;
        }
        match poll {
            Poll::Found(entries) => {
                self.finish_refresh();
                Some(entries)
            },
            Poll::Disconnected => {
                self.finish_refresh();
                None
            },
            Poll::Empty => None,
        }
    }

    /// Adds running apps and configured leftovers to what the scan found, then
    /// publishes the list.
    pub fn complete_refresh<R: Fn(&str) -> Option<AppEntry>>(
        &mut self,
        config: &Config,
        scanned: Vec<AppEntry>,
        running: &Vec<RunningEntry>,
        resolve: R,
    )
        requires
            forall|id: &str| resolve.requires((id,)),
        ensures
            exists|list: Seq<EntryView>| #[trigger]
                offered_as(
                    entry_views(scanned@),
                    running@,
                    config@.apps + config@.keep_alive_apps,
                    resolve,
                    list,
                ) && final(self)@ == refiltered(
                    SettingsView { all_entries: sorted_by_name(list), ..old(self)@ },
                    config@,
                ),
    {
        let offered = collect_offered(scanned, running, config, resolve);
        self.all_entries = sort_by_name(&offered);
        self.apply_filter(config);
    }

    /// The window closes: its list and its filters are dropped.
    pub fn window_will_close(&mut self)
        ensures
            final(self)@ == closed_window(old(self)@),
    {
        self.finish_refresh();
        self.entries = Vec::new();
        self.all_entries = Vec::new();
        self.query = String::new();
        self.only_selected = false;
        assert(self@.entries =~= Seq::empty());
        assert(self@.all_entries =~= Seq::empty());
        assert(self@.query =~= Seq::empty());
    }
}

/// With settings in normal form, no app has both boxes checked, and a box that is
/// checked can be unchecked.
pub proof fn the_two_boxes_exclude_each_other(entry: EntryView, config: ConfigView)
    ensures
        ({
            let normal = normal_settings(config);
            let quit = cell_for(entry, normal, "quit"@);
            let keep = cell_for(entry, normal, "keep"@);
            &&& quit is Quit && keep is Keep
            &&& !(quit->Quit_checked && keep->Keep_checked)
            &&& quit->Quit_checked ==> quit->Quit_enabled && !keep->Keep_enabled
            &&& keep->Keep_checked ==> keep->Keep_enabled && !quit->Quit_enabled
        }),
{
    normal_settings_are_safe_and_stable(config, entry.bundle_id);
    reveal_strlit("quit");
    reveal_strlit("keep");
    assert("quit"@[0] != "keep"@[0]);
}

/// Checking the Keep box of an app with a valid ID puts it on the keep-alive
/// list and takes it off the quit list, as long as the list is not full.
pub proof fn checking_keep_takes_an_app_off_the_quit_list(config: ConfigView, id: Seq<char>)
    requires
        valid_id(id),
        sorted_ids(relisted(config.keep_alive_apps, id, true)).len() <= MAX_APPS,
    ensures
        ({
            let after = normal_settings(
                with_keep_alive_apps(config, relisted(config.keep_alive_apps, id, true)),
            );
            names(after.keep_alive_apps, id) && !names(after.apps, id)
        }),
{
    let list = relisted(config.keep_alive_apps, id, true);
    let changed_config = with_keep_alive_apps(config, list);
    relisting_changes_one_app(config.keep_alive_apps, id, true, id);
    let i = choose|i: int| 0 <= i < list.len() && same_text(#[trigger] list[i], id);
    validity_is_case_blind(list[i], id);
    assert(valid_id(list[i]));
    stored_form_names_every_valid_id(list, id);
    normal_settings_are_safe_and_stable(changed_config, id);
}

/// Checking the quit box of an app with a valid ID puts it on the quit list,
/// unless the app is kept running, as long as the list is not full.
pub proof fn checking_quit_lists_an_app_unless_it_is_kept(config: ConfigView, id: Seq<char>)
    requires
        valid_id(id),
        sorted_ids(relisted(config.apps, id, true)).len() <= MAX_APPS,
    ensures
        ({
            let after = normal_settings(with_apps(config, relisted(config.apps, id, true)));
            names(after.apps, id) <==> !names(after.keep_alive_apps, id)
        }),
{
    let list = relisted(config.apps, id, true);
    relisting_changes_one_app(config.apps, id, true, id);
    let i = choose|i: int| 0 <= i < list.len() && same_text(#[trigger] list[i], id);
    validity_is_case_blind(list[i], id);
    assert(valid_id(list[i]));
    stored_form_names_every_valid_id(list, id);
    without_all_names_the_rest(stored_form(list), stored_form(config.keep_alive_apps), id);
}

/// Unchecking a box takes the app off the list.
pub proof fn unchecking_takes_an_app_off_its_list(config: ConfigView, id: Seq<char>)
    ensures
        !names(
            normal_settings(with_apps(config, relisted(config.apps, id, false))).apps,
            id,
        ),
        !names(
            normal_settings(
                with_keep_alive_apps(config, relisted(config.keep_alive_apps, id, false)),
            ).keep_alive_apps,
            id,
        ),
{
    let apps = relisted(config.apps, id, false);
    let kept = relisted(config.keep_alive_apps, id, false);
    relisting_changes_one_app(config.apps, id, false, id);
    relisting_changes_one_app(config.keep_alive_apps, id, false, id);
    stored_form_names_only_listed_apps(apps, id);
    stored_form_names_only_listed_apps(kept, id);
    without_all_names_the_rest(stored_form(apps), stored_form(config.keep_alive_apps), id);
}

/// With the selected-only filter, an app that is on neither list any more is no
/// longer shown after a toggle.
pub proof fn unselected_apps_drop_out<K>(window: SettingsView<K>, config: ConfigView, row: int)
    requires
        window.only_selected,
        0 <= row < after_toggle(window, config).entries.len(),
    ensures
        selected(config, after_toggle(window, config).entries[row].bundle_id),
{
    let keep = |entry: EntryView| shown(entry, config, window.query, window.only_selected);
    window.all_entries.lemma_filter_pred(keep, row);
}

} // verus!
