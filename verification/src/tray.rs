//! What the menu bar shows, and what its toggles do.
use vstd::prelude::*;

use crate::bundle_ids::{is_listed, names};
use crate::clock::{elapsed_nanos, told_since};
use crate::config::{saved_or_kept, Config, ConfigStore, ConfigView};
use crate::engine::recent::{
    age_label_of_nanos, age_text, whole_secs, RecentQuit, RecentQuits,
};
use crate::keepalive::{ignore_left, ignored_for};
use crate::text::{append_text, decimal, decimal_of};

verus! {

/// What a menu item does.
#[derive(Clone, Copy, Debug, PartialEq, Eq, Structural)]
pub enum MenuAction {
    /// Nothing: the item only says something.
    Nothing,
    Separator,
    OpenAccessibilitySettings,
    ToggleEnabled,
    ToggleKeepAlive,
    /// Opens the submenu of recently quit apps.
    RecentlyQuit,
    OpenSettings,
    Quit,
}

/// An item of the main menu.
#[derive(Debug)]
pub struct MenuItem {
    pub title: String,
    pub action: MenuAction,
    /// The key equivalent, or nothing.
    pub key: String,
    pub checked: bool,
    pub hidden: bool,
}

/// The contents of an item of the main menu.
pub ghost struct MenuItemView {
    pub title: Seq<char>,
    pub action: MenuAction,
    pub key: Seq<char>,
    pub checked: bool,
    pub hidden: bool,
}

impl View for MenuItem {
    type V = MenuItemView;

    open spec fn view(&self) -> MenuItemView {
        MenuItemView {
            title: self.title@,
            action: self.action,
            key: self.key@,
            checked: self.checked,
            hidden: self.hidden,
        }
    }
}

/// The contents of a menu.
pub open spec fn menu_views(items: Seq<MenuItem>) -> Seq<MenuItemView> {
    Seq::new(items.len(), |i: int| items[i]@)
}

/// What the menu bar shows of the settings and the permission.
#[derive(Clone, Copy, Debug, PartialEq, Eq, Structural)]
pub struct TrayTarget {
    /// The checkmark of "Auto-Quit".
    pub enabled: bool,
    /// The checkmark of "Keep Running".
    pub keep_alive: bool,
    /// The icon is dimmed.
    pub dimmed: bool,
    /// The section on the missing permission is hidden.
    pub permission_hidden: bool,
}

/// What the menu bar shows after it took over the settings.
pub open spec fn synced(tray: TrayTarget, config: ConfigView) -> TrayTarget {
    TrayTarget {
        enabled: config.enabled,
        keep_alive: config.keep_alive_enabled,
        dimmed: !config.enabled,
        ..tray
    }
}

/// An item of the main menu.
pub open spec fn item(
    title: Seq<char>,
    action: MenuAction,
    key: Seq<char>,
    checked: bool,
    hidden: bool,
) -> MenuItemView {
    MenuItemView { title, action, key, checked, hidden }
}

/// The main menu. The section on the permission is only visible while the
/// permission is missing.
pub open spec fn main_menu(tray: TrayTarget) -> Seq<MenuItemView> {
    let hidden = tray.permission_hidden;
    seq![
        item("⚠️ Accessibility permission missing"@, MenuAction::Nothing, ""@, false, hidden),
        item("Open System Settings…"@, MenuAction::OpenAccessibilitySettings, ""@, false, hidden),
        item(""@, MenuAction::Separator, ""@, false, hidden),
        item("Auto-Quit"@, MenuAction::ToggleEnabled, ""@, tray.enabled, false),
        item("Keep Running"@, MenuAction::ToggleKeepAlive, ""@, tray.keep_alive, false),
        item("Recently Quit"@, MenuAction::RecentlyQuit, ""@, false, false),
        item("Settings…"@, MenuAction::OpenSettings, ","@, false, false),
        item(""@, MenuAction::Separator, ""@, false, false),
        item("Quit RustQuit"@, MenuAction::Quit, "q"@, false, false),
    ]
}

fn make_item(title: &str, action: MenuAction, key: &str, checked: bool, hidden: bool) -> (r: MenuItem)
    ensures
        r@ == item(title@, action, key@, checked, hidden),
{
    MenuItem { title: title.to_owned(), action, key: key.to_owned(), checked, hidden }
}

impl TrayTarget {
    /// Shows the settings. Until the permission is known, it counts as missing.
    pub fn new(config: &Config) -> (r: TrayTarget)
        ensures
            r == synced(
                TrayTarget {
                    enabled: false,
                    keep_alive: false,
                    dimmed: false,
                    permission_hidden: false,
                },
                config@,
            ),
    {
        TrayTarget {
            enabled: config.enabled,
            keep_alive: config.keep_alive_enabled,
            dimmed: !config.enabled,
            permission_hidden: false,
        }
    }

    /// Takes over the settings: the toggle checkmarks, and the icon, which is
    /// dimmed while auto-quit is off.
    pub fn sync_from_config(&mut self, config: &Config)
        ensures
            *final(self) == synced(*old(self), config@),
    {
        self.enabled = config.enabled;
        self.keep_alive = config.keep_alive_enabled;
        self.dimmed = !config.enabled;
    }

    /// Shows or hides the section on the missing permission.
    pub fn set_permission_ok(&mut self, ok: bool)
        ensures
            *final(self) == (TrayTarget { permission_hidden: ok, ..*old(self) }),
    {
        self.permission_hidden = ok;
    }

    /// The main menu.
    pub fn menu(&self) -> (r: Vec<MenuItem>)
        ensures
            menu_views(r@) == main_menu(*self),
    {
        let hidden = self.permission_hidden;
        let mut r: Vec<MenuItem> = Vec::new();
        r.push(
            make_item("⚠️ Accessibility permission missing", MenuAction::Nothing, "", false, hidden),
        );
        r.push(
            make_item(
                "Open System Settings…",
                MenuAction::OpenAccessibilitySettings,
                "",
                false,
                hidden,
            ),
        );
        r.push(make_item("", MenuAction::Separator, "", false, hidden));
        r.push(make_item("Auto-Quit", MenuAction::ToggleEnabled, "", self.enabled, false));
        r.push(make_item("Keep Running", MenuAction::ToggleKeepAlive, "", self.keep_alive, false));
        r.push(make_item("Recently Quit", MenuAction::RecentlyQuit, "", false, false));
        r.push(make_item("Settings…", MenuAction::OpenSettings, ",", false, false));
        r.push(make_item("", MenuAction::Separator, "", false, false));
        r.push(make_item("Quit RustQuit", MenuAction::Quit, "q", false, false));
        assert(menu_views(r@) =~= main_menu(*self));
        r
    }

    /// "Auto-Quit" was picked: the setting is turned over and stored, and the
    /// menu bar shows what is stored then.
    pub fn on_toggle_enabled<E, S: FnOnce(&Config) -> Result<(), E>>(
        &mut self,
        store: &mut ConfigStore,
        save: S,
    ) -> (r: Result<(), E>)
        requires
            forall|config: &Config| save.requires((config,)),
        ensures
            saved_or_kept(
                old(store).data@,
                (ConfigView { enabled: !old(store).data@.enabled, ..old(store).data@ }),
                save,
                r,
                final(store).data@,
            ),
            *final(self) == synced(*old(self), final(store).data@),
    {
        let change = |config: &mut Config| -> (u: ())
            ensures
                final(config)@ == enabled_toggled(old(config)@),
            { config.enabled = !config.enabled; };
        let r = store.update(change, save);
        self.sync_from_config(&store.data);
        r
    }

    /// "Keep Running" was picked: the setting is turned over and stored, and the
    /// menu bar shows what is stored then.
    pub fn on_toggle_keep_alive<E, S: FnOnce(&Config) -> Result<(), E>>(
        &mut self,
        store: &mut ConfigStore,
        save: S,
    ) -> (r: Result<(), E>)
        requires
            forall|config: &Config| save.requires((config,)),
        ensures
            saved_or_kept(
                old(store).data@,
                keep_alive_toggled(old(store).data@),
                save,
                r,
                final(store).data@,
            ),
            *final(self) == synced(*old(self), final(store).data@),
    {
        let change = |config: &mut Config| -> (u: ())
            ensures
                final(config)@ == keep_alive_toggled(old(config)@),
            { config.keep_alive_enabled = !config.keep_alive_enabled; };
        let r = store.update(change, save);
        self.sync_from_config(&store.data);
        r
    }
}

/// The settings with auto-quit turned over.
pub open spec fn enabled_toggled(config: ConfigView) -> ConfigView {
    ConfigView { enabled: !config.enabled, ..config }
}

/// The settings with keep-alive turned over.
pub open spec fn keep_alive_toggled(config: ConfigView) -> ConfigView {
    ConfigView { keep_alive_enabled: !config.keep_alive_enabled, ..config }
}

/// What can be done about keeping an app running.
#[derive(Clone, Copy, Debug, PartialEq, Eq, Structural)]
pub enum KeepAction {
    Ignore,
    Resume,
}

/// An item of the submenu of recently quit apps.
#[derive(Debug)]
pub enum RecentItem {
    /// There are none.
    Empty { title: String },
    /// Reopens the app.
    Reopen { title: String, bundle_id: String },
    /// A submenu with one item that ignores a kept app or resumes keeping it.
    KeepOptions { title: String, label: String, action: KeepAction, bundle_id: String },
}

/// The contents of an item of the submenu.
pub ghost enum RecentItemView {
    Empty { title: Seq<char> },
    Reopen { title: Seq<char>, bundle_id: Seq<char> },
    KeepOptions { title: Seq<char>, label: Seq<char>, action: KeepAction, bundle_id: Seq<char> },
}

impl View for RecentItem {
    type V = RecentItemView;

    open spec fn view(&self) -> RecentItemView {
        match *self {
            RecentItem::Empty { title } => RecentItemView::Empty { title: title@ },
            RecentItem::Reopen { title, bundle_id } => RecentItemView::Reopen {
                title: title@,
                bundle_id: bundle_id@,
            },
            RecentItem::KeepOptions { title, label, action, bundle_id } => {
                RecentItemView::KeepOptions {
                    title: title@,
                    label: label@,
                    action,
                    bundle_id: bundle_id@,
                }
            },
        }
    }
}

/// The contents of the submenu.
pub open spec fn recent_views(items: Seq<RecentItem>) -> Seq<RecentItemView> {
    Seq::new(items.len(), |i: int| items[i]@)
}

/// A remaining time in whole minutes, or in whole hours from an hour on, rounded
/// up.
pub open spec fn duration_text(secs: nat) -> Seq<char> {
    let minutes = (secs + 59) / 60;
    if minutes >= 60 {
        decimal(((minutes + 59) / 60) as nat) + "h"@
    } else {
        decimal(minutes as nat) + "m"@
    }
}

/// A remaining time in whole minutes, or in whole hours from an hour on, rounded
/// up.
pub fn duration_label(secs: u64) -> (r: String)
    ensures
        r@ == duration_text(secs as nat),
{
    let minutes: u64 = if secs % 60 == 0 {
        secs / 60
    } else {
        secs / 60 + 1
    };
    if minutes >= 60 {
        let hours: u64 = if minutes % 60 == 0 {
            minutes / 60
        } else {
            minutes / 60 + 1
        };
        let mut r = decimal_of(hours as u128);
        append_text(&mut r, "h");
        r
    } else {
        let mut r = decimal_of(minutes as u128);
        append_text(&mut r, "m");
        r
    }
}

/// What can be done about keeping an app running, with its label.
pub open spec fn keep_option(
    config: ConfigView,
    bundle_id: Seq<char>,
    unix_now: u64,
) -> (Seq<char>, KeepAction) {
    match ignored_for(config, bundle_id, unix_now) {
        Some(secs) => (
            "Resume Keep Now ("@ + duration_text(secs as nat) + " remaining)"@,
            KeepAction::Resume,
        ),
        None => ("Ignore Keep for 24 Hours"@, KeepAction::Ignore),
    }
}

/// The items for one recently terminated app of an age in nanoseconds: it can be
/// reopened, and if it is kept running, that can be ignored for a while or
/// resumed.
pub open spec fn items_for(
    entry: RecentQuit,
    age: u128,
    config: ConfigView,
    unix_now: u64,
) -> Seq<RecentItemView> {
    let reopen = RecentItemView::Reopen {
        title: entry.name@ + " — "@ + age_text(whole_secs(age)),
        bundle_id: entry.bundle_id@,
    };
    if names(config.keep_alive_apps, entry.bundle_id@) {
        let (label, action) = keep_option(config, entry.bundle_id@, unix_now);
        seq![
            reopen,
            RecentItemView::KeepOptions {
                title: "Keep Options — "@ + entry.name@,
                label,
                action,
                bundle_id: entry.bundle_id@,
            },
        ]
    } else {
        seq![reopen]
    }
}

/// The items for recently terminated apps, each with its own age.
pub open spec fn items_for_all(
    entries: Seq<RecentQuit>,
    ages: Seq<u128>,
    config: ConfigView,
    unix_now: u64,
) -> Seq<RecentItemView>
    decreases entries.len(),
{
    if entries.len() == 0 {
        Seq::empty()
    } else {
        items_for_all(entries.drop_last(), ages, config, unix_now) + items_for(
            entries.last(),
            ages[entries.len() - 1],
            config,
            unix_now,
        )
    }
}

/// The submenu of recently quit apps.
pub open spec fn recent_items(
    entries: Seq<RecentQuit>,
    ages: Seq<u128>,
    config: ConfigView,
    unix_now: u64,
) -> Seq<RecentItemView> {
    if entries.len() == 0 {
        seq![RecentItemView::Empty { title: "No apps quit yet"@ }]
    } else {
        items_for_all(entries, ages, config, unix_now)
    }
}

/// The submenu of recently quit apps, given how old each entry is in
/// nanoseconds.
pub fn recent_menu(
    entries: &Vec<RecentQuit>,
    ages: &Vec<u128>,
    config: &Config,
    unix_now: u64,
) -> (r: Vec<RecentItem>)
    requires
        ages@.len() == entries@.len(),
    ensures
        recent_views(r@) == recent_items(entries@, ages@, config@, unix_now),
{
    let mut r: Vec<RecentItem> = Vec::new();
    if entries.len() == 0 {
        r.push(RecentItem::Empty { title: "No apps quit yet".to_owned() });
        assert(recent_views(r@) =~= recent_items(entries@, ages@, config@, unix_now));
        return r;
    }
    assert(recent_views(r@) =~= items_for_all(entries@.take(0), ages@, config@, unix_now));
    for i in 0..entries.len()
        invariant
            ages@.len() == entries@.len(),
            recent_views(r@) == items_for_all(
                entries@.take(i as int),
                ages@,
                config@,
                unix_now,
            ),
    {
        assert(entries@.take(i + 1).drop_last() =~= entries@.take(i as int));
        assert(entries@.take(i + 1).last() == entries@[i as int]);
        let ghost earlier = recent_views(r@);
        let entry = &entries[i];
        let mut title = entry.name.clone();
        append_text(&mut title, " — ");
        append_text(&mut title, age_label_of_nanos(ages[i]).as_str());
        r.push(RecentItem::Reopen { title, bundle_id: entry.bundle_id.clone() });
        if is_listed(&config.keep_alive_apps, entry.bundle_id.as_str()) {
            let (label, action) = match ignore_left(config, entry.bundle_id.as_str(), unix_now) {
                Some(secs) => {
                    let mut label = "Resume Keep Now (".to_owned();
                    append_text(&mut label, duration_label(secs).as_str());
                    append_text(&mut label, " remaining)");
                    (label, KeepAction::Resume)
                },
                None => ("Ignore Keep for 24 Hours".to_owned(), KeepAction::Ignore),
            };
            let mut options = "Keep Options — ".to_owned();
            append_text(&mut options, entry.name.as_str());
            r.push(
                RecentItem::KeepOptions {
                    title: options,
                    label,
                    action,
                    bundle_id: entry.bundle_id.clone(),
                },
            );
        }
        assert(recent_views(r@) =~= earlier + items_for(
            entries@[i as int],
            ages@[i as int],
            config@,
            unix_now,
        ));
    }
    assert(entries@.take(entries@.len() as int) =~= entries@);
    r
}

/// The ages are what the clock tells of the entries, one by one.
pub open spec fn ages_told(entries: Seq<RecentQuit>, ages: Seq<u128>) -> bool {
    &&& ages.len() == entries.len()
    &&& forall|i: int| 0 <= i < ages.len() ==> told_since(entries[i].when, #[trigger] ages[i])
}

/// Fills the submenu of recently quit apps as it opens. How old the entries are
/// depends on the time of the call.
pub fn rebuild_recent_menu(recents: &RecentQuits, config: &Config, unix_now: u64) -> (r: Vec<
    RecentItem,
>)
    ensures
        exists|ages: Seq<u128>| #[trigger]
            ages_told(recents@.entries, ages) && recent_views(r@) == recent_items(
                recents@.entries,
                ages,
                config@,
                unix_now,
            ),
{
    let entries = recents.snapshot();
    let mut ages: Vec<u128> = Vec::new();
    for i in 0..entries.len()
        invariant
            ages@.len() == i,
            forall|j: int| 0 <= j < i ==> told_since(entries@[j].when, #[trigger] ages@[j]),
    {
        ages.push(elapsed_nanos(entries[i].when));
    }
    assert(ages_told(entries@, ages@));
    recent_menu(&entries, &ages, config, unix_now)
}

/// Whatever the settings are, the icon is dimmed exactly while auto-quit is off,
/// and the section on the permission depends on the permission alone.
pub proof fn the_icon_is_dimmed_while_off(tray: TrayTarget, config: ConfigView)
    ensures
        synced(tray, config).dimmed == !config.enabled,
        synced(tray, config).permission_hidden == tray.permission_hidden,
        synced(synced(tray, config), config) == synced(tray, config),
{
}

} // verus!
