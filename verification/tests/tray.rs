use std::time::{Duration, Instant};

use rustquit::config::{Config, ConfigStore};
use rustquit::engine::recent::{RecentQuit, RecentQuits, RecentReason};
use rustquit::tray::{
    duration_label, rebuild_recent_menu, recent_menu, KeepAction, MenuAction, RecentItem,
    TrayTarget,
};

fn saves(_: &Config) -> Result<(), ()> {
    Ok(())
}

fn fails(_: &Config) -> Result<(), ()> {
    Err(())
}

#[test]
fn remaining_times_are_rounded_up() {
    assert_eq!(duration_label(0), "0m");
    assert_eq!(duration_label(1), "1m");
    assert_eq!(duration_label(60), "1m");
    assert_eq!(duration_label(61), "2m");
    assert_eq!(duration_label(3540), "59m");
    assert_eq!(duration_label(3541), "1h");
    assert_eq!(duration_label(3600), "1h");
    assert_eq!(duration_label(3601), "2h");
    assert_eq!(duration_label(86_400), "24h");
}

#[test]
fn the_menu_bar_shows_the_settings() {
    let mut tray = TrayTarget::new(&Config::default());
    assert!(tray.enabled && tray.keep_alive && !tray.dimmed && !tray.permission_hidden);
    tray.set_permission_ok(true);
    assert!(tray.permission_hidden);
    let off = Config { enabled: false, ..Config::default() };
    tray.sync_from_config(&off);
    assert!(!tray.enabled && tray.keep_alive && tray.dimmed && tray.permission_hidden);
    tray.set_permission_ok(false);
    assert!(!tray.permission_hidden);
}

#[test]
fn the_menu_has_its_items() {
    let mut tray = TrayTarget::new(&Config { keep_alive_enabled: false, ..Config::default() });
    let items: Vec<(String, MenuAction, String, bool, bool)> = tray
        .menu()
        .into_iter()
        .map(|item| (item.title, item.action, item.key, item.checked, item.hidden))
        .collect();
    let expected = [
        ("\u{26a0}\u{fe0f} Accessibility permission missing", MenuAction::Nothing, "", false, false),
        ("Open System Settings\u{2026}", MenuAction::OpenAccessibilitySettings, "", false, false),
        ("", MenuAction::Separator, "", false, false),
        ("Auto-Quit", MenuAction::ToggleEnabled, "", true, false),
        ("Keep Running", MenuAction::ToggleKeepAlive, "", false, false),
        ("Recently Quit", MenuAction::RecentlyQuit, "", false, false),
        ("Settings\u{2026}", MenuAction::OpenSettings, ",", false, false),
        ("", MenuAction::Separator, "", false, false),
        ("Quit RustQuit", MenuAction::Quit, "q", false, false),
    ];
    assert_eq!(items.len(), expected.len());
    for (item, (title, action, key, checked, hidden)) in items.iter().zip(expected) {
        assert_eq!(*item, (title.to_string(), action, key.to_string(), checked, hidden));
    }
    tray.set_permission_ok(true);
    let hidden: Vec<bool> = tray.menu().iter().map(|item| item.hidden).collect();
    assert_eq!(hidden, vec![true, true, true, false, false, false, false, false, false]);
}

#[test]
fn toggles_are_stored_and_shown() {
    let mut store = ConfigStore { data: Config::default() };
    let mut tray = TrayTarget::new(&store.data);
    assert!(tray.on_toggle_enabled(&mut store, saves).is_ok());
    assert!(!store.data.enabled && !tray.enabled && tray.dimmed);
    assert!(tray.on_toggle_enabled(&mut store, fails).is_err());
    assert!(!store.data.enabled && !tray.enabled);
    assert!(tray.on_toggle_keep_alive(&mut store, saves).is_ok());
    assert!(!store.data.keep_alive_enabled && !tray.keep_alive);
}

fn entry(bundle_id: &str, name: &str) -> RecentQuit {
    RecentQuit {
        bundle_id: bundle_id.into(),
        name: name.into(),
        when: Instant::now(),
        reason: RecentReason::AutoQuit,
    }
}

#[test]
fn recent_apps_can_be_reopened_and_ignored() {
    let mut store = ConfigStore {
        data: Config { keep_alive_apps: vec!["k.k".into(), "i.i".into()], ..Config::default() },
    };
    store.set_keep_alive_ignored_until("i.i", Some(7300), saves).unwrap();
    let entries = vec![entry("q.q", "Quit"), entry("K.K", "Kept"), entry("i.i", "Ignored")];
    let second: u128 = 1_000_000_000;
    let ages = vec![second, 300 * second, 7200 * second];
    let items = recent_menu(&entries, &ages, &store.data, 100);
    assert_eq!(items.len(), 5);
    let RecentItem::Reopen { title, bundle_id } = &items[0] else { panic!("{:?}", items[0]) };
    assert_eq!((title.as_str(), bundle_id.as_str()), ("Quit \u{2014} just now", "q.q"));
    let RecentItem::Reopen { title, .. } = &items[1] else { panic!("{:?}", items[1]) };
    assert_eq!(title, "Kept \u{2014} 5m ago");
    let RecentItem::Reopen { title, .. } = &items[3] else { panic!("{:?}", items[3]) };
    assert_eq!(title, "Ignored \u{2014} 2h ago");
    let RecentItem::KeepOptions { title, label, action, bundle_id } = &items[2] else { panic!("{:?}", items[2]) };
    assert_eq!(title, "Keep Options \u{2014} Kept");
    assert_eq!(label, "Ignore Keep for 24 Hours");
    assert_eq!(*action, KeepAction::Ignore);
    assert_eq!(bundle_id, "K.K");
    let RecentItem::KeepOptions { label, action, .. } = &items[4] else { panic!("{:?}", items[4]) };
    assert_eq!(label, "Resume Keep Now (2h remaining)");
    assert_eq!(*action, KeepAction::Resume);

    let empty = recent_menu(&vec![], &vec![], &store.data, 0);
    assert!(matches!(&empty[..], [RecentItem::Empty { title }] if title == "No apps quit yet"));
}

#[test]
fn the_recent_menu_is_rebuilt_from_the_recent_apps() {
    let mut recents = RecentQuits::default();
    recents.push(
        "a.a".into(),
        "A".into(),
        Instant::now() - Duration::from_secs(301),
        RecentReason::AutoQuit,
    );
    recents.push(
        "b.b".into(),
        "B".into(),
        Instant::now() - Duration::from_secs(3601),
        RecentReason::AutoQuit,
    );
    let items = rebuild_recent_menu(&recents, &Config::default(), 0);
    let titles: Vec<&str> = items
        .iter()
        .map(|item| match item {
            RecentItem::Reopen { title, .. } => title.as_str(),
            other => panic!("{other:?}"),
        })
        .collect();
    assert_eq!(titles, vec!["B \u{2014} 1h ago", "A \u{2014} 5m ago"]);
}
